//! From the annotated trait to a validated service.
//!
//! A service trait is not generic and holds only methods. Every method is
//! `async`, is not generic, has no default body, takes `&self` and then plainly
//! named arguments, and returns `Result<T, PatinaError>`. The first rule that
//! is broken is reported, at the source it is broken by.

use crate::macros::syntax::{
    FnArg, GenericArgument, Ident, ItemSyntax, MethodSyntax, Pat, PatType, PathArguments,
    ReturnType, Signature, Supertraits, TraitSyntax, Type, TypeArgument, TypePath,
};
use vstd::prelude::*;

verus! {

/// A validated service trait, ready for code generation.
pub struct ServiceTrait<'a, S> {
    pub vis: &'a S,
    pub attrs: &'a Vec<S>,
    pub supertraits: &'a Supertraits<S>,
    pub ident: &'a Ident<S>,
    pub methods: Vec<Method<'a, S>>,
}

/// A single method of a service.
pub struct Method<'a, S> {
    pub ident: &'a Ident<S>,
    pub args: Vec<MethodArg<'a, S>>,
    /// The `T` in `Result<T, PatinaError>`.
    pub ok_type: &'a S,
}

/// An argument of a method behind `&self`.
pub struct MethodArg<'a, S> {
    pub name: &'a Ident<S>,
    pub ty: &'a S,
}

/// A rule that the annotated item breaks, with the source to underline.
pub struct SyntaxError<'a, S> {
    pub at: &'a S,
    pub message: &'static str,
}

/// What a [`SyntaxError`] says.
pub struct Fault<S> {
    pub at: S,
    pub message: Seq<char>,
}

impl<'a, S> View for SyntaxError<'a, S> {
    type V = Fault<S>;

    open spec fn view(&self) -> Fault<S> {
        Fault { at: *self.at, message: self.message@ }
    }
}

// ---------------------------------------------------------------------------
// The rules
// ---------------------------------------------------------------------------

/// The first of `faults` that is one.
pub open spec fn first_fault<S>(faults: Seq<Option<Fault<S>>>) -> Option<Fault<S>>
    decreases faults.len(),
{
    if faults.len() == 0 {
        None
    } else if faults[0] is Some {
        faults[0]
    } else {
        first_fault(faults.drop_first())
    }
}

/// Whether `ty` is a path whose last name is `PatinaError`.
pub open spec fn is_patina_error<S>(ty: TypeArgument<S>) -> bool {
    ty.path is Some && ty.path->0@.len() > 0 && ty.path->0@.last()@ == "PatinaError"@
}

/// What a wrong return type is answered, at the source `at`.
pub open spec fn return_fault_at<S>(at: S) -> Option<Fault<S>> {
    Some(Fault { at, message: "service methods must return `Result<T, PatinaError>`"@ })
}

/// What is wrong with a return type: it has to be a path whose last segment is
/// `Result` with exactly two arguments, both of them types and the second a
/// `PatinaError`.
pub open spec fn return_fault<S>(output: ReturnType<S>) -> Option<Fault<S>> {
    match output {
        ReturnType::Default(tokens) => return_fault_at(tokens),
        ReturnType::Type(Type::Other(tokens)) => return_fault_at(tokens),
        ReturnType::Type(Type::Path(path)) => {
            let last = path.segments@.last();
            if path.segments@.len() == 0 {
                return_fault_at(path.tokens)
            } else if last.ident.text@ != "Result"@ {
                return_fault_at(last.ident.tokens)
            } else {
                match last.arguments {
                    PathArguments::Other => return_fault_at(last.tokens),
                    PathArguments::AngleBracketed(generics) => {
                        let args = generics.args@;
                        if args.len() != 2 || !(args[0] is Type) || !(args[1] is Type) {
                            return_fault_at(generics.tokens)
                        } else if !is_patina_error(args[1]->Type_0) {
                            return_fault_at(args[1]->Type_0.tokens)
                        } else {
                            None
                        }
                    },
                }
            }
        },
    }
}

/// The `T` of a return type without a fault.
pub open spec fn ok_type<S>(output: ReturnType<S>) -> S {
    output->Type_0->Path_0.segments@.last().arguments->AngleBracketed_0.args@[0]->Type_0.tokens
}

/// What is wrong with the receiver: `&self` has to come first.
pub open spec fn receiver_fault<S>(sig: Signature<S>) -> Option<Fault<S>> {
    if sig.inputs@.len() > 0 && sig.inputs@[0] is Receiver {
        let receiver = sig.inputs@[0]->Receiver_0;
        if receiver.reference && !receiver.mutability {
            None
        } else {
            Some(
                Fault {
                    at: receiver.tokens,
                    message: "service methods must take `&self` (not `&mut self` or `self`)"@,
                },
            )
        }
    } else {
        Some(
            Fault {
                at: sig.tokens,
                message: "service methods must take `&self` as the first argument"@,
            },
        )
    }
}

/// What is wrong with an argument behind the receiver: it has to be a plain
/// name with a type.
pub open spec fn arg_fault<S>(arg: FnArg<S>) -> Option<Fault<S>> {
    match arg {
        FnArg::Typed(PatType { pat: Pat::Ident(_), .. }) => None,
        FnArg::Typed(PatType { pat: Pat::Other(tokens), .. }) => Some(
            Fault {
                at: tokens,
                message: "service method arguments must be simple identifiers"@,
            },
        ),
        FnArg::Receiver(receiver) => Some(
            Fault { at: receiver.tokens, message: "unexpected `self` after the first argument"@ },
        ),
    }
}

/// What is wrong with the arguments behind the receiver.
pub open spec fn args_fault<S>(inputs: Seq<FnArg<S>>) -> Option<Fault<S>> {
    first_fault(inputs.skip(1).map_values(|arg: FnArg<S>| arg_fault(arg)))
}

/// What is wrong with a method.
pub open spec fn method_fault<S>(method: MethodSyntax<S>) -> Option<Fault<S>> {
    let sig = method.sig;
    if !sig.asyncness {
        Some(Fault { at: sig.fn_token, message: "service methods must be `async`"@ })
    } else if method.default {
        Some(Fault { at: method.tokens, message: "service methods cannot have a default body"@ })
    } else if sig.generics.params > 0 {
        Some(Fault { at: sig.generics.tokens, message: "service methods cannot be generic"@ })
    } else if receiver_fault(sig) is Some {
        receiver_fault(sig)
    } else if args_fault(sig.inputs@) is Some {
        args_fault(sig.inputs@)
    } else {
        return_fault(sig.output)
    }
}

/// What is wrong with an item of the trait.
pub open spec fn item_fault<S>(item: ItemSyntax<S>) -> Option<Fault<S>> {
    match item {
        ItemSyntax::Fn(method) => method_fault(method),
        ItemSyntax::Other(tokens) => Some(
            Fault { at: tokens, message: "#[patina::service] traits may only contain methods"@ },
        ),
    }
}

/// What is wrong with the annotated item, given as the trait it is or as the
/// source at which it turned out to be none.
pub open spec fn service_fault<S>(input: Result<TraitSyntax<S>, S>) -> Option<Fault<S>> {
    match input {
        Err(at) => Some(
            Fault { at, message: "#[patina::service] may only be applied to a trait"@ },
        ),
        Ok(item) => if item.generics.params > 0 {
            Some(
                Fault {
                    at: item.generics.tokens,
                    message: "#[patina::service] traits cannot be generic"@,
                },
            )
        } else {
            first_fault(item.items@.map_values(|item: ItemSyntax<S>| item_fault(item)))
        },
    }
}

// ---------------------------------------------------------------------------
// What is read
// ---------------------------------------------------------------------------

impl<'a, S> MethodArg<'a, S> {
    /// Whether this is the name and the type of `arg`.
    pub open spec fn reads(self, arg: FnArg<S>) -> bool {
        &&& arg is Typed
        &&& arg->Typed_0.pat is Ident
        &&& *self.name == arg->Typed_0.pat->Ident_0
        &&& *self.ty == arg->Typed_0.ty
    }
}

impl<'a, S> Method<'a, S> {
    /// Whether this is the name, the arguments in order and the result type of
    /// `method`.
    pub open spec fn reads(self, method: MethodSyntax<S>) -> bool {
        &&& *self.ident == method.sig.ident
        &&& self.args@.len() + 1 == method.sig.inputs@.len()
        &&& forall|i: int|
            0 <= i < self.args@.len() ==> (#[trigger] self.args@[i]).reads(
                method.sig.inputs@[i + 1],
            )
        &&& *self.ok_type == ok_type(method.sig.output)
    }
}

impl<'a, S> ServiceTrait<'a, S> {
    /// Whether this is the visibility, the attributes, the bounds, the name and
    /// the methods, in order, of `item`.
    pub open spec fn reads(self, item: TraitSyntax<S>) -> bool {
        &&& *self.vis == item.vis
        &&& *self.attrs == item.attrs
        &&& *self.supertraits == item.supertraits
        &&& *self.ident == item.ident
        &&& self.methods@.len() == item.items@.len()
        &&& forall|i: int| 0 <= i < item.items@.len() ==> (#[trigger] item.items@[i]) is Fn
        &&& forall|i: int|
            0 <= i < self.methods@.len() ==> (#[trigger] self.methods@[i]).reads(
                item.items@[i]->Fn_0,
            )
    }
}

// ---------------------------------------------------------------------------
// Reading a return type
// ---------------------------------------------------------------------------

/// Whether `ident` is called `name`.
fn is_called<S>(ident: &Ident<S>, name: &str) -> (r: bool)
    ensures
        r == (ident.text@ == name@),
{
    ident.text == name.to_owned()
}

/// The fault of a wrong return type.
fn wrong_return<'a, S>(at: &'a S) -> (error: SyntaxError<'a, S>)
    ensures
        return_fault_at(*at) == Some(error@),
{
    SyntaxError { at, message: "service methods must return `Result<T, PatinaError>`" }
}

/// Extracts the `T` of a return type `Result<T, PatinaError>` and refuses any
/// other return type.
pub fn parse_result_ok<S>(output: &ReturnType<S>) -> (r: Result<&S, SyntaxError<'_, S>>)
    ensures
        match r {
            Ok(ty) => return_fault(*output) is None && *ty == ok_type(*output),
            Err(e) => return_fault(*output) == Some(e@),
        },
{
    let ty = match output {
        ReturnType::Type(ty) => ty,
        ReturnType::Default(tokens) => {
            return Err(wrong_return(tokens));
        },
    };
    let path = match ty {
        Type::Path(path) => path,
        Type::Other(tokens) => {
            return Err(wrong_return(tokens));
        },
    };
    if path.segments.len() == 0 {
        return Err(wrong_return(&path.tokens));
    }
    let last = &path.segments[path.segments.len() - 1];
    if !is_called(&last.ident, "Result") {
        return Err(wrong_return(&last.ident.tokens));
    }
    let generics = match &last.arguments {
        PathArguments::AngleBracketed(generics) => generics,
        PathArguments::Other => {
            return Err(wrong_return(&last.tokens));
        },
    };
    if generics.args.len() != 2 {
        return Err(wrong_return(&generics.tokens));
    }
    match (&generics.args[0], &generics.args[1]) {
        (GenericArgument::Type(ok), GenericArgument::Type(error)) => {
            let error_is_ours = match &error.path {
                Some(names) => names.len() > 0 && names[names.len() - 1]
                    == "PatinaError".to_owned(),
                None => false,
            };
            if error_is_ours {
                Ok(&ok.tokens)
            } else {
                Err(wrong_return(&error.tokens))
            }
        },
        _ => Err(wrong_return(&generics.tokens)),
    }
}

// ---------------------------------------------------------------------------
// Reading methods and traits
// ---------------------------------------------------------------------------

/// If the first `n` of `faults` are none, the first fault is that of the rest.
proof fn lemma_first_fault_skip<S>(faults: Seq<Option<Fault<S>>>, n: int)
    requires
        0 <= n <= faults.len(),
        forall|i: int| 0 <= i < n ==> faults[i] is None,
    ensures
        first_fault(faults) == first_fault(faults.skip(n)),
    decreases n,
{
    if n == 0 {
        assert(faults.skip(0) =~= faults);
    } else {
        lemma_first_fault_skip(faults.drop_first(), n - 1);
        assert(faults.drop_first().skip(n - 1) =~= faults.skip(n));
    }
}

/// The name and the type of an argument behind the receiver.
fn parse_arg<S>(arg: &FnArg<S>) -> (r: Result<MethodArg<'_, S>, SyntaxError<'_, S>>)
    ensures
        match r {
            Ok(read) => arg_fault(*arg) is None && read.reads(*arg),
            Err(e) => arg_fault(*arg) == Some(e@),
        },
{
    match arg {
        FnArg::Typed(pat_type) => match &pat_type.pat {
            Pat::Ident(name) => Ok(MethodArg { name, ty: &pat_type.ty }),
            Pat::Other(tokens) => Err(
                SyntaxError {
                    at: tokens,
                    message: "service method arguments must be simple identifiers",
                },
            ),
        },
        FnArg::Receiver(receiver) => Err(
            SyntaxError {
                at: &receiver.tokens,
                message: "unexpected `self` after the first argument",
            },
        ),
    }
}

impl<'a, S> Method<'a, S> {
    /// Checks one method and extracts what code generation needs.
    pub fn parse(method: &'a MethodSyntax<S>) -> (r: Result<Self, SyntaxError<'a, S>>)
        ensures
            match r {
                Ok(read) => method_fault(*method) is None && read.reads(*method),
                Err(e) => method_fault(*method) == Some(e@),
            },
    {
        let sig = &method.sig;
        if !sig.asyncness {
            return Err(
                SyntaxError { at: &sig.fn_token, message: "service methods must be `async`" },
            );
        }
        if method.default {
            return Err(
                SyntaxError {
                    at: &method.tokens,
                    message: "service methods cannot have a default body",
                },
            );
        }
        if sig.generics.params > 0 {
            return Err(
                SyntaxError {
                    at: &sig.generics.tokens,
                    message: "service methods cannot be generic",
                },
            );
        }
        let inputs = &sig.inputs;
        if inputs.len() == 0 {
            return Err(
                SyntaxError {
                    at: &sig.tokens,
                    message: "service methods must take `&self` as the first argument",
                },
            );
        }
        match &inputs[0] {
            FnArg::Receiver(receiver) => {
                if !receiver.reference || receiver.mutability {
                    return Err(
                        SyntaxError {
                            at: &receiver.tokens,
                            message: "service methods must take `&self` (not `&mut self` or `self`)",
                        },
                    );
                }
            },
            FnArg::Typed(_) => {
                return Err(
                    SyntaxError {
                        at: &sig.tokens,
                        message: "service methods must take `&self` as the first argument",
                    },
                );
            },
        }
        let ghost faults = inputs@.skip(1).map_values(|arg: FnArg<S>| arg_fault(arg));
        let mut args: Vec<MethodArg<'a, S>> = Vec::new();
        let mut i: usize = 1;
        while i < inputs.len()
            invariant
                1 <= i <= inputs@.len(),
                faults == inputs@.skip(1).map_values(|arg: FnArg<S>| arg_fault(arg)),
                args@.len() + 1 == i,
                forall|j: int|
                    0 <= j < args@.len() ==> (#[trigger] args@[j]).reads(inputs@[j + 1]),
                forall|j: int| 0 <= j < i - 1 ==> faults[j] is None,
                *inputs == method.sig.inputs,
                receiver_fault(method.sig) is None,
                method.sig.asyncness,
                !method.default,
                method.sig.generics.params == 0,
            decreases inputs@.len() - i,
        {
            assert(faults[i - 1] == arg_fault(inputs@[i as int]));
            match parse_arg(&inputs[i]) {
                Ok(arg) => args.push(arg),
                Err(e) => {
                    proof {
                        lemma_first_fault_skip(faults, i - 1);
                    }
                    return Err(e);
                },
            }
            i = i + 1;
        }
        proof {
            lemma_first_fault_skip(faults, faults.len() as int);
        }
        match parse_result_ok(&sig.output) {
            Ok(ok_type) => Ok(Method { ident: &sig.ident, args, ok_type }),
            Err(e) => Err(e),
        }
    }
}

impl<'a, S> ServiceTrait<'a, S> {
    /// Checks the annotated item and extracts what code generation needs.
    /// `input` is the trait, or the source at which the item turned out to be
    /// none.
    pub fn parse(input: &'a Result<TraitSyntax<S>, S>) -> (r: Result<Self, SyntaxError<'a, S>>)
        ensures
            match r {
                Ok(service) => {
                    &&& service_fault(*input) is None
                    &&& service.reads(input->Ok_0)
                },
                Err(e) => service_fault(*input) == Some(e@),
            },
    {
        let item = match input {
            Ok(item) => item,
            Err(at) => {
                return Err(
                    SyntaxError {
                        at,
                        message: "#[patina::service] may only be applied to a trait",
                    },
                );
            },
        };
        if item.generics.params > 0 {
            return Err(
                SyntaxError {
                    at: &item.generics.tokens,
                    message: "#[patina::service] traits cannot be generic",
                },
            );
        }
        let items = &item.items;
        let ghost faults = items@.map_values(|item: ItemSyntax<S>| item_fault(item));
        let mut methods: Vec<Method<'a, S>> = Vec::new();
        let mut i: usize = 0;
        while i < items.len()
            invariant
                i <= items@.len(),
                input is Ok,
                item == input->Ok_0,
                *items == item.items,
                item.generics.params == 0,
                faults == items@.map_values(|item: ItemSyntax<S>| item_fault(item)),
                methods@.len() == i,
                forall|j: int| 0 <= j < i ==> (#[trigger] items@[j]) is Fn,
                forall|j: int|
                    0 <= j < i ==> (#[trigger] methods@[j]).reads(items@[j]->Fn_0),
                forall|j: int| 0 <= j < i ==> faults[j] is None,
            decreases items@.len() - i,
        {
            assert(faults[i as int] == item_fault(items@[i as int]));
            match &items[i] {
                ItemSyntax::Fn(method) => match Method::parse(method) {
                    Ok(read) => {
                        methods.push(read);
                    },
                    Err(e) => {
                        proof {
                            lemma_first_fault_skip(faults, i as int);
                        }
                        return Err(e);
                    },
                },
                ItemSyntax::Other(tokens) => {
                    proof {
                        lemma_first_fault_skip(faults, i as int);
                    }
                    return Err(
                        SyntaxError {
                            at: tokens,
                            message: "#[patina::service] traits may only contain methods",
                        },
                    );
                },
            }
            i = i + 1;
        }
        proof {
            lemma_first_fault_skip(faults, faults.len() as int);
        }
        Ok(
            ServiceTrait {
                vis: &item.vis,
                attrs: &item.attrs,
                supertraits: &item.supertraits,
                ident: &item.ident,
                methods,
            },
        )
    }
}

// ---------------------------------------------------------------------------
// Laws
// ---------------------------------------------------------------------------

/// Whether a return type is `Result<ok, error>`, under any path, with an error
/// type called `PatinaError`.
pub open spec fn returns_result<S>(
    output: ReturnType<S>,
    ok: TypeArgument<S>,
    error: TypeArgument<S>,
) -> bool {
    &&& output is Type
    &&& output->Type_0 is Path
    &&& output->Type_0->Path_0.segments@.len() > 0
    &&& ({
        let last = output->Type_0->Path_0.segments@.last();
        &&& last.ident.text@ == "Result"@
        &&& last.arguments is AngleBracketed
        &&& last.arguments->AngleBracketed_0.args@ == seq![
            GenericArgument::Type(ok),
            GenericArgument::Type(error),
        ]
    })
    &&& error.path is Some
    &&& error.path->0@.len() > 0
    &&& error.path->0@.last()@ == "PatinaError"@
}

/// What makes a method a service method: `async`, no default body, no generic
/// parameters, `&self` and then plain names, and a `Result<T, PatinaError>`.
pub open spec fn is_service_method<S>(method: MethodSyntax<S>) -> bool {
    let inputs = method.sig.inputs@;
    &&& method.sig.asyncness
    &&& !method.default
    &&& method.sig.generics.params == 0
    &&& inputs.len() > 0
    &&& inputs[0] is Receiver
    &&& inputs[0]->Receiver_0.reference
    &&& !inputs[0]->Receiver_0.mutability
    &&& forall|i: int|
        1 <= i < inputs.len() ==> (#[trigger] inputs[i]) is Typed && inputs[i]->Typed_0.pat is Ident
    &&& exists|ok: TypeArgument<S>, error: TypeArgument<S>|
        returns_result(method.sig.output, ok, error)
}

/// A fault is reported exactly if there is one, and it is the first.
pub proof fn law_first_fault_is_first<S>(faults: Seq<Option<Fault<S>>>)
    ensures
        match first_fault(faults) {
            None => forall|i: int| 0 <= i < faults.len() ==> (#[trigger] faults[i]) is None,
            Some(fault) => exists|i: int|
                0 <= i < faults.len() && (#[trigger] faults[i]) == Some(fault) && (forall|j: int|
                    0 <= j < i ==> (#[trigger] faults[j]) is None),
        },
    decreases faults.len(),
{
    if faults.len() > 0 && faults[0] is None {
        let rest = faults.drop_first();
        law_first_fault_is_first(rest);
        match first_fault(rest) {
            None => {
                assert forall|i: int| 0 <= i < faults.len() implies (#[trigger] faults[i])
                    is None by {
                    if i > 0 {
                        assert(rest[i - 1] is None);
                    }
                }
            },
            Some(fault) => {
                let i = choose|i: int|
                    0 <= i < rest.len() && (#[trigger] rest[i]) == Some(fault) && (forall|j: int|
                        0 <= j < i ==> (#[trigger] rest[j]) is None);
                assert(faults[i + 1] == Some(fault));
                assert forall|j: int| 0 <= j < i + 1 implies (#[trigger] faults[j]) is None by {
                    if j > 0 {
                        assert(rest[j - 1] is None);
                    }
                }
            },
        }
    }
}

/// Exactly the return types `Result<T, PatinaError>` are accepted, and `T` is
/// what is extracted.
pub proof fn law_accepted_return_types<S>(output: ReturnType<S>)
    ensures
        return_fault(output) is None <==> exists|ok: TypeArgument<S>, error: TypeArgument<S>|
            returns_result(output, ok, error),
        forall|ok: TypeArgument<S>, error: TypeArgument<S>|
            returns_result(output, ok, error) ==> ok_type(output) == ok.tokens,
{
    if return_fault(output) is None {
        let args = output->Type_0->Path_0.segments@.last().arguments->AngleBracketed_0.args@;
        let ok = args[0]->Type_0;
        let error = args[1]->Type_0;
        assert(args =~= seq![GenericArgument::Type(ok), GenericArgument::Type(error)]);
        assert(returns_result(output, ok, error));
    }
}

/// Of a return type that is a path only the last segment counts: whatever stands
/// before it, the fault and the value type are the same.
pub proof fn law_leading_segments_do_not_matter<S>(a: TypePath<S>, b: TypePath<S>)
    requires
        a.segments@.len() > 0,
        b.segments@.len() > 0,
        a.segments@.last() == b.segments@.last(),
    ensures
        return_fault(ReturnType::Type(Type::Path(a))) == return_fault(
            ReturnType::Type(Type::Path(b)),
        ),
        ok_type(ReturnType::Type(Type::Path(a))) == ok_type(ReturnType::Type(Type::Path(b))),
{
}

/// Of the path of an error type only the last name counts.
pub proof fn law_leading_names_do_not_matter<S>(a: TypeArgument<S>, b: TypeArgument<S>)
    requires
        a.path is Some,
        b.path is Some,
        a.path->0@.len() > 0,
        b.path->0@.len() > 0,
        a.path->0@.last()@ == b.path->0@.last()@,
    ensures
        is_patina_error(a) == is_patina_error(b),
{
}

/// Exactly the service methods are accepted.
pub proof fn law_accepted_methods<S>(method: MethodSyntax<S>)
    ensures
        method_fault(method) is None <==> is_service_method(method),
{
    let inputs = method.sig.inputs@;
    let faults = inputs.skip(1).map_values(|arg: FnArg<S>| arg_fault(arg));
    law_accepted_return_types(method.sig.output);
    law_first_fault_is_first(faults);
    if inputs.len() > 0 {
        if args_fault(inputs) is None {
            assert forall|i: int| 1 <= i < inputs.len() implies (#[trigger] inputs[i]) is Typed
                && inputs[i]->Typed_0.pat is Ident by {
                assert(faults[i - 1] == arg_fault(inputs[i]));
            }
        }
        if is_service_method(method) {
            assert forall|i: int| 0 <= i < faults.len() implies (#[trigger] faults[i]) is None by {
                assert(faults[i] == arg_fault(inputs[i + 1]));
            }
        }
    }
}

/// Exactly the traits that are not generic and hold nothing but service methods
/// are accepted.
pub proof fn law_accepted_traits<S>(item: TraitSyntax<S>)
    ensures
        service_fault::<S>(Ok(item)) is None <==> item.generics.params == 0 && (forall|i: int|
            0 <= i < item.items@.len() ==> (#[trigger] item.items@[i]) is Fn && is_service_method(
                item.items@[i]->Fn_0,
            )),
{
    let items = item.items@;
    let faults = items.map_values(|item: ItemSyntax<S>| item_fault(item));
    law_first_fault_is_first(faults);
    if service_fault::<S>(Ok(item)) is None {
        assert forall|i: int| 0 <= i < items.len() implies (#[trigger] items[i]) is Fn
            && is_service_method(items[i]->Fn_0) by {
            assert(faults[i] == item_fault(items[i]));
            law_accepted_methods(items[i]->Fn_0);
        }
    } else if item.generics.params == 0 {
        let i = choose|i: int|
            0 <= i < faults.len() && (#[trigger] faults[i]) == service_fault::<S>(Ok(item)) && (
            forall|j: int| 0 <= j < i ==> (#[trigger] faults[j]) is None);
        assert(faults[i] == item_fault(items[i]));
        law_accepted_methods(items[i]->Fn_0);
    }
}

/// A return type is accepted exactly if it is a path that ends in `Result` with
/// two arguments, both types, the second a path that ends in `PatinaError`. The
/// value type is the first argument.
pub proof fn law_error_type_is_called_patina_error<S>(output: ReturnType<S>)
    ensures
        return_fault(output) is None <==> {
            &&& output is Type
            &&& output->Type_0 is Path
            &&& output->Type_0->Path_0.segments@.len() > 0
            &&& ({
                let last = output->Type_0->Path_0.segments@.last();
                let args = last.arguments->AngleBracketed_0.args@;
                &&& last.ident.text@ == "Result"@
                &&& last.arguments is AngleBracketed
                &&& args.len() == 2
                &&& args[0] is Type
                &&& args[1] is Type
                &&& args[1]->Type_0.path is Some
                &&& args[1]->Type_0.path->0@.len() > 0
                &&& args[1]->Type_0.path->0@.last()@ == "PatinaError"@
            })
        },
        return_fault(output) is None ==> ok_type(output) == ({
            let last = output->Type_0->Path_0.segments@.last();
            last.arguments->AngleBracketed_0.args@[0]->Type_0.tokens
        }),
{
}

/// A wrong return type is answered with one message, at the smallest part of it
/// that is wrong: the type as a whole if it is no path, the last name if it is not
/// `Result`, the last segment if it has no arguments, the arguments if they are
/// not two types, and else the error type.
pub proof fn law_wrong_return_type_is_underlined<S>(output: ReturnType<S>)
    requires
        return_fault(output) is Some,
    ensures
        return_fault(output)->0.message == "service methods must return `Result<T, PatinaError>`"@,
        output is Default ==> return_fault(output)->0.at == output->Default_0,
        output is Type && output->Type_0 is Other ==> return_fault(output)->0.at
            == output->Type_0->Other_0,
        output is Type && output->Type_0 is Path ==> ({
            let path = output->Type_0->Path_0;
            let last = path.segments@.last();
            let at = return_fault(output)->0.at;
            let list = last.arguments->AngleBracketed_0;
            if path.segments@.len() == 0 {
                at == path.tokens
            } else if last.ident.text@ != "Result"@ {
                at == last.ident.tokens
            } else if !(last.arguments is AngleBracketed) {
                at == last.tokens
            } else if list.args@.len() == 2 && list.args@[0] is Type && list.args@[1] is Type {
                at == list.args@[1]->Type_0.tokens
            } else {
                at == list.tokens
            }
        }),
{
}

/// Exactly `&self` is accepted in front. Another form of `self` is underlined
/// itself, and if there is none in front, the whole signature is.
pub proof fn law_receiver_has_to_be_a_plain_reference<S>(sig: Signature<S>)
    ensures
        receiver_fault(sig) is None <==> {
            &&& sig.inputs@.len() > 0
            &&& sig.inputs@[0] is Receiver
            &&& sig.inputs@[0]->Receiver_0.reference
            &&& !sig.inputs@[0]->Receiver_0.mutability
        },
        receiver_fault(sig) matches Some(fault) ==> {
            if sig.inputs@.len() > 0 && sig.inputs@[0] is Receiver {
                &&& fault.at == sig.inputs@[0]->Receiver_0.tokens
                &&& fault.message
                    == "service methods must take `&self` (not `&mut self` or `self`)"@
            } else {
                &&& fault.at == sig.tokens
                &&& fault.message == "service methods must take `&self` as the first argument"@
            }
        },
{
}

/// Behind `&self` exactly plainly named arguments are accepted. Another pattern, or
/// a further `self`, is underlined.
pub proof fn law_arguments_have_to_be_plain_names<S>(arg: FnArg<S>)
    ensures
        arg_fault(arg) is None <==> arg is Typed && arg->Typed_0.pat is Ident,
        arg is Typed && arg->Typed_0.pat is Other ==> arg_fault(arg) == Some(
            Fault {
                at: arg->Typed_0.pat->Other_0,
                message: "service method arguments must be simple identifiers"@,
            },
        ),
        arg is Receiver ==> arg_fault(arg) == Some(
            Fault {
                at: arg->Receiver_0.tokens,
                message: "unexpected `self` after the first argument"@,
            },
        ),
{
}

/// Every argument behind the first is checked, and the first that is wrong is
/// reported.
pub proof fn law_first_wrong_argument_is_reported<S>(inputs: Seq<FnArg<S>>)
    requires
        inputs.len() > 0,
    ensures
        match args_fault(inputs) {
            None => forall|i: int|
                1 <= i < inputs.len() ==> arg_fault(#[trigger] inputs[i]) is None,
            Some(fault) => exists|i: int|
                1 <= i < inputs.len() && arg_fault(#[trigger] inputs[i]) == Some(fault) && (
                forall|j: int| 1 <= j < i ==> arg_fault(#[trigger] inputs[j]) is None),
        },
{
    let faults = inputs.skip(1).map_values(|arg: FnArg<S>| arg_fault(arg));
    law_first_fault_is_first(faults);
    match args_fault(inputs) {
        None => {
            assert forall|i: int| 1 <= i < inputs.len() implies arg_fault(#[trigger] inputs[i])
                is None by {
                assert(faults[i - 1] == arg_fault(inputs[i]));
            }
        },
        Some(fault) => {
            let k = choose|k: int|
                0 <= k < faults.len() && (#[trigger] faults[k]) == Some(fault) && (forall|j: int|
                    0 <= j < k ==> (#[trigger] faults[j]) is None);
            assert(faults[k] == arg_fault(inputs[k + 1]));
            assert forall|j: int| 1 <= j < k + 1 implies arg_fault(#[trigger] inputs[j])
                is None by {
                assert(faults[j - 1] == arg_fault(inputs[j]));
            }
        },
    }
}

/// A method is checked from left to right: `async`, the body, generic parameters,
/// the receiver, the arguments, the return type. What comes first is reported,
/// whatever else is wrong.
pub proof fn law_method_is_checked_in_order<S>(method: MethodSyntax<S>)
    ensures
        !method.sig.asyncness ==> method_fault(method) == Some(
            Fault { at: method.sig.fn_token, message: "service methods must be `async`"@ },
        ),
        method.sig.asyncness && method.default ==> method_fault(method) == Some(
            Fault { at: method.tokens, message: "service methods cannot have a default body"@ },
        ),
        method.sig.asyncness && !method.default && method.sig.generics.params != 0
            ==> method_fault(method) == Some(
            Fault {
                at: method.sig.generics.tokens,
                message: "service methods cannot be generic"@,
            },
        ),
        method.sig.asyncness && !method.default && method.sig.generics.params == 0 ==> {
            &&& receiver_fault(method.sig) is Some ==> method_fault(method) == receiver_fault(
                method.sig,
            )
            &&& receiver_fault(method.sig) is None && args_fault(method.sig.inputs@) is Some
                ==> method_fault(method) == args_fault(method.sig.inputs@)
            &&& receiver_fault(method.sig) is None && args_fault(method.sig.inputs@) is None
                ==> method_fault(method) == return_fault(method.sig.output)
        },
{
}

/// What is annotated has to be a trait, then not generic, and then every item of
/// it a method without a fault. What comes first is reported, whatever else is
/// wrong.
pub proof fn law_trait_is_checked_in_order<S>(item: TraitSyntax<S>, at: S)
    ensures
        service_fault(Err::<TraitSyntax<S>, S>(at)) == Some(
            Fault { at, message: "#[patina::service] may only be applied to a trait"@ },
        ),
        item.generics.params != 0 ==> service_fault(Ok::<TraitSyntax<S>, S>(item)) == Some(
            Fault {
                at: item.generics.tokens,
                message: "#[patina::service] traits cannot be generic"@,
            },
        ),
        item.generics.params == 0 ==> match service_fault(Ok::<TraitSyntax<S>, S>(item)) {
            None => forall|i: int|
                0 <= i < item.items@.len() ==> item_fault(#[trigger] item.items@[i]) is None,
            Some(fault) => exists|i: int|
                0 <= i < item.items@.len() && item_fault(#[trigger] item.items@[i]) == Some(fault)
                    && (forall|j: int|
                    0 <= j < i ==> item_fault(#[trigger] item.items@[j]) is None),
        },
{
    let items = item.items@;
    let faults = items.map_values(|item: ItemSyntax<S>| item_fault(item));
    law_first_fault_is_first(faults);
    if item.generics.params == 0 {
        match service_fault(Ok::<TraitSyntax<S>, S>(item)) {
            None => {
                assert forall|i: int| 0 <= i < items.len() implies item_fault(#[trigger] items[i])
                    is None by {
                    assert(faults[i] == item_fault(items[i]));
                }
            },
            Some(fault) => {
                let k = choose|k: int|
                    0 <= k < faults.len() && (#[trigger] faults[k]) == Some(fault) && (
                    forall|j: int| 0 <= j < k ==> (#[trigger] faults[j]) is None);
                assert(faults[k] == item_fault(items[k]));
                assert forall|j: int| 0 <= j < k implies item_fault(#[trigger] items[j])
                    is None by {
                    assert(faults[j] == item_fault(items[j]));
                }
            },
        }
    }
}

/// An item of a trait that is no method is underlined; one that is a method has
/// the fault of the method.
pub proof fn law_items_have_to_be_methods<S>(method: MethodSyntax<S>, other: S)
    ensures
        item_fault(ItemSyntax::Fn(method)) == method_fault(method),
        item_fault(ItemSyntax::Other(other)) == Some(
            Fault { at: other, message: "#[patina::service] traits may only contain methods"@ },
        ),
{
}

/// What is read of a method is its name, its value type, and the name and the type
/// of every argument behind the receiver, in order.
pub proof fn law_method_is_read_in_full<S>(read: Method<'_, S>, method: MethodSyntax<S>, i: int)
    requires
        read.reads(method),
        0 <= i < read.args@.len(),
    ensures
        read.args@.len() == method.sig.inputs@.len() - 1,
        method.sig.inputs@[i + 1] is Typed,
        method.sig.inputs@[i + 1]->Typed_0.pat is Ident,
        *read.args@[i].name == method.sig.inputs@[i + 1]->Typed_0.pat->Ident_0,
        *read.args@[i].ty == method.sig.inputs@[i + 1]->Typed_0.ty,
{
    assert(read.args@[i].reads(method.sig.inputs@[i + 1]));
}

/// What is read of a trait is its visibility, its attributes, its bounds, its name
/// and every method of it, in order, with the name and the value type of each.
pub proof fn law_trait_is_read_in_full<S>(read: ServiceTrait<'_, S>, item: TraitSyntax<S>)
    requires
        read.reads(item),
    ensures
        *read.vis == item.vis,
        *read.attrs == item.attrs,
        *read.supertraits == item.supertraits,
        *read.ident == item.ident,
        read.methods@.len() == item.items@.len(),
        forall|i: int|
            0 <= i < read.methods@.len() ==> {
                &&& item.items@[i] is Fn
                &&& *(#[trigger] read.methods@[i]).ident == item.items@[i]->Fn_0.sig.ident
                &&& read.methods@[i].args@.len() == item.items@[i]->Fn_0.sig.inputs@.len() - 1
                &&& *read.methods@[i].ok_type == ok_type(item.items@[i]->Fn_0.sig.output)
                &&& read.methods@[i].reads(item.items@[i]->Fn_0)
            },
{
    assert forall|i: int| 0 <= i < read.methods@.len() implies {
        &&& item.items@[i] is Fn
        &&& *(#[trigger] read.methods@[i]).ident == item.items@[i]->Fn_0.sig.ident
        &&& read.methods@[i].args@.len() == item.items@[i]->Fn_0.sig.inputs@.len() - 1
        &&& *read.methods@[i].ok_type == ok_type(item.items@[i]->Fn_0.sig.output)
        &&& read.methods@[i].reads(item.items@[i]->Fn_0)
    } by {
        assert(item.items@[i] is Fn);
        assert(read.methods@[i].reads(item.items@[i]->Fn_0));
    }
}

/// What a fault says is where it is and its message.
pub proof fn law_error_shows_place_and_message<S>(error: SyntaxError<'_, S>)
    ensures
        error@.at == *error.at,
        error@.message == error.message@,
{
}

} // verus!
