//! From the compiler's tokens to the syntax that the service attribute reads.
//!
//! `syn` parses the annotated item. Its tree is opaque here: each node is
//! turned, one level at a time, into the plain values and source fragments of
//! [`syntax`](crate::macros::syntax), and the levels are put together.

use crate::macros::model::{item_fault, service_fault, Method, ServiceTrait};
use crate::macros::syntax::{
    FnArg, GenericArgument, GenericArguments, Generics, Ident, ItemSyntax, MethodSyntax, Pat,
    PatType, PathArguments, Receiver, ReturnType, SegmentSyntax, Signature, Supertraits,
    TraitSyntax, Type, TypeArgument, TypePath,
};
use crate::macros::writer::is_one_name;
use proc_macro2::{Span, TokenStream};
use quote::ToTokens;
use vstd::prelude::*;

verus! {

/// `proc_macro2::TokenStream`, a list of the compiler's tokens.
#[verifier::external_type_specification]
#[verifier::external_body]
pub struct ExTokenStream(proc_macro2::TokenStream);

/// `proc_macro2::Span`, a position in the source.
#[verifier::external_type_specification]
#[verifier::external_body]
pub struct ExSpan(proc_macro2::Span);

/// `syn::ItemTrait`, a trait.
#[verifier::external_type_specification]
#[verifier::external_body]
pub struct ExItemTrait(syn::ItemTrait);

/// `syn::TraitItem`, an item of a trait.
#[verifier::external_type_specification]
#[verifier::external_body]
pub struct ExTraitItem(syn::TraitItem);

/// `syn::TraitItemFn`, a method of a trait.
#[verifier::external_type_specification]
#[verifier::external_body]
pub struct ExTraitItemFn(syn::TraitItemFn);

/// `syn::PathSegment`, one step of a path.
#[verifier::external_type_specification]
#[verifier::external_body]
pub struct ExPathSegment(syn::PathSegment);

/// A piece of the annotated source: its tokens, or only its position.
pub enum Fragment {
    Tokens(TokenStream),
    Position(Span),
}

// ---------------------------------------------------------------------------
// syn, one node at a time
// ---------------------------------------------------------------------------

/// A trait without its items.
pub struct TraitHead {
    pub attrs: Vec<Fragment>,
    pub vis: Fragment,
    pub ident: Ident<Fragment>,
    pub generics: Generics<Fragment>,
    pub supertraits: Supertraits<Fragment>,
}

/// A method without its parameters and its return type.
pub struct MethodHead {
    pub tokens: Fragment,
    pub default: bool,
    pub sig: Fragment,
    pub asyncness: bool,
    pub fn_token: Fragment,
    pub ident: Ident<Fragment>,
    pub generics: Generics<Fragment>,
}

/// A return type down to the segments of its path.
pub enum Output {
    Default(Fragment),
    Other(Fragment),
    Path { tokens: Fragment, segments: Vec<syn::PathSegment> },
}

/// The trait that tokens are, or at which of them they turn out to be none.
/// Tokens that turn out to be none at no token in particular, as those that end
/// too early, have no position of their own.
pub uninterp spec fn parsed(item: TokenStream) -> Result<syn::ItemTrait, Option<Span>>;

/// What a trait is without its items.
pub uninterp spec fn head_of(item: syn::ItemTrait) -> TraitHead;

/// The items of a trait, in order.
pub uninterp spec fn items_of(item: syn::ItemTrait) -> Seq<syn::TraitItem>;

/// The method that an item is, or its source if it is none.
pub uninterp spec fn method_of(item: syn::TraitItem) -> Result<syn::TraitItemFn, Fragment>;

/// What a method is without its parameters and its return type.
pub uninterp spec fn method_head_of(method: syn::TraitItemFn) -> MethodHead;

/// The parameters of a method, in order.
pub uninterp spec fn inputs_of(method: syn::TraitItemFn) -> Vec<FnArg<Fragment>>;

/// The return type of a method.
pub uninterp spec fn output_of(method: syn::TraitItemFn) -> Output;

/// The source of a path segment and its name.
pub uninterp spec fn segment_head_of(segment: syn::PathSegment) -> (Fragment, Ident<Fragment>);

/// What follows the name of a path segment.
pub uninterp spec fn arguments_of(segment: syn::PathSegment) -> PathArguments<Fragment>;

/// `syn::parse2` into a `syn::ItemTrait`, with an error's position for the
/// error. Whether tokens are a trait, and which, depends on the tokens alone, and
/// so does the position of an error at one of them. Of the position of any other
/// error nothing is stated: `syn` takes the place at which the attribute runs, or
/// joins several positions as far as the compiler can.
#[verifier::external_body]
fn parse_trait(item: TokenStream) -> (r: Result<syn::ItemTrait, Span>)
    ensures
        match parsed(item) {
            Ok(tree) => r == Ok::<syn::ItemTrait, Span>(tree),
            Err(Some(at)) => r == Err::<syn::ItemTrait, Span>(at),
            Err(None) => r is Err,
        },
{
    syn::parse2(item).map_err(|error: syn::Error| error.span())
}

/// The fields of a `syn::ItemTrait` but for its items, as source fragments, with
/// the name's text and the numbers of generic parameters and bounds. The source of
/// the name is one identifier with that text.
#[verifier::external_body]
fn trait_head(item: &syn::ItemTrait) -> (head: TraitHead)
    ensures
        head == head_of(*item),
        is_one_name(head.ident),
{
    let tokens = |t: &dyn ToTokens| Fragment::Tokens(t.to_token_stream());
    TraitHead {
        attrs: item.attrs.iter().map(|attr| tokens(attr)).collect(),
        vis: tokens(&item.vis),
        ident: Ident { text: item.ident.to_string(), tokens: tokens(&item.ident) },
        generics: Generics { params: item.generics.params.len(), tokens: tokens(&item.generics) },
        supertraits: Supertraits {
            bounds: item.supertraits.len(),
            tokens: tokens(&item.supertraits),
        },
    }
}

/// The items of a `syn::ItemTrait`.
#[verifier::external_body]
fn trait_items(item: syn::ItemTrait) -> (items: Vec<syn::TraitItem>)
    ensures
        items@ == items_of(item),
{
    item.items
}

/// The method that a `syn::TraitItem` is, or the source of any other item.
#[verifier::external_body]
fn trait_method(item: &syn::TraitItem) -> (r: Result<syn::TraitItemFn, Fragment>)
    ensures
        r == method_of(*item),
{
    match item {
        syn::TraitItem::Fn(method) => Ok(method.clone()),
        other => Err(Fragment::Tokens(other.to_token_stream())),
    }
}

/// The fields of a `syn::TraitItemFn` but for its parameters and its return
/// type, as source fragments, with the name's text, the number of generic
/// parameters, and whether `async` and a default body are there.
#[verifier::external_body]
fn method_head(method: &syn::TraitItemFn) -> (head: MethodHead)
    ensures
        head == method_head_of(*method),
{
    let (sig, tokens) = (&method.sig, |t: &dyn ToTokens| Fragment::Tokens(t.to_token_stream()));
    MethodHead {
        tokens: tokens(method),
        default: method.default.is_some(),
        sig: tokens(sig),
        asyncness: sig.asyncness.is_some(),
        fn_token: tokens(&sig.fn_token),
        ident: Ident { text: sig.ident.to_string(), tokens: tokens(&sig.ident) },
        generics: Generics { params: sig.generics.params.len(), tokens: tokens(&sig.generics) },
    }
}

/// The parameters of a `syn::TraitItemFn`: for a receiver whether it is a
/// reference and whether it is `mut`, for any other its name, or the source of
/// its pattern, and the source of its type.
#[verifier::external_body]
fn method_inputs(method: &syn::TraitItemFn) -> (inputs: Vec<FnArg<Fragment>>)
    ensures
        inputs == inputs_of(*method),
{
    let tokens = |t: &dyn ToTokens| Fragment::Tokens(t.to_token_stream());
    method.sig.inputs.iter().map(|input| match input {
        syn::FnArg::Receiver(r) => {
            let (reference, mutability) = (r.reference.is_some(), r.mutability.is_some());
            FnArg::Receiver(Receiver { tokens: tokens(r), reference, mutability })
        },
        syn::FnArg::Typed(t) => FnArg::Typed(PatType { ty: tokens(&t.ty), pat: match &*t.pat {
            syn::Pat::Ident(p) => {
                Pat::Ident(Ident { text: p.ident.to_string(), tokens: tokens(&p.ident) })
            },
            other => Pat::Other(tokens(other)),
        } }),
    }).collect()
}

/// The return type of a `syn::TraitItemFn`: the source of it, and the segments
/// if it is a path.
#[verifier::external_body]
fn method_output(method: &syn::TraitItemFn) -> (output: Output)
    ensures
        output == output_of(*method),
{
    let tokens = |t: &dyn ToTokens| Fragment::Tokens(t.to_token_stream());
    match &method.sig.output {
        syn::ReturnType::Default => Output::Default(tokens(&method.sig.output)),
        syn::ReturnType::Type(_, ty) => match &**ty {
            syn::Type::Path(path) => Output::Path {
                tokens: tokens(ty),
                segments: path.path.segments.iter().cloned().collect(),
            },
            other => Output::Other(tokens(other)),
        },
    }
}

/// The source of a `syn::PathSegment` and its name.
#[verifier::external_body]
fn segment_head(segment: &syn::PathSegment) -> (head: (Fragment, Ident<Fragment>))
    ensures
        head == segment_head_of(*segment),
{
    let tokens = |t: &dyn ToTokens| Fragment::Tokens(t.to_token_stream());
    let text = segment.ident.to_string();
    (tokens(segment), Ident { text, tokens: tokens(&segment.ident) })
}

/// The arguments of a `syn::PathSegment` in angle brackets, as source fragments.
/// A type that is a path comes with the names along it.
#[verifier::external_body]
fn segment_arguments(segment: &syn::PathSegment) -> (arguments: PathArguments<Fragment>)
    ensures
        arguments == arguments_of(*segment),
{
    let tokens = |t: &dyn ToTokens| Fragment::Tokens(t.to_token_stream());
    let names = |p: &syn::TypePath| p.path.segments.iter().map(|s| s.ident.to_string()).collect();
    let argument = |arg: &syn::GenericArgument| match arg {
        syn::GenericArgument::Type(ty) => GenericArgument::Type(TypeArgument {
            tokens: tokens(ty),
            path: match ty { syn::Type::Path(path) => Some(names(path)), _ => None },
        }),
        _ => GenericArgument::Other,
    };
    let syn::PathArguments::AngleBracketed(list) = &segment.arguments else {
        return PathArguments::Other;
    };
    let (tokens, args) = (tokens(list), list.args.iter().map(argument).collect());
    PathArguments::AngleBracketed(GenericArguments { tokens, args })
}

// ---------------------------------------------------------------------------
// The whole item
// ---------------------------------------------------------------------------

/// The syntax of a path segment.
pub open spec fn segment_syntax(segment: syn::PathSegment) -> SegmentSyntax<Fragment> {
    SegmentSyntax {
        tokens: segment_head_of(segment).0,
        ident: segment_head_of(segment).1,
        arguments: arguments_of(segment),
    }
}

/// Whether `read` is the syntax of a return type.
pub open spec fn shows_output(output: Output, read: ReturnType<Fragment>) -> bool {
    match output {
        Output::Default(tokens) => read == ReturnType::Default(tokens),
        Output::Other(tokens) => read == ReturnType::Type(Type::Other(tokens)),
        Output::Path { tokens, segments } => {
            &&& read is Type
            &&& read->Type_0 is Path
            &&& read->Type_0->Path_0.tokens == tokens
            &&& read->Type_0->Path_0.segments@ == segments@.map_values(
                |segment: syn::PathSegment| segment_syntax(segment),
            )
        },
    }
}

/// Whether `read` is the syntax of a method.
pub open spec fn shows_method(method: syn::TraitItemFn, read: MethodSyntax<Fragment>) -> bool {
    let head = method_head_of(method);
    &&& read.tokens == head.tokens
    &&& read.default == head.default
    &&& read.sig.tokens == head.sig
    &&& read.sig.asyncness == head.asyncness
    &&& read.sig.fn_token == head.fn_token
    &&& read.sig.ident == head.ident
    &&& read.sig.generics == head.generics
    &&& read.sig.inputs == inputs_of(method)
    &&& shows_output(output_of(method), read.sig.output)
}

/// Whether `read` is the syntax of an item of a trait.
pub open spec fn shows_item(item: syn::TraitItem, read: ItemSyntax<Fragment>) -> bool {
    match method_of(item) {
        Ok(method) => read is Fn && shows_method(method, read->Fn_0),
        Err(tokens) => read == ItemSyntax::Other(tokens),
    }
}

/// Whether `read` is the syntax of a trait.
pub open spec fn shows_trait(tree: syn::ItemTrait, read: TraitSyntax<Fragment>) -> bool {
    &&& read.attrs == head_of(tree).attrs
    &&& read.vis == head_of(tree).vis
    &&& read.ident == head_of(tree).ident
    &&& read.generics == head_of(tree).generics
    &&& read.supertraits == head_of(tree).supertraits
    &&& is_one_name(read.ident)
    &&& read.items@.len() == items_of(tree).len()
    &&& forall|i: int|
        0 <= i < read.items@.len() ==> shows_item(items_of(tree)[i], #[trigger] read.items@[i])
}

/// Whether `read` is the syntax of the annotated item: the trait that its tokens
/// are, or the position at which they turned out to be none.
pub open spec fn shows(item: TokenStream, read: Result<TraitSyntax<Fragment>, Fragment>) -> bool {
    match parsed(item) {
        Err(Some(at)) => read == Err::<TraitSyntax<Fragment>, Fragment>(Fragment::Position(at)),
        Err(None) => read is Err && read->Err_0 is Position,
        Ok(tree) => read is Ok && shows_trait(tree, read->Ok_0),
    }
}

/// Whether the annotated item turns out to be no trait at none of its tokens in
/// particular. The position of that fault is then not determined by the tokens.
pub open spec fn is_unlocated(item: TokenStream) -> bool {
    parsed(item) == Err::<syn::ItemTrait, Option<Span>>(None)
}

/// The syntax of the annotated item.
pub open spec fn item_read(item: TokenStream) -> Result<TraitSyntax<Fragment>, Fragment> {
    choose|read: Result<TraitSyntax<Fragment>, Fragment>| shows(item, read)
}

/// The syntax of the segments of a path.
fn read_segments(segments: &Vec<syn::PathSegment>) -> (read: Vec<SegmentSyntax<Fragment>>)
    ensures
        read@ == segments@.map_values(|segment: syn::PathSegment| segment_syntax(segment)),
{
    let mut read: Vec<SegmentSyntax<Fragment>> = Vec::new();
    let mut i: usize = 0;
    while i < segments.len()
        invariant
            i <= segments@.len(),
            read@ == segments@.take(i as int).map_values(
                |segment: syn::PathSegment| segment_syntax(segment),
            ),
        decreases segments@.len() - i,
    {
        assert(segments@.take(i + 1) =~= segments@.take(i as int).push(segments@[i as int]));
        let (tokens, ident) = segment_head(&segments[i]);
        let arguments = segment_arguments(&segments[i]);
        read.push(SegmentSyntax { tokens, ident, arguments });
        i = i + 1;
    }
    assert(segments@.take(i as int) =~= segments@);
    read
}

/// The syntax of a method.
fn read_method(method: &syn::TraitItemFn) -> (read: MethodSyntax<Fragment>)
    ensures
        shows_method(*method, read),
{
    let head = method_head(method);
    let output = match method_output(method) {
        Output::Default(tokens) => ReturnType::Default(tokens),
        Output::Other(tokens) => ReturnType::Type(Type::Other(tokens)),
        Output::Path { tokens, segments } => {
            let segments = read_segments(&segments);
            ReturnType::Type(Type::Path(TypePath { tokens, segments }))
        },
    };
    MethodSyntax {
        tokens: head.tokens,
        sig: Signature {
            tokens: head.sig,
            asyncness: head.asyncness,
            fn_token: head.fn_token,
            ident: head.ident,
            generics: head.generics,
            inputs: method_inputs(method),
            output,
        },
        default: head.default,
    }
}

/// Parses the annotated item and reads what the service attribute looks at.
pub fn read_item(item: TokenStream) -> (read: Result<TraitSyntax<Fragment>, Fragment>)
    ensures
        shows(item, read),
{
    let tree = match parse_trait(item) {
        Ok(tree) => tree,
        Err(at) => {
            return Err(Fragment::Position(at));
        },
    };
    let head = trait_head(&tree);
    let nodes = trait_items(tree);
    let mut items: Vec<ItemSyntax<Fragment>> = Vec::new();
    let mut i: usize = 0;
    while i < nodes.len()
        invariant
            i <= nodes@.len(),
            items@.len() == i,
            forall|j: int| 0 <= j < i ==> shows_item(nodes@[j], #[trigger] items@[j]),
        decreases nodes@.len() - i,
    {
        let read = match trait_method(&nodes[i]) {
            Ok(method) => ItemSyntax::Fn(read_method(&method)),
            Err(tokens) => ItemSyntax::Other(tokens),
        };
        items.push(read);
        i = i + 1;
    }
    Ok(
        TraitSyntax {
            attrs: head.attrs,
            vis: head.vis,
            ident: head.ident,
            generics: head.generics,
            supertraits: head.supertraits,
            items,
        },
    )
}

/// What two readings of an item have in common.
proof fn lemma_item_is_read_once(
    item: syn::TraitItem,
    a: ItemSyntax<Fragment>,
    b: ItemSyntax<Fragment>,
)
    requires
        shows_item(item, a),
        shows_item(item, b),
    ensures
        item_fault(a) == item_fault(b),
        a is Fn <==> b is Fn,
        a is Fn ==> forall|read: Method<'_, Fragment>| #[trigger]
            read.reads(a->Fn_0) <==> read.reads(b->Fn_0),
{
}

proof fn lemma_trait_is_read_once(
    tree: syn::ItemTrait,
    a: TraitSyntax<Fragment>,
    b: TraitSyntax<Fragment>,
)
    requires
        shows_trait(tree, a),
        shows_trait(tree, b),
    ensures
        service_fault(Ok(a)) == service_fault(Ok(b)),
        forall|service: ServiceTrait<'_, Fragment>| #[trigger]
            service.reads(a) ==> service.reads(b),
{
    assert forall|i: int| 0 <= i < a.items@.len() implies item_fault(#[trigger] a.items@[i])
        == item_fault(b.items@[i]) && (a.items@[i] is Fn <==> b.items@[i] is Fn) by {
        assert(shows_item(items_of(tree)[i], b.items@[i]));
        lemma_item_is_read_once(items_of(tree)[i], a.items@[i], b.items@[i]);
    }
    assert(a.items@.map_values(|item: ItemSyntax<Fragment>| item_fault(item))
        =~= b.items@.map_values(|item: ItemSyntax<Fragment>| item_fault(item)));
    assert forall|service: ServiceTrait<'_, Fragment>| #[trigger]
        service.reads(a) implies service.reads(b) by {
        assert forall|i: int| 0 <= i < b.items@.len() implies (#[trigger] b.items@[i]) is Fn by {
            assert(a.items@[i] is Fn);
        }
        assert forall|i: int| 0 <= i < service.methods@.len() implies (
        #[trigger] service.methods@[i]).reads(b.items@[i]->Fn_0) by {
            assert(a.items@[i] is Fn);
            assert(shows_item(items_of(tree)[i], b.items@[i]));
            lemma_item_is_read_once(items_of(tree)[i], a.items@[i], b.items@[i]);
        }
    }
}

/// The fault of the annotated item is determined by its tokens: whatever shows
/// the item has the same fault, at the same source if the fault is located.
pub proof fn law_fault_is_read_once(
    item: TokenStream,
    read: Result<TraitSyntax<Fragment>, Fragment>,
)
    requires
        shows(item, read),
    ensures
        shows(item, item_read(item)),
        !is_unlocated(item) ==> service_fault(item_read(item)) == service_fault(read),
        is_unlocated(item) ==> {
            &&& service_fault(item_read(item)) is Some
            &&& service_fault(read) is Some
            &&& service_fault(item_read(item))->0.message == service_fault(read)->0.message
        },
{
    if read is Ok {
        lemma_trait_is_read_once(parsed(item)->Ok_0, item_read(item)->Ok_0, read->Ok_0);
    }
}

/// The service in the annotated item is determined by its tokens: whatever shows
/// the item holds the same service.
pub proof fn law_service_is_read_once(
    item: TokenStream,
    read: Result<TraitSyntax<Fragment>, Fragment>,
    service: ServiceTrait<'_, Fragment>,
)
    requires
        shows(item, read),
    ensures
        read is Ok <==> item_read(item) is Ok,
        read is Ok ==> (service.reads(item_read(item)->Ok_0) <==> service.reads(read->Ok_0)),
{
    law_fault_is_read_once(item, read);
    if read is Ok {
        lemma_trait_is_read_once(parsed(item)->Ok_0, item_read(item)->Ok_0, read->Ok_0);
        lemma_trait_is_read_once(parsed(item)->Ok_0, read->Ok_0, item_read(item)->Ok_0);
    }
}

/// Nothing of a trait is changed, left out or reordered when it is read: its own
/// parts are those that were parsed, and its items are read one by one.
pub proof fn law_trait_is_read_as_it_stands(
    item: TokenStream,
    tree: syn::ItemTrait,
    read: Result<TraitSyntax<Fragment>, Fragment>,
    i: int,
)
    requires
        shows(item, read),
        parsed(item) == Ok::<syn::ItemTrait, Option<Span>>(tree),
    ensures
        read is Ok,
        read->Ok_0.attrs == head_of(tree).attrs,
        read->Ok_0.vis == head_of(tree).vis,
        read->Ok_0.ident == head_of(tree).ident,
        read->Ok_0.generics == head_of(tree).generics,
        read->Ok_0.supertraits == head_of(tree).supertraits,
        read->Ok_0.items@.len() == items_of(tree).len(),
        0 <= i < items_of(tree).len() ==> match method_of(items_of(tree)[i]) {
            Ok(method) => {
                &&& read->Ok_0.items@[i] is Fn
                &&& shows_method(method, read->Ok_0.items@[i]->Fn_0)
            },
            Err(tokens) => read->Ok_0.items@[i] == ItemSyntax::Other(tokens),
        },
{
    if 0 <= i < items_of(tree).len() {
        assert(shows_item(items_of(tree)[i], read->Ok_0.items@[i]));
    }
}

/// Nothing of a method is changed, left out or reordered when it is read.
pub proof fn law_method_is_read_as_it_stands(
    method: syn::TraitItemFn,
    read: MethodSyntax<Fragment>,
    i: int,
)
    requires
        shows_method(method, read),
    ensures
        read.tokens == method_head_of(method).tokens,
        read.default == method_head_of(method).default,
        read.sig.tokens == method_head_of(method).sig,
        read.sig.asyncness == method_head_of(method).asyncness,
        read.sig.fn_token == method_head_of(method).fn_token,
        read.sig.ident == method_head_of(method).ident,
        read.sig.generics == method_head_of(method).generics,
        read.sig.inputs == inputs_of(method),
        match output_of(method) {
            Output::Default(tokens) => read.sig.output == ReturnType::Default(tokens),
            Output::Other(tokens) => read.sig.output == ReturnType::Type(Type::Other(tokens)),
            Output::Path { tokens, segments } => {
                &&& read.sig.output is Type
                &&& read.sig.output->Type_0 is Path
                &&& read.sig.output->Type_0->Path_0.tokens == tokens
                &&& read.sig.output->Type_0->Path_0.segments@.len() == segments@.len()
                &&& 0 <= i < segments@.len() ==> {
                    let segment = read.sig.output->Type_0->Path_0.segments@[i];
                    &&& segment.tokens == segment_head_of(segments@[i]).0
                    &&& segment.ident == segment_head_of(segments@[i]).1
                    &&& segment.arguments == arguments_of(segments@[i])
                }
            },
        },
{
}

/// Tokens that are no trait are read as the position at which they turn out to be
/// none, which is theirs alone unless they turn out so at none of them.
pub proof fn law_no_trait_is_read_as_a_position(
    item: TokenStream,
    read: Result<TraitSyntax<Fragment>, Fragment>,
)
    requires
        shows(item, read),
        parsed(item) is Err,
    ensures
        read is Err,
        read->Err_0 is Position,
        parsed(item)->Err_0 matches Some(at) ==> {
            &&& read->Err_0->Position_0 == at
            &&& !is_unlocated(item)
        },
        parsed(item)->Err_0 is None ==> is_unlocated(item),
{
}

} // verus!
