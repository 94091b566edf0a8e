//! What holds of the code that is generated for any service.

use crate::macros::expand::{
    arg_name, arg_type, call_args, client_head, client_method, client_method_end,
    client_method_start, client_tokens, dispatch_arm, method_head, name_tuple, params, plain_name,
    server_end, server_head, server_middle, server_tokens, service_tokens, suffixed, trait_bounds,
    trait_method, trait_tokens, type_tuple, wire_name, wire_names, CONNECT, CONNECT_DOC, DISPATCH,
    FROM_CLIENT, FROM_CLIENT_DOC, METHOD_NAMES, NEW, NEW_DOC, SERVER_BOUNDS, UNKNOWN_ARM,
};
use crate::macros::model::{Method, MethodArg, ServiceTrait};
use crate::macros::syntax::{Ident, TraitSyntax};
use crate::macros::tokens::{
    balanced, comma_separated, group_pieces, law_commas_stand_between, lemma_open_close,
    lemma_same_start, nesting, nesting_to, texts, texts_to, Delimiter, Piece,
};
use crate::macros::writer::{
    all_fixed, all_plain, is_fixed_code, is_made_name, is_plain_name,
};
use vstd::prelude::*;

verus! {

/// Two methods of a service have the same name on the wire exactly if they
/// have the same name.
pub proof fn law_wire_names_are_injective<S>(
    service: ServiceTrait<'_, S>,
    a: Method<'_, S>,
    b: Method<'_, S>,
)
    ensures
        wire_name(service, a) == wire_name(service, b) <==> a.ident.text@ == b.ident.text@,
{
    let n = (service.ident.text@ + "::"@).len() as int;
    assert(wire_name(service, a).skip(n) =~= a.ident.text@);
    assert(wire_name(service, b).skip(n) =~= b.ident.text@);
}

/// Pieces that hold no string literal and no bracket.
spec fn flat<S>(pieces: Seq<Piece<S>>) -> bool {
    &&& texts(pieces) == Seq::<Seq<char>>::empty()
    &&& balanced(pieces)
}

proof fn lemma_flat_map_is_flat<P, S>(items: Seq<P>, f: spec_fn(P) -> Seq<Piece<S>>)
    requires
        forall|item: P| flat(#[trigger] f(item)),
    ensures
        flat(items.flat_map(f)),
    decreases items.len(),
{
    broadcast use group_pieces;

    if items.len() > 0 {
        let n = items.len() - 1;
        lemma_flat_map_is_flat(items.take(n), f);
        items.lemma_flat_map_take_append(f, n);
        assert(items.take(n + 1) =~= items);
        assert(flat(f(items[n])));
        assert(texts(items.flat_map(f)) =~= seq![]);
    } else {
        assert(items.flat_map(f) =~= seq![]);
    }
}

proof fn lemma_code_and_source_are_flat<S>(pieces: Seq<Piece<S>>)
    requires
        forall|i: int|
            0 <= i < pieces.len() ==> (#[trigger] pieces[i]) is Code || pieces[i] is Source,
    ensures
        flat(pieces),
    decreases pieces.len(),
{
    if pieces.len() > 0 {
        let most = pieces.drop_last();
        lemma_code_and_source_are_flat(most);
        assert forall|open: Seq<Delimiter>| #[trigger] nesting(pieces, open) == Some(open) by {
            assert(nesting(most, open) == Some(open));
            lemma_same_start(pieces, most, most.len(), open);
        }
        lemma_same_start(pieces, most, most.len(), seq![]);
    }
}

proof fn lemma_call_args_are_flat<S>(names: Seq<Piece<S>>)
    requires
        forall|i: int| 0 <= i < names.len() ==> (#[trigger] names[i]) is Source,
    ensures
        flat(comma_separated(names)),
    decreases names.len(),
{
    broadcast use group_pieces;

    reveal_with_fuel(nesting_to, 3);
    reveal_with_fuel(texts_to, 3);
    if names.len() <= 1 {
        lemma_code_and_source_are_flat(names);
    } else {
        lemma_call_args_are_flat(names.drop_last());
    }
}

proof fn lemma_arguments_are_flat<S>(args: Seq<MethodArg<'_, S>>)
    ensures
        flat(params(args)),
        flat(name_tuple(args)),
        flat(type_tuple(args)),
        flat(call_args(args)),
{
    let param = |arg: MethodArg<'_, S>|
        seq![Piece::Code(","@), arg_name(arg), Piece::Code(":"@), arg_type(arg)];
    let name = |arg: MethodArg<'_, S>| seq![arg_name(arg), Piece::Code(","@)];
    let ty = |arg: MethodArg<'_, S>| seq![arg_type(arg), Piece::Code(","@)];
    assert forall|arg: MethodArg<'_, S>| flat(#[trigger] param(arg)) by {
        lemma_code_and_source_are_flat(param(arg));
    }
    assert forall|arg: MethodArg<'_, S>| flat(#[trigger] name(arg)) by {
        lemma_code_and_source_are_flat(name(arg));
    }
    assert forall|arg: MethodArg<'_, S>| flat(#[trigger] ty(arg)) by {
        lemma_code_and_source_are_flat(ty(arg));
    }
    lemma_flat_map_is_flat(args, param);
    lemma_flat_map_is_flat(args, name);
    lemma_flat_map_is_flat(args, ty);
    lemma_call_args_are_flat(args.map_values(|arg: MethodArg<'_, S>| arg_name(arg)));
}

proof fn lemma_method_head<S>(method: Method<'_, S>)
    ensures
        flat(method_head(method)),
{
    broadcast use group_pieces;

    lemma_arguments_are_flat(method.args@);
    reveal_with_fuel(nesting_to, 4);
    reveal_with_fuel(texts_to, 4);
}

proof fn lemma_trait_method<S>(method: Method<'_, S>)
    ensures
        flat(trait_method(method)),
{
    broadcast use group_pieces;

    lemma_method_head(method);
    reveal_with_fuel(nesting_to, 4);
    reveal_with_fuel(texts_to, 4);
}

proof fn lemma_client_method_parts<S>(service: ServiceTrait<'_, S>, method: Method<'_, S>)
    ensures
        texts(client_method_start(method)) == Seq::<Seq<char>>::empty(),
        forall|open: Seq<Delimiter>| #[trigger]
            nesting(client_method_start(method), open) == Some(
                open.push(Delimiter::Brace).push(Delimiter::Parenthesis).push(
                    Delimiter::Parenthesis,
                ),
            ),
        texts(client_method_end(service, method)) == seq![wire_name(service, method)],
        forall|open: Seq<Delimiter>| #[trigger]
            nesting(
                client_method_end(service, method),
                open.push(Delimiter::Brace).push(Delimiter::Parenthesis).push(
                    Delimiter::Parenthesis,
                ),
            ) == Some(open),
{
    broadcast use lemma_open_close;

    reveal_with_fuel(nesting_to, 10);
    reveal_with_fuel(texts_to, 10);
}

proof fn lemma_client_method<S>(service: ServiceTrait<'_, S>, method: Method<'_, S>)
    ensures
        balanced(client_method(service, method)),
        texts(client_method(service, method)) == seq![wire_name(service, method)],
{
    broadcast use group_pieces;

    lemma_arguments_are_flat(method.args@);
    lemma_method_head(method);
    lemma_client_method_parts(service, method);
    lemma_code_and_source_are_flat(seq![Piece::<S>::Code("async fn"@)]);
}

proof fn lemma_dispatch_arm<S>(service: ServiceTrait<'_, S>, method: Method<'_, S>)
    ensures
        balanced(dispatch_arm(service, method)),
        texts(dispatch_arm(service, method)) == seq![wire_name(service, method)],
{
    broadcast use group_pieces;

    lemma_arguments_are_flat(method.args@);
    reveal_with_fuel(nesting_to, 6);
    reveal_with_fuel(texts_to, 6);
}

/// Code that holds one string literal per item, repeated for all items.
proof fn lemma_flat_map_texts<P, S>(
    items: Seq<P>,
    f: spec_fn(P) -> Seq<Piece<S>>,
    text: spec_fn(P) -> Seq<char>,
)
    requires
        forall|item: P|
            balanced(#[trigger] f(item)) && texts(f(item)) == seq![text(item)],
    ensures
        balanced(items.flat_map(f)),
        texts(items.flat_map(f)) == items.map_values(text),
    decreases items.len(),
{
    broadcast use group_pieces;

    if items.len() > 0 {
        let n = items.len() - 1;
        lemma_flat_map_texts(items.take(n), f, text);
        items.lemma_flat_map_take_append(f, n);
        assert(items.take(n + 1) =~= items);
        assert(balanced(f(items[n])));
        assert(items.map_values(text) =~= items.take(n).map_values(text) + seq![text(items[n])]);
    } else {
        assert(items.flat_map(f) =~= seq![]);
        assert(items.map_values(text) =~= seq![]);
    }
}

proof fn lemma_comma_separated_texts<S>(names: Seq<Seq<char>>, pieces: Seq<Piece<S>>)
    requires
        pieces.len() == names.len(),
        forall|i: int|
            0 <= i < pieces.len() ==> (#[trigger] pieces[i]) == Piece::<S>::Text(names[i]),
    ensures
        balanced(comma_separated(pieces)),
        texts(comma_separated(pieces)) == names,
    decreases pieces.len(),
{
    broadcast use group_pieces;

    reveal_with_fuel(nesting_to, 3);
    reveal_with_fuel(texts_to, 3);
    if pieces.len() == 0 {
        assert(names =~= seq![]);
    } else if pieces.len() == 1 {
        assert(pieces =~= seq![pieces[0]]);
        assert(names =~= seq![names[0]]);
    } else {
        lemma_comma_separated_texts(names.drop_last(), pieces.drop_last());
        assert(names =~= names.drop_last().push(names.last()));
    }
}

proof fn lemma_trait_tokens<S>(service: ServiceTrait<'_, S>)
    ensures
        flat(trait_tokens(service)),
{
    broadcast use group_pieces;

    reveal_with_fuel(nesting_to, 2);
    reveal_with_fuel(texts_to, 2);
    let attrs = service.attrs@.map_values(|attr: S| Piece::Source(attr));
    let name = seq![
        Piece::Source(*service.vis),
        Piece::Code("trait"@),
        Piece::Source(service.ident.tokens),
    ];
    let f = |method: Method<'_, S>| trait_method(method);
    assert forall|method: Method<'_, S>| flat(#[trigger] f(method)) by {
        lemma_trait_method(method);
    }
    lemma_code_and_source_are_flat(attrs);
    lemma_code_and_source_are_flat(name);
    lemma_code_and_source_are_flat(trait_bounds(service));
    lemma_flat_map_is_flat(service.methods@, f);
    let open = seq![Piece::<S>::Open(Delimiter::Brace)];
    let close = seq![Piece::<S>::Close(Delimiter::Brace)];
    assert(trait_tokens(service) == attrs + name + trait_bounds(service) + open
        + service.methods@.flat_map(f) + close);
}

#[verifier::rlimit(40)]
proof fn lemma_client_head<S>(service: ServiceTrait<'_, S>)
    ensures
        texts(client_head(service)) == Seq::<Seq<char>>::empty(),
        forall|open: Seq<Delimiter>| #[trigger]
            nesting(client_head(service), open) == Some(open.push(Delimiter::Brace)),
{
    broadcast use lemma_open_close;

    reveal_with_fuel(nesting_to, 22);
    reveal_with_fuel(texts_to, 22);
}

#[verifier::rlimit(40)]
proof fn lemma_server_head<S>(service: ServiceTrait<'_, S>)
    ensures
        texts(server_head(service)) == Seq::<Seq<char>>::empty(),
        forall|open: Seq<Delimiter>| #[trigger]
            nesting(server_head(service), open) == Some(
                open.push(Delimiter::Brace).push(Delimiter::Brace).push(Delimiter::Bracket),
            ),
{
    broadcast use lemma_open_close;

    reveal_with_fuel(nesting_to, 28);
    reveal_with_fuel(texts_to, 28);
}

proof fn lemma_server_middle<S>()
    ensures
        texts(server_middle::<S>()) == Seq::<Seq<char>>::empty(),
        forall|open: Seq<Delimiter>| #[trigger]
            nesting(
                server_middle::<S>(),
                open.push(Delimiter::Brace).push(Delimiter::Brace).push(Delimiter::Bracket),
            ) == Some(open.push(Delimiter::Brace).push(Delimiter::Brace).push(Delimiter::Brace)),
{
    broadcast use lemma_open_close;

    reveal_with_fuel(nesting_to, 7);
    reveal_with_fuel(texts_to, 7);
}

proof fn lemma_server_end<S>()
    ensures
        texts(server_end::<S>()) == Seq::<Seq<char>>::empty(),
        forall|open: Seq<Delimiter>| #[trigger]
            nesting(
                server_end::<S>(),
                open.push(Delimiter::Brace).push(Delimiter::Brace).push(Delimiter::Brace),
            ) == Some(open),
{
    broadcast use lemma_open_close;

    reveal_with_fuel(nesting_to, 5);
    reveal_with_fuel(texts_to, 5);
}

/// The client calls exactly the wire names of the methods, one call per method
/// and in order.
pub proof fn law_client_calls_the_wire_names<S>(service: ServiceTrait<'_, S>)
    ensures
        texts(client_tokens(service)) == wire_names(service),
        balanced(client_tokens(service)),
{
    broadcast use group_pieces;

    reveal_with_fuel(nesting_to, 2);
    reveal_with_fuel(texts_to, 2);
    let f = |method: Method<'_, S>| client_method(service, method);
    let text = |method: Method<'_, S>| wire_name(service, method);
    assert forall|method: Method<'_, S>|
        balanced(#[trigger] f(method)) && texts(f(method)) == seq![text(method)] by {
        lemma_client_method(service, method);
    }
    lemma_flat_map_texts(service.methods@, f, text);
    lemma_client_head(service);
}

/// The server lists exactly the wire names of the methods and then matches on
/// each of them, both in order.
pub proof fn law_server_knows_the_wire_names<S>(service: ServiceTrait<'_, S>)
    ensures
        texts(server_tokens(service)) == wire_names(service) + wire_names(service),
        balanced(server_tokens(service)),
{
    broadcast use group_pieces;

    let f = |method: Method<'_, S>| dispatch_arm(service, method);
    let text = |method: Method<'_, S>| wire_name(service, method);
    assert forall|method: Method<'_, S>|
        balanced(#[trigger] f(method)) && texts(f(method)) == seq![text(method)] by {
        lemma_dispatch_arm(service, method);
    }
    lemma_flat_map_texts(service.methods@, f, text);
    lemma_comma_separated_texts(
        wire_names(service),
        wire_names(service).map_values(|name: Seq<char>| Piece::<S>::Text(name)),
    );
    lemma_server_head(service);
    lemma_server_middle::<S>();
    lemma_server_end::<S>();
}

/// Every bracket of the generated code is closed, by one of its kind.
pub proof fn law_generated_code_is_balanced<S>(service: ServiceTrait<'_, S>)
    ensures
        balanced(service_tokens(service)),
{
    broadcast use group_pieces;

    lemma_trait_tokens(service);
    law_client_calls_the_wire_names(service);
    law_server_knows_the_wire_names(service);
}

/// Whether a piece, if it is code, is fixed code and, if it is a name, is made of
/// `ident`.
spec fn is_made<S>(piece: Piece<S>, ident: Ident<S>) -> bool {
    match piece {
        Piece::Code(code) => is_fixed_code(code),
        Piece::Name { .. } => piece == suffixed(ident, "Client"@) || piece == suffixed(
            ident,
            "Server"@,
        ),
        _ => true,
    }
}

spec fn all_made<S>(pieces: Seq<Piece<S>>, ident: Ident<S>) -> bool {
    forall|i: int| 0 <= i < pieces.len() ==> is_made(#[trigger] pieces[i], ident)
}

proof fn lemma_flat_map_is_made<P, S>(
    items: Seq<P>,
    f: spec_fn(P) -> Seq<Piece<S>>,
    ident: Ident<S>,
)
    requires
        forall|item: P| all_made(#[trigger] f(item), ident),
    ensures
        all_made(items.flat_map(f), ident),
    decreases items.len(),
{
    if items.len() > 0 {
        let n = items.len() - 1;
        lemma_flat_map_is_made(items.take(n), f, ident);
        items.lemma_flat_map_take_append(f, n);
        assert(items.take(n + 1) =~= items);
        assert(all_made(f(items[n]), ident));
    } else {
        assert(items.flat_map(f) =~= seq![]);
    }
}

proof fn lemma_comma_separated_is_made<S>(pieces: Seq<Piece<S>>, ident: Ident<S>)
    requires
        all_made(pieces, ident),
    ensures
        all_made(comma_separated(pieces), ident),
    decreases pieces.len(),
{
    if pieces.len() > 1 {
        assert forall|i: int| 0 <= i < pieces.drop_last().len() implies is_made(
            #[trigger] pieces.drop_last()[i],
            ident,
        ) by {
            assert(pieces.drop_last()[i] == pieces[i]);
        }
        lemma_comma_separated_is_made(pieces.drop_last(), ident);
    }
}

proof fn lemma_arguments_are_made<S>(args: Seq<MethodArg<'_, S>>, ident: Ident<S>)
    ensures
        all_made(params(args), ident),
        all_made(name_tuple(args), ident),
        all_made(type_tuple(args), ident),
        all_made(call_args(args), ident),
{
    let param = |arg: MethodArg<'_, S>|
        seq![Piece::Code(","@), arg_name(arg), Piece::Code(":"@), arg_type(arg)];
    let name = |arg: MethodArg<'_, S>| seq![arg_name(arg), Piece::Code(","@)];
    let ty = |arg: MethodArg<'_, S>| seq![arg_type(arg), Piece::Code(","@)];
    lemma_flat_map_is_made(args, param, ident);
    lemma_flat_map_is_made(args, name, ident);
    lemma_flat_map_is_made(args, ty, ident);
    lemma_comma_separated_is_made(
        args.map_values(|arg: MethodArg<'_, S>| arg_name(arg)),
        ident,
    );
}

proof fn lemma_methods_are_made<S>(service: ServiceTrait<'_, S>, method: Method<'_, S>)
    ensures
        all_made(trait_method(method), *service.ident),
        all_made(client_method(service, method), *service.ident),
        all_made(dispatch_arm(service, method), *service.ident),
{
    let ident = *service.ident;
    lemma_arguments_are_made(method.args@, ident);
    assert(all_made(method_head(method), ident));
    assert(all_made(client_method_start(method), ident));
    assert(all_made(client_method_end(service, method), ident));
}

proof fn lemma_service_is_made<S>(service: ServiceTrait<'_, S>)
    ensures
        all_made(service_tokens(service), *service.ident),
{
    let ident = *service.ident;
    let declared = |method: Method<'_, S>| trait_method(method);
    let called = |method: Method<'_, S>| client_method(service, method);
    let dispatched = |method: Method<'_, S>| dispatch_arm(service, method);
    assert forall|method: Method<'_, S>| all_made(#[trigger] declared(method), ident) by {
        lemma_methods_are_made(service, method);
    }
    assert forall|method: Method<'_, S>| all_made(#[trigger] called(method), ident) by {
        lemma_methods_are_made(service, method);
    }
    assert forall|method: Method<'_, S>| all_made(#[trigger] dispatched(method), ident) by {
        lemma_methods_are_made(service, method);
    }
    lemma_flat_map_is_made(service.methods@, declared, ident);
    lemma_flat_map_is_made(service.methods@, called, ident);
    lemma_flat_map_is_made(service.methods@, dispatched, ident);
    lemma_comma_separated_is_made(
        wire_names(service).map_values(|name: Seq<char>| Piece::<S>::Text(name)),
        ident,
    );
    assert(all_made(trait_tokens(service), ident));
    assert(all_made(client_head(service), ident));
    assert(all_made(client_tokens(service), ident));
    assert(all_made(server_head(service), ident));
    assert(all_made(server_middle::<S>(), ident));
    assert(all_made(server_end::<S>(), ident));
    assert(all_made(server_tokens(service), ident));
}

/// All code in a service's tokens that is not taken from the annotated trait is
/// one of the fixed pieces.
pub proof fn law_generated_code_is_fixed<S>(service: ServiceTrait<'_, S>)
    ensures
        all_fixed(service_tokens(service)),
{
    let pieces = service_tokens(service);
    lemma_service_is_made(service);
    assert forall|i: int| 0 <= i < pieces.len() implies ((#[trigger] pieces[i])
        matches Piece::Code(code) ==> is_fixed_code(code)) by {
        assert(is_made(pieces[i], *service.ident));
    }
}

/// The names made up for a service are the name of the trait with `Client` or
/// `Server` behind it, and stand where the name of the trait stands.
pub proof fn law_generated_names_are_those_of_the_trait<S>(service: ServiceTrait<'_, S>)
    ensures
        forall|i: int|
            0 <= i < service_tokens(service).len() ==> ((#[trigger] service_tokens(service)[i])
                is Name ==> {
                ||| service_tokens(service)[i] == suffixed(*service.ident, "Client"@)
                ||| service_tokens(service)[i] == suffixed(*service.ident, "Server"@)
            }),
{
    let pieces = service_tokens(service);
    lemma_service_is_made(service);
    assert forall|i: int| 0 <= i < pieces.len() implies ((#[trigger] pieces[i]) is Name ==> {
        ||| pieces[i] == suffixed(*service.ident, "Client"@)
        ||| pieces[i] == suffixed(*service.ident, "Server"@)
    }) by {
        assert(is_made(pieces[i], *service.ident));
    }
}

proof fn lemma_made_name(name: Seq<char>, suffix: Seq<char>)
    requires
        is_plain_name(name),
        suffix == "Client"@ || suffix == "Server"@,
    ensures
        is_made_name(name + suffix),
{
    reveal_strlit("Client");
    reveal_strlit("Server");
    assert((name + suffix).skip(name.len() as int) =~= suffix);
    assert forall|i: int| 0 <= i < (name + suffix).len() implies ({
        let c = #[trigger] (name + suffix)[i];
        'a' <= c <= 'z' || 'A' <= c <= 'Z' || '0' <= c <= '9' || c == '_'
    }) by {
        if i < name.len() {
            assert((name + suffix)[i] == name[i]);
        } else {
            assert((name + suffix)[i] == suffix[i - name.len()]);
        }
    }
}

/// The names made up for a trait with a plain name are plain.
pub proof fn law_generated_names_are_plain<S>(service: ServiceTrait<'_, S>)
    requires
        is_plain_name(plain_name(service.ident.text@)),
    ensures
        all_plain(service_tokens(service)),
{
    let pieces = service_tokens(service);
    let name = plain_name(service.ident.text@);
    law_generated_names_are_those_of_the_trait(service);
    lemma_made_name(name, "Client"@);
    lemma_made_name(name, "Server"@);
    assert forall|i: int| 0 <= i < pieces.len() implies ((#[trigger] pieces[i])
        matches Piece::Name { text, .. } ==> is_made_name(text)) by {
    }
}

proof fn lemma_flat_map_agrees<P, Q, S>(
    a: Seq<P>,
    b: Seq<Q>,
    f: spec_fn(P) -> Seq<Piece<S>>,
    g: spec_fn(Q) -> Seq<Piece<S>>,
)
    requires
        a.len() == b.len(),
        forall|i: int| 0 <= i < a.len() ==> f(#[trigger] a[i]) == g(b[i]),
    ensures
        a.flat_map(f) == b.flat_map(g),
    decreases a.len(),
{
    if a.len() > 0 {
        let n = a.len() - 1;
        lemma_flat_map_agrees(a.take(n), b.take(n), f, g);
        a.lemma_flat_map_take_append(f, n);
        b.lemma_flat_map_take_append(g, n);
        assert(a.take(n + 1) =~= a);
        assert(b.take(n + 1) =~= b);
        assert(f(a[n]) == g(b[n]));
    } else {
        assert(a.flat_map(f) =~= b.flat_map(g));
    }
}

/// The generated code is determined by the annotated trait.
pub proof fn law_generated_code_is_determined<S>(
    item: TraitSyntax<S>,
    a: ServiceTrait<'_, S>,
    b: ServiceTrait<'_, S>,
)
    requires
        a.reads(item),
        b.reads(item),
    ensures
        service_tokens(a) == service_tokens(b),
{
    assert forall|i: int| 0 <= i < a.methods@.len() implies (#[trigger] a.methods@[i]).ident
        == b.methods@[i].ident && a.methods@[i].args@ == b.methods@[i].args@
        && a.methods@[i].ok_type == b.methods@[i].ok_type by {
        let method = item.items@[i]->Fn_0;
        assert(a.methods@[i].reads(method) && b.methods@[i].reads(method));
        assert forall|j: int| 0 <= j < a.methods@[i].args@.len() implies a.methods@[i].args@[j]
            == b.methods@[i].args@[j] by {
            assert(a.methods@[i].args@[j].reads(method.sig.inputs@[j + 1]));
            assert(b.methods@[i].args@[j].reads(method.sig.inputs@[j + 1]));
        }
        assert(a.methods@[i].args@ =~= b.methods@[i].args@);
    }
    lemma_flat_map_agrees(
        a.methods@,
        b.methods@,
        |method: Method<'_, S>| trait_method(method),
        |method: Method<'_, S>| trait_method(method),
    );
    lemma_flat_map_agrees(
        a.methods@,
        b.methods@,
        |method: Method<'_, S>| client_method(a, method),
        |method: Method<'_, S>| client_method(b, method),
    );
    lemma_flat_map_agrees(
        a.methods@,
        b.methods@,
        |method: Method<'_, S>| dispatch_arm(a, method),
        |method: Method<'_, S>| dispatch_arm(b, method),
    );
    assert(wire_names(a) =~= wire_names(b));
}

// ---------------------------------------------------------------------------
// Names
// ---------------------------------------------------------------------------

/// The name of a method on the wire is the name of the trait, `::` and the name of
/// the method.
pub proof fn law_wire_name_is_the_path_of_the_method<S>(
    service: ServiceTrait<'_, S>,
    method: Method<'_, S>,
    i: int,
)
    requires
        0 <= i < service.methods@.len(),
    ensures
        wire_name(service, method) == service.ident.text@ + "::"@ + method.ident.text@,
        wire_names(service).len() == service.methods@.len(),
        wire_names(service)[i] == service.ident.text@ + "::"@ + service.methods@[i].ident.text@,
{
}

/// A name made of the trait's name is that name with a suffix behind it, and
/// stands where it stands. The `r#` of a raw name is left out, and nothing else.
pub proof fn law_made_name_is_the_trait_name_with_a_suffix<S>(
    ident: Ident<S>,
    suffix: Seq<char>,
    raw: Seq<char>,
)
    ensures
        plain_name("r#"@ + raw) == raw,
        !(ident.text@.len() >= 2 && ident.text@.take(2) == "r#"@) ==> suffixed(ident, suffix) == (
        Piece::<S>::Name { text: ident.text@ + suffix, at: ident.tokens }),
        ident.text@ == "r#"@ + raw ==> suffixed(ident, suffix) == (Piece::<S>::Name {
            text: raw + suffix,
            at: ident.tokens,
        }),
{
    reveal_strlit("r#");
    assert(("r#"@ + raw).skip(2) =~= raw);
    if ident.text@.len() >= 2 && ident.text@[0] == 'r' && ident.text@[1] == '#' {
        assert(ident.text@.take(2) =~= "r#"@);
    }
}

// ---------------------------------------------------------------------------
// Arguments
// ---------------------------------------------------------------------------

/// If every item gives `k` pieces, all items give `k` times as many, those of the
/// `i`th behind those of the items before it.
proof fn lemma_flat_map_index<P, S>(
    items: Seq<P>,
    f: spec_fn(P) -> Seq<Piece<S>>,
    k: nat,
    i: int,
    j: int,
)
    requires
        forall|item: P| (#[trigger] f(item)).len() == k,
        0 <= i < items.len(),
        0 <= j < k,
    ensures
        items.flat_map(f).len() == k * items.len(),
        items.flat_map(f)[k * i + j] == f(items[i])[j],
    decreases items.len(),
{
    let n = items.len() - 1;
    let most = items.take(n);
    items.lemma_flat_map_take_append(f, n);
    assert(items.take(n + 1) =~= items);
    assert(items.flat_map(f) == most.flat_map(f) + f(items[n]));
    assert(k * items.len() == k * n + k) by (nonlinear_arith)
        requires
            items.len() == n + 1,
    ;
    if n == 0 {
        assert(most.flat_map(f) =~= seq![]);
        assert(k * n == 0) by (nonlinear_arith)
            requires
                n == 0,
        ;
        assert(k * i == 0) by (nonlinear_arith)
            requires
                i == 0,
        ;
    } else if i < n {
        lemma_flat_map_index(most, f, k, i, j);
        assert(k * i + j < k * n) by (nonlinear_arith)
            requires
                0 <= i < n,
                0 <= j < k,
        ;
    } else {
        lemma_flat_map_index(most, f, k, 0, j);
    }
}

proof fn lemma_flat_map_of_nothing<P, S>(items: Seq<P>, f: spec_fn(P) -> Seq<Piece<S>>)
    requires
        items.len() == 0,
    ensures
        items.flat_map(f).len() == 0,
{
    assert(items.flat_map(f) =~= seq![]);
}

/// Both tuples hold, for every argument in order, one element and one comma behind
/// it: the names that are encoded and decoded, and the types that they are decoded
/// to. So a method with a single argument has tuples as well.
pub proof fn law_tuples_have_one_element_per_argument<S>(args: Seq<MethodArg<'_, S>>, i: int)
    requires
        0 <= i < args.len(),
    ensures
        type_tuple(args).len() == 2 * args.len(),
        type_tuple(args)[2 * i] == Piece::<S>::Source(*args[i].ty),
        type_tuple(args)[2 * i + 1] == Piece::<S>::Code(","@),
        name_tuple(args).len() == 2 * args.len(),
        name_tuple(args)[2 * i] == Piece::<S>::Source(args[i].name.tokens),
        name_tuple(args)[2 * i + 1] == Piece::<S>::Code(","@),
{
    let name = |arg: MethodArg<'_, S>| seq![arg_name(arg), Piece::Code(","@)];
    let ty = |arg: MethodArg<'_, S>| seq![arg_type(arg), Piece::Code(","@)];
    lemma_flat_map_index(args, name, 2, i, 0);
    lemma_flat_map_index(args, name, 2, i, 1);
    lemma_flat_map_index(args, ty, 2, i, 0);
    lemma_flat_map_index(args, ty, 2, i, 1);
}

/// Whatever the number of arguments, the pattern that arguments are decoded into
/// has the shape of the type that they are decoded to, piece by piece.
pub proof fn law_pattern_and_type_have_the_same_shape<S>(args: Seq<MethodArg<'_, S>>, k: int)
    requires
        0 <= k < type_tuple(args).len(),
    ensures
        name_tuple(args).len() == type_tuple(args).len(),
        name_tuple(args)[k] == Piece::<S>::Code(","@) <==> type_tuple(args)[k] == Piece::<S>::Code(
            ","@,
        ),
        name_tuple(args)[k] is Source <==> type_tuple(args)[k] is Source,
{
    let ty = |arg: MethodArg<'_, S>| seq![arg_type(arg), Piece::Code(","@)];
    if args.len() == 0 {
        lemma_flat_map_of_nothing(args, ty);
    } else {
        law_tuples_have_one_element_per_argument(args, 0);
        law_tuples_have_one_element_per_argument(args, k / 2);
    }
}

/// A method is declared with its arguments in order, each led by a comma and with
/// its type, and called with their names in order, with commas between them.
pub proof fn law_arguments_are_declared_and_passed_in_order<S>(
    args: Seq<MethodArg<'_, S>>,
    i: int,
)
    requires
        0 <= i < args.len(),
    ensures
        params(args).len() == 4 * args.len(),
        params(args)[4 * i] == Piece::<S>::Code(","@),
        params(args)[4 * i + 1] == Piece::<S>::Source(args[i].name.tokens),
        params(args)[4 * i + 2] == Piece::<S>::Code(":"@),
        params(args)[4 * i + 3] == Piece::<S>::Source(*args[i].ty),
        call_args(args).len() == 2 * args.len() - 1,
        call_args(args)[2 * i] == Piece::<S>::Source(args[i].name.tokens),
        i + 1 < args.len() ==> call_args(args)[2 * i + 1] == Piece::<S>::Code(","@),
{
    let param = |arg: MethodArg<'_, S>|
        seq![Piece::Code(","@), arg_name(arg), Piece::Code(":"@), arg_type(arg)];
    lemma_flat_map_index(args, param, 4, i, 0);
    lemma_flat_map_index(args, param, 4, i, 1);
    lemma_flat_map_index(args, param, 4, i, 2);
    lemma_flat_map_index(args, param, 4, i, 3);
    law_commas_stand_between(args.map_values(|arg: MethodArg<'_, S>| arg_name(arg)), i);
}

/// A method without arguments declares, encodes, decodes and passes none.
pub proof fn law_no_arguments_give_empty_lists<S>(args: Seq<MethodArg<'_, S>>)
    requires
        args.len() == 0,
    ensures
        params(args).len() == 0,
        name_tuple(args).len() == 0,
        type_tuple(args).len() == 0,
        call_args(args).len() == 0,
{
    lemma_flat_map_of_nothing(
        args,
        |arg: MethodArg<'_, S>|
            seq![Piece::Code(","@), arg_name(arg), Piece::Code(":"@), arg_type(arg)],
    );
    lemma_flat_map_of_nothing(args, |arg: MethodArg<'_, S>| seq![arg_name(arg), Piece::Code(","@)]);
    lemma_flat_map_of_nothing(args, |arg: MethodArg<'_, S>| seq![arg_type(arg), Piece::Code(","@)]);
}

// ---------------------------------------------------------------------------
// Methods
// ---------------------------------------------------------------------------

/// Whatever its arguments, a method is declared in the trait under its own name,
/// with `&self` in front, and returns a `Send` future of a result with its value
/// type.
pub proof fn law_trait_method_is_declared<S>(method: Method<'_, S>)
    ensures
        trait_method(method) == seq![
            Piece::<S>::Code("fn"@),
            Piece::Source(method.ident.tokens),
            Piece::Open(Delimiter::Parenthesis),
            Piece::Code("&self"@),
        ] + params(method.args@) + seq![
            Piece::Close(Delimiter::Parenthesis),
            Piece::Code("-> impl ::core::future::Future< Output = ::core::result::Result<"@),
            Piece::Source(*method.ok_type),
            Piece::Code(", ::patina_rpc::PatinaError> > + ::core::marker::Send;"@),
        ],
{
    assert(trait_method(method) =~= seq![
        Piece::<S>::Code("fn"@),
        Piece::Source(method.ident.tokens),
        Piece::Open(Delimiter::Parenthesis),
        Piece::Code("&self"@),
    ] + params(method.args@) + seq![
        Piece::Close(Delimiter::Parenthesis),
        Piece::Code("-> impl ::core::future::Future< Output = ::core::result::Result<"@),
        Piece::Source(*method.ok_type),
        Piece::Code(", ::patina_rpc::PatinaError> > + ::core::marker::Send;"@),
    ]);
}

/// Whatever its arguments, a method of the client encodes the tuple of them, calls
/// the name `Trait::method` with the payload, and decodes the reply to the value
/// type of the method.
pub proof fn law_client_method_calls_its_name<S>(
    service: ServiceTrait<'_, S>,
    method: Method<'_, S>,
)
    ensures
        client_method(service, method) == seq![
            Piece::<S>::Code("async fn"@),
            Piece::Source(method.ident.tokens),
            Piece::Open(Delimiter::Parenthesis),
            Piece::Code("&self"@),
        ] + params(method.args@) + seq![
            Piece::Close(Delimiter::Parenthesis),
            Piece::Code("-> ::core::result::Result<"@),
            Piece::Source(*method.ok_type),
            Piece::Code(", ::patina_rpc::PatinaError>"@),
            Piece::Open(Delimiter::Brace),
            Piece::Code("let __payload = ::patina_rpc::__private::encode"@),
            Piece::Open(Delimiter::Parenthesis),
            Piece::Code("&"@),
            Piece::Open(Delimiter::Parenthesis),
        ] + name_tuple(method.args@) + seq![
            Piece::Close(Delimiter::Parenthesis),
            Piece::Close(Delimiter::Parenthesis),
            Piece::Code("?; let __response = self.inner.call"@),
            Piece::Open(Delimiter::Parenthesis),
            Piece::Text(service.ident.text@ + "::"@ + method.ident.text@),
            Piece::Code(", __payload"@),
            Piece::Close(Delimiter::Parenthesis),
            Piece::Code(".await?; ::patina_rpc::__private::decode(&__response)"@),
            Piece::Close(Delimiter::Brace),
        ],
{
    assert(client_method(service, method) =~= seq![
        Piece::<S>::Code("async fn"@),
        Piece::Source(method.ident.tokens),
        Piece::Open(Delimiter::Parenthesis),
        Piece::Code("&self"@),
    ] + params(method.args@) + seq![
        Piece::Close(Delimiter::Parenthesis),
        Piece::Code("-> ::core::result::Result<"@),
        Piece::Source(*method.ok_type),
        Piece::Code(", ::patina_rpc::PatinaError>"@),
        Piece::Open(Delimiter::Brace),
        Piece::Code("let __payload = ::patina_rpc::__private::encode"@),
        Piece::Open(Delimiter::Parenthesis),
        Piece::Code("&"@),
        Piece::Open(Delimiter::Parenthesis),
    ] + name_tuple(method.args@) + seq![
        Piece::Close(Delimiter::Parenthesis),
        Piece::Close(Delimiter::Parenthesis),
        Piece::Code("?; let __response = self.inner.call"@),
        Piece::Open(Delimiter::Parenthesis),
        Piece::Text(service.ident.text@ + "::"@ + method.ident.text@),
        Piece::Code(", __payload"@),
        Piece::Close(Delimiter::Parenthesis),
        Piece::Code(".await?; ::patina_rpc::__private::decode(&__response)"@),
        Piece::Close(Delimiter::Brace),
    ]);
}

/// Whatever its arguments, the arm of a method matches the name `Trait::method`,
/// decodes the payload into the names of the arguments as a tuple of their types,
/// calls the method with them and encodes what it returns.
pub proof fn law_arm_decodes_calls_and_encodes<S>(
    service: ServiceTrait<'_, S>,
    method: Method<'_, S>,
)
    ensures
        dispatch_arm(service, method) == seq![
            Piece::<S>::Text(service.ident.text@ + "::"@ + method.ident.text@),
            Piece::Code("=>"@),
            Piece::Open(Delimiter::Brace),
            Piece::Code("let"@),
            Piece::Open(Delimiter::Parenthesis),
        ] + name_tuple(method.args@) + seq![
            Piece::Close(Delimiter::Parenthesis),
            Piece::Code(":"@),
            Piece::Open(Delimiter::Parenthesis),
        ] + type_tuple(method.args@) + seq![
            Piece::Close(Delimiter::Parenthesis),
            Piece::Code("= ::patina_rpc::__private::decode(&payload)?; let __ret = self.inner."@),
            Piece::Source(method.ident.tokens),
            Piece::Open(Delimiter::Parenthesis),
        ] + call_args(method.args@) + seq![
            Piece::Close(Delimiter::Parenthesis),
            Piece::Code(
                ".await?; ::patina_rpc::__private::encode(&__ret).map_err(::core::convert::Into::into)"@,
            ),
            Piece::Close(Delimiter::Brace),
        ],
{
}

// ---------------------------------------------------------------------------
// Artifacts
// ---------------------------------------------------------------------------

/// Whatever its methods, a service becomes the trait, the client and the server,
/// in this order and with nothing between them.
pub proof fn law_service_is_trait_client_and_server<S>(service: ServiceTrait<'_, S>)
    ensures
        service_tokens(service) == trait_tokens(service) + client_tokens(service) + server_tokens(
            service,
        ),
{
}

/// The trait keeps its attributes, its visibility and its name. Bounds are written
/// behind a colon if there are any.
pub proof fn law_trait_keeps_its_head<S>(service: ServiceTrait<'_, S>)
    ensures
        service.supertraits.bounds == 0 ==> trait_tokens(service) == service.attrs@.map_values(
            |attr: S| Piece::Source(attr),
        ) + seq![
            Piece::<S>::Source(*service.vis),
            Piece::Code("trait"@),
            Piece::Source(service.ident.tokens),
            Piece::Open(Delimiter::Brace),
        ] + service.methods@.flat_map(|method: Method<'_, S>| trait_method(method)) + seq![
            Piece::Close(Delimiter::Brace),
        ],
        service.supertraits.bounds != 0 ==> trait_tokens(service) == service.attrs@.map_values(
            |attr: S| Piece::Source(attr),
        ) + seq![
            Piece::<S>::Source(*service.vis),
            Piece::Code("trait"@),
            Piece::Source(service.ident.tokens),
            Piece::Code(":"@),
            Piece::Source(service.supertraits.tokens),
            Piece::Open(Delimiter::Brace),
        ] + service.methods@.flat_map(|method: Method<'_, S>| trait_method(method)) + seq![
            Piece::Close(Delimiter::Brace),
        ],
{
    let attrs = service.attrs@.map_values(|attr: S| Piece::Source(attr));
    let methods = service.methods@.flat_map(|method: Method<'_, S>| trait_method(method));
    let name = seq![
        Piece::<S>::Source(*service.vis),
        Piece::Code("trait"@),
        Piece::Source(service.ident.tokens),
    ];
    let open = seq![Piece::<S>::Open(Delimiter::Brace)];
    let close = seq![Piece::<S>::Close(Delimiter::Brace)];
    if service.supertraits.bounds == 0 {
        assert(trait_tokens(service) =~= attrs + (name + open) + methods + close);
        assert(name + open =~= seq![
            Piece::<S>::Source(*service.vis),
            Piece::Code("trait"@),
            Piece::Source(service.ident.tokens),
            Piece::Open(Delimiter::Brace),
        ]);
    } else {
        let bounds = seq![
            Piece::<S>::Code(":"@),
            Piece::Source(service.supertraits.tokens),
        ];
        assert(trait_tokens(service) =~= attrs + (name + bounds + open) + methods + close);
        assert(name + bounds + open =~= seq![
            Piece::<S>::Source(*service.vis),
            Piece::Code("trait"@),
            Piece::Source(service.ident.tokens),
            Piece::Code(":"@),
            Piece::Source(service.supertraits.tokens),
            Piece::Open(Delimiter::Brace),
        ]);
    }
}

/// The client is as visible as the trait, is named after it, can be connected and
/// shared, and implements the trait with one method for each method of it, in
/// order.
pub proof fn law_client_implements_every_method<S>(service: ServiceTrait<'_, S>)
    ensures
        ({
            let vis = Piece::<S>::Source(*service.vis);
            let client = Piece::<S>::Name {
                text: plain_name(service.ident.text@) + "Client"@,
                at: service.ident.tokens,
            };
            client_tokens(service) == seq![
                vis,
                Piece::Code("struct"@),
                client,
                Piece::Open(Delimiter::Brace),
                Piece::Code("inner: ::std::sync::Arc<::patina_rpc::Client>,"@),
                Piece::Close(Delimiter::Brace),
                Piece::Code("impl"@),
                client,
                Piece::Open(Delimiter::Brace),
                Piece::Code(CONNECT_DOC@),
                vis,
                Piece::Code(CONNECT@),
                Piece::Code(FROM_CLIENT_DOC@),
                vis,
                Piece::Code(FROM_CLIENT@),
                Piece::Close(Delimiter::Brace),
                Piece::Code("impl"@),
                Piece::Source(service.ident.tokens),
                Piece::Code("for"@),
                client,
                Piece::Open(Delimiter::Brace),
            ] + service.methods@.flat_map(
                |method: Method<'_, S>| client_method(service, method),
            ) + seq![Piece::Close(Delimiter::Brace)]
        }),
{
}

/// The server is as visible as the trait, is named after it, wraps any
/// implementation of it, lists the names of all its methods, and dispatches to
/// each of them, in order, before it refuses any other name.
pub proof fn law_server_dispatches_every_method<S>(service: ServiceTrait<'_, S>)
    ensures
        ({
            let vis = Piece::<S>::Source(*service.vis);
            let ident = Piece::<S>::Source(service.ident.tokens);
            let server = Piece::<S>::Name {
                text: plain_name(service.ident.text@) + "Server"@,
                at: service.ident.tokens,
            };
            server_tokens(service) == seq![
                vis,
                Piece::Code("struct"@),
                server,
                Piece::Code("<__S>"@),
                Piece::Open(Delimiter::Brace),
                Piece::Code("inner: ::std::sync::Arc<__S>,"@),
                Piece::Close(Delimiter::Brace),
                Piece::Code("impl<__S:"@),
                ident,
                Piece::Code(">"@),
                server,
                Piece::Code("<__S>"@),
                Piece::Open(Delimiter::Brace),
                Piece::Code(NEW_DOC@),
                vis,
                Piece::Code(NEW@),
                Piece::Close(Delimiter::Brace),
                Piece::Code("impl<__S> ::patina_rpc::PatinaService for"@),
                server,
                Piece::Code("<__S> where __S:"@),
                ident,
                Piece::Code(SERVER_BOUNDS@),
                Piece::Open(Delimiter::Brace),
                Piece::Code(METHOD_NAMES@),
                Piece::Open(Delimiter::Brace),
                Piece::Code("&"@),
                Piece::Open(Delimiter::Bracket),
            ] + comma_separated(
                service.methods@.map_values(
                    |method: Method<'_, S>|
                        Piece::<S>::Text(service.ident.text@ + "::"@ + method.ident.text@),
                ),
            ) + seq![
                Piece::Close(Delimiter::Bracket),
                Piece::Close(Delimiter::Brace),
                Piece::Code(DISPATCH@),
                Piece::Open(Delimiter::Brace),
                Piece::Code("match method"@),
                Piece::Open(Delimiter::Brace),
            ] + service.methods@.flat_map(
                |method: Method<'_, S>| dispatch_arm(service, method),
            ) + seq![
                Piece::Code(UNKNOWN_ARM@),
                Piece::Close(Delimiter::Brace),
                Piece::Close(Delimiter::Brace),
                Piece::Close(Delimiter::Brace),
            ]
        }),
{
    assert(wire_names(service).map_values(|name: Seq<char>| Piece::<S>::Text(name))
        =~= service.methods@.map_values(
        |method: Method<'_, S>|
            Piece::<S>::Text(service.ident.text@ + "::"@ + method.ident.text@),
    ));
}

/// What is generated for a method depends on the name of the trait and on the
/// method, not on the other methods, of which there may be any number.
pub proof fn law_methods_are_generated_independently<S>(
    a: ServiceTrait<'_, S>,
    b: ServiceTrait<'_, S>,
    method: Method<'_, S>,
)
    requires
        a.ident.text@ == b.ident.text@,
    ensures
        client_method(a, method) == client_method(b, method),
        dispatch_arm(a, method) == dispatch_arm(b, method),
{
}

} // verus!
