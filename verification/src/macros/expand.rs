//! Code generation for a service.
//!
//! For a trait `Calc` three artifacts are generated beside each other:
//!
//! 1. the trait itself, with each `async fn` rewritten to a function that
//!    returns a `Send` future, so that implementations need no attribute;
//! 2. `CalcClient`, a proxy that implements `Calc` by serializing the
//!    arguments, calling over the multiplexer and deserializing the reply;
//! 3. `CalcServer<S>`, which wraps an implementation of `Calc` and dispatches
//!    requests to it by method name.

use crate::macros::model::{Method, MethodArg, ServiceTrait};
use crate::macros::syntax::Ident;
use crate::macros::tokens::{comma_separated, shown, Delimiter, Piece, Token};
use vstd::prelude::*;
use vstd::string::{StrSliceExecFns, StringExecFns};

verus! {

broadcast use {crate::macros::tokens::group_tokens, Seq::lemma_flat_map_take_append};

// ---------------------------------------------------------------------------
// Names
// ---------------------------------------------------------------------------

/// The name of an identifier without the `r#` of a raw one.
pub open spec fn plain_name(text: Seq<char>) -> Seq<char> {
    if text.len() >= 2 && text[0] == 'r' && text[1] == '#' {
        text.skip(2)
    } else {
        text
    }
}

/// The identifier that is made of `ident` by appending `suffix`.
pub open spec fn suffixed<S>(ident: Ident<S>, suffix: Seq<char>) -> Piece<S> {
    Piece::Name { text: plain_name(ident.text@) + suffix, at: ident.tokens }
}

/// The name of a method on the wire: `Trait::method`.
pub open spec fn wire_name<S>(service: ServiceTrait<'_, S>, method: Method<'_, S>) -> Seq<char> {
    service.ident.text@ + "::"@ + method.ident.text@
}

/// The identifier that is made of `ident` by appending `suffix`.
fn push_suffixed<'a, S>(ident: &'a Ident<S>, suffix: &str, out: &mut Vec<Token<'a, S>>)
    ensures
        shown(final(out)@) == shown(old(out)@).push(suffixed(*ident, suffix@)),
{
    let name = ident.text.as_str();
    let len: usize = name.unicode_len();
    let plain = if len >= 2 && name.get_char(0) == 'r' && name.get_char(1) == '#' {
        assert(name@.skip(2) =~= name@.subrange(2, len as int));
        name.substring_char(2, len).to_owned()
    } else {
        name.to_owned()
    };
    out.push(Token::Name { text: plain.concat(suffix), at: &ident.tokens });
}

/// The name of a method on the wire: `Trait::method`.
pub fn wire_method_name<S>(service: &ServiceTrait<'_, S>, method: &Method<'_, S>) -> (name: String)
    ensures
        name@ == wire_name(*service, *method),
{
    service.ident.text.clone().concat("::").concat(method.ident.text.as_str())
}

// ---------------------------------------------------------------------------
// Arguments
// ---------------------------------------------------------------------------

/// The name of an argument.
pub open spec fn arg_name<S>(arg: MethodArg<'_, S>) -> Piece<S> {
    Piece::Source(arg.name.tokens)
}

/// The type of an argument.
pub open spec fn arg_type<S>(arg: MethodArg<'_, S>) -> Piece<S> {
    Piece::Source(*arg.ty)
}

/// Parameters behind `&self`, each led by a comma.
pub open spec fn params<S>(args: Seq<MethodArg<'_, S>>) -> Seq<Piece<S>> {
    args.flat_map(
        |arg: MethodArg<'_, S>|
            seq![Piece::Code(","@), arg_name(arg), Piece::Code(":"@), arg_type(arg)],
    )
}

/// The names of arguments as the elements of a tuple.
pub open spec fn name_tuple<S>(args: Seq<MethodArg<'_, S>>) -> Seq<Piece<S>> {
    args.flat_map(|arg: MethodArg<'_, S>| seq![arg_name(arg), Piece::Code(","@)])
}

/// The types of arguments as the elements of a tuple.
pub open spec fn type_tuple<S>(args: Seq<MethodArg<'_, S>>) -> Seq<Piece<S>> {
    args.flat_map(|arg: MethodArg<'_, S>| seq![arg_type(arg), Piece::Code(","@)])
}

/// The names of arguments in a call.
pub open spec fn call_args<S>(args: Seq<MethodArg<'_, S>>) -> Seq<Piece<S>> {
    comma_separated(args.map_values(|arg: MethodArg<'_, S>| arg_name(arg)))
}

fn push_params<'a, S>(method: &Method<'a, S>, out: &mut Vec<Token<'a, S>>)
    ensures
        shown(final(out)@) == shown(old(out)@) + params(method.args@),
{
    let args = &method.args;
    assert(params(args@.take(0)) =~= seq![]);
    let mut i: usize = 0;
    while i < args.len()
        invariant
            i <= args@.len(),
            shown(out@) == shown(old(out)@) + params(args@.take(i as int)),
        decreases args@.len() - i,
    {
        out.push(Token::Code(","));
        out.push(Token::Source(&args[i].name.tokens));
        out.push(Token::Code(":"));
        out.push(Token::Source(args[i].ty));
        assert(shown(out@) == shown(old(out)@) + params(args@.take(i + 1)));
        i = i + 1;
    }
    assert(args@.take(i as int) =~= args@);
}

fn push_name_tuple<'a, S>(method: &Method<'a, S>, out: &mut Vec<Token<'a, S>>)
    ensures
        shown(final(out)@) == shown(old(out)@) + name_tuple(method.args@),
{
    let args = &method.args;
    assert(name_tuple(args@.take(0)) =~= seq![]);
    let mut i: usize = 0;
    while i < args.len()
        invariant
            i <= args@.len(),
            shown(out@) == shown(old(out)@) + name_tuple(args@.take(i as int)),
        decreases args@.len() - i,
    {
        out.push(Token::Source(&args[i].name.tokens));
        out.push(Token::Code(","));
        assert(shown(out@) == shown(old(out)@) + name_tuple(args@.take(i + 1)));
        i = i + 1;
    }
    assert(args@.take(i as int) =~= args@);
}

fn push_type_tuple<'a, S>(method: &Method<'a, S>, out: &mut Vec<Token<'a, S>>)
    ensures
        shown(final(out)@) == shown(old(out)@) + type_tuple(method.args@),
{
    let args = &method.args;
    assert(type_tuple(args@.take(0)) =~= seq![]);
    let mut i: usize = 0;
    while i < args.len()
        invariant
            i <= args@.len(),
            shown(out@) == shown(old(out)@) + type_tuple(args@.take(i as int)),
        decreases args@.len() - i,
    {
        out.push(Token::Source(args[i].ty));
        out.push(Token::Code(","));
        assert(shown(out@) == shown(old(out)@) + type_tuple(args@.take(i + 1)));
        i = i + 1;
    }
    assert(args@.take(i as int) =~= args@);
}

fn push_call_args<'a, S>(method: &Method<'a, S>, out: &mut Vec<Token<'a, S>>)
    ensures
        shown(final(out)@) == shown(old(out)@) + call_args(method.args@),
{
    let args = &method.args;
    let ghost names = args@.map_values(|arg: MethodArg<'_, S>| arg_name(arg));
    assert(names.take(0) =~= seq![]);
    let mut i: usize = 0;
    while i < args.len()
        invariant
            i <= args@.len(),
            names == args@.map_values(|arg: MethodArg<'_, S>| arg_name(arg)),
            shown(out@) == shown(old(out)@) + comma_separated(names.take(i as int)),
        decreases args@.len() - i,
    {
        assert(names.take(i + 1).drop_last() =~= names.take(i as int));
        assert(names.take(i + 1) =~= names.take(i as int).push(names[i as int]));
        if i > 0 {
            out.push(Token::Code(","));
        }
        out.push(Token::Source(&args[i].name.tokens));
        i = i + 1;
    }
    assert(names.take(i as int) =~= names);
}

// ---------------------------------------------------------------------------
// The trait
// ---------------------------------------------------------------------------

/// Start of the return type of a trait method, up to the type it resolves to.
pub const FUTURE_OF_RESULT: &'static str =
    "-> impl ::core::future::Future< Output = ::core::result::Result<";

/// End of the return type of a trait method.
pub const SEND_FUTURE_END: &'static str = ", ::patina_rpc::PatinaError> > + ::core::marker::Send;";

/// The name and the parameters of a method.
pub open spec fn method_head<S>(method: Method<'_, S>) -> Seq<Piece<S>> {
    seq![
        Piece::Source(method.ident.tokens),
        Piece::Open(Delimiter::Parenthesis),
        Piece::Code("&self"@),
    ] + params(method.args@) + seq![Piece::Close(Delimiter::Parenthesis)]
}

/// The declaration of a method in the generated trait.
pub open spec fn trait_method<S>(method: Method<'_, S>) -> Seq<Piece<S>> {
    seq![Piece::Code("fn"@)] + method_head(method) + seq![
        Piece::Code(FUTURE_OF_RESULT@),
        Piece::Source(*method.ok_type),
        Piece::Code(SEND_FUTURE_END@),
    ]
}

/// The bounds of the generated trait.
pub open spec fn trait_bounds<S>(service: ServiceTrait<'_, S>) -> Seq<Piece<S>> {
    if service.supertraits.bounds == 0 {
        seq![]
    } else {
        seq![Piece::Code(":"@), Piece::Source(service.supertraits.tokens)]
    }
}

/// The generated trait: attributes, visibility, name and bounds as they were,
/// then the methods in order.
pub open spec fn trait_tokens<S>(service: ServiceTrait<'_, S>) -> Seq<Piece<S>> {
    service.attrs@.map_values(|attr: S| Piece::Source(attr)) + seq![
        Piece::Source(*service.vis),
        Piece::Code("trait"@),
        Piece::Source(service.ident.tokens),
    ] + trait_bounds(service) + seq![Piece::Open(Delimiter::Brace)] + service.methods@.flat_map(
        |method: Method<'_, S>| trait_method(method),
    ) + seq![Piece::Close(Delimiter::Brace)]
}

fn push_method_head<'a, S>(method: &Method<'a, S>, out: &mut Vec<Token<'a, S>>)
    ensures
        shown(final(out)@) == shown(old(out)@) + method_head(*method),
{
    out.push(Token::Source(&method.ident.tokens));
    out.push(Token::Open(Delimiter::Parenthesis));
    out.push(Token::Code("&self"));
    push_params(method, out);
    out.push(Token::Close(Delimiter::Parenthesis));
}

fn push_trait_method<'a, S>(method: &Method<'a, S>, out: &mut Vec<Token<'a, S>>)
    ensures
        shown(final(out)@) == shown(old(out)@) + trait_method(*method),
{
    out.push(Token::Code("fn"));
    push_method_head(method, out);
    out.push(Token::Code(FUTURE_OF_RESULT));
    out.push(Token::Source(method.ok_type));
    out.push(Token::Code(SEND_FUTURE_END));
}

/// Generates the trait with each `async fn` rewritten to a function that
/// returns a future.
pub fn expand_trait<'a, S>(service: &ServiceTrait<'a, S>) -> (out: Vec<Token<'a, S>>)
    ensures
        shown(out@) == trait_tokens(*service),
{
    let mut out: Vec<Token<'a, S>> = Vec::new();
    let attrs = service.attrs;
    let ghost all_attrs = attrs@.map_values(|attr: S| Piece::Source(attr));
    let mut i: usize = 0;
    while i < attrs.len()
        invariant
            i <= attrs@.len(),
            all_attrs == attrs@.map_values(|attr: S| Piece::Source(attr)),
            shown(out@) == all_attrs.take(i as int),
        decreases attrs@.len() - i,
    {
        assert(all_attrs.take(i + 1) =~= all_attrs.take(i as int).push(all_attrs[i as int]));
        out.push(Token::Source(&attrs[i]));
        i = i + 1;
    }
    assert(all_attrs.take(i as int) =~= all_attrs);
    out.push(Token::Source(service.vis));
    out.push(Token::Code("trait"));
    out.push(Token::Source(&service.ident.tokens));
    if service.supertraits.bounds != 0 {
        out.push(Token::Code(":"));
        out.push(Token::Source(&service.supertraits.tokens));
    }
    out.push(Token::Open(Delimiter::Brace));
    let ghost head = shown(out@);
    let methods = &service.methods;
    let mut j: usize = 0;
    assert(methods@.take(0).flat_map(|method: Method<'_, S>| trait_method(method)) =~= seq![]);
    while j < methods.len()
        invariant
            j <= methods@.len(),
            shown(out@) == head + methods@.take(j as int).flat_map(
                |method: Method<'_, S>| trait_method(method),
            ),
        decreases methods@.len() - j,
    {
        push_trait_method(&methods[j], &mut out);
        assert(shown(out@) == head + methods@.take(j + 1).flat_map(
            |method: Method<'_, S>| trait_method(method),
        ));
        j = j + 1;
    }
    assert(methods@.take(j as int) =~= methods@);
    out.push(Token::Close(Delimiter::Brace));
    out
}

// ---------------------------------------------------------------------------
// The client
// ---------------------------------------------------------------------------

/// The field of a client.
pub const CLIENT_FIELD: &'static str = "inner: ::std::sync::Arc<::patina_rpc::Client>,";

/// Documentation of the constructor that opens a connection.
pub const CONNECT_DOC: &'static str =
    "#[doc = \" Connect to a Patina server at `addr` and wrap it in this proxy.\"]";

/// The constructor that opens a connection.
pub const CONNECT: &'static str = "async fn connect<__A>(addr: __A)
    -> ::core::result::Result<Self, ::patina_rpc::PatinaError>
where
    __A: ::patina_rpc::__private::ToSocketAddrs,
{
    let __client = ::patina_rpc::Client::connect(addr).await?;
    ::core::result::Result::Ok(Self { inner: ::std::sync::Arc::new(__client) })
}";

/// Documentation of the constructor that shares a connection.
pub const FROM_CLIENT_DOC: &'static str =
    "#[doc = \" Build a proxy from an existing shared `Client` (e.g. to share one\"]
#[doc = \" connection across several service proxies).\"]";

/// The constructor that shares a connection.
pub const FROM_CLIENT: &'static str =
    "fn from_client(inner: ::std::sync::Arc<::patina_rpc::Client>) -> Self { Self { inner } }";

/// Start of a client method's body, up to what is encoded.
pub const ENCODE_ARGS: &'static str = "let __payload = ::patina_rpc::__private::encode";

/// Middle of a client method's body, up to the arguments of the call.
pub const CALL: &'static str = "?; let __response = self.inner.call";

/// End of a client method's body.
pub const DECODE_REPLY: &'static str =
    ".await?; ::patina_rpc::__private::decode(&__response)";

/// A client method from its return type to the tuple of its arguments.
pub open spec fn client_method_start<S>(method: Method<'_, S>) -> Seq<Piece<S>> {
    seq![
        Piece::Code("-> ::core::result::Result<"@),
        Piece::Source(*method.ok_type),
        Piece::Code(", ::patina_rpc::PatinaError>"@),
        Piece::Open(Delimiter::Brace),
        Piece::Code(ENCODE_ARGS@),
        Piece::Open(Delimiter::Parenthesis),
        Piece::Code("&"@),
        Piece::Open(Delimiter::Parenthesis),
    ]
}

/// A client method from the tuple of its arguments to its end.
pub open spec fn client_method_end<S>(service: ServiceTrait<'_, S>, method: Method<'_, S>) -> Seq<
    Piece<S>,
> {
    seq![
        Piece::Close(Delimiter::Parenthesis),
        Piece::Close(Delimiter::Parenthesis),
        Piece::Code(CALL@),
        Piece::Open(Delimiter::Parenthesis),
        Piece::Text(wire_name(service, method)),
        Piece::Code(", __payload"@),
        Piece::Close(Delimiter::Parenthesis),
        Piece::Code(DECODE_REPLY@),
        Piece::Close(Delimiter::Brace),
    ]
}

/// A method of the client: encode the arguments as a tuple, call the method's
/// wire name, decode the reply.
pub open spec fn client_method<S>(service: ServiceTrait<'_, S>, method: Method<'_, S>) -> Seq<
    Piece<S>,
> {
    seq![Piece::Code("async fn"@)] + method_head(method) + client_method_start(method)
        + name_tuple(method.args@) + client_method_end(service, method)
}

/// The client up to its methods: a struct named after the trait, its two
/// constructors, and the head of its implementation of the trait.
pub open spec fn client_head<S>(service: ServiceTrait<'_, S>) -> Seq<Piece<S>> {
    let client = suffixed(*service.ident, "Client"@);
    let vis = Piece::Source(*service.vis);
    seq![
        vis,
        Piece::Code("struct"@),
        client,
        Piece::Open(Delimiter::Brace),
        Piece::Code(CLIENT_FIELD@),
        Piece::Close(Delimiter::Brace),
        Piece::Code("impl"@),
        client,
        Piece::Open(Delimiter::Brace),
        Piece::Code(CONNECT_DOC@),
        vis,
        Piece::Code(CONNECT@),
        Piece::Code(FROM_CLIENT_DOC@),
        vis,
        Piece::Code(FROM_CLIENT@),
        Piece::Close(Delimiter::Brace),
        Piece::Code("impl"@),
        Piece::Source(service.ident.tokens),
        Piece::Code("for"@),
        client,
        Piece::Open(Delimiter::Brace),
    ]
}

/// The client, with one method for each method of the trait.
pub open spec fn client_tokens<S>(service: ServiceTrait<'_, S>) -> Seq<Piece<S>> {
    client_head(service) + service.methods@.flat_map(
        |method: Method<'_, S>| client_method(service, method),
    ) + seq![Piece::Close(Delimiter::Brace)]
}

fn push_client_method<'a, S>(
    service: &ServiceTrait<'a, S>,
    method: &Method<'a, S>,
    out: &mut Vec<Token<'a, S>>,
)
    ensures
        shown(final(out)@) == shown(old(out)@) + client_method(*service, *method),
{
    out.push(Token::Code("async fn"));
    push_method_head(method, out);
    out.push(Token::Code("-> ::core::result::Result<"));
    out.push(Token::Source(method.ok_type));
    out.push(Token::Code(", ::patina_rpc::PatinaError>"));
    out.push(Token::Open(Delimiter::Brace));
    out.push(Token::Code(ENCODE_ARGS));
    out.push(Token::Open(Delimiter::Parenthesis));
    out.push(Token::Code("&"));
    out.push(Token::Open(Delimiter::Parenthesis));
    push_name_tuple(method, out);
    out.push(Token::Close(Delimiter::Parenthesis));
    out.push(Token::Close(Delimiter::Parenthesis));
    out.push(Token::Code(CALL));
    out.push(Token::Open(Delimiter::Parenthesis));
    out.push(Token::Text(wire_method_name(service, method)));
    out.push(Token::Code(", __payload"));
    out.push(Token::Close(Delimiter::Parenthesis));
    out.push(Token::Code(DECODE_REPLY));
    out.push(Token::Close(Delimiter::Brace));
}

/// Generates the client of a service.
pub fn expand_client<'a, S>(service: &ServiceTrait<'a, S>) -> (out: Vec<Token<'a, S>>)
    ensures
        shown(out@) == client_tokens(*service),
{
    let mut out: Vec<Token<'a, S>> = Vec::new();
    out.push(Token::Source(service.vis));
    out.push(Token::Code("struct"));
    push_suffixed(service.ident, "Client", &mut out);
    out.push(Token::Open(Delimiter::Brace));
    out.push(Token::Code(CLIENT_FIELD));
    out.push(Token::Close(Delimiter::Brace));
    out.push(Token::Code("impl"));
    push_suffixed(service.ident, "Client", &mut out);
    out.push(Token::Open(Delimiter::Brace));
    out.push(Token::Code(CONNECT_DOC));
    out.push(Token::Source(service.vis));
    out.push(Token::Code(CONNECT));
    out.push(Token::Code(FROM_CLIENT_DOC));
    out.push(Token::Source(service.vis));
    out.push(Token::Code(FROM_CLIENT));
    out.push(Token::Close(Delimiter::Brace));
    out.push(Token::Code("impl"));
    out.push(Token::Source(&service.ident.tokens));
    out.push(Token::Code("for"));
    push_suffixed(service.ident, "Client", &mut out);
    out.push(Token::Open(Delimiter::Brace));
    let ghost head = shown(out@);
    let methods = &service.methods;
    let mut i: usize = 0;
    assert(methods@.take(0).flat_map(|method: Method<'_, S>| client_method(*service, method))
        =~= seq![]);
    while i < methods.len()
        invariant
            i <= methods@.len(),
            *methods == service.methods,
            shown(out@) == head + methods@.take(i as int).flat_map(
                |method: Method<'_, S>| client_method(*service, method),
            ),
        decreases methods@.len() - i,
    {
        push_client_method(service, &methods[i], &mut out);
        assert(shown(out@) == head + methods@.take(i + 1).flat_map(
            |method: Method<'_, S>| client_method(*service, method),
        ));
        i = i + 1;
    }
    assert(methods@.take(i as int) =~= methods@);
    out.push(Token::Close(Delimiter::Brace));
    out
}

// ---------------------------------------------------------------------------
// The server
// ---------------------------------------------------------------------------

/// The field of a server.
pub const SERVER_FIELD: &'static str = "inner: ::std::sync::Arc<__S>,";

/// Documentation of the constructor of a server.
pub const NEW_DOC: &'static str =
    "#[doc = \" Wrap a service implementation. Pass the result to\"]
#[doc = \" `ServerBuilder::add_service`.\"]";

/// The constructor of a server.
pub const NEW: &'static str =
    "fn new(inner: __S) -> Self { Self { inner: ::std::sync::Arc::new(inner) } }";

/// Bounds on the wrapped implementation behind the trait itself.
pub const SERVER_BOUNDS: &'static str =
    "+ ::core::marker::Send + ::core::marker::Sync + 'static,";

/// Head of the function that lists the methods.
pub const METHOD_NAMES: &'static str = "fn method_names(&self) -> &'static [&'static str]";

/// Head of the dispatcher.
pub const DISPATCH: &'static str =
    "async fn dispatch(&self, method: &str, payload: ::std::vec::Vec<u8>)
    -> ::core::result::Result<::std::vec::Vec<u8>, ::patina_rpc::HandlerError>";

/// The arm of the dispatcher for a name that no method has.
pub const UNKNOWN_ARM: &'static str = "__unknown => ::core::result::Result::Err(
    ::patina_rpc::HandlerError::new(
        404,
        ::std::format!(\"unknown method: {__unknown}\"),
    ),
),";

/// Middle of an arm, up to the name of the method that is called.
pub const DECODE_ARGS: &'static str =
    "= ::patina_rpc::__private::decode(&payload)?; let __ret = self.inner.";

/// End of an arm.
pub const ENCODE_REPLY: &'static str =
    ".await?; ::patina_rpc::__private::encode(&__ret).map_err(::core::convert::Into::into)";

/// The arm of the dispatcher for a method: decode the arguments from a tuple,
/// call the method, encode what it returns.
pub open spec fn dispatch_arm<S>(service: ServiceTrait<'_, S>, method: Method<'_, S>) -> Seq<
    Piece<S>,
> {
    seq![
        Piece::Text(wire_name(service, method)),
        Piece::Code("=>"@),
        Piece::Open(Delimiter::Brace),
        Piece::Code("let"@),
        Piece::Open(Delimiter::Parenthesis),
    ] + name_tuple(method.args@) + seq![
        Piece::Close(Delimiter::Parenthesis),
        Piece::Code(":"@),
        Piece::Open(Delimiter::Parenthesis),
    ] + type_tuple(method.args@) + seq![
        Piece::Close(Delimiter::Parenthesis),
        Piece::Code(DECODE_ARGS@),
        Piece::Source(method.ident.tokens),
        Piece::Open(Delimiter::Parenthesis),
    ] + call_args(method.args@) + seq![
        Piece::Close(Delimiter::Parenthesis),
        Piece::Code(ENCODE_REPLY@),
        Piece::Close(Delimiter::Brace),
    ]
}

/// The names of all methods on the wire, in order.
pub open spec fn wire_names<S>(service: ServiceTrait<'_, S>) -> Seq<Seq<char>> {
    service.methods@.map_values(|method: Method<'_, S>| wire_name(service, method))
}

/// The names of all methods on the wire, as a list of string literals.
pub open spec fn wire_name_list<S>(service: ServiceTrait<'_, S>) -> Seq<Piece<S>> {
    comma_separated(wire_names(service).map_values(|name: Seq<char>| Piece::Text(name)))
}

/// The server up to the names of its methods: a struct named after the trait,
/// its constructor, and the head of its implementation of the dispatcher.
pub open spec fn server_head<S>(service: ServiceTrait<'_, S>) -> Seq<Piece<S>> {
    let server = suffixed(*service.ident, "Server"@);
    let vis = Piece::Source(*service.vis);
    let ident = Piece::Source(service.ident.tokens);
    seq![
        vis,
        Piece::Code("struct"@),
        server,
        Piece::Code("<__S>"@),
        Piece::Open(Delimiter::Brace),
        Piece::Code(SERVER_FIELD@),
        Piece::Close(Delimiter::Brace),
        Piece::Code("impl<__S:"@),
        ident,
        Piece::Code(">"@),
        server,
        Piece::Code("<__S>"@),
        Piece::Open(Delimiter::Brace),
        Piece::Code(NEW_DOC@),
        vis,
        Piece::Code(NEW@),
        Piece::Close(Delimiter::Brace),
        Piece::Code("impl<__S> ::patina_rpc::PatinaService for"@),
        server,
        Piece::Code("<__S> where __S:"@),
        ident,
        Piece::Code(SERVER_BOUNDS@),
        Piece::Open(Delimiter::Brace),
        Piece::Code(METHOD_NAMES@),
        Piece::Open(Delimiter::Brace),
        Piece::Code("&"@),
        Piece::Open(Delimiter::Bracket),
    ]
}

/// The server between the names of its methods and the arms of its dispatcher.
pub open spec fn server_middle<S>() -> Seq<Piece<S>> {
    seq![
        Piece::Close(Delimiter::Bracket),
        Piece::Close(Delimiter::Brace),
        Piece::Code(DISPATCH@),
        Piece::Open(Delimiter::Brace),
        Piece::Code("match method"@),
        Piece::Open(Delimiter::Brace),
    ]
}

/// The server behind the arms for its methods.
pub open spec fn server_end<S>() -> Seq<Piece<S>> {
    seq![
        Piece::Code(UNKNOWN_ARM@),
        Piece::Close(Delimiter::Brace),
        Piece::Close(Delimiter::Brace),
        Piece::Close(Delimiter::Brace),
    ]
}

/// The server, which lists the names of the methods and dispatches on them.
pub open spec fn server_tokens<S>(service: ServiceTrait<'_, S>) -> Seq<Piece<S>> {
    server_head(service) + wire_name_list(service) + server_middle() + service.methods@.flat_map(
        |method: Method<'_, S>| dispatch_arm(service, method),
    ) + server_end()
}

fn push_dispatch_arm<'a, S>(
    service: &ServiceTrait<'a, S>,
    method: &Method<'a, S>,
    out: &mut Vec<Token<'a, S>>,
)
    ensures
        shown(final(out)@) == shown(old(out)@) + dispatch_arm(*service, *method),
{
    out.push(Token::Text(wire_method_name(service, method)));
    out.push(Token::Code("=>"));
    out.push(Token::Open(Delimiter::Brace));
    out.push(Token::Code("let"));
    out.push(Token::Open(Delimiter::Parenthesis));
    push_name_tuple(method, out);
    out.push(Token::Close(Delimiter::Parenthesis));
    out.push(Token::Code(":"));
    out.push(Token::Open(Delimiter::Parenthesis));
    push_type_tuple(method, out);
    out.push(Token::Close(Delimiter::Parenthesis));
    out.push(Token::Code(DECODE_ARGS));
    out.push(Token::Source(&method.ident.tokens));
    out.push(Token::Open(Delimiter::Parenthesis));
    push_call_args(method, out);
    out.push(Token::Close(Delimiter::Parenthesis));
    out.push(Token::Code(ENCODE_REPLY));
    out.push(Token::Close(Delimiter::Brace));
}

fn push_wire_names<'a, S>(service: &ServiceTrait<'a, S>, out: &mut Vec<Token<'a, S>>)
    ensures
        shown(final(out)@) == shown(old(out)@) + wire_name_list(*service),
{
    let methods = &service.methods;
    let ghost names = wire_names(*service).map_values(|name: Seq<char>| Piece::<S>::Text(name));
    assert(names.take(0) =~= seq![]);
    let mut i: usize = 0;
    while i < methods.len()
        invariant
            i <= methods@.len(),
            *methods == service.methods,
            names == wire_names(*service).map_values(|name: Seq<char>| Piece::<S>::Text(name)),
            shown(out@) == shown(old(out)@) + comma_separated(names.take(i as int)),
        decreases methods@.len() - i,
    {
        assert(names.take(i + 1).drop_last() =~= names.take(i as int));
        assert(names.take(i + 1) =~= names.take(i as int).push(names[i as int]));
        if i > 0 {
            out.push(Token::Code(","));
        }
        out.push(Token::Text(wire_method_name(service, &methods[i])));
        i = i + 1;
    }
    assert(names.take(i as int) =~= names);
}

fn push_dispatch_arms<'a, S>(service: &ServiceTrait<'a, S>, out: &mut Vec<Token<'a, S>>)
    ensures
        shown(final(out)@) == shown(old(out)@) + service.methods@.flat_map(
            |method: Method<'_, S>| dispatch_arm(*service, method),
        ),
{
    let methods = &service.methods;
    let mut i: usize = 0;
    assert(methods@.take(0).flat_map(|method: Method<'_, S>| dispatch_arm(*service, method))
        =~= seq![]);
    while i < methods.len()
        invariant
            i <= methods@.len(),
            *methods == service.methods,
            shown(out@) == shown(old(out)@) + methods@.take(i as int).flat_map(
                |method: Method<'_, S>| dispatch_arm(*service, method),
            ),
        decreases methods@.len() - i,
    {
        push_dispatch_arm(service, &methods[i], out);
        assert(shown(out@) == shown(old(out)@) + methods@.take(i + 1).flat_map(
            |method: Method<'_, S>| dispatch_arm(*service, method),
        ));
        i = i + 1;
    }
    assert(methods@.take(i as int) =~= methods@);
}

/// Generates the server of a service.
pub fn expand_server<'a, S>(service: &ServiceTrait<'a, S>) -> (out: Vec<Token<'a, S>>)
    ensures
        shown(out@) == server_tokens(*service),
{
    let mut out: Vec<Token<'a, S>> = Vec::new();
    out.push(Token::Source(service.vis));
    out.push(Token::Code("struct"));
    push_suffixed(service.ident, "Server", &mut out);
    out.push(Token::Code("<__S>"));
    out.push(Token::Open(Delimiter::Brace));
    out.push(Token::Code(SERVER_FIELD));
    out.push(Token::Close(Delimiter::Brace));
    out.push(Token::Code("impl<__S:"));
    out.push(Token::Source(&service.ident.tokens));
    out.push(Token::Code(">"));
    push_suffixed(service.ident, "Server", &mut out);
    out.push(Token::Code("<__S>"));
    out.push(Token::Open(Delimiter::Brace));
    out.push(Token::Code(NEW_DOC));
    out.push(Token::Source(service.vis));
    out.push(Token::Code(NEW));
    out.push(Token::Close(Delimiter::Brace));
    out.push(Token::Code("impl<__S> ::patina_rpc::PatinaService for"));
    push_suffixed(service.ident, "Server", &mut out);
    out.push(Token::Code("<__S> where __S:"));
    out.push(Token::Source(&service.ident.tokens));
    out.push(Token::Code(SERVER_BOUNDS));
    out.push(Token::Open(Delimiter::Brace));
    out.push(Token::Code(METHOD_NAMES));
    out.push(Token::Open(Delimiter::Brace));
    out.push(Token::Code("&"));
    out.push(Token::Open(Delimiter::Bracket));
    push_wire_names(service, &mut out);
    out.push(Token::Close(Delimiter::Bracket));
    out.push(Token::Close(Delimiter::Brace));
    out.push(Token::Code(DISPATCH));
    out.push(Token::Open(Delimiter::Brace));
    out.push(Token::Code("match method"));
    out.push(Token::Open(Delimiter::Brace));
    push_dispatch_arms(service, &mut out);
    out.push(Token::Code(UNKNOWN_ARM));
    out.push(Token::Close(Delimiter::Brace));
    out.push(Token::Close(Delimiter::Brace));
    out.push(Token::Close(Delimiter::Brace));
    out
}

// ---------------------------------------------------------------------------
// All of it
// ---------------------------------------------------------------------------

/// All the code that is generated for a service.
pub open spec fn service_tokens<S>(service: ServiceTrait<'_, S>) -> Seq<Piece<S>> {
    trait_tokens(service) + client_tokens(service) + server_tokens(service)
}

/// Generates the trait, the client and the server of a service.
pub fn expand<'a, S>(service: &ServiceTrait<'a, S>) -> (out: Vec<Token<'a, S>>)
    ensures
        shown(out@) == service_tokens(*service),
{
    let mut out = expand_trait(service);
    let mut client = expand_client(service);
    let mut server = expand_server(service);
    out.append(&mut client);
    out.append(&mut server);
    out
}

} // verus!
