//! The service attribute: which traits it takes and what it makes of them.

use patina_rpc::macros::expand::{expand, wire_method_name};
use patina_rpc::macros::model::{parse_result_ok, ServiceTrait};
use patina_rpc::macros::reader::{read_item, Fragment};
use patina_rpc::macros::generate;
use patina_rpc::macros::syntax::{
    FnArg, ItemSyntax, Receiver, ReturnType, TraitSyntax, Type, TypePath,
};
use patina_rpc::macros::tokens::Token;
use patina_rpc::macros::writer::assemble;
use patina_rpc::service;
use proc_macro2::TokenStream;
use std::str::FromStr;

/// Tokens as text, with one space between each two.
fn spaced(tokens: proc_macro2::TokenStream) -> String {
    let mut words = Vec::new();
    for token in tokens {
        match token {
            proc_macro2::TokenTree::Group(group) => {
                let (open, close) = match group.delimiter() {
                    proc_macro2::Delimiter::Parenthesis => ("(", ")"),
                    proc_macro2::Delimiter::Bracket => ("[", "]"),
                    proc_macro2::Delimiter::Brace => ("{", "}"),
                    proc_macro2::Delimiter::None => ("", ""),
                };
                words.push(open.to_string());
                words.push(spaced(group.stream()));
                words.push(close.to_string());
            }
            other => words.push(other.to_string()),
        }
    }
    words.retain(|word| !word.is_empty());
    // The tick of a lifetime belongs to its name.
    words.join(" ").replace("' ", "'")
}

fn tokens(source: &str) -> TokenStream {
    TokenStream::from_str(source).expect("tokens")
}

/// Source text with its layout taken out.
fn normal(source: &str) -> String {
    spaced(tokens(source))
}

/// The text of a source fragment.
fn text(fragment: &Fragment) -> String {
    match fragment {
        Fragment::Tokens(stream) => spaced(stream.clone()),
        Fragment::Position(_) => "a position".to_string(),
    }
}

fn item(source: &str) -> Result<TraitSyntax<Fragment>, Fragment> {
    read_item(tokens(source))
}

// ---------------------------------------------------------------------------
// Rules
// ---------------------------------------------------------------------------

/// Asserts that an item is refused with this message, pointed at this source, and
/// that a compile error takes its place.
fn refused(source: &str, at: &str, message: &str) {
    match generate(&item(source)) {
        Err(error) => {
            assert_eq!(error.message, message, "{source}");
            assert_eq!(text(error.at), normal(at), "{source}");
        }
        Ok(_) => panic!("accepted: {source}"),
    }
    let code = service(TokenStream::new(), tokens(source)).expect("a compile error");
    assert_eq!(
        spaced(code),
        format!(": : core : : compile_error ! {{ {message:?} }}"),
        "{source}"
    );
}

/// Asserts that a trait with this method is refused.
fn method_refused(method: &str, at: &str, message: &str) {
    refused(&format!("trait Bad {{ {method} }}"), at, message);
}

const WRONG_RETURN: &str = "service methods must return `Result<T, PatinaError>`";

const NOT_REF_SELF: &str = "service methods must take `&self` (not `&mut self` or `self`)";

const NO_RECEIVER: &str = "service methods must take `&self` as the first argument";

#[test]
fn ui() {
    refused("trait Bad { async fn wrong(&self) -> i32; }", "i32", WRONG_RETURN);
    refused(
        "trait Bad { async fn has_body(&self) -> Result<(), PatinaError> { Ok(()) } }",
        "async fn has_body(&self) -> Result<(), PatinaError> { Ok(()) }",
        "service methods cannot have a default body",
    );
    refused(
        "trait Bad { async fn takes_mut(&mut self) -> Result<(), PatinaError>; }",
        "&mut self",
        NOT_REF_SELF,
    );
    refused(
        "trait Bad { fn not_async(&self) -> Result<(), PatinaError>; }",
        "fn",
        "service methods must be `async`",
    );
}

#[test]
fn only_traits_are_taken() {
    for source in ["struct Calc;", "fn calc() {}", "trait", ""] {
        refused(source, "a position", "#[patina::service] may only be applied to a trait");
    }
}

#[test]
fn generic_traits_are_refused() {
    let message = "#[patina::service] traits cannot be generic";
    refused("trait Bad<T> {}", "<T>", message);
    refused("trait Bad<'a, const N: usize> {}", "<'a, const N: usize>", message);
}

#[test]
fn traits_hold_only_methods() {
    let message = "#[patina::service] traits may only contain methods";
    refused(
        "trait Bad { async fn m(&self) -> Result<u8, PatinaError>; type Output; const N: u8; }",
        "type Output;",
        message,
    );
    refused("trait Bad { const N: u8 = 3; }", "const N: u8 = 3;", message);
}

#[test]
fn generic_methods_are_refused() {
    method_refused(
        "async fn any<T>(&self, value: T) -> Result<T, PatinaError>;",
        "<T>",
        "service methods cannot be generic",
    );
}

#[test]
fn receiver_is_a_plain_reference() {
    method_refused("async fn m(self) -> Result<u8, PatinaError>;", "self", NOT_REF_SELF);
    method_refused("async fn m(mut self) -> Result<u8, PatinaError>;", "mut self", NOT_REF_SELF);
    method_refused(
        "async fn m(self: &Self) -> Result<u8, PatinaError>;",
        "self: &Self",
        NOT_REF_SELF,
    );
    method_refused(
        "async fn m() -> Result<u8, PatinaError>;",
        "async fn m() -> Result<u8, PatinaError>",
        NO_RECEIVER,
    );
    method_refused(
        "async fn m(a: u8) -> Result<u8, PatinaError>;",
        "async fn m(a: u8) -> Result<u8, PatinaError>",
        NO_RECEIVER,
    );
    let input = item("trait Good { async fn m(&'static self) -> Result<u8, PatinaError>; }");
    assert!(generate(&input).is_ok(), "a lifetime on `&self` is fine");
}

#[test]
fn arguments_are_plain_names() {
    let message = "service method arguments must be simple identifiers";
    method_refused(
        "async fn m(&self, x: u8, (a, b): (u8, u8)) -> Result<u8, PatinaError>;",
        "(a, b)",
        message,
    );
    method_refused("async fn m(&self, _: u8) -> Result<u8, PatinaError>;", "_", message);

    // Source text cannot hold a second `self`; a syntax tree can.
    let mut input = item("trait Bad { async fn m(&self) -> Result<u8, PatinaError>; }");
    if let Ok(TraitSyntax { items, .. }) = &mut input {
        if let ItemSyntax::Fn(method) = &mut items[0] {
            method.sig.inputs.push(FnArg::Receiver(Receiver {
                tokens: Fragment::Tokens(tokens("again")),
                reference: true,
                mutability: false,
            }));
        }
    }
    match generate(&input) {
        Err(e) => {
            assert_eq!(text(e.at), "again");
            assert_eq!(e.message, "unexpected `self` after the first argument");
        }
        Ok(_) => panic!("a second receiver was accepted"),
    }
}

#[test]
fn return_type_is_a_result_of_patina_error() {
    method_refused("async fn m(&self);", "", WRONG_RETURN);
    method_refused("async fn m(&self) -> &'static str;", "&'static str", WRONG_RETURN);
    method_refused("async fn m(&self) -> std::io::Option<u8>;", "Option", WRONG_RETURN);
    method_refused("async fn m(&self) -> fmt::Result;", "Result", WRONG_RETURN);
    method_refused("async fn m(&self) -> io::Result<u8>;", "<u8>", WRONG_RETURN);
    method_refused(
        "async fn m(&self) -> Result<u8, PatinaError, u8>;",
        "<u8, PatinaError, u8>",
        WRONG_RETURN,
    );
    method_refused(
        "async fn m(&self) -> Result<u8, std::io::Error>;",
        "std::io::Error",
        WRONG_RETURN,
    );
    method_refused("async fn m(&self) -> Result<u8, ()>;", "()", WRONG_RETURN);

    let nothing = TypePath { tokens: "nothing", segments: vec![] };
    match parse_result_ok(&ReturnType::Type(Type::Path(nothing))) {
        Err(e) => assert_eq!(*e.at, "nothing"),
        Ok(_) => panic!("a path without segments was accepted"),
    }
}

#[test]
fn arguments_of_a_result_are_two_types() {
    for arguments in [
        "<'static, i32, PatinaError>",
        "<i32, PatinaError, 3>",
        "<'static, PatinaError>",
        "<3, PatinaError>",
        "<i32, 3>",
        "<i32, Error = PatinaError>",
        "<>",
    ] {
        let method = format!("async fn m(&self) -> Result{arguments};");
        method_refused(&method, arguments, WRONG_RETURN);
    }
}

/// The `T` of a method's return type.
fn ok_type(returned: &str) -> String {
    let input = item(&format!("trait T {{ async fn m(&self) {returned}; }}"));
    let parsed = ServiceTrait::parse(&input).unwrap_or_else(|e| panic!("{}", e.message));
    text(parsed.methods[0].ok_type)
}

#[test]
fn value_type_is_extracted() {
    assert_eq!(ok_type("-> Result<i32, PatinaError>"), "i32");
    assert_eq!(ok_type("-> std::result::Result<(), patina_rpc::PatinaError>"), normal("()"));
    assert_eq!(
        ok_type("-> Result<Option<Vec<u8>>, ::patina_rpc::PatinaError>"),
        normal("Option<Vec<u8>>")
    );
}

#[test]
fn method_is_read_in_order() {
    let input = item(
        "trait T {
            async fn put(&self, key: String, mut n: u64) -> Result<bool, PatinaError>;
            async fn get(&self) -> Result<u8, PatinaError>;
        }",
    );
    let parsed = ServiceTrait::parse(&input).unwrap_or_else(|e| panic!("{}", e.message));
    let names: Vec<&str> = parsed.methods.iter().map(|m| m.ident.text.as_str()).collect();
    assert_eq!(names, vec!["put", "get"]);
    let args: Vec<(String, String)> = parsed.methods[0]
        .args
        .iter()
        .map(|arg| (arg.name.text.clone(), text(arg.ty)))
        .collect();
    assert_eq!(
        args,
        vec![("key".to_string(), "String".to_string()), ("n".to_string(), "u64".to_string())]
    );
    assert_eq!(text(parsed.methods[0].ok_type), "bool");
}

#[test]
fn first_fault_is_reported() {
    method_refused("fn both(self) {}", "fn", "service methods must be `async`");
    method_refused(
        "async fn good(&self) -> Result<u8, PatinaError>; async fn second(); fn third();",
        "async fn second()",
        NO_RECEIVER,
    );
    refused("trait Bad<T> { fn m(); }", "<T>", "#[patina::service] traits cannot be generic");
}

// ---------------------------------------------------------------------------
// Generated code
// ---------------------------------------------------------------------------

const CALC_TRAIT: &str = "
#[doc = \" Sums.\"]
#[allow(dead_code)]
pub trait Calc: Send + Sync + 'static {
    async fn add(&self, a: i32, b: i32) -> Result<i32, PatinaError>;
    async fn ping(&self) -> Result<String, PatinaError>;
    async fn boom(&self) -> Result<(), PatinaError>;
}
";

/// The code that is generated for a trait, which has to be well-formed.
fn generated(source: &str) -> String {
    let code = service(tokens("whatever = 1"), tokens(source)).expect("code");
    let text = spaced(code.clone());
    assert!(syn::parse2::<syn::File>(code).is_ok(), "{text}");
    text
}

const CALC: &str = r#"
#[doc = " Sums."]
#[allow(dead_code)]
pub trait Calc: Send + Sync + 'static {
    fn add(&self, a: i32, b: i32)
        -> impl ::core::future::Future<
            Output = ::core::result::Result<i32, ::patina_rpc::PatinaError>
        > + ::core::marker::Send;
    fn ping(&self)
        -> impl ::core::future::Future<
            Output = ::core::result::Result<String, ::patina_rpc::PatinaError>
        > + ::core::marker::Send;
    fn boom(&self)
        -> impl ::core::future::Future<
            Output = ::core::result::Result<(), ::patina_rpc::PatinaError>
        > + ::core::marker::Send;
}

pub struct CalcClient {
    inner: ::std::sync::Arc<::patina_rpc::Client>,
}

impl CalcClient {
    /// Connect to a Patina server at `addr` and wrap it in this proxy.
    pub async fn connect<__A>(addr: __A)
        -> ::core::result::Result<Self, ::patina_rpc::PatinaError>
    where
        __A: ::patina_rpc::__private::ToSocketAddrs,
    {
        let __client = ::patina_rpc::Client::connect(addr).await?;
        ::core::result::Result::Ok(Self { inner: ::std::sync::Arc::new(__client) })
    }

    /// Build a proxy from an existing shared `Client` (e.g. to share one
    /// connection across several service proxies).
    pub fn from_client(inner: ::std::sync::Arc<::patina_rpc::Client>) -> Self {
        Self { inner }
    }
}

impl Calc for CalcClient {
    async fn add(&self, a: i32, b: i32)
        -> ::core::result::Result<i32, ::patina_rpc::PatinaError>
    {
        let __payload = ::patina_rpc::__private::encode(&(a, b,))?;
        let __response = self.inner.call("Calc::add", __payload).await?;
        ::patina_rpc::__private::decode(&__response)
    }
    async fn ping(&self) -> ::core::result::Result<String, ::patina_rpc::PatinaError> {
        let __payload = ::patina_rpc::__private::encode(&())?;
        let __response = self.inner.call("Calc::ping", __payload).await?;
        ::patina_rpc::__private::decode(&__response)
    }
    async fn boom(&self) -> ::core::result::Result<(), ::patina_rpc::PatinaError> {
        let __payload = ::patina_rpc::__private::encode(&())?;
        let __response = self.inner.call("Calc::boom", __payload).await?;
        ::patina_rpc::__private::decode(&__response)
    }
}

pub struct CalcServer<__S> {
    inner: ::std::sync::Arc<__S>,
}

impl<__S: Calc> CalcServer<__S> {
    /// Wrap a service implementation. Pass the result to
    /// `ServerBuilder::add_service`.
    pub fn new(inner: __S) -> Self {
        Self { inner: ::std::sync::Arc::new(inner) }
    }
}

impl<__S> ::patina_rpc::PatinaService for CalcServer<__S>
where
    __S: Calc + ::core::marker::Send + ::core::marker::Sync + 'static,
{
    fn method_names(&self) -> &'static [&'static str] {
        &["Calc::add", "Calc::ping", "Calc::boom"]
    }

    async fn dispatch(&self, method: &str, payload: ::std::vec::Vec<u8>)
        -> ::core::result::Result<::std::vec::Vec<u8>, ::patina_rpc::HandlerError>
    {
        match method {
            "Calc::add" => {
                let (a, b,): (i32, i32,) = ::patina_rpc::__private::decode(&payload)?;
                let __ret = self.inner.add(a, b).await?;
                ::patina_rpc::__private::encode(&__ret).map_err(::core::convert::Into::into)
            }
            "Calc::ping" => {
                let (): () = ::patina_rpc::__private::decode(&payload)?;
                let __ret = self.inner.ping().await?;
                ::patina_rpc::__private::encode(&__ret).map_err(::core::convert::Into::into)
            }
            "Calc::boom" => {
                let (): () = ::patina_rpc::__private::decode(&payload)?;
                let __ret = self.inner.boom().await?;
                ::patina_rpc::__private::encode(&__ret).map_err(::core::convert::Into::into)
            }
            __unknown => ::core::result::Result::Err(
                ::patina_rpc::HandlerError::new(
                    404,
                    ::std::format!("unknown method: {__unknown}"),
                ),
            ),
        }
    }
}
"#;

#[test]
fn generated_code_of_a_service() {
    assert_eq!(generated(CALC_TRAIT), normal(CALC));
}

#[test]
fn trait_without_bounds_or_methods() {
    let code = generated("trait Empty {}");
    assert!(code.starts_with(&normal("trait Empty {} struct EmptyClient")));
    assert!(code.contains(&normal("fn method_names(&self) -> &'static [&'static str] { &[] }")));
}

#[test]
fn bounds_and_visibility_are_kept() {
    let code = generated("pub(crate) trait Store: Send {}");
    assert!(code.starts_with(&normal("pub(crate) trait Store: Send {}")));
    assert!(code.contains(&normal("pub(crate) struct StoreServer<__S>")));
}

#[test]
fn fixed_code_is_balanced_in_itself() {
    let input = item(CALC_TRAIT);
    let tokens = generate(&input).unwrap_or_else(|e| panic!("{}", e.message));
    for token in &tokens {
        if let Token::Code(code) = token {
            assert!(TokenStream::from_str(code).is_ok(), "{code}");
        }
    }
}

#[test]
fn brackets_are_closed_by_their_kind() {
    let input = item(CALC_TRAIT);
    let parsed = ServiceTrait::parse(&input).unwrap_or_else(|e| panic!("{}", e.message));
    let mut open = Vec::new();
    for token in expand(&parsed) {
        match token {
            Token::Open(delimiter) => open.push(delimiter),
            Token::Close(delimiter) => assert_eq!(open.pop(), Some(delimiter)),
            _ => {}
        }
    }
    assert!(open.is_empty());
}

#[test]
fn client_and_server_use_the_same_wire_names() {
    let input = item(CALC_TRAIT);
    let parsed = ServiceTrait::parse(&input).unwrap_or_else(|e| panic!("{}", e.message));
    let names: Vec<String> =
        parsed.methods.iter().map(|method| wire_method_name(&parsed, method)).collect();
    assert_eq!(names, vec!["Calc::add", "Calc::ping", "Calc::boom"]);

    let texts: Vec<String> = expand(&parsed)
        .into_iter()
        .filter_map(|token| match token {
            Token::Text(text) => Some(text),
            _ => None,
        })
        .collect();
    // The client's calls, the server's list and the server's arms.
    assert_eq!(texts, [names.clone(), names.clone(), names].concat());
}

#[test]
fn names_of_raw_identifiers() {
    let input = item("trait r#Match { async fn r#type(&self) -> Result<u8, PatinaError>; }");
    let parsed = ServiceTrait::parse(&input).unwrap_or_else(|e| panic!("{}", e.message));
    assert_eq!(wire_method_name(&parsed, &parsed.methods[0]), "r#Match::r#type");
    let made_up: Vec<(String, String)> = expand(&parsed)
        .into_iter()
        .filter_map(|token| match token {
            Token::Name { text: name, at } => Some((name, text(at))),
            _ => None,
        })
        .collect();
    let client = ("MatchClient".to_string(), "r#Match".to_string());
    let server = ("MatchServer".to_string(), "r#Match".to_string());
    assert_eq!(
        made_up,
        vec![client.clone(), client.clone(), client, server.clone(), server.clone(), server]
    );
}

#[test]
fn names_may_hold_other_letters() {
    let code = generated("trait \u{c4}pfel {}");
    assert!(code.contains("struct \u{c4}pfelClient {"));
    assert!(code.contains("struct \u{c4}pfelServer <"));
}

#[test]
fn assembled_code_is_the_listed_code() {
    let input = item("trait r#Match { async fn go(&self, n: u8) -> Result<u8, PatinaError>; }");
    let listed = generate(&input).unwrap_or_else(|e| panic!("{}", e.message));
    let code = spaced(assemble(&listed).expect("writable code"));
    assert!(code.starts_with("trait r#Match { fn go ( & self , n : u8 ) - > impl"));
    assert!(code.contains("struct MatchClient {"));
    assert!(code.contains("\"r#Match::go\" = > {"));
}
