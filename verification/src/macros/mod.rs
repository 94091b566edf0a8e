//! The `#[patina::service]` attribute: from an async trait to a typed client
//! proxy and a server dispatcher.
//!
//! The attribute runs in four steps. [`reader`] parses the annotated item and
//! reads it into the plain syntax of [`syntax`], [`model`] checks it and
//! extracts what code generation needs, [`expand`] lists the [`tokens`] of the
//! generated code, and [`writer`] puts them together as the compiler's tokens, or
//! writes out why the item is refused. Syntax and token list are generic in the
//! type `S` of a source fragment, which is carried through and never looked into,
//! so that the compiler's own tokens keep their positions.

pub mod expand;
pub mod laws;
pub mod model;
pub mod reader;
pub mod syntax;
pub mod tokens;
pub mod writer;

use crate::macros::expand::{expand, plain_name, service_tokens};
use crate::macros::laws::{
    law_generated_code_is_balanced, law_generated_code_is_fixed, law_generated_names_are_plain,
};
use crate::macros::model::{service_fault, ServiceTrait, SyntaxError};
use crate::macros::reader::{
    is_unlocated, item_read, law_fault_is_read_once, law_service_is_read_once, read_item, Fragment,
};
use crate::macros::syntax::TraitSyntax;
use crate::macros::tokens::{shown, Delimiter, Token};
use crate::macros::writer::{
    assemble, is_one_name, is_plain_name, is_refusal, law_refusal_is_only_a_compile_error, marks,
    refuse, spells, written, Leaf, Mark,
};
use proc_macro2::{Span, TokenStream};
use vstd::prelude::*;

verus! {

/// Generates the code of a service from the annotated item, or says which rule
/// the item breaks. `item` is the trait, or the source at which the item turned
/// out to be none.
pub fn generate<S>(item: &Result<TraitSyntax<S>, S>) -> (r: Result<
    Vec<Token<'_, S>>,
    SyntaxError<'_, S>,
>)
    ensures
        match r {
            Ok(tokens) => {
                &&& service_fault(*item) is None
                &&& exists|service: ServiceTrait<'_, S>| #[trigger]
                    service.reads(item->Ok_0) && shown(tokens@) == service_tokens(service)
            },
            Err(e) => service_fault(*item) == Some(e@),
        },
{
    match ServiceTrait::parse(item) {
        Ok(service) => {
            let tokens = expand(&service);
            assert(service.reads(item->Ok_0) && shown(tokens@) == service_tokens(service));
            Ok(tokens)
        },
        Err(e) => Err(e),
    }
}

/// Whether `leaves` are a compile error with this message, wherever it stands, and
/// nothing else.
pub open spec fn is_refusal_somewhere(leaves: Seq<Leaf>, message: Seq<char>) -> bool {
    exists|at: Span| #[trigger] is_refusal(leaves, Fragment::Position(at), message)
}

/// Replaces the annotated item: a service trait by the trait, its client and its
/// server, any other item by a compile error at the source that breaks a rule, and
/// by nothing else. The names of client and server stand where the name of the
/// trait stands. The arguments of the attribute are not looked at.
///
/// A trait whose name is not plain ASCII may have no client name that the lexer
/// takes. There is no code for it then. Of an item that turns out to be no trait
/// at none of its tokens in particular, the position of the error is left open.
pub fn service(_attr: TokenStream, item: TokenStream) -> (r: Option<TokenStream>)
    ensures
        match service_fault(item_read(item)) {
            Some(fault) => {
                &&& r is Some
                &&& if is_unlocated(item) {
                    is_refusal_somewhere(written(r->0), fault.message)
                } else {
                    is_refusal(written(r->0), fault.at, fault.message)
                }
            },
            None => {
                &&& is_one_name(item_read(item)->Ok_0.ident)
                &&& is_plain_name(plain_name(item_read(item)->Ok_0.ident.text@)) ==> r is Some
                &&& r matches Some(code) ==> exists|service: ServiceTrait<'_, Fragment>| #[trigger]
                    service.reads(item_read(item)->Ok_0) && spells(
                        written(code),
                        service_tokens(service),
                    )
            },
        },
{
    let read = read_item(item);
    proof {
        law_fault_is_read_once(item, read);
    }
    match ServiceTrait::parse(&read) {
        Ok(service) => {
            let tokens = expand(&service);
            proof {
                law_service_is_read_once(item, read, service);
                law_generated_code_is_balanced(service);
                law_generated_code_is_fixed(service);
                if is_plain_name(plain_name(service.ident.text@)) {
                    law_generated_names_are_plain(service);
                }
                assert(service.reads(item_read(item)->Ok_0));
            }
            assemble(&tokens)
        },
        Err(error) => {
            let code = refuse(error.at, error.message);
            proof {
                if is_unlocated(item) {
                    let at = error.at->Position_0;
                    let message = service_fault(item_read(item))->0.message;
                    assert(is_refusal(written(code), Fragment::Position(at), message));
                    assert(is_refusal_somewhere(written(code), message));
                }
            }
            Some(code)
        },
    }
}

/// An item that is refused at none of its tokens in particular is replaced by the
/// message as a compile error, all of it at one position, and by nothing else.
pub proof fn law_refusal_somewhere_is_only_a_compile_error(leaves: Seq<Leaf>, message: Seq<char>)
    requires
        is_refusal_somewhere(leaves, message),
    ensures
        marks(leaves) == seq![
            Mark::Other(":"@),
            Mark::Other(":"@),
            Mark::Ident("core"@),
            Mark::Other(":"@),
            Mark::Other(":"@),
            Mark::Ident("compile_error"@),
            Mark::Other("!"@),
            Mark::Open(Some(Delimiter::Brace)),
            Mark::Text(message),
            Mark::Close(Some(Delimiter::Brace)),
        ],
        forall|i: int| 0 <= i < 7 ==> (#[trigger] leaves[i]).at == leaves[8].at,
{
    let at = choose|at: Span| #[trigger] is_refusal(leaves, Fragment::Position(at), message);
    law_refusal_is_only_a_compile_error(leaves, Fragment::Position(at), message);
}

} // verus!
