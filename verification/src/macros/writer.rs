//! From the token list of generated code, or from a fault, to the compiler's
//! tokens.
//!
//! What a `proc_macro2::TokenStream` holds is described as it is written out: a
//! list of [`Leaf`]s, each a token or a bracket with its position. Fixed code and
//! the brackets around it get the position at which the compiler runs the
//! attribute, which no value here determines. Whether a punctuation mark is joined
//! to the next is not described either: that is for the lexer to say.

use crate::macros::expand::{
    CALL, CLIENT_FIELD, CONNECT, CONNECT_DOC, DECODE_ARGS, DECODE_REPLY, DISPATCH, ENCODE_ARGS,
    ENCODE_REPLY, FROM_CLIENT, FROM_CLIENT_DOC, FUTURE_OF_RESULT, METHOD_NAMES, NEW, NEW_DOC,
    SEND_FUTURE_END, SERVER_BOUNDS, SERVER_FIELD, UNKNOWN_ARM,
};
use crate::macros::reader::Fragment;
use crate::macros::syntax::Ident;
use crate::macros::tokens::{balanced, nesting, nesting_to, shown, Delimiter, Piece, Token};
use proc_macro2::{Span, TokenStream};
use quote::ToTokens;
use vstd::prelude::*;

verus! {

// ---------------------------------------------------------------------------
// What a token stream holds
// ---------------------------------------------------------------------------

/// A token or a bracket.
pub enum Mark {
    Ident(Seq<char>),
    /// A string literal with this value.
    Text(Seq<char>),
    /// A punctuation mark or any other literal, as it is written.
    Other(Seq<char>),
    /// An opening bracket. Those that macros put round a fragment are invisible
    /// and have no delimiter.
    Open(Option<Delimiter>),
    /// The closing bracket.
    Close(Option<Delimiter>),
}

/// A token or a bracket and where it stands.
pub struct Leaf {
    pub mark: Mark,
    pub at: Span,
}

/// What is written, wherever it stands.
pub open spec fn marks(leaves: Seq<Leaf>) -> Seq<Mark> {
    leaves.map_values(|leaf: Leaf| leaf.mark)
}

/// What a token stream holds, written out in order.
pub uninterp spec fn written(stream: TokenStream) -> Seq<Leaf>;

/// What a piece of fixed code is, written out in order.
pub uninterp spec fn lexed(code: Seq<char>) -> Seq<Mark>;

/// Whether `code` is one of the fixed pieces of generated code.
pub open spec fn is_fixed_code(code: Seq<char>) -> bool {
    ||| code == ","@
    ||| code == ":"@
    ||| code == "&"@
    ||| code == ">"@
    ||| code == "=>"@
    ||| code == "fn"@
    ||| code == "for"@
    ||| code == "let"@
    ||| code == "impl"@
    ||| code == "trait"@
    ||| code == "struct"@
    ||| code == "&self"@
    ||| code == "async fn"@
    ||| code == "<__S>"@
    ||| code == "impl<__S:"@
    ||| code == "<__S> where __S:"@
    ||| code == "match method"@
    ||| code == ", __payload"@
    ||| code == "-> ::core::result::Result<"@
    ||| code == ", ::patina_rpc::PatinaError>"@
    ||| code == "impl<__S> ::patina_rpc::PatinaService for"@
    ||| code == FUTURE_OF_RESULT@
    ||| code == SEND_FUTURE_END@
    ||| code == CLIENT_FIELD@
    ||| code == CONNECT_DOC@
    ||| code == CONNECT@
    ||| code == FROM_CLIENT_DOC@
    ||| code == FROM_CLIENT@
    ||| code == ENCODE_ARGS@
    ||| code == CALL@
    ||| code == DECODE_REPLY@
    ||| code == SERVER_FIELD@
    ||| code == NEW_DOC@
    ||| code == NEW@
    ||| code == SERVER_BOUNDS@
    ||| code == METHOD_NAMES@
    ||| code == DISPATCH@
    ||| code == UNKNOWN_ARM@
    ||| code == DECODE_ARGS@
    ||| code == ENCODE_REPLY@
}

/// Whether `text` is a name of ASCII letters, digits and underscores.
pub open spec fn is_plain_name(text: Seq<char>) -> bool {
    &&& text.len() > 0
    &&& !('0' <= text[0] <= '9')
    &&& forall|i: int|
        0 <= i < text.len() ==> ({
            let c = #[trigger] text[i];
            'a' <= c <= 'z' || 'A' <= c <= 'Z' || '0' <= c <= '9' || c == '_'
        })
}

/// Whether `text` ends in `end`.
pub open spec fn ends_in(text: Seq<char>, end: Seq<char>) -> bool {
    text.len() >= end.len() && text.skip(text.len() - end.len()) == end
}

/// Whether `text` is a plain name for a client or a server, so that it is no
/// keyword.
pub open spec fn is_made_name(text: Seq<char>) -> bool {
    is_plain_name(text) && (ends_in(text, "Client"@) || ends_in(text, "Server"@))
}

// ---------------------------------------------------------------------------
// proc_macro2 and syn
// ---------------------------------------------------------------------------

/// `TokenStream::new`: a stream without tokens.
pub assume_specification[ proc_macro2::TokenStream::new ]() -> (stream: proc_macro2::TokenStream)
    ensures
        written(stream) == Seq::<Leaf>::empty(),
;

/// `TokenStream::clone`: the same stream.
pub assume_specification[ <proc_macro2::TokenStream as Clone>::clone ](
    stream: &proc_macro2::TokenStream,
) -> (copy: proc_macro2::TokenStream)
    ensures
        copy == *stream,
;

/// `TokenStream::extend`: appends what `more` holds.
#[verifier::external_body]
fn append(stream: &mut TokenStream, more: TokenStream)
    ensures
        written(*final(stream)) == written(*old(stream)) + written(more),
{
    stream.extend(more)
}

/// `TokenStream::from_str`: the tokens of code. All fixed pieces of generated
/// code are code. Inside the compiler its own lexer reads them, elsewhere that of
/// the crate; the two need not agree on every text, so only the fixed pieces are
/// given to it. Of the positions nothing is stated: they are where the attribute
/// runs.
#[verifier::external_body]
fn lex(code: &str) -> (r: Option<TokenStream>)
    requires
        is_fixed_code(code@),
    ensures
        r is Some,
        marks(written(r->0)) == lexed(code@),
{
    code.parse::<TokenStream>().ok()
}

/// `syn::parse_str` and `Ident::new`: an identifier at the position `at`. A plain
/// name for a client or a server stays as it is. Of any other text the lexer says
/// whether it is an identifier, and which: the lexers of the compiler and of the
/// crate differ in how they normalize letters, so nothing is stated of that.
#[verifier::external_body]
fn name_token(text: &str, at: Span) -> (r: Option<TokenStream>)
    ensures
        r matches Some(stream) ==> {
            &&& written(stream).len() == 1
            &&& written(stream)[0].mark is Ident
            &&& written(stream)[0].at == at
        },
        is_made_name(text@) ==> {
            &&& r is Some
            &&& written(r->0)[0].mark == Mark::Ident(text@)
        },
{
    let name = syn::ext::IdentExt::unraw(&syn::parse_str::<syn::Ident>(text).ok()?);
    Some(syn::Ident::new(&name.to_string(), at).to_token_stream())
}

/// `Literal::string`: a string literal with the value `text`. It stands where the
/// attribute runs, of which nothing is stated.
#[verifier::external_body]
fn text_token(text: &str) -> (stream: TokenStream)
    ensures
        marks(written(stream)) == seq![Mark::Text(text@)],
{
    proc_macro2::Literal::string(text).to_token_stream()
}

/// `Group::new`: brackets around what `inner` holds. The brackets stand where the
/// attribute runs, of which nothing is stated.
#[verifier::external_body]
fn group_token(delimiter: Delimiter, inner: TokenStream) -> (stream: TokenStream)
    ensures
        written(stream).len() == written(inner).len() + 2,
        written(stream)[0].mark == Mark::Open(Some(delimiter)),
        written(stream).drop_first().drop_last() == written(inner),
        written(stream).last().mark == Mark::Close(Some(delimiter)),
{
    let delimiter = match delimiter {
        Delimiter::Parenthesis => proc_macro2::Delimiter::Parenthesis,
        Delimiter::Bracket => proc_macro2::Delimiter::Bracket,
        Delimiter::Brace => proc_macro2::Delimiter::Brace,
    };
    proc_macro2::Group::new(delimiter, inner).to_token_stream()
}

/// `Spanned::span`: the position of tokens, which for one token is that of the
/// token. How far it reaches behind the first of several depends on the compiler,
/// and without tokens it is where the attribute runs, so nothing is stated of it
/// then.
#[verifier::external_body]
fn tokens_position(tokens: &TokenStream) -> (at: Span)
    ensures
        written(*tokens).len() == 1 ==> at == written(*tokens)[0].at,
{
    syn::spanned::Spanned::span(tokens)
}

/// `::core::compile_error! { "message" }`, written out.
pub open spec fn compile_error_marks(message: Seq<char>) -> Seq<Mark> {
    seq![
        Mark::Other(":"@),
        Mark::Other(":"@),
        Mark::Ident("core"@),
        Mark::Other(":"@),
        Mark::Other(":"@),
        Mark::Ident("compile_error"@),
        Mark::Other("!"@),
        Mark::Open(Some(Delimiter::Brace)),
        Mark::Text(message),
        Mark::Close(Some(Delimiter::Brace)),
    ]
}

/// Whether `leaves` are a call of `compile_error!` with this message and nothing
/// else, the call standing at `start` and the message at `end`.
pub open spec fn is_compile_error(
    leaves: Seq<Leaf>,
    message: Seq<char>,
    start: Span,
    end: Span,
) -> bool {
    &&& marks(leaves) == compile_error_marks(message)
    &&& forall|i: int| 0 <= i < 7 ==> (#[trigger] leaves[i]).at == start
    &&& leaves[8].at == end
}

/// Whether `source` reaches from `start` to `end`. Where it starts or ends with a
/// bracket, the position of the whole group counts, of which nothing is said.
pub open spec fn reaches(source: Seq<Leaf>, start: Span, end: Span) -> bool {
    source.len() > 0 ==> {
        &&& source[0].mark is Open || start == source[0].at
        &&& source.last().mark is Close || end == source.last().at
    }
}

/// Whether `leaves` are what an item is replaced by that is refused at the source
/// `at`: the message as a compile error there, and nothing else.
pub open spec fn is_refusal(leaves: Seq<Leaf>, at: Fragment, message: Seq<char>) -> bool {
    match at {
        Fragment::Position(at) => is_compile_error(leaves, message, at, at),
        Fragment::Tokens(tokens) => exists|start: Span, end: Span|
            is_compile_error(leaves, message, start, end) && #[trigger] reaches(
                written(tokens),
                start,
                end,
            ),
    }
}

/// `syn::Error::new` and `to_compile_error`: the message at a position, as a call
/// of `compile_error!`.
#[verifier::external_body]
fn compile_error_at(at: Span, message: &str) -> (code: TokenStream)
    ensures
        is_compile_error(written(code), message@, at, at),
{
    syn::Error::new(at, message).to_compile_error()
}

/// `syn::Error::new_spanned` and `to_compile_error`: the message from the first to
/// the last of some tokens, as a call of `compile_error!`. Without tokens it
/// stands where the attribute runs, of which nothing is stated.
#[verifier::external_body]
fn compile_error_over(tokens: &TokenStream, message: &str) -> (code: TokenStream)
    ensures
        is_refusal(written(code), Fragment::Tokens(*tokens), message@),
{
    syn::Error::new_spanned(tokens, message).to_compile_error()
}

// ---------------------------------------------------------------------------
// Writing out a fault
// ---------------------------------------------------------------------------

/// What an item is replaced by that is refused.
pub fn refuse(at: &Fragment, message: &str) -> (code: TokenStream)
    ensures
        is_refusal(written(code), *at, message@),
{
    match at {
        Fragment::Position(at) => compile_error_at(*at, message),
        Fragment::Tokens(tokens) => compile_error_over(tokens, message),
    }
}

// ---------------------------------------------------------------------------
// Writing out a list of tokens
// ---------------------------------------------------------------------------

/// What a source fragment holds.
pub open spec fn fragment_leaves(source: Fragment) -> Seq<Leaf> {
    match source {
        Fragment::Tokens(stream) => written(stream),
        Fragment::Position(_) => seq![],
    }
}

/// Whether the source of `ident` is one identifier, with its text.
pub open spec fn is_one_name(ident: Ident<Fragment>) -> bool {
    &&& fragment_leaves(ident.tokens).len() == 1
    &&& fragment_leaves(ident.tokens)[0].mark == Mark::Ident(ident.text@)
}

/// Whether `at` is where `source` stands. Of a source of several tokens nothing is
/// said.
pub open spec fn stands_at(at: Span, source: Fragment) -> bool {
    match source {
        Fragment::Position(position) => at == position,
        Fragment::Tokens(stream) => written(stream).len() == 1 ==> at == written(stream)[0].at,
    }
}

/// Whether all code among `pieces` is fixed code.
pub open spec fn all_fixed<S>(pieces: Seq<Piece<S>>) -> bool {
    forall|i: int|
        0 <= i < pieces.len() ==> ((#[trigger] pieces[i]) matches Piece::Code(code)
            ==> is_fixed_code(code))
}

/// Whether all names among `pieces` are plain names for clients and servers.
pub open spec fn all_plain<S>(pieces: Seq<Piece<S>>) -> bool {
    forall|i: int|
        0 <= i < pieces.len() ==> ((#[trigger] pieces[i]) matches Piece::Name { text, .. }
            ==> is_made_name(text))
}

/// Whether `leaves` are one piece of generated code written out.
pub open spec fn spells_piece(leaves: Seq<Leaf>, piece: Piece<Fragment>) -> bool {
    match piece {
        Piece::Code(code) => marks(leaves) == lexed(code),
        Piece::Open(delimiter) => marks(leaves) == seq![Mark::Open(Some(delimiter))],
        Piece::Close(delimiter) => marks(leaves) == seq![Mark::Close(Some(delimiter))],
        Piece::Source(source) => leaves == fragment_leaves(source),
        Piece::Name { text, at } => {
            &&& leaves.len() == 1
            &&& leaves[0].mark is Ident
            &&& is_made_name(text) ==> leaves[0].mark == Mark::Ident(text)
            &&& stands_at(leaves[0].at, at)
        },
        Piece::Text(text) => marks(leaves) == seq![Mark::Text(text)],
    }
}

/// Whether `leaves` can be cut in two before the `k`th.
pub open spec fn is_cut(leaves: Seq<Leaf>, k: int) -> bool {
    0 <= k <= leaves.len()
}

/// Whether `leaves` are pieces of generated code written out, one after the other
/// and with nothing between them.
pub open spec fn spells(leaves: Seq<Leaf>, pieces: Seq<Piece<Fragment>>) -> bool
    decreases pieces.len(),
{
    if pieces.len() == 0 {
        leaves.len() == 0
    } else {
        exists|k: int|
            #[trigger] is_cut(leaves, k) && spells(leaves.take(k), pieces.drop_last())
                && spells_piece(leaves.skip(k), pieces.last())
    }
}

proof fn lemma_spells_next(
    leaves: Seq<Leaf>,
    part: Seq<Leaf>,
    pieces: Seq<Piece<Fragment>>,
    i: int,
)
    requires
        0 <= i < pieces.len(),
        spells(leaves, pieces.take(i)),
        spells_piece(part, pieces[i]),
    ensures
        spells(leaves + part, pieces.take(i + 1)),
{
    let k = leaves.len() as int;
    assert((leaves + part).take(k) =~= leaves);
    assert((leaves + part).skip(k) =~= part);
    assert(pieces.take(i + 1).drop_last() =~= pieces.take(i));
    assert(is_cut(leaves + part, k));
}

/// What is written before the innermost open bracket: the streams that are to be
/// continued, each followed by the bracket that was opened in it, at the
/// positions `ats`.
spec fn unfinished(outer: Seq<TokenStream>, open: Seq<Delimiter>, ats: Seq<Span>) -> Seq<Leaf>
    decreases outer.len(),
{
    if outer.len() == 0 {
        seq![]
    } else {
        unfinished(outer.drop_last(), open.drop_last(), ats.drop_last()) + written(outer.last())
            + seq![Leaf { mark: Mark::Open(Some(open.last())), at: ats.last() }]
    }
}

/// Whether `pieces` are what is written so far, wherever the brackets that are
/// still open will stand.
spec fn spells_so_far(
    outer: Seq<TokenStream>,
    open: Seq<Delimiter>,
    current: Seq<Leaf>,
    pieces: Seq<Piece<Fragment>>,
) -> bool {
    forall|ats: Seq<Span>|
        ats.len() == open.len() ==> spells(
            #[trigger] unfinished(outer, open, ats) + current,
            pieces,
        )
}

/// Brackets that match up to the end match up to every place before it.
proof fn lemma_nesting_before<S>(pieces: Seq<Piece<S>>, i: nat, n: nat, open: Seq<Delimiter>)
    requires
        i <= n,
        nesting_to(pieces, n, open) is Some,
    ensures
        nesting_to(pieces, i, open) is Some,
    decreases n,
{
    if i < n {
        lemma_nesting_before(pieces, i, (n - 1) as nat, open);
    }
}

/// The compiler's tokens for one token that is no bracket.
fn token_stream(token: &Token<'_, Fragment>) -> (r: Option<TokenStream>)
    requires
        !(token@ is Open),
        !(token@ is Close),
        token@ matches Piece::Code(code) ==> is_fixed_code(code),
    ensures
        r matches Some(stream) ==> spells_piece(written(stream), token@),
        (token@ matches Piece::Name { text, .. } ==> is_made_name(text)) ==> r is Some,
{
    match token {
        Token::Code(code) => lex(code),
        Token::Source(source) => Some(
            match source {
                Fragment::Tokens(stream) => stream.clone(),
                Fragment::Position(_) => TokenStream::new(),
            },
        ),
        Token::Name { text, at } => {
            let at = match at {
                Fragment::Tokens(stream) => tokens_position(stream),
                Fragment::Position(at) => *at,
            };
            name_token(text.as_str(), at)
        },
        Token::Text(text) => Some(text_token(text.as_str())),
        _ => Some(TokenStream::new()),
    }
}

/// Puts a list of tokens together as the compiler's tokens. This succeeds if all
/// names in it are plain; otherwise the lexer decides whether they are names.
pub fn assemble(tokens: &Vec<Token<'_, Fragment>>) -> (r: Option<TokenStream>)
    requires
        balanced(shown(tokens@)),
        all_fixed(shown(tokens@)),
    ensures
        r matches Some(stream) ==> spells(written(stream), shown(tokens@)),
        all_plain(shown(tokens@)) ==> r is Some,
{
    let ghost pieces = shown(tokens@);
    let ghost mut open: Seq<Delimiter> = seq![];
    let mut outer: Vec<TokenStream> = Vec::new();
    let mut current = TokenStream::new();
    let mut i: usize = 0;
    while i < tokens.len()
        invariant
            i <= tokens@.len(),
            pieces == shown(tokens@),
            balanced(pieces),
            all_fixed(pieces),
            nesting_to(pieces, i as nat, seq![]) == Some(open),
            open.len() == outer@.len(),
            spells_so_far(outer@, open, written(current), pieces.take(i as int)),
        decreases tokens@.len() - i,
    {
        let ghost before = written(current);
        let ghost outer_before = outer@;
        let ghost open_before = open;
        proof {
            assert(nesting(pieces, seq![]) is Some);
            lemma_nesting_before(pieces, (i + 1) as nat, pieces.len(), seq![]);
        }
        match &tokens[i] {
            Token::Open(delimiter) => {
                let mut enclosing = TokenStream::new();
                std::mem::swap(&mut enclosing, &mut current);
                outer.push(enclosing);
                proof {
                    open = open.push(*delimiter);
                    assert(open.drop_last() =~= open_before);
                    assert(outer@.drop_last() =~= outer_before);
                    assert forall|ats: Seq<Span>| ats.len() == open.len() implies spells(
                        #[trigger] unfinished(outer@, open, ats) + written(current),
                        pieces.take(i + 1),
                    ) by {
                        let bracket = Leaf { mark: Mark::Open(Some(*delimiter)), at: ats.last() };
                        let done = unfinished(outer_before, open_before, ats.drop_last()) + before;
                        assert(marks(seq![bracket]) =~= seq![bracket.mark]);
                        lemma_spells_next(done, seq![bracket], pieces, i as int);
                        assert(unfinished(outer@, open, ats) + written(current) =~= done + seq![
                            bracket,
                        ]);
                    }
                }
            },
            Token::Close(delimiter) => {
                if let Some(enclosing) = outer.pop() {
                    let mut enclosing = enclosing;
                    let ghost started = written(enclosing);
                    let group = group_token(*delimiter, current);
                    let ghost grouped = written(group);
                    append(&mut enclosing, group);
                    current = enclosing;
                    proof {
                        open = open.drop_last();
                        let opening = grouped[0];
                        let closing = grouped.last();
                        assert(grouped =~= seq![opening] + grouped.drop_first().drop_last() + seq![
                            closing,
                        ]);
                        assert(marks(seq![closing]) =~= seq![closing.mark]);
                        assert forall|ats: Seq<Span>| ats.len() == open.len() implies spells(
                            #[trigger] unfinished(outer@, open, ats) + written(current),
                            pieces.take(i + 1),
                        ) by {
                            let all = ats.push(opening.at);
                            assert(all.drop_last() =~= ats);
                            let done = unfinished(outer_before, open_before, all) + before;
                            lemma_spells_next(done, seq![closing], pieces, i as int);
                            assert(unfinished(outer@, open, ats) + written(current) =~= done
                                + seq![closing]);
                        }
                    }
                }
            },
            token => match token_stream(token) {
                Some(stream) => {
                    let ghost part = written(stream);
                    append(&mut current, stream);
                    proof {
                        assert forall|ats: Seq<Span>| ats.len() == open.len() implies spells(
                            #[trigger] unfinished(outer@, open, ats) + written(current),
                            pieces.take(i + 1),
                        ) by {
                            let done = unfinished(outer@, open, ats) + before;
                            lemma_spells_next(done, part, pieces, i as int);
                            assert(unfinished(outer@, open, ats) + written(current) =~= done
                                + part);
                        }
                    }
                },
                None => {
                    assert(!all_plain(pieces));
                    return None;
                },
            },
        }
        i = i + 1;
    }
    proof {
        assert(pieces.take(i as int) =~= pieces);
        assert(nesting(pieces, seq![]) == Some(open));
        let ats: Seq<Span> = seq![];
        assert(unfinished(outer@, open, ats) + written(current) =~= written(current));
    }
    Some(current)
}

// ---------------------------------------------------------------------------
// Laws
// ---------------------------------------------------------------------------

proof fn lemma_same_piece(a: Seq<Leaf>, b: Seq<Leaf>, piece: Piece<Fragment>)
    requires
        spells_piece(a, piece),
        spells_piece(b, piece),
        piece matches Piece::Name { text, .. } ==> is_made_name(text),
    ensures
        marks(a) == marks(b),
{
    if piece is Name {
        assert(marks(a) =~= marks(b));
    }
}

/// Pieces whose names are plain are written out in one way, but for the positions
/// of fixed code, brackets and string literals.
pub proof fn law_generated_code_is_written_in_one_way(
    a: Seq<Leaf>,
    b: Seq<Leaf>,
    pieces: Seq<Piece<Fragment>>,
)
    requires
        spells(a, pieces),
        spells(b, pieces),
        all_plain(pieces),
    ensures
        marks(a) == marks(b),
    decreases pieces.len(),
{
    if pieces.len() == 0 {
        assert(marks(a) =~= marks(b));
    } else {
        let most = pieces.drop_last();
        let j = choose|k: int|
            #[trigger] is_cut(a, k) && spells(a.take(k), most) && spells_piece(
                a.skip(k),
                pieces.last(),
            );
        let k = choose|k: int|
            #[trigger] is_cut(b, k) && spells(b.take(k), most) && spells_piece(
                b.skip(k),
                pieces.last(),
            );
        assert forall|i: int| 0 <= i < most.len() implies ((#[trigger] most[i])
            matches Piece::Name { text, .. } ==> is_made_name(text)) by {
            assert(most[i] == pieces[i]);
        }
        law_generated_code_is_written_in_one_way(a.take(j), b.take(k), most);
        lemma_same_piece(a.skip(j), b.skip(k), pieces.last());
        assert(marks(a) =~= marks(a.take(j)) + marks(a.skip(j)));
        assert(marks(b) =~= marks(b.take(k)) + marks(b.skip(k)));
    }
}

/// Marks are what leaves show, one for one.
pub proof fn law_marks_are_what_leaves_show(leaves: Seq<Leaf>, i: int)
    requires
        0 <= i < leaves.len(),
    ensures
        marks(leaves).len() == leaves.len(),
        marks(leaves)[i] == leaves[i].mark,
{
}

/// One piece of generated code is written out as what it is: fixed code as its
/// tokens, a bracket as that bracket, source as it stands and where it stands, a
/// string literal as that literal, and a plain name as that name, where the source
/// stands that it is made of.
pub proof fn law_piece_is_written_as_it_is(leaves: Seq<Leaf>, piece: Piece<Fragment>)
    requires
        spells(leaves, seq![piece]),
    ensures
        match piece {
            Piece::Code(code) => marks(leaves) == lexed(code),
            Piece::Open(delimiter) => marks(leaves) == seq![Mark::Open(Some(delimiter))],
            Piece::Close(delimiter) => marks(leaves) == seq![Mark::Close(Some(delimiter))],
            Piece::Source(Fragment::Tokens(stream)) => leaves == written(stream),
            Piece::Source(Fragment::Position(_)) => leaves.len() == 0,
            Piece::Name { text, at } => {
                &&& leaves.len() == 1
                &&& leaves[0].mark is Ident
                &&& is_made_name(text) ==> leaves[0].mark == Mark::Ident(text)
                &&& at matches Fragment::Position(position) ==> leaves[0].at == position
                &&& at matches Fragment::Tokens(stream) ==> written(stream).len() == 1
                    ==> leaves[0].at == written(stream)[0].at
            },
            Piece::Text(text) => marks(leaves) == seq![Mark::Text(text)],
        },
{
    let pieces = seq![piece];
    let k = choose|k: int| #[trigger]
        is_cut(leaves, k) && spells(leaves.take(k), pieces.drop_last()) && spells_piece(
            leaves.skip(k),
            pieces.last(),
        );
    assert(pieces.drop_last().len() == 0);
    assert(leaves.take(k).len() == 0);
    assert(leaves.skip(k) =~= leaves);
}

/// Pieces are written out one after the other: what is written for two lists of
/// them is what is written for the first and then what is written for the second.
pub proof fn law_pieces_are_written_one_after_the_other(
    leaves: Seq<Leaf>,
    first: Seq<Piece<Fragment>>,
    second: Seq<Piece<Fragment>>,
)
    requires
        spells(leaves, first + second),
    ensures
        exists|k: int| #[trigger]
            is_cut(leaves, k) && spells(leaves.take(k), first) && spells(leaves.skip(k), second),
        first.len() == 0 && second.len() == 0 ==> leaves.len() == 0,
    decreases second.len(),
{
    if second.len() == 0 {
        assert(first + second =~= first);
        let k = leaves.len() as int;
        assert(leaves.take(k) =~= leaves);
        assert(is_cut(leaves, k));
    } else {
        let all = first + second;
        let most = second.drop_last();
        assert(all.drop_last() =~= first + most);
        assert(all.last() == second.last());
        let k = choose|k: int| #[trigger]
            is_cut(leaves, k) && spells(leaves.take(k), all.drop_last()) && spells_piece(
                leaves.skip(k),
                all.last(),
            );
        let front = leaves.take(k);
        law_pieces_are_written_one_after_the_other(front, first, most);
        let j = choose|j: int| #[trigger]
            is_cut(front, j) && spells(front.take(j), first) && spells(front.skip(j), most);
        assert(front.take(j) =~= leaves.take(j));
        let back = leaves.skip(j);
        assert(back.take(k - j) =~= front.skip(j));
        assert(back.skip(k - j) =~= leaves.skip(k));
        assert(is_cut(back, k - j));
        assert(spells(back, second));
        assert(is_cut(leaves, j));
    }
}

/// What takes the place of a refused item is a call of `compile_error!` with the
/// message of the fault, and nothing else: no part of the item. It stands at the
/// position of the fault, or from the first to the last token of its source.
pub proof fn law_refusal_is_only_a_compile_error(
    leaves: Seq<Leaf>,
    at: Fragment,
    message: Seq<char>,
)
    requires
        is_refusal(leaves, at, message),
    ensures
        marks(leaves) == seq![
            Mark::Other(":"@),
            Mark::Other(":"@),
            Mark::Ident("core"@),
            Mark::Other(":"@),
            Mark::Other(":"@),
            Mark::Ident("compile_error"@),
            Mark::Other("!"@),
            Mark::Open(Some(Delimiter::Brace)),
            Mark::Text(message),
            Mark::Close(Some(Delimiter::Brace)),
        ],
        at matches Fragment::Position(position) ==> {
            &&& forall|i: int| 0 <= i < 7 ==> (#[trigger] leaves[i]).at == position
            &&& leaves[8].at == position
        },
        at matches Fragment::Tokens(tokens) ==> written(tokens).len() > 0 ==> {
            &&& !(written(tokens)[0].mark is Open) ==> forall|i: int|
                0 <= i < 7 ==> (#[trigger] leaves[i]).at == written(tokens)[0].at
            &&& !(written(tokens).last().mark is Close) ==> leaves[8].at == written(
                tokens,
            ).last().at
        },
{
    if let Fragment::Tokens(tokens) = at {
        let (start, end) = choose|start: Span, end: Span|
            is_compile_error(leaves, message, start, end) && #[trigger] reaches(
                written(tokens),
                start,
                end,
            );
        assert(is_compile_error(leaves, message, start, end) && reaches(
            written(tokens),
            start,
            end,
        ));
    }
}

/// Any text of ASCII letters, digits and underscores that does not start with a
/// digit is a plain name, and with `Client` or `Server` at its end a plain name for
/// a client or a server.
pub proof fn law_what_a_plain_name_is(text: Seq<char>)
    requires
        text.len() > 0,
        !('0' <= text[0] <= '9'),
        forall|i: int|
            0 <= i < text.len() ==> 'a' <= #[trigger] text[i] <= 'z' || 'A' <= text[i] <= 'Z'
                || '0' <= text[i] <= '9' || text[i] == '_',
    ensures
        is_plain_name(text),
        text.len() >= 6 && text.skip(text.len() - 6) == "Client"@ ==> is_made_name(text),
        text.len() >= 6 && text.skip(text.len() - 6) == "Server"@ ==> is_made_name(text),
{
    reveal_strlit("Client");
    reveal_strlit("Server");
}

/// The source of a name is the name where that is one identifier.
pub proof fn law_what_one_name_is(text: String, stream: TokenStream, at: Span)
    ensures
        is_one_name(Ident { text, tokens: Fragment::Tokens(stream) }) <==> {
            &&& written(stream).len() == 1
            &&& written(stream)[0].mark == Mark::Ident(text@)
        },
        !is_one_name(Ident { text, tokens: Fragment::Position(at) }),
{
}

/// Names that are not plain are the only reason for which code may not be written.
pub proof fn law_code_without_names_is_plain<S>(pieces: Seq<Piece<S>>)
    requires
        forall|i: int| 0 <= i < pieces.len() ==> !((#[trigger] pieces[i]) is Name),
    ensures
        all_plain(pieces),
{
}

} // verus!
