//! Generated code as a list of tokens.
//!
//! A [`Token`] is fixed code, a delimiter, a fragment of the annotated source,
//! or an identifier or string literal made up for the generated code. Fixed
//! code is balanced in itself; a delimiter that spans other tokens is a token
//! of its own.

use vstd::prelude::*;

verus! {

/// A kind of bracket.
#[derive(Clone, Copy, Debug, PartialEq, Eq)]
pub enum Delimiter {
    Parenthesis,
    Bracket,
    Brace,
}

/// A piece of generated code.
pub enum Token<'a, S> {
    /// Code that is the same for every service.
    Code(&'static str),
    /// An opening bracket.
    Open(Delimiter),
    /// A closing bracket.
    Close(Delimiter),
    /// A piece of the annotated source, copied as it stands.
    Source(&'a S),
    /// An identifier with the position of a piece of the annotated source.
    Name { text: String, at: &'a S },
    /// A string literal.
    Text(String),
}

/// What a [`Token`] stands for: its view.
pub enum Piece<S> {
    Code(Seq<char>),
    Open(Delimiter),
    Close(Delimiter),
    Source(S),
    Name { text: Seq<char>, at: S },
    Text(Seq<char>),
}

impl<'a, S> View for Token<'a, S> {
    type V = Piece<S>;

    open spec fn view(&self) -> Piece<S> {
        match self {
            Token::Code(text) => Piece::Code(text@),
            Token::Open(delimiter) => Piece::Open(*delimiter),
            Token::Close(delimiter) => Piece::Close(*delimiter),
            Token::Source(source) => Piece::Source(**source),
            Token::Name { text, at } => Piece::Name { text: text@, at: **at },
            Token::Text(text) => Piece::Text(text@),
        }
    }
}

/// What a list of tokens stands for.
pub open spec fn shown<'a, S>(tokens: Seq<Token<'a, S>>) -> Seq<Piece<S>> {
    tokens.map_values(|token: Token<'a, S>| token@)
}

/// `pieces` with a comma between each two of them.
pub open spec fn comma_separated<S>(pieces: Seq<Piece<S>>) -> Seq<Piece<S>>
    decreases pieces.len(),
{
    if pieces.len() <= 1 {
        pieces
    } else {
        comma_separated(pieces.drop_last()) + seq![Piece::Code(","@), pieces.last()]
    }
}

// ---------------------------------------------------------------------------
// Appending to a list of tokens
// ---------------------------------------------------------------------------

pub broadcast proof fn lemma_shown_push<'a, S>(tokens: Seq<Token<'a, S>>, token: Token<'a, S>)
    ensures
        #[trigger] shown(tokens.push(token)) == shown(tokens).push(token@),
{
    assert(shown(tokens.push(token)) =~= shown(tokens).push(token@));
}

pub broadcast proof fn lemma_shown_empty<'a, S>()
    ensures
        #[trigger] shown(Seq::<Token<'a, S>>::empty()) == Seq::<Piece<S>>::empty(),
{
    assert(shown(Seq::<Token<'a, S>>::empty()) =~= Seq::<Piece<S>>::empty());
}

pub broadcast proof fn lemma_shown_concat<'a, S>(a: Seq<Token<'a, S>>, b: Seq<Token<'a, S>>)
    ensures
        #[trigger] shown(a + b) == shown(a) + shown(b),
{
    assert(shown(a + b) =~= shown(a) + shown(b));
}

pub broadcast proof fn lemma_concat_push<P>(a: Seq<P>, b: Seq<P>, p: P)
    ensures
        #[trigger] (a + b.push(p)) == (a + b).push(p),
{
    assert((a + b.push(p)) =~= (a + b).push(p));
}

pub broadcast proof fn lemma_concat_empty<P>(a: Seq<P>)
    ensures
        #[trigger] (a + Seq::<P>::empty()) == a,
{
    assert(a + Seq::<P>::empty() =~= a);
}

pub broadcast proof fn lemma_concat_concat<P>(a: Seq<P>, b: Seq<P>, c: Seq<P>)
    ensures
        #[trigger] (a + (b + c)) == a + b + c,
{
    assert((a + (b + c)) =~= a + b + c);
}

/// Appends one token at a time: what follows a list of pieces is pushed onto
/// it from left to right.
pub broadcast group group_tokens {
    lemma_shown_push,
    lemma_shown_empty,
    lemma_shown_concat,
    lemma_concat_push,
    lemma_concat_empty,
    lemma_concat_concat,
}

// ---------------------------------------------------------------------------
// String literals and nesting
// ---------------------------------------------------------------------------

/// The string literals among the first `n` of `pieces`, in order.
pub open spec fn texts_to<S>(pieces: Seq<Piece<S>>, n: nat) -> Seq<Seq<char>>
    decreases n,
{
    if n == 0 {
        seq![]
    } else {
        match pieces[n - 1] {
            Piece::Text(text) => texts_to(pieces, (n - 1) as nat).push(text),
            _ => texts_to(pieces, (n - 1) as nat),
        }
    }
}

/// The string literals among `pieces`, in order.
pub open spec fn texts<S>(pieces: Seq<Piece<S>>) -> Seq<Seq<char>> {
    texts_to(pieces, pieces.len())
}

/// The brackets that are open behind the first `n` of `pieces`, innermost last,
/// if those in `open` were open before them. `None` if a closing bracket does
/// not match.
pub open spec fn nesting_to<S>(pieces: Seq<Piece<S>>, n: nat, open: Seq<Delimiter>) -> Option<
    Seq<Delimiter>,
>
    decreases n,
{
    if n == 0 {
        Some(open)
    } else {
        match (nesting_to(pieces, (n - 1) as nat, open), pieces[n - 1]) {
            (None, _) => None,
            (Some(inner), Piece::Open(delimiter)) => Some(inner.push(delimiter)),
            (Some(inner), Piece::Close(delimiter)) => if inner.len() > 0 && inner.last()
                == delimiter {
                Some(inner.drop_last())
            } else {
                None
            },
            (Some(inner), _) => Some(inner),
        }
    }
}

/// The brackets that are open behind `pieces`.
pub open spec fn nesting<S>(pieces: Seq<Piece<S>>, open: Seq<Delimiter>) -> Option<Seq<Delimiter>> {
    nesting_to(pieces, pieces.len(), open)
}

/// Whether every bracket in `pieces` is closed in `pieces`, by one of its kind.
pub open spec fn balanced<S>(pieces: Seq<Piece<S>>) -> bool {
    forall|open: Seq<Delimiter>| #[trigger] nesting(pieces, open) == Some(open)
}

/// What is read off the first pieces of a list depends on them alone.
pub proof fn lemma_same_start<S>(
    a: Seq<Piece<S>>,
    b: Seq<Piece<S>>,
    n: nat,
    open: Seq<Delimiter>,
)
    requires
        n <= a.len(),
        n <= b.len(),
        forall|i: int| 0 <= i < n ==> a[i] == b[i],
    ensures
        texts_to(a, n) == texts_to(b, n),
        nesting_to(a, n, open) == nesting_to(b, n, open),
    decreases n,
{
    if n > 0 {
        lemma_same_start(a, b, (n - 1) as nat, open);
    }
}

proof fn lemma_concat_to<S>(
    a: Seq<Piece<S>>,
    b: Seq<Piece<S>>,
    n: nat,
    open: Seq<Delimiter>,
)
    requires
        n <= b.len(),
    ensures
        texts_to(a + b, a.len() + n) == texts_to(a, a.len()) + texts_to(b, n),
        nesting_to(a + b, a.len() + n, open) == (match nesting(a, open) {
            None => None,
            Some(inner) => nesting_to(b, n, inner),
        }),
    decreases n,
{
    if n == 0 {
        lemma_same_start(a + b, a, a.len(), open);
        assert(texts(a) + Seq::<Seq<char>>::empty() =~= texts(a));
    } else {
        lemma_concat_to(a, b, (n - 1) as nat, open);
        assert((a + b)[a.len() + n - 1] == b[n - 1]);
        assert(texts_to(a + b, a.len() + n) =~= texts_to(a, a.len()) + texts_to(b, n));
    }
}

pub broadcast proof fn lemma_texts_concat<S>(a: Seq<Piece<S>>, b: Seq<Piece<S>>)
    ensures
        #[trigger] texts(a + b) == texts(a) + texts(b),
{
    lemma_concat_to(a, b, b.len(), seq![]);
}

pub broadcast proof fn lemma_nesting_concat<S>(
    a: Seq<Piece<S>>,
    b: Seq<Piece<S>>,
    open: Seq<Delimiter>,
)
    ensures
        #[trigger] nesting(a + b, open) == (match nesting(a, open) {
            None => None,
            Some(inner) => nesting(b, inner),
        }),
{
    lemma_concat_to(a, b, b.len(), open);
}

pub broadcast proof fn lemma_open_close(open: Seq<Delimiter>, delimiter: Delimiter)
    ensures
        #[trigger] open.push(delimiter).drop_last() == open,
{
    assert(open.push(delimiter).drop_last() =~= open);
}

pub broadcast proof fn lemma_empty_concat<P>(a: Seq<P>)
    ensures
        #[trigger] (Seq::<P>::empty() + a) == a,
{
    assert(Seq::<P>::empty() + a =~= a);
}

/// Reads string literals and nesting off a list of pieces part by part.
pub broadcast group group_pieces {
    lemma_texts_concat,
    lemma_nesting_concat,
    lemma_open_close,
    lemma_concat_empty,
    lemma_empty_concat,
}

// ---------------------------------------------------------------------------
// Laws
// ---------------------------------------------------------------------------

/// A token stands for what it holds, and a list of tokens for one piece per token,
/// in order.
pub proof fn law_tokens_stand_for_what_they_hold<'a, S>(
    tokens: Seq<Token<'a, S>>,
    i: int,
    code: &'static str,
    delimiter: Delimiter,
    source: &'a S,
    text: String,
)
    requires
        0 <= i < tokens.len(),
    ensures
        Token::<'a, S>::Code(code)@ == Piece::<S>::Code(code@),
        Token::<'a, S>::Open(delimiter)@ == Piece::<S>::Open(delimiter),
        Token::<'a, S>::Close(delimiter)@ == Piece::<S>::Close(delimiter),
        Token::<'a, S>::Source(source)@ == Piece::<S>::Source(*source),
        (Token::Name { text, at: source })@ == (Piece::<S>::Name {
            text: text@,
            at: *source,
        }),
        Token::<'a, S>::Text(text)@ == Piece::<S>::Text(text@),
        shown(tokens).len() == tokens.len(),
        shown(tokens)[i] == tokens[i]@,
{
}

/// A list with commas holds its elements in order, with one comma between each two
/// of them and none at its end.
pub proof fn law_commas_stand_between<S>(pieces: Seq<Piece<S>>, i: int)
    requires
        0 <= i < pieces.len(),
    ensures
        comma_separated(Seq::<Piece<S>>::empty()).len() == 0,
        comma_separated(pieces).len() == 2 * pieces.len() - 1,
        comma_separated(pieces)[2 * i] == pieces[i],
        i + 1 < pieces.len() ==> comma_separated(pieces)[2 * i + 1] == Piece::<S>::Code(","@),
    decreases pieces.len(),
{
    if pieces.len() > 1 {
        let most = pieces.drop_last();
        if i < most.len() {
            law_commas_stand_between(most, i);
        } else {
            law_commas_stand_between(most, 0);
        }
    }
}

/// The string literals of a list are exactly those pieces, in order.
pub proof fn law_texts_are_the_string_literals<S>(pieces: Seq<Piece<S>>, last: Piece<S>)
    ensures
        texts(Seq::<Piece<S>>::empty()) == Seq::<Seq<char>>::empty(),
        texts(pieces.push(last)) == (match last {
            Piece::Text(text) => texts(pieces).push(text),
            _ => texts(pieces),
        }),
{
    lemma_same_start(pieces.push(last), pieces, pieces.len(), seq![]);
}

/// An opening bracket opens one more, a closing bracket has to close the one that
/// was opened last, and nothing else opens or closes any.
pub proof fn law_brackets_open_and_close<S>(
    pieces: Seq<Piece<S>>,
    last: Piece<S>,
    open: Seq<Delimiter>,
)
    ensures
        nesting(Seq::<Piece<S>>::empty(), open) == Some(open),
        nesting(pieces, open) is None ==> nesting(pieces.push(last), open) is None,
        nesting(pieces, open) matches Some(inner) ==> nesting(pieces.push(last), open) == (
        match last {
            Piece::Open(delimiter) => Some(inner.push(delimiter)),
            Piece::Close(delimiter) => if inner.len() > 0 && inner.last() == delimiter {
                Some(inner.drop_last())
            } else {
                None
            },
            _ => Some(inner),
        }),
        balanced(pieces) ==> nesting(pieces, open) == Some(open),
{
    lemma_same_start(pieces.push(last), pieces, pieces.len(), open);
}

} // verus!
