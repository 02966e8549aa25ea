//! What the recognizer pipeline computes: at each position the match of the
//! first recognizer that does not decline, and from these matches the token
//! sequence.

use vstd::prelude::*;
use crate::recognizer::{
    lemma_recognize_advances, recognize, Lexed, PhpFileState, TokenReaderView,
};
use crate::token::TokenView;

verus! {

/// The match of the first recognizer, from index `from` of `readers` on,
/// that does not decline at `pos`; `None` where all decline.
pub open spec fn first_match(
    readers: Seq<TokenReaderView>,
    from: int,
    chars: Seq<char>,
    pos: int,
    state: PhpFileState,
) -> Option<Lexed>
    decreases readers.len() - from,
{
    if 0 <= from < readers.len() {
        match recognize(readers[from], chars, pos, state) {
            Some(m) => Some(m),
            None => first_match(readers, from + 1, chars, pos, state),
        }
    } else {
        None
    }
}

/// Whether some recognizer of `readers` matches at every position of
/// `chars`, in every state. A list that holds the catch-all does.
pub open spec fn covers(readers: Seq<TokenReaderView>, chars: Seq<char>) -> bool {
    forall|pos: int, state: PhpFileState|
        0 <= pos < chars.len() ==> (#[trigger] first_match(readers, 0, chars, pos, state)) is Some
}

/// What a matched token adds to the token sequence: itself, or nothing where
/// it is whitespace.
pub open spec fn kept(token: TokenView) -> Seq<TokenView> {
    if token is Whitespace {
        Seq::empty()
    } else {
        seq![token]
    }
}

/// The tokens that `readers` produce from position `pos` of `chars` on,
/// begun in state `state`: at each position the match of the first
/// recognizer that does not decline, whitespace left out, and the end of the
/// stream after the last.
pub open spec fn lex_from(
    readers: Seq<TokenReaderView>,
    chars: Seq<char>,
    pos: int,
    state: PhpFileState,
) -> Seq<TokenView>
    decreases chars.len() - pos,
    when covers(readers, chars)
    via lex_from_terminates
{
    if 0 <= pos < chars.len() {
        let m = first_match(readers, 0, chars, pos, state)->0;
        kept(m.token) + lex_from(readers, chars, m.next, m.state)
    } else {
        seq![TokenView::Eof]
    }
}

#[via_fn]
proof fn lex_from_terminates(
    readers: Seq<TokenReaderView>,
    chars: Seq<char>,
    pos: int,
    state: PhpFileState,
) {
    if 0 <= pos < chars.len() {
        lemma_first_match_advances(readers, 0, chars, pos, state);
    }
}

/// What a matched token adds to the sequence of offsets: the position `pos`
/// at which it begins, or nothing where it is whitespace.
pub open spec fn kept_at(token: TokenView, pos: int) -> Seq<int> {
    if token is Whitespace {
        Seq::empty()
    } else {
        seq![pos]
    }
}

/// The positions in `chars` at which the tokens of `lex_from` begin, one for
/// each token. The end of the stream begins where the source ends.
pub open spec fn starts_from(
    readers: Seq<TokenReaderView>,
    chars: Seq<char>,
    pos: int,
    state: PhpFileState,
) -> Seq<int>
    decreases chars.len() - pos,
    when covers(readers, chars)
    via starts_from_terminates
{
    if 0 <= pos < chars.len() {
        let m = first_match(readers, 0, chars, pos, state)->0;
        kept_at(m.token, pos) + starts_from(readers, chars, m.next, m.state)
    } else {
        seq![pos]
    }
}

#[via_fn]
proof fn starts_from_terminates(
    readers: Seq<TokenReaderView>,
    chars: Seq<char>,
    pos: int,
    state: PhpFileState,
) {
    if 0 <= pos < chars.len() {
        lemma_first_match_advances(readers, 0, chars, pos, state);
    }
}

/// Every match claims at least one character and none beyond the end.
pub proof fn lemma_first_match_advances(
    readers: Seq<TokenReaderView>,
    from: int,
    chars: Seq<char>,
    pos: int,
    state: PhpFileState,
)
    requires
        0 <= pos < chars.len(),
    ensures
        first_match(readers, from, chars, pos, state) matches Some(m) ==> pos < m.next
            <= chars.len(),
    decreases readers.len() - from,
{
    if 0 <= from < readers.len() {
        lemma_recognize_advances(readers[from], chars, pos, state);
        lemma_first_match_advances(readers, from + 1, chars, pos, state);
    }
}

/// The recognizers of the language, in the order in which they have to be
/// tried: the start marker, keywords, strings, numbers, variables, the
/// assignment sign, operators, punctuation, names, and the catch-all.
pub open spec fn standard_readers() -> Seq<TokenReaderView> {
    seq![
        TokenReaderView::PhpStart,
        TokenReaderView::Keyword,
        TokenReaderView::StringValue,
        TokenReaderView::NumericValue,
        TokenReaderView::VariableName,
        TokenReaderView::Assignment,
        TokenReaderView::Op,
        TokenReaderView::OneChar(';', TokenView::Semicolon),
        TokenReaderView::OneChar('(', TokenView::ParenthesisOpen),
        TokenReaderView::OneChar(')', TokenView::ParenthesisClose),
        TokenReaderView::OneChar('{', TokenView::BlockOpen),
        TokenReaderView::OneChar('}', TokenView::BlockClose),
        TokenReaderView::OneChar(',', TokenView::Comma),
        TokenReaderView::FunctionName,
        TokenReaderView::Whitespace,
    ]
}

/// Whether `tokens` holds no whitespace, and the end of the stream exactly
/// once, as its last element.
pub open spec fn well_terminated(tokens: Seq<TokenView>) -> bool {
    &&& tokens.len() > 0
    &&& tokens.last() is Eof
    &&& forall|i: int| 0 <= i < tokens.len() - 1 ==> !((#[trigger] tokens[i]) is Eof)
    &&& forall|i: int| 0 <= i < tokens.len() ==> !((#[trigger] tokens[i]) is Whitespace)
}

} // verus!
