//! What holds of every run of the pipeline: the first recognizer that
//! matches wins, the tokens hold no whitespace and end with the one end of
//! the stream, and numbers and strings are bounded as the language asks.

use vstd::prelude::*;
use crate::lexing::{
    covers, first_match, kept, kept_at, lemma_first_match_advances, lex_from, standard_readers,
    starts_from, well_terminated,
};
use crate::reader::window;
use crate::recognizer::{
    is_digit, is_letter, lemma_run_len_is, looking_at, recognize, CharClass, Lexed,
    PhpFileState, TokenReaderView,
};
use crate::token::TokenView;

verus! {

/// A list that holds the catch-all covers every source.
pub proof fn lemma_catch_all_covers(readers: Seq<TokenReaderView>, chars: Seq<char>, i: int)
    requires
        0 <= i < readers.len(),
        readers[i] == TokenReaderView::Whitespace,
    ensures
        covers(readers, chars),
{
    assert forall|pos: int, state: PhpFileState| 0 <= pos < chars.len() implies (
    #[trigger] first_match(readers, 0, chars, pos, state)) is Some by {
        lemma_first_match_reaches(readers, 0, chars, pos, state, i);
    }
}

/// Where recognizer `i` matches, the list from any index up to `i` does.
proof fn lemma_first_match_reaches(
    readers: Seq<TokenReaderView>,
    from: int,
    chars: Seq<char>,
    pos: int,
    state: PhpFileState,
    i: int,
)
    requires
        0 <= from <= i < readers.len(),
        recognize(readers[i], chars, pos, state) is Some,
    ensures
        first_match(readers, from, chars, pos, state) is Some,
    decreases i - from,
{
    if from < i {
        lemma_first_match_reaches(readers, from + 1, chars, pos, state, i);
    }
}

/// First match wins: where recognizer `i` matches and all before it decline,
/// the pipeline takes the match of recognizer `i`, whatever the recognizers
/// after it would do.
pub proof fn lemma_first_match_is_earliest(
    readers: Seq<TokenReaderView>,
    chars: Seq<char>,
    pos: int,
    state: PhpFileState,
    i: int,
)
    requires
        0 <= i < readers.len(),
        recognize(readers[i], chars, pos, state) is Some,
        forall|k: int| 0 <= k < i ==> recognize(#[trigger] readers[k], chars, pos, state) is None,
    ensures
        first_match(readers, 0, chars, pos, state) == recognize(readers[i], chars, pos, state),
{
    lemma_first_match_skips(readers, 0, chars, pos, state, i);
}

/// The recognizers that decline are passed over.
proof fn lemma_first_match_skips(
    readers: Seq<TokenReaderView>,
    from: int,
    chars: Seq<char>,
    pos: int,
    state: PhpFileState,
    i: int,
)
    requires
        0 <= from <= i < readers.len(),
        forall|k: int|
            from <= k < i ==> recognize(#[trigger] readers[k], chars, pos, state) is None,
    ensures
        first_match(readers, from, chars, pos, state) == first_match(
            readers,
            i,
            chars,
            pos,
            state,
        ),
    decreases i - from,
{
    if from < i {
        assert(recognize(readers[from], chars, pos, state) is None);
        lemma_first_match_skips(readers, from + 1, chars, pos, state, i);
    }
}

/// No match of a well-formed list is the end of the stream.
proof fn lemma_first_match_not_eof(
    readers: Seq<TokenReaderView>,
    from: int,
    chars: Seq<char>,
    pos: int,
    state: PhpFileState,
)
    requires
        forall|i: int| 0 <= i < readers.len() ==> (#[trigger] readers[i]).wf(),
    ensures
        first_match(readers, from, chars, pos, state) matches Some(m) ==> !(m.token is Eof),
    decreases readers.len() - from,
{
    if 0 <= from < readers.len() {
        assert(readers[from].wf());
        lemma_first_match_not_eof(readers, from + 1, chars, pos, state);
    }
}

/// Whatever the source, the tokens that come of it hold no whitespace, and
/// the end of the stream exactly once, as their last element.
pub proof fn lemma_lex_well_terminated(
    readers: Seq<TokenReaderView>,
    chars: Seq<char>,
    pos: int,
    state: PhpFileState,
)
    requires
        covers(readers, chars),
        forall|i: int| 0 <= i < readers.len() ==> (#[trigger] readers[i]).wf(),
    ensures
        well_terminated(lex_from(readers, chars, pos, state)),
    decreases chars.len() - pos,
{
    if 0 <= pos < chars.len() {
        let m = first_match(readers, 0, chars, pos, state)->0;
        lemma_first_match_advances(readers, 0, chars, pos, state);
        lemma_first_match_not_eof(readers, 0, chars, pos, state);
        lemma_lex_well_terminated(readers, chars, m.next, m.state);
        let rest = lex_from(readers, chars, m.next, m.state);
        let all = kept(m.token) + rest;
        assert(all == lex_from(readers, chars, pos, state));
        if m.token is Whitespace {
            assert(all =~= rest);
        } else {
            assert(all.last() == rest.last());
            assert forall|i: int| 0 <= i < all.len() - 1 implies !((#[trigger] all[i]) is Eof) by {
                if i > 0 {
                    assert(all[i] == rest[i - 1]);
                }
            }
            assert forall|i: int| 0 <= i < all.len() implies !((#[trigger] all[i])
                is Whitespace) by {
                if i > 0 {
                    assert(all[i] == rest[i - 1]);
                }
            }
        }
    }
}

/// Where every match from `pos` on is whitespace, the tokens are the end of
/// the stream alone.
pub proof fn lemma_whitespace_only(
    readers: Seq<TokenReaderView>,
    chars: Seq<char>,
    pos: int,
    state: PhpFileState,
)
    requires
        covers(readers, chars),
        forall|p: int, s: PhpFileState|
            pos <= p < chars.len() ==> (#[trigger] first_match(
                readers,
                0,
                chars,
                p,
                s,
            ))->0.token is Whitespace,
    ensures
        lex_from(readers, chars, pos, state) == seq![TokenView::Eof],
    decreases chars.len() - pos,
{
    if 0 <= pos < chars.len() {
        let m = first_match(readers, 0, chars, pos, state)->0;
        lemma_first_match_advances(readers, 0, chars, pos, state);
        lemma_whitespace_only(readers, chars, m.next, m.state);
        assert(kept(m.token) + seq![TokenView::Eof] =~= seq![TokenView::Eof]);
    }
}

/// The characters that begin no token of the language: all but quotes,
/// digits, `$`, operator characters, punctuation and letters.
pub open spec fn is_filler(c: char) -> bool {
    !(c == '"' || c == '\'' || is_digit(c) || c == '$' || CharClass::Op.has(c) || c == ';' || c
        == '(' || c == ')' || c == '{' || c == '}' || c == ',' || is_letter(c))
}

/// A source made of characters that begin no token gives the end of the
/// stream alone.
pub proof fn lemma_filler_gives_no_token(chars: Seq<char>, state: PhpFileState)
    requires
        forall|i: int| 0 <= i < chars.len() ==> is_filler(#[trigger] chars[i]),
    ensures
        lex_from(standard_readers(), chars, 0, state) == seq![TokenView::Eof],
{
    let readers = standard_readers();
    lemma_catch_all_covers(readers, chars, 14);
    assert forall|p: int, s: PhpFileState| 0 <= p < chars.len() implies (#[trigger] first_match(
        readers,
        0,
        chars,
        p,
        s,
    ))->0.token is Whitespace by {
        reveal_strlit("<?php");
        reveal_strlit("function");
        assert(is_filler(chars[p]));
        if looking_at(chars, p, "<?php"@) {
            let w = window(chars, p, 5);
            assert(w == "<?php"@);
            assert(w.len() == 5);
            assert(w[2] == 'p');
            assert(chars[p + 2] == w[2]);
            assert(is_filler(chars[p + 2]));
        }
        assert forall|k: int| 0 <= k < 14 implies recognize(
            #[trigger] readers[k],
            chars,
            p,
            s,
        ) is None by {
            if k == 1 {
                if recognize(readers[1], chars, p, s) is Some {
                    assert(window(chars, p, 8)[0] == 'f');
                }
            }
        }
        lemma_first_match_is_earliest(readers, chars, p, s, 14);
    }
    lemma_whitespace_only(readers, chars, 0, state);
}

/// A minus sign directly after a digit is an operator, never the sign of a
/// number: the number recognizer declines there, and the recognizers of the
/// language give an operator token.
pub proof fn lemma_minus_after_digit_is_operator(chars: Seq<char>, pos: int, state: PhpFileState)
    requires
        0 < pos < chars.len(),
        is_digit(chars[pos - 1]),
        chars[pos] == '-',
    ensures
        recognize(TokenReaderView::NumericValue, chars, pos, state) is None,
        first_match(standard_readers(), 0, chars, pos, state) matches Some(m) && m.token is Op,
{
    let readers = standard_readers();
    reveal_strlit("<?php");
    reveal_strlit("function");
    assert forall|k: int| 0 <= k < 6 implies recognize(
        #[trigger] readers[k],
        chars,
        pos,
        state,
    ) is None by {
        if k == 0 && recognize(readers[0], chars, pos, state) is Some {
            assert(window(chars, pos, 5)[0] == '<');
        }
        if k == 1 && recognize(readers[1], chars, pos, state) is Some {
            assert(window(chars, pos, 8)[0] == 'f');
        }
    }
    lemma_first_match_is_earliest(readers, chars, pos, state, 6);
}

/// A minus sign that a digit follows and no digit precedes begins a number:
/// the token is the sign and the digits and dots after it.
pub proof fn lemma_minus_before_digit_is_number(chars: Seq<char>, pos: int, state: PhpFileState)
    requires
        0 <= pos,
        pos + 1 < chars.len(),
        chars[pos] == '-',
        is_digit(chars[pos + 1]),
        pos > 0 ==> !is_digit(chars[pos - 1]),
    ensures
        recognize(TokenReaderView::NumericValue, chars, pos, state) matches Some(m) && m.token
            == TokenView::NumericValue(chars.subrange(pos, m.next)) && m.next >= pos + 2,
{
}

/// A string literal gives its contents without the quotes: where a quote
/// stands at `pos`, `n` characters other than it follow, and then the same
/// quote, the token holds these `n` characters, and the cursor stands after
/// the closing quote.
pub proof fn lemma_string_gives_its_contents(
    chars: Seq<char>,
    pos: int,
    n: nat,
    state: PhpFileState,
)
    requires
        0 <= pos,
        pos + n + 1 < chars.len(),
        chars[pos] == '"' || chars[pos] == '\'',
        forall|i: int| pos < i <= pos + n ==> #[trigger] chars[i] != chars[pos],
        chars[pos + n + 1] == chars[pos],
    ensures
        recognize(TokenReaderView::StringValue, chars, pos, state) == Some(
            Lexed {
                token: TokenView::StringValue(chars.subrange(pos + 1, pos + 1 + n)),
                next: pos + n + 2,
                state,
            },
        ),
{
    lemma_run_len_is(chars, pos + 1, CharClass::Not(chars[pos]), n);
}

/// There is one offset for each token. The offsets lie between the position
/// at which the run began and the end of the source, and each token begins
/// after the one before it.
pub proof fn lemma_starts_are_ordered(
    readers: Seq<TokenReaderView>,
    chars: Seq<char>,
    pos: int,
    state: PhpFileState,
)
    requires
        covers(readers, chars),
        0 <= pos <= chars.len(),
    ensures
        starts_from(readers, chars, pos, state).len() == lex_from(readers, chars, pos, state).len(),
        forall|i: int|
            0 <= i < starts_from(readers, chars, pos, state).len() ==> pos <= (
            #[trigger] starts_from(readers, chars, pos, state)[i]) <= chars.len(),
        forall|i: int, j: int|
            0 <= i < j < starts_from(readers, chars, pos, state).len() ==> (#[trigger] starts_from(
                readers,
                chars,
                pos,
                state,
            )[i]) < (#[trigger] starts_from(readers, chars, pos, state)[j]),
    decreases chars.len() - pos,
{
    if pos < chars.len() {
        let m = first_match(readers, 0, chars, pos, state)->0;
        lemma_first_match_advances(readers, 0, chars, pos, state);
        lemma_starts_are_ordered(readers, chars, m.next, m.state);
        let rest = starts_from(readers, chars, m.next, m.state);
        let all = kept_at(m.token, pos) + rest;
        assert(all == starts_from(readers, chars, pos, state));
        if m.token is Whitespace {
            assert(all =~= rest);
        } else {
            assert forall|i: int| 0 <= i < all.len() implies pos <= (#[trigger] all[i])
                <= chars.len() by {
                if i > 0 {
                    assert(all[i] == rest[i - 1]);
                }
            }
            assert forall|i: int, j: int| 0 <= i < j < all.len() implies (#[trigger] all[i]) < (
            #[trigger] all[j]) by {
                assert(all[j] == rest[j - 1]);
                if i > 0 {
                    assert(all[i] == rest[i - 1]);
                }
            }
        }
    }
}

} // verus!
