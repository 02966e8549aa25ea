//! The recognizers: the lexical rules that the tokenizer tries, in order, at
//! the cursor. Each one either claims some characters and returns a token, or
//! declines and leaves the cursor where it is.

use vstd::prelude::*;
use crate::reader::{char_at, string_push, window, Reader};
use crate::token::{Keyword, Token, TokenView};

verus! {

/// Whether the cursor is inside the region of the source that holds code.
#[derive(Debug, Clone, Copy, PartialEq, Eq, Structural)]
pub enum PhpFileState {
    Outside,
    Inside,
}

impl Default for PhpFileState {
    fn default() -> (s: PhpFileState)
        ensures
            s == PhpFileState::Outside,
    {
        PhpFileState::Outside
    }
}

/// The state that is handed to every recognizer beside the cursor.
#[derive(Debug, Clone, Copy, PartialEq, Eq, Structural)]
pub struct ReaderStateCollection {
    pub php_file_state: PhpFileState,
}

impl Default for ReaderStateCollection {
    fn default() -> (s: ReaderStateCollection)
        ensures
            s.php_file_state == PhpFileState::Outside,
    {
        ReaderStateCollection { php_file_state: PhpFileState::Outside }
    }
}

/// The digits `0` to `9`.
pub open spec fn is_digit(c: char) -> bool {
    '0' <= c <= '9'
}

/// The letters `a` to `z` and `A` to `Z`.
pub open spec fn is_letter(c: char) -> bool {
    ('a' <= c <= 'z') || ('A' <= c <= 'Z')
}

/// The sets of characters of which names, numbers, operators and string
/// contents are made.
#[derive(Debug, Clone, Copy, PartialEq, Eq, Structural)]
pub enum CharClass {
    /// Letters, digits, `_` and `$`.
    VarName,
    /// Digits and `.`.
    Number,
    /// `+ - * / % ^ = ! .`
    Op,
    /// Every character but the given one.
    Not(char),
}

impl CharClass {
    /// Whether `c` belongs to the class.
    pub open spec fn has(self, c: char) -> bool {
        match self {
            CharClass::VarName => is_letter(c) || is_digit(c) || c == '_' || c == '$',
            CharClass::Number => is_digit(c) || c == '.',
            CharClass::Op => c == '+' || c == '-' || c == '*' || c == '/' || c == '%' || c == '^'
                || c == '=' || c == '!' || c == '.',
            CharClass::Not(x) => c != x,
        }
    }

    /// Whether `c` belongs to the class.
    pub fn contains(self, c: char) -> (b: bool)
        ensures
            b == self.has(c),
    {
        match self {
            CharClass::VarName => (c >= 'a' && c <= 'z') || (c >= 'A' && c <= 'Z') || (c >= '0'
                && c <= '9') || c == '_' || c == '$',
            CharClass::Number => (c >= '0' && c <= '9') || c == '.',
            CharClass::Op => c == '+' || c == '-' || c == '*' || c == '/' || c == '%' || c == '^'
                || c == '=' || c == '!' || c == '.',
            CharClass::Not(x) => c != x,
        }
    }
}

/// The length of the longest run of characters of `class` in `chars` that
/// begins at index `from`.
pub open spec fn run_len(chars: Seq<char>, from: int, class: CharClass) -> nat
    decreases chars.len() - from,
{
    if 0 <= from < chars.len() && class.has(chars[from]) {
        1 + run_len(chars, from + 1, class)
    } else {
        0
    }
}

/// A run never reaches beyond the end of the characters.
pub proof fn lemma_run_len_bound(chars: Seq<char>, from: int, class: CharClass)
    requires
        0 <= from <= chars.len(),
    ensures
        from + run_len(chars, from, class) <= chars.len(),
    decreases chars.len() - from,
{
    if from < chars.len() && class.has(chars[from]) {
        lemma_run_len_bound(chars, from + 1, class);
    }
}

/// A stretch of `n` characters of `class` that is followed by the end of the
/// characters, or by a character outside `class`, is the longest run.
pub proof fn lemma_run_len_is(chars: Seq<char>, from: int, class: CharClass, n: nat)
    requires
        0 <= from,
        from + n <= chars.len(),
        forall|i: int| from <= i < from + n ==> class.has(#[trigger] chars[i]),
        from + n < chars.len() ==> !class.has(chars[from + n]),
    ensures
        run_len(chars, from, class) == n,
    decreases n,
{
    if n > 0 {
        lemma_run_len_is(chars, from + 1, class, (n - 1) as nat);
    }
}

/// A lexical rule. The tokenizer holds a list of them and tries them in the
/// order of the list.
#[derive(Debug, Clone, PartialEq, Eq)]
pub enum TokenReader {
    /// The start marker `<?php`, outside the code region only. It opens the
    /// code region.
    PhpStart,
    /// A keyword.
    Keyword,
    /// A string between two `"` or two `'`.
    StringValue,
    /// A number: digits and `.`, with `-` or `.` in front where a digit
    /// follows it and none precedes it.
    NumericValue,
    /// `$` and a name.
    VariableName,
    /// `=` that no second `=` follows.
    Assignment,
    /// The longest run of operator characters.
    Op,
    /// The given character, for the given token.
    OneChar(char, Token),
    /// A name that begins with a letter.
    FunctionName,
    /// Any one character, as whitespace: the catch-all.
    Whitespace,
}

/// What a `TokenReader` stands for in contracts.
pub enum TokenReaderView {
    PhpStart,
    Keyword,
    StringValue,
    NumericValue,
    VariableName,
    Assignment,
    Op,
    OneChar(char, TokenView),
    FunctionName,
    Whitespace,
}

impl View for TokenReader {
    type V = TokenReaderView;

    open spec fn view(&self) -> TokenReaderView {
        match self {
            TokenReader::PhpStart => TokenReaderView::PhpStart,
            TokenReader::Keyword => TokenReaderView::Keyword,
            TokenReader::StringValue => TokenReaderView::StringValue,
            TokenReader::NumericValue => TokenReaderView::NumericValue,
            TokenReader::VariableName => TokenReaderView::VariableName,
            TokenReader::Assignment => TokenReaderView::Assignment,
            TokenReader::Op => TokenReaderView::Op,
            TokenReader::OneChar(c, t) => TokenReaderView::OneChar(*c, t@),
            TokenReader::FunctionName => TokenReaderView::FunctionName,
            TokenReader::Whitespace => TokenReaderView::Whitespace,
        }
    }
}

impl TokenReaderView {
    /// No recognizer returns the end of the stream: the tokenizer alone
    /// appends it.
    pub open spec fn wf(self) -> bool {
        !(self matches TokenReaderView::OneChar(_, t) && t is Eof)
    }
}

/// A match: the token, the position after the characters that were claimed,
/// and the state after it.
pub struct Lexed {
    pub token: TokenView,
    pub next: int,
    pub state: PhpFileState,
}

/// Whether `chars` holds `lit` at index `pos`.
pub open spec fn looking_at(chars: Seq<char>, pos: int, lit: Seq<char>) -> bool {
    window(chars, pos, lit.len() as int) == lit
}

/// Whether a number begins at `pos`: with a digit, or with `-` or `.` where
/// a digit follows and no digit precedes.
pub open spec fn starts_number(chars: Seq<char>, pos: int) -> bool {
    let c = chars[pos];
    ||| is_digit(c)
    ||| {
        &&& c == '-' || c == '.'
        &&& char_at(chars, pos + 1) matches Some(d) && is_digit(d)
        &&& !(char_at(chars, pos - 1) matches Some(b) && is_digit(b))
    }
}

/// The position after a string whose contents end at `end`: after the
/// closing quote, or the end of the source where the string is not closed.
pub open spec fn after_quote(chars: Seq<char>, end: int) -> int {
    if end < chars.len() {
        end + 1
    } else {
        end
    }
}

/// What recognizer `r` does at position `pos` of `chars`, which lies before
/// the end, in state `state`: its match, or `None` where it declines.
pub open spec fn recognize(
    r: TokenReaderView,
    chars: Seq<char>,
    pos: int,
    state: PhpFileState,
) -> Option<Lexed> {
    let c = chars[pos];
    match r {
        TokenReaderView::PhpStart => {
            if state == PhpFileState::Outside && looking_at(chars, pos, "<?php"@) {
                Some(
                    Lexed {
                        token: TokenView::PhpStart,
                        next: pos + "<?php"@.len(),
                        state: PhpFileState::Inside,
                    },
                )
            } else {
                None
            }
        },
        TokenReaderView::Keyword => {
            if looking_at(chars, pos, Keyword::Function.name()) {
                Some(
                    Lexed {
                        token: TokenView::Keyword(Keyword::Function),
                        next: pos + Keyword::Function.name().len(),
                        state,
                    },
                )
            } else {
                None
            }
        },
        TokenReaderView::StringValue => {
            if c == '"' || c == '\'' {
                let end = pos + 1 + run_len(chars, pos + 1, CharClass::Not(c));
                Some(
                    Lexed {
                        token: TokenView::StringValue(chars.subrange(pos + 1, end)),
                        next: after_quote(chars, end),
                        state,
                    },
                )
            } else {
                None
            }
        },
        TokenReaderView::NumericValue => {
            if starts_number(chars, pos) {
                let end = pos + 1 + run_len(chars, pos + 1, CharClass::Number);
                Some(Lexed { token: TokenView::NumericValue(chars.subrange(pos, end)), next: end, state })
            } else {
                None
            }
        },
        TokenReaderView::VariableName => {
            if c == '$' {
                let end = pos + 1 + run_len(chars, pos + 1, CharClass::VarName);
                Some(
                    Lexed {
                        token: TokenView::VariableName(chars.subrange(pos + 1, end)),
                        next: end,
                        state,
                    },
                )
            } else {
                None
            }
        },
        TokenReaderView::Assignment => {
            if c == '=' && char_at(chars, pos + 1) != Some('=') {
                Some(Lexed { token: TokenView::Assignment, next: pos + 1, state })
            } else {
                None
            }
        },
        TokenReaderView::Op => {
            if CharClass::Op.has(c) {
                let end = pos + run_len(chars, pos, CharClass::Op);
                Some(Lexed { token: TokenView::Op(chars.subrange(pos, end)), next: end, state })
            } else {
                None
            }
        },
        TokenReaderView::OneChar(ch, token) => {
            if c == ch {
                Some(Lexed { token, next: pos + 1, state })
            } else {
                None
            }
        },
        TokenReaderView::FunctionName => {
            if is_letter(c) {
                let end = pos + run_len(chars, pos, CharClass::VarName);
                Some(Lexed { token: TokenView::FunctionName(chars.subrange(pos, end)), next: end, state })
            } else {
                None
            }
        },
        TokenReaderView::Whitespace => Some(Lexed { token: TokenView::Whitespace, next: pos + 1, state }),
    }
}

/// Every match claims at least one character and none beyond the end.
pub proof fn lemma_recognize_advances(
    r: TokenReaderView,
    chars: Seq<char>,
    pos: int,
    state: PhpFileState,
)
    requires
        0 <= pos < chars.len(),
    ensures
        recognize(r, chars, pos, state) matches Some(m) ==> pos < m.next <= chars.len(),
{
    reveal_strlit("<?php");
    reveal_strlit("function");
    lemma_run_len_bound(chars, pos + 1, CharClass::Not(chars[pos]));
    lemma_run_len_bound(chars, pos + 1, CharClass::Number);
    lemma_run_len_bound(chars, pos + 1, CharClass::VarName);
    lemma_run_len_bound(chars, pos, CharClass::Op);
    lemma_run_len_bound(chars, pos, CharClass::VarName);
}

/// Whether the source holds `lit` at the cursor, and the number of
/// characters of `lit`.
fn at_literal(reader: &Reader, lit: &str) -> (r: (bool, usize))
    requires
        reader.wf(),
    ensures
        r.0 == looking_at(reader@.chars, reader@.position, lit@),
        r.1 == lit@.len(),
{
    let n = lit.unicode_len();
    let found = reader.peek_char_n(n);
    (found == lit.to_owned(), n)
}

/// The longest run of characters of `class` from the cursor on, and its
/// length.
fn peek_run(reader: &Reader, class: CharClass) -> (r: (String, usize))
    requires
        reader.wf(),
    ensures
        r.1 == run_len(reader@.chars, reader@.position, class),
        reader@.position + r.1 <= reader@.chars.len(),
        r.0@ == reader@.chars.subrange(reader@.position, reader@.position + r.1),
{
    let in_class = |c: char| -> (b: bool)
        ensures
            b == class.has(c),
        { class.contains(c) };
    let run = reader.peek_until(in_class);
    let n = run.as_str().unicode_len();
    proof {
        assert forall|i: int|
            reader@.position <= i < reader@.position + n implies class.has(
            #[trigger] reader@.chars[i],
        ) by {
            assert(reader@.chars[i] == run@[i - reader@.position]);
        }
        lemma_run_len_is(reader@.chars, reader@.position, class, n as nat);
    }
    (run, n)
}

/// Whether a call that found the cursor as in `before` and the state
/// `state_before`, and left them as in `after` and `state_after`, did what
/// recognizer `r` does there: on a match it returned the token and stands
/// after the characters that were claimed; where `r` declines it returned
/// `None` and changed nothing.
pub open spec fn reads_as(
    r: TokenReaderView,
    before: Reader,
    state_before: PhpFileState,
    after: Reader,
    state_after: PhpFileState,
    result: Option<Token>,
) -> bool {
    &&& after.wf()
    &&& after@.chars == before@.chars
    &&& match recognize(r, before@.chars, before@.position, state_before) {
        Some(m) => {
            &&& result matches Some(t) && t@ == m.token
            &&& after@.position == m.next
            &&& state_after == m.state
        },
        None => {
            &&& result is None
            &&& after@.position == before@.position
            &&& state_after == state_before
        },
    }
}

impl TokenReader {
    /// Tries this recognizer at the cursor, which lies before the end of the
    /// source. On a match the cursor stands after the characters that were
    /// claimed; where the recognizer declines, nothing has changed.
    pub fn read(&self, reader: &mut Reader, states: &mut ReaderStateCollection) -> (r: Option<
        Token,
    >)
        requires
            old(reader).wf(),
            old(reader)@.position < old(reader)@.chars.len(),
        ensures
            reads_as(
                self@,
                *old(reader),
                old(states).php_file_state,
                *final(reader),
                final(states).php_file_state,
                r,
            ),
    {
        let ghost state = states.php_file_state;
        let r = match self {
            TokenReader::PhpStart => read_php_start(reader, states),
            TokenReader::Keyword => read_keyword(reader),
            TokenReader::StringValue => read_string(reader),
            TokenReader::NumericValue => read_number(reader),
            TokenReader::VariableName => read_variable(reader),
            TokenReader::Assignment => read_assignment(reader),
            TokenReader::Op => read_op(reader),
            TokenReader::OneChar(ch, token) => {
                if reader.peek_char() == *ch {
                    reader.forward();
                    Some(token.duplicate())
                } else {
                    None
                }
            },
            TokenReader::FunctionName => read_function_name(reader),
            TokenReader::Whitespace => {
                reader.forward();
                Some(Token::Whitespace)
            },
        };
        assert(reads_as(self@, *old(reader), state, *reader, states.php_file_state, r));
        r
    }
}

fn read_php_start(reader: &mut Reader, states: &mut ReaderStateCollection) -> (r: Option<Token>)
    requires
        old(reader).wf(),
        old(reader)@.position < old(reader)@.chars.len(),
    ensures
        reads_as(
            TokenReaderView::PhpStart,
            *old(reader),
            old(states).php_file_state,
            *final(reader),
            final(states).php_file_state,
            r,
        ),
{
    if states.php_file_state == PhpFileState::Outside {
        let (hit, n) = at_literal(reader, "<?php");
        if hit {
            states.php_file_state = PhpFileState::Inside;
            reader.forward_n(n);
            return Some(Token::PhpStart);
        }
    }
    None
}

fn read_keyword(reader: &mut Reader) -> (r: Option<Token>)
    requires
        old(reader).wf(),
        old(reader)@.position < old(reader)@.chars.len(),
    ensures
        forall|state: PhpFileState|
            reads_as(TokenReaderView::Keyword, *old(reader), state, *final(reader), state, r),
{
    let names = Keyword::all_names();
    let mut i: usize = 0;
    while i < names.len()
        invariant
            reader.wf(),
            *reader == *old(reader),
            names@.len() == 1,
            names@[0]@ == Keyword::Function.name(),
            i <= names@.len(),
            i == 1 ==> !looking_at(reader@.chars, reader@.position, Keyword::Function.name()),
        decreases names@.len() - i,
    {
        let name = names[i];
        let (hit, n) = at_literal(reader, name);
        if hit {
            reader.forward_n(n);
            return Some(Token::Keyword(Keyword::for_name(name)));
        }
        i += 1;
    }
    None
}

fn read_string(reader: &mut Reader) -> (r: Option<Token>)
    requires
        old(reader).wf(),
        old(reader)@.position < old(reader)@.chars.len(),
    ensures
        forall|state: PhpFileState|
            reads_as(TokenReaderView::StringValue, *old(reader), state, *final(reader), state, r),
{
    let c = reader.peek_char();
    if c == '"' || c == '\'' {
        reader.forward();
        let (s, n) = peek_run(reader, CharClass::Not(c));
        reader.forward_n(n);
        if !reader.is_end() {
            reader.forward();
        }
        return Some(Token::StringValue(s));
    }
    None
}

fn read_number(reader: &mut Reader) -> (r: Option<Token>)
    requires
        old(reader).wf(),
        old(reader)@.position < old(reader)@.chars.len(),
    ensures
        forall|state: PhpFileState|
            reads_as(TokenReaderView::NumericValue, *old(reader), state, *final(reader), state, r),
{
    let c = reader.peek_char();
    let digit = c >= '0' && c <= '9';
    if !digit {
        if !(c == '-' || c == '.') {
            return None;
        }
        match reader.peek_char_from(1) {
            Some(d) => {
                if !(d >= '0' && d <= '9') {
                    return None;
                }
            },
            None => {
                return None;
            },
        }
        match reader.peek_char_back() {
            Some(b) => {
                if b >= '0' && b <= '9' {
                    return None;
                }
            },
            None => {},
        }
    }
    let mut s = String::new();
    string_push(&mut s, c);
    reader.forward();
    let (rest, n) = peek_run(reader, CharClass::Number);
    s.append(rest.as_str());
    reader.forward_n(n);
    proof {
        let chars = reader@.chars;
        let pos = old(reader)@.position;
        assert(s@ =~= chars.subrange(pos, pos + 1 + n));
    }
    Some(Token::NumericValue(s))
}

fn read_variable(reader: &mut Reader) -> (r: Option<Token>)
    requires
        old(reader).wf(),
        old(reader)@.position < old(reader)@.chars.len(),
    ensures
        forall|state: PhpFileState|
            reads_as(TokenReaderView::VariableName, *old(reader), state, *final(reader), state, r),
{
    if reader.peek_char() == '$' {
        reader.forward();
        let (s, n) = peek_run(reader, CharClass::VarName);
        reader.forward_n(n);
        return Some(Token::VariableName(s));
    }
    None
}

fn read_assignment(reader: &mut Reader) -> (r: Option<Token>)
    requires
        old(reader).wf(),
        old(reader)@.position < old(reader)@.chars.len(),
    ensures
        forall|state: PhpFileState|
            reads_as(TokenReaderView::Assignment, *old(reader), state, *final(reader), state, r),
{
    if reader.peek_char() == '=' {
        let doubled = match reader.peek_char_from(1) {
            Some(d) => d == '=',
            None => false,
        };
        if !doubled {
            reader.forward();
            return Some(Token::Assignment);
        }
    }
    None
}

fn read_op(reader: &mut Reader) -> (r: Option<Token>)
    requires
        old(reader).wf(),
        old(reader)@.position < old(reader)@.chars.len(),
    ensures
        forall|state: PhpFileState|
            reads_as(TokenReaderView::Op, *old(reader), state, *final(reader), state, r),
{
    let (ops, n) = peek_run(reader, CharClass::Op);
    if n > 0 {
        reader.forward_n(n);
        return Some(Token::Op(ops));
    }
    None
}

fn read_function_name(reader: &mut Reader) -> (r: Option<Token>)
    requires
        old(reader).wf(),
        old(reader)@.position < old(reader)@.chars.len(),
    ensures
        forall|state: PhpFileState|
            reads_as(TokenReaderView::FunctionName, *old(reader), state, *final(reader), state, r),
{
    let c = reader.peek_char();
    if (c >= 'a' && c <= 'z') || (c >= 'A' && c <= 'Z') {
        let (name, n) = peek_run(reader, CharClass::VarName);
        reader.forward_n(n);
        return Some(Token::FunctionName(name));
    }
    None
}

} // verus!
