//! The character cursor: the source text as a sequence of characters together
//! with a read position.

use vstd::prelude::*;

verus! {

/// What a `Reader` stands for in contracts: its characters and its position.
pub struct ReaderView {
    pub chars: Seq<char>,
    pub position: int,
}

/// The source as a sequence of characters, and the position of the cursor in
/// it.
pub struct Reader {
    chars: Vec<char>,
    position: usize,
}

/// Appends one character to a string (`String::push`): afterwards the string
/// holds its former characters followed by `c`.
#[verifier::external_body]
pub(crate) fn string_push(s: &mut String, c: char)
    ensures
        final(s)@ == old(s)@.push(c),
{
    s.push(c)
}

/// The character at index `i` of `chars`, if there is one.
pub open spec fn char_at(chars: Seq<char>, i: int) -> Option<char> {
    if 0 <= i < chars.len() {
        Some(chars[i])
    } else {
        None
    }
}

/// The `n` characters of `chars` from index `from` on, cut short at the end
/// of `chars`.
pub open spec fn window(chars: Seq<char>, from: int, n: int) -> Seq<char> {
    if from + n <= chars.len() {
        chars.subrange(from, from + n)
    } else {
        chars.subrange(from, chars.len() as int)
    }
}

impl View for Reader {
    type V = ReaderView;

    closed spec fn view(&self) -> ReaderView {
        ReaderView { chars: self.chars@, position: self.position as int }
    }
}

impl Reader {
    /// The position never lies beyond the end of the characters.
    pub open spec fn wf(&self) -> bool {
        0 <= self@.position <= self@.chars.len()
    }

    /// A reader at the start of `source`.
    pub fn new(source: String) -> (r: Reader)
        ensures
            r.wf(),
            r@.chars == source@,
            r@.position == 0,
    {
        let mut chars: Vec<char> = Vec::new();
        let s = source.as_str();
        for c in it: s.chars()
            invariant
                chars@ == it.seq().take(it.index() as int),
                it.seq() == s@,
        {
            chars.push(c);
        }
        Reader { chars, position: 0 }
    }

    /// The position of the cursor: the number of characters before it.
    pub fn position(&self) -> (p: usize)
        ensures
            p == self@.position,
    {
        self.position
    }

    /// Whether the cursor has passed the last character.
    pub fn is_end(&self) -> (b: bool)
        requires
            self.wf(),
        ensures
            b == (self@.position == self@.chars.len()),
    {
        self.position >= self.chars.len()
    }

    /// The character under the cursor.
    pub fn peek_char(&self) -> (c: char)
        requires
            self.wf(),
            self@.position < self@.chars.len(),
        ensures
            c == self@.chars[self@.position],
    {
        self.chars[self.position]
    }

    /// The character `offset` places after the cursor, or `None` where the
    /// source ends before it.
    pub fn peek_char_from(&self, offset: usize) -> (c: Option<char>)
        requires
            self.wf(),
        ensures
            c == char_at(self@.chars, self@.position + offset),
    {
        if offset < self.chars.len() - self.position {
            Some(self.chars[self.position + offset])
        } else {
            None
        }
    }

    /// The character just before the cursor, or `None` at the start of the
    /// source.
    pub fn peek_char_back(&self) -> (c: Option<char>)
        requires
            self.wf(),
        ensures
            c == char_at(self@.chars, self@.position - 1),
    {
        if self.position > 0 {
            Some(self.chars[self.position - 1])
        } else {
            None
        }
    }

    /// The next `n` characters from the cursor on, or as many as are left.
    pub fn peek_char_n(&self, n: usize) -> (s: String)
        requires
            self.wf(),
        ensures
            s@ == window(self@.chars, self@.position, n as int),
    {
        let left: usize = self.chars.len() - self.position;
        let end: usize = if n < left {
            self.position + n
        } else {
            self.chars.len()
        };
        let mut s = String::new();
        let mut i: usize = self.position;
        while i < end
            invariant
                self.position <= i <= end <= self.chars.len(),
                s@ == self.chars@.subrange(self.position as int, i as int),
            decreases end - i,
        {
            string_push(&mut s, self.chars[i]);
            i += 1;
        }
        s
    }

    /// The longest run of characters from the cursor on that all satisfy
    /// `pred`: it ends at the first character that `pred` rejects, or at the
    /// end of the source.
    pub fn peek_until<P: Fn(char) -> bool>(&self, pred: P) -> (s: String)
        requires
            self.wf(),
            forall|c: char| call_requires(pred, (c,)),
        ensures
            self@.position + s@.len() <= self@.chars.len(),
            s@ == self@.chars.subrange(
                self@.position,
                self@.position + s@.len(),
            ),
            forall|i: int| 0 <= i < s@.len() ==> call_ensures(pred, (#[trigger] s@[i],), true),
            self@.position + s@.len() < self@.chars.len() ==> call_ensures(
                pred,
                (self@.chars[self@.position + s@.len()],),
                false,
            ),
    {
        let mut s = String::new();
        let mut i: usize = self.position;
        while i < self.chars.len()
            invariant_except_break
                self.position <= i <= self.chars.len(),
                s@ == self.chars@.subrange(self.position as int, i as int),
                forall|k: int| 0 <= k < s@.len() ==> call_ensures(pred, (#[trigger] s@[k],), true),
            invariant
                forall|c: char| call_requires(pred, (c,)),
            ensures
                self.position <= i <= self.chars.len(),
                s@ == self.chars@.subrange(self.position as int, i as int),
                forall|k: int| 0 <= k < s@.len() ==> call_ensures(pred, (#[trigger] s@[k],), true),
                i < self.chars.len() ==> call_ensures(pred, (self.chars@[i as int],), false),
            decreases self.chars.len() - i,
        {
            let c = self.chars[i];
            if !pred(c) {
                break;
            }
            string_push(&mut s, c);
            i += 1;
        }
        s
    }

    /// Moves the cursor one character on.
    pub fn forward(&mut self)
        requires
            old(self).wf(),
            old(self)@.position < old(self)@.chars.len(),
        ensures
            final(self).wf(),
            final(self)@.chars == old(self)@.chars,
            final(self)@.position == old(self)@.position + 1,
    {
        let len: usize = self.chars.len();
        assert(self.position < len);
        self.position = self.position + 1;
    }

    /// Moves the cursor `n` characters on.
    pub fn forward_n(&mut self, n: usize)
        requires
            old(self).wf(),
            old(self)@.position + n <= old(self)@.chars.len(),
        ensures
            final(self).wf(),
            final(self)@.chars == old(self)@.chars,
            final(self)@.position == old(self)@.position + n,
    {
        let len: usize = self.chars.len();
        assert(self.position + n <= len);
        self.position = self.position + n;
    }
}

} // verus!
