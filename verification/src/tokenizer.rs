//! The recognizer pipeline: an ordered list of recognizers that is run over
//! the source until its end, and the token sequence that comes of it.

use vstd::prelude::*;
use crate::lexing::{
    covers, first_match, kept, kept_at, lemma_first_match_advances, lex_from, standard_readers,
    starts_from, well_terminated,
};
use crate::lexing_laws::{
    lemma_catch_all_covers, lemma_lex_well_terminated, lemma_starts_are_ordered,
};
use crate::reader::Reader;
use crate::recognizer::{lemma_recognize_advances, reads_as, TokenReaderView};
use crate::token::{token_views, TokenView};

pub use crate::recognizer::{PhpFileState, ReaderStateCollection, TokenReader};
pub use crate::token::{Keyword, Token};

verus! {

/// The views of a list of recognizers, one by one.
pub open spec fn reader_views(readers: Seq<TokenReader>) -> Seq<TokenReaderView> {
    readers.map_values(|r: TokenReader| r@)
}

/// The positions of a list of offsets, one by one.
pub open spec fn offset_views(offsets: Seq<usize>) -> Seq<int> {
    offsets.map_values(|o: usize| o as int)
}

/// The pipeline: the cursor over the source, the state that the recognizers
/// share, the recognizers in their order, the tokens produced so far, and
/// for each of them the position in the source at which it begins.
pub struct Tokenizer {
    reader: Reader,
    pub tokens: Vec<Token>,
    offsets: Vec<usize>,
    states: ReaderStateCollection,
    token_readers: Vec<TokenReader>,
}

impl Tokenizer {
    /// The characters of the source.
    pub closed spec fn source(&self) -> Seq<char> {
        self.reader@.chars
    }

    /// The position of the cursor in the source.
    pub closed spec fn position(&self) -> int {
        self.reader@.position
    }

    /// The state that the recognizers share.
    pub closed spec fn state(&self) -> PhpFileState {
        self.states.php_file_state
    }

    /// The tokens produced so far, by their views.
    pub closed spec fn output(&self) -> Seq<TokenView> {
        token_views(self.tokens@)
    }

    /// The positions in the source at which the tokens produced so far
    /// begin.
    pub closed spec fn starts(&self) -> Seq<int> {
        offset_views(self.offsets@)
    }

    /// The recognizers, in the order in which they were added.
    pub closed spec fn readers(&self) -> Seq<TokenReaderView> {
        reader_views(self.token_readers@)
    }

    /// The cursor lies within the source, and no recognizer returns the end
    /// of the stream.
    pub open spec fn wf(&self) -> bool {
        &&& 0 <= self.position() <= self.source().len()
        &&& forall|i: int| 0 <= i < self.readers().len() ==> (#[trigger] self.readers()[i]).wf()
    }

    /// A tokenizer at the start of `source`, outside the code region, with
    /// no recognizers and no tokens yet.
    pub fn new(source: String) -> (t: Tokenizer)
        ensures
            t.wf(),
            t.source() == source@,
            t.position() == 0,
            t.state() == PhpFileState::Outside,
            t.readers() == Seq::<TokenReaderView>::empty(),
            t.output() == Seq::<TokenView>::empty(),
            t.starts() == Seq::<int>::empty(),
    {
        let t = Tokenizer {
            reader: Reader::new(source),
            tokens: Vec::new(),
            offsets: Vec::new(),
            states: ReaderStateCollection { php_file_state: PhpFileState::Outside },
            token_readers: Vec::new(),
        };
        assert(t.readers() =~= Seq::<TokenReaderView>::empty());
        assert(t.output() =~= Seq::<TokenView>::empty());
        assert(t.starts() =~= Seq::<int>::empty());
        t
    }

    /// Appends a recognizer to the list: it is tried after all that were
    /// added before it.
    pub fn add_token_reader(&mut self, tr: TokenReader)
        requires
            old(self).wf(),
            tr@.wf(),
        ensures
            final(self).wf(),
            final(self).readers() == old(self).readers().push(tr@),
            final(self).source() == old(self).source(),
            final(self).position() == old(self).position(),
            final(self).state() == old(self).state(),
            final(self).output() == old(self).output(),
            final(self).starts() == old(self).starts(),
    {
        self.token_readers.push(tr);
        assert(self.readers() =~= old(self).readers().push(tr@));
    }

    /// The tokens produced so far.
    pub fn tokens(&self) -> (tokens: &Vec<Token>)
        ensures
            token_views(tokens@) == self.output(),
    {
        &self.tokens
    }

    /// The positions in the source at which the tokens produced so far
    /// begin, one for each token.
    pub fn offsets(&self) -> (offsets: &Vec<usize>)
        ensures
            offset_views(offsets@) == self.starts(),
    {
        &self.offsets
    }

    /// Appends the recognizers of the language, in their order.
    pub fn add_standard_token_readers(&mut self)
        requires
            old(self).wf(),
        ensures
            final(self).wf(),
            final(self).readers() == old(self).readers() + standard_readers(),
            final(self).source() == old(self).source(),
            final(self).position() == old(self).position(),
            final(self).state() == old(self).state(),
            final(self).output() == old(self).output(),
            final(self).starts() == old(self).starts(),
    {
        self.add_token_reader(TokenReader::PhpStart);
        self.add_token_reader(TokenReader::Keyword);
        self.add_token_reader(TokenReader::StringValue);
        self.add_token_reader(TokenReader::NumericValue);
        self.add_token_reader(TokenReader::VariableName);
        self.add_token_reader(TokenReader::Assignment);
        self.add_token_reader(TokenReader::Op);
        self.add_token_reader(TokenReader::OneChar(';', Token::Semicolon));
        self.add_token_reader(TokenReader::OneChar('(', Token::ParenthesisOpen));
        self.add_token_reader(TokenReader::OneChar(')', Token::ParenthesisClose));
        self.add_token_reader(TokenReader::OneChar('{', Token::BlockOpen));
        self.add_token_reader(TokenReader::OneChar('}', Token::BlockClose));
        self.add_token_reader(TokenReader::OneChar(',', Token::Comma));
        self.add_token_reader(TokenReader::FunctionName);
        self.add_token_reader(TokenReader::Whitespace);
        assert(self.readers() =~= old(self).readers() + standard_readers());
    }

    /// Whether the list holds the catch-all, which matches everywhere.
    pub fn has_catch_all(&self) -> (b: bool)
        ensures
            b == exists|i: int|
                0 <= i < self.readers().len() && #[trigger] self.readers()[i]
                    == TokenReaderView::Whitespace,
            b ==> covers(self.readers(), self.source()),
    {
        let mut i: usize = 0;
        while i < self.token_readers.len()
            invariant
                i <= self.token_readers@.len(),
                forall|k: int|
                    0 <= k < i ==> #[trigger] self.readers()[k] != TokenReaderView::Whitespace,
            decreases self.token_readers@.len() - i,
        {
            match &self.token_readers[i] {
                TokenReader::Whitespace => {
                    proof {
                        assert(self.readers()[i as int] == TokenReaderView::Whitespace);
                        lemma_catch_all_covers(self.readers(), self.source(), i as int);
                    }
                    return true;
                },
                _ => {},
            }
            i += 1;
        }
        false
    }

    /// One step of the pipeline, at a cursor that lies before the end of the
    /// source: the recognizers are tried in order, and the first that does
    /// not decline has its token appended, unless it is whitespace. Where
    /// all decline, nothing changes.
    pub fn read(&mut self)
        requires
            old(self).wf(),
            old(self).position() < old(self).source().len(),
        ensures
            final(self).wf(),
            final(self).readers() == old(self).readers(),
            final(self).source() == old(self).source(),
            match first_match(
                old(self).readers(),
                0,
                old(self).source(),
                old(self).position(),
                old(self).state(),
            ) {
                Some(m) => {
                    &&& final(self).output() == old(self).output() + kept(m.token)
                    &&& final(self).starts() == old(self).starts() + kept_at(
                        m.token,
                        old(self).position(),
                    )
                    &&& final(self).position() == m.next
                    &&& final(self).state() == m.state
                },
                None => {
                    &&& final(self).output() == old(self).output()
                    &&& final(self).starts() == old(self).starts()
                    &&& final(self).position() == old(self).position()
                    &&& final(self).state() == old(self).state()
                },
            },
    {
        let ghost readers = self.readers();
        let ghost chars = self.source();
        let ghost pos = self.position();
        let ghost state = self.state();
        let mut i: usize = 0;
        while i < self.token_readers.len()
            invariant
                self.wf(),
                self.readers() == readers,
                self.source() == chars,
                self.position() == pos,
                self.state() == state,
                self.tokens@ == old(self).tokens@,
                self.offsets@ == old(self).offsets@,
                readers == old(self).readers(),
                chars == old(self).source(),
                pos == old(self).position(),
                state == old(self).state(),
                0 <= pos < chars.len(),
                i <= self.token_readers@.len(),
                first_match(readers, 0, chars, pos, state) == first_match(
                    readers,
                    i as int,
                    chars,
                    pos,
                    state,
                ),
            decreases self.token_readers@.len() - i,
        {
            let ghost before = self.reader;
            let at = self.reader.position();
            let found = self.token_readers[i].read(&mut self.reader, &mut self.states);
            proof {
                assert(readers[i as int] == self.token_readers@[i as int]@);
                assert(reads_as(
                    readers[i as int],
                    before,
                    state,
                    self.reader,
                    self.states.php_file_state,
                    found,
                ));
                lemma_recognize_advances(readers[i as int], chars, pos, state);
            }
            match found {
                Some(Token::Whitespace) => {
                    assert(token_views(self.tokens@) + kept(TokenView::Whitespace) =~= token_views(
                        self.tokens@,
                    ));
                    assert(offset_views(self.offsets@) + kept_at(TokenView::Whitespace, pos)
                        =~= offset_views(self.offsets@));
                    return ;
                },
                Some(token) => {
                    self.tokens.push(token);
                    self.offsets.push(at);
                    assert(token_views(self.tokens@) =~= token_views(old(self).tokens@) + kept(
                        token@,
                    ));
                    assert(offset_views(self.offsets@) =~= offset_views(old(self).offsets@)
                        + kept_at(token@, pos));
                    return ;
                },
                None => {},
            }
            i += 1;
        }
    }

    /// Runs the pipeline to the end of the source: the tokens from the
    /// cursor on are appended to `tokens`, then the end of the stream.
    pub fn run(&mut self)
        requires
            old(self).wf(),
            covers(old(self).readers(), old(self).source()),
        ensures
            final(self).wf(),
            final(self).readers() == old(self).readers(),
            final(self).source() == old(self).source(),
            final(self).position() == final(self).source().len(),
            final(self).output() == old(self).output() + lex_from(
                old(self).readers(),
                old(self).source(),
                old(self).position(),
                old(self).state(),
            ),
            final(self).starts() == old(self).starts() + starts_from(
                old(self).readers(),
                old(self).source(),
                old(self).position(),
                old(self).state(),
            ),
            well_terminated(
                lex_from(
                    old(self).readers(),
                    old(self).source(),
                    old(self).position(),
                    old(self).state(),
                ),
            ),
    {
        proof {
            lemma_lex_well_terminated(
                self.readers(),
                self.source(),
                self.position(),
                self.state(),
            );
        }
        let ghost readers = self.readers();
        let ghost chars = self.source();
        let ghost all = token_views(self.tokens@) + lex_from(
            readers,
            chars,
            self.position(),
            self.state(),
        );
        let ghost all_starts = offset_views(self.offsets@) + starts_from(
            readers,
            chars,
            self.position(),
            self.state(),
        );
        while !self.reader.is_end()
            invariant
                self.wf(),
                self.readers() == readers,
                self.source() == chars,
                covers(readers, chars),
                all == token_views(self.tokens@) + lex_from(
                    readers,
                    chars,
                    self.position(),
                    self.state(),
                ),
                all_starts == offset_views(self.offsets@) + starts_from(
                    readers,
                    chars,
                    self.position(),
                    self.state(),
                ),
            decreases chars.len() - self.position(),
        {
            let ghost done = token_views(self.tokens@);
            let ghost begun = offset_views(self.offsets@);
            let ghost pos = self.position();
            let ghost state = self.state();
            proof {
                lemma_first_match_advances(readers, 0, chars, pos, state);
            }
            self.read();
            proof {
                let m = first_match(readers, 0, chars, pos, state)->0;
                assert((done + kept(m.token)) + lex_from(readers, chars, m.next, m.state) =~= done
                    + (kept(m.token) + lex_from(readers, chars, m.next, m.state)));
                assert((begun + kept_at(m.token, pos)) + starts_from(
                    readers,
                    chars,
                    m.next,
                    m.state,
                ) =~= begun + (kept_at(m.token, pos) + starts_from(
                    readers,
                    chars,
                    m.next,
                    m.state,
                )));
            }
        }
        let end = self.reader.position();
        self.tokens.push(Token::Eof);
        self.offsets.push(end);
        assert(token_views(self.tokens@) =~= all);
        assert(offset_views(self.offsets@) =~= all_starts);
    }
}

/// The tokens of `source`, by the recognizers of the language.
pub fn tokenize(source: String) -> (tokens: Vec<Token>)
    ensures
        token_views(tokens@) == lex_from(standard_readers(), source@, 0, PhpFileState::Outside),
        well_terminated(token_views(tokens@)),
{
    let mut tokenizer = Tokenizer::new(source);
    tokenizer.add_standard_token_readers();
    proof {
        assert(tokenizer.readers() =~= standard_readers());
        lemma_catch_all_covers(standard_readers(), source@, 14);
    }
    tokenizer.run();
    let Tokenizer { tokens, .. } = tokenizer;
    assert(token_views(tokens@) =~= Seq::<TokenView>::empty() + token_views(tokens@));
    tokens
}

/// The tokens of `source`, by the recognizers of the language, and for each
/// token the position in `source` at which it begins.
pub fn tokenize_with_offsets(source: String) -> (r: (Vec<Token>, Vec<usize>))
    ensures
        token_views(r.0@) == lex_from(standard_readers(), source@, 0, PhpFileState::Outside),
        offset_views(r.1@) == starts_from(standard_readers(), source@, 0, PhpFileState::Outside),
        r.0@.len() == r.1@.len(),
{
    let mut tokenizer = Tokenizer::new(source);
    tokenizer.add_standard_token_readers();
    proof {
        assert(tokenizer.readers() =~= standard_readers());
        lemma_catch_all_covers(standard_readers(), source@, 14);
        lemma_starts_are_ordered(standard_readers(), source@, 0, PhpFileState::Outside);
    }
    tokenizer.run();
    let Tokenizer { tokens, offsets, .. } = tokenizer;
    assert(token_views(tokens@) =~= Seq::<TokenView>::empty() + token_views(tokens@));
    assert(offset_views(offsets@) =~= Seq::<int>::empty() + offset_views(offsets@));
    (tokens, offsets)
}

} // verus!
