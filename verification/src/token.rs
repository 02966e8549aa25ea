//! The token taxonomy produced by the lexer and consumed by the tree builder.

use vstd::prelude::*;

verus! {

/// The reserved words of the language.
#[derive(Debug, Clone, Copy, PartialEq, Eq, Structural)]
pub enum Keyword {
    Function,
}

impl Keyword {
    /// The spelling of a keyword in source text.
    pub open spec fn name(self) -> Seq<char> {
        match self {
            Keyword::Function => "function"@,
        }
    }

    /// Whether `name` spells some keyword.
    pub open spec fn is_name(name: Seq<char>) -> bool {
        name == Keyword::Function.name()
    }

    /// The keyword spelled `name`.
    pub fn for_name(name: &str) -> (k: Keyword)
        requires
            Keyword::is_name(name@),
        ensures
            k.name() == name@,
    {
        Keyword::Function
    }

    /// The spellings of all keywords, in the order in which the lexer tries
    /// them.
    pub fn all_names() -> (names: Vec<&'static str>)
        ensures
            names@.len() == 1,
            names@[0]@ == Keyword::Function.name(),
    {
        vec!["function"]
    }
}

/// A lexical unit. The variants that stand for names and literals carry
/// their text.
#[derive(Debug, Clone, PartialEq, Eq)]
pub enum Token {
    PhpStart,
    Keyword(Keyword),
    Op(String),
    Assignment,
    StringValue(String),
    VariableName(String),
    NumericValue(String),
    Semicolon,
    FunctionName(String),
    ParenthesisOpen,
    ParenthesisClose,
    BlockOpen,
    BlockClose,
    Whitespace,
    Comma,
    Eof,
}

/// What a `Token` stands for in contracts: the same variants, with texts as
/// sequences of characters.
pub enum TokenView {
    PhpStart,
    Keyword(Keyword),
    Op(Seq<char>),
    Assignment,
    StringValue(Seq<char>),
    VariableName(Seq<char>),
    NumericValue(Seq<char>),
    Semicolon,
    FunctionName(Seq<char>),
    ParenthesisOpen,
    ParenthesisClose,
    BlockOpen,
    BlockClose,
    Whitespace,
    Comma,
    Eof,
}

impl View for Token {
    type V = TokenView;

    open spec fn view(&self) -> TokenView {
        match self {
            Token::PhpStart => TokenView::PhpStart,
            Token::Keyword(k) => TokenView::Keyword(*k),
            Token::Op(s) => TokenView::Op(s@),
            Token::Assignment => TokenView::Assignment,
            Token::StringValue(s) => TokenView::StringValue(s@),
            Token::VariableName(s) => TokenView::VariableName(s@),
            Token::NumericValue(s) => TokenView::NumericValue(s@),
            Token::Semicolon => TokenView::Semicolon,
            Token::FunctionName(s) => TokenView::FunctionName(s@),
            Token::ParenthesisOpen => TokenView::ParenthesisOpen,
            Token::ParenthesisClose => TokenView::ParenthesisClose,
            Token::BlockOpen => TokenView::BlockOpen,
            Token::BlockClose => TokenView::BlockClose,
            Token::Whitespace => TokenView::Whitespace,
            Token::Comma => TokenView::Comma,
            Token::Eof => TokenView::Eof,
        }
    }
}

impl Token {
    /// A copy of this token with the same view.
    pub fn duplicate(&self) -> (t: Token)
        ensures
            t@ == self@,
    {
        match self {
            Token::PhpStart => Token::PhpStart,
            Token::Keyword(k) => Token::Keyword(*k),
            Token::Op(s) => Token::Op(s.clone()),
            Token::Assignment => Token::Assignment,
            Token::StringValue(s) => Token::StringValue(s.clone()),
            Token::VariableName(s) => Token::VariableName(s.clone()),
            Token::NumericValue(s) => Token::NumericValue(s.clone()),
            Token::Semicolon => Token::Semicolon,
            Token::FunctionName(s) => Token::FunctionName(s.clone()),
            Token::ParenthesisOpen => Token::ParenthesisOpen,
            Token::ParenthesisClose => Token::ParenthesisClose,
            Token::BlockOpen => Token::BlockOpen,
            Token::BlockClose => Token::BlockClose,
            Token::Whitespace => Token::Whitespace,
            Token::Comma => Token::Comma,
            Token::Eof => Token::Eof,
        }
    }
}

/// The views of a sequence of tokens, one by one.
pub open spec fn token_views(tokens: Seq<Token>) -> Seq<TokenView> {
    tokens.map_values(|t: Token| t@)
}

} // verus!
