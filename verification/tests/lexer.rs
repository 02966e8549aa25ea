use php_front::recognizer::{CharClass, PhpFileState, ReaderStateCollection, TokenReader};
use php_front::token::{Keyword, Token};
use php_front::tokenizer::{tokenize, tokenize_with_offsets, Tokenizer};

fn s(text: &str) -> String {
    text.to_string()
}

fn num(text: &str) -> Token {
    Token::NumericValue(s(text))
}

fn op(text: &str) -> Token {
    Token::Op(s(text))
}

fn var(text: &str) -> Token {
    Token::VariableName(s(text))
}

fn name(text: &str) -> Token {
    Token::FunctionName(s(text))
}

fn text(text: &str) -> Token {
    Token::StringValue(s(text))
}

#[test]
fn empty_source_gives_end_of_stream_only() {
    assert_eq!(tokenize(s("")), vec![Token::Eof]);
}

#[test]
fn filler_gives_end_of_stream_only() {
    assert_eq!(tokenize(s("  \n\t <? @ # ~ [ ] : \\ ")), vec![Token::Eof]);
}

#[test]
fn output_has_no_whitespace_and_one_end_of_stream() {
    let tokens = tokenize(s("<?php  $a   =  1 ;\n\n f ( ) ;  "));
    assert!(tokens.iter().all(|t| *t != Token::Whitespace));
    assert_eq!(tokens.iter().filter(|t| **t == Token::Eof).count(), 1);
    assert_eq!(tokens.last(), Some(&Token::Eof));
}

#[test]
fn negative_number_is_one_literal() {
    assert_eq!(tokenize(s("-3")), vec![num("-3"), Token::Eof]);
}

#[test]
fn minus_after_digit_is_an_operator() {
    assert_eq!(tokenize(s("1-3")), vec![num("1"), op("-"), num("3"), Token::Eof]);
}

#[test]
fn minus_before_blank_is_an_operator() {
    assert_eq!(tokenize(s("1 - 3")), vec![num("1"), op("-"), num("3"), Token::Eof]);
}

#[test]
fn minus_after_blank_begins_a_number() {
    assert_eq!(tokenize(s("1 -3")), vec![num("1"), num("-3"), Token::Eof]);
}

#[test]
fn dot_before_digit_begins_a_number() {
    assert_eq!(tokenize(s(".5")), vec![num(".5"), Token::Eof]);
}

#[test]
fn dot_alone_is_an_operator() {
    assert_eq!(tokenize(s("$a . $b")), vec![var("a"), op("."), var("b"), Token::Eof]);
}

#[test]
fn number_holds_its_dot() {
    assert_eq!(tokenize(s("12.75;")), vec![num("12.75"), Token::Semicolon, Token::Eof]);
}

#[test]
fn minus_at_the_end_is_an_operator() {
    assert_eq!(tokenize(s("-")), vec![op("-"), Token::Eof]);
}

#[test]
fn string_literal_loses_its_quotes() {
    assert_eq!(tokenize(s("'Hello world'")), vec![text("Hello world"), Token::Eof]);
}

#[test]
fn double_quoted_string_may_hold_single_quotes() {
    assert_eq!(tokenize(s("\"it's\" 1")), vec![text("it's"), num("1"), Token::Eof]);
}

#[test]
fn empty_string_literal() {
    assert_eq!(tokenize(s("''")), vec![text(""), Token::Eof]);
}

#[test]
fn unterminated_string_runs_to_the_end() {
    assert_eq!(tokenize(s("'abc")), vec![text("abc"), Token::Eof]);
}

#[test]
fn string_counts_characters_not_bytes() {
    assert_eq!(tokenize(s("'h\u{e9}llo' 7")), vec![text("h\u{e9}llo"), num("7"), Token::Eof]);
}

#[test]
fn variable_name_loses_its_dollar() {
    assert_eq!(tokenize(s("$foo_1")), vec![var("foo_1"), Token::Eof]);
}

#[test]
fn lone_dollar_is_an_empty_variable_name() {
    assert_eq!(tokenize(s("$ ")), vec![var(""), Token::Eof]);
}

#[test]
fn single_equals_is_assignment() {
    assert_eq!(tokenize(s("$a=1")), vec![var("a"), Token::Assignment, num("1"), Token::Eof]);
}

#[test]
fn double_equals_is_an_operator() {
    assert_eq!(tokenize(s("$a==1")), vec![var("a"), op("=="), num("1"), Token::Eof]);
}

#[test]
fn equals_at_the_end_is_assignment() {
    assert_eq!(tokenize(s("=")), vec![Token::Assignment, Token::Eof]);
}

#[test]
fn operator_run_is_greedy() {
    assert_eq!(tokenize(s("+*/%^!")), vec![op("+*/%^!"), Token::Eof]);
}

#[test]
fn punctuation_tokens() {
    assert_eq!(
        tokenize(s(";(){},")),
        vec![
            Token::Semicolon,
            Token::ParenthesisOpen,
            Token::ParenthesisClose,
            Token::BlockOpen,
            Token::BlockClose,
            Token::Comma,
            Token::Eof
        ]
    );
}

#[test]
fn keyword_wins_over_name() {
    assert_eq!(
        tokenize(s("function foo")),
        vec![Token::Keyword(Keyword::Function), name("foo"), Token::Eof]
    );
}

#[test]
fn keyword_is_matched_as_a_prefix() {
    assert_eq!(
        tokenize(s("functional")),
        vec![Token::Keyword(Keyword::Function), name("al"), Token::Eof]
    );
}

#[test]
fn earlier_recognizer_wins() {
    let mut names_first = Tokenizer::new(s("function"));
    names_first.add_token_reader(TokenReader::FunctionName);
    names_first.add_token_reader(TokenReader::Keyword);
    names_first.add_token_reader(TokenReader::Whitespace);
    names_first.run();
    assert_eq!(names_first.tokens, vec![name("function"), Token::Eof]);

    let mut keywords_first = Tokenizer::new(s("function"));
    keywords_first.add_token_reader(TokenReader::Keyword);
    keywords_first.add_token_reader(TokenReader::FunctionName);
    keywords_first.add_token_reader(TokenReader::Whitespace);
    keywords_first.run();
    assert_eq!(keywords_first.tokens, vec![Token::Keyword(Keyword::Function), Token::Eof]);
}

#[test]
fn start_marker_is_recognized_once() {
    assert_eq!(
        tokenize(s("<?php <?php")),
        vec![Token::PhpStart, name("php"), Token::Eof]
    );
}

#[test]
fn start_marker_opens_the_code_region() {
    let mut reader = php_front::reader::Reader::new(s("<?php"));
    let mut states = ReaderStateCollection::default();
    assert_eq!(states.php_file_state, PhpFileState::Outside);
    let found = TokenReader::PhpStart.read(&mut reader, &mut states);
    assert_eq!(found, Some(Token::PhpStart));
    assert_eq!(states.php_file_state, PhpFileState::Inside);
    assert!(reader.is_end());
}

#[test]
fn start_marker_declines_inside_the_code_region() {
    let mut reader = php_front::reader::Reader::new(s("<?php"));
    let mut states = ReaderStateCollection { php_file_state: PhpFileState::Inside };
    assert_eq!(TokenReader::PhpStart.read(&mut reader, &mut states), None);
    assert_eq!(reader.peek_char(), '<');
}

#[test]
fn recognizer_that_declines_leaves_the_cursor() {
    let mut reader = php_front::reader::Reader::new(s("abc"));
    let mut states = ReaderStateCollection::default();
    assert_eq!(TokenReader::NumericValue.read(&mut reader, &mut states), None);
    assert_eq!(TokenReader::Op.read(&mut reader, &mut states), None);
    assert_eq!(TokenReader::OneChar(';', Token::Semicolon).read(&mut reader, &mut states), None);
    assert_eq!(reader.peek_char(), 'a');
    assert_eq!(TokenReader::FunctionName.read(&mut reader, &mut states), Some(name("abc")));
    assert!(reader.is_end());
}

#[test]
fn one_step_appends_one_token() {
    let mut tokenizer = Tokenizer::new(s("  x"));
    tokenizer.add_standard_token_readers();
    assert!(tokenizer.has_catch_all());
    tokenizer.read();
    assert!(tokenizer.tokens.is_empty());
    tokenizer.read();
    assert!(tokenizer.tokens.is_empty());
    tokenizer.read();
    assert_eq!(tokenizer.tokens, vec![name("x")]);
    assert_eq!(tokenizer.tokens(), &vec![name("x")]);
}

#[test]
fn list_without_catch_all_is_reported() {
    let mut tokenizer = Tokenizer::new(s("x"));
    assert!(!tokenizer.has_catch_all());
    tokenizer.add_token_reader(TokenReader::FunctionName);
    assert!(!tokenizer.has_catch_all());
    tokenizer.add_token_reader(TokenReader::Whitespace);
    assert!(tokenizer.has_catch_all());
}

#[test]
fn second_run_appends_end_of_stream_only() {
    let mut tokenizer = Tokenizer::new(s("1"));
    tokenizer.add_standard_token_readers();
    tokenizer.run();
    tokenizer.run();
    assert_eq!(tokenizer.tokens, vec![num("1"), Token::Eof, Token::Eof]);
}

#[test]
fn char_classes() {
    assert!(CharClass::VarName.contains('a'));
    assert!(CharClass::VarName.contains('Z'));
    assert!(CharClass::VarName.contains('7'));
    assert!(CharClass::VarName.contains('_'));
    assert!(CharClass::VarName.contains('$'));
    assert!(!CharClass::VarName.contains('-'));
    assert!(CharClass::Number.contains('0'));
    assert!(CharClass::Number.contains('.'));
    assert!(!CharClass::Number.contains('-'));
    assert!(CharClass::Op.contains('%'));
    assert!(!CharClass::Op.contains('<'));
    assert!(CharClass::Not('x').contains('y'));
    assert!(!CharClass::Not('x').contains('x'));
}

#[test]
fn keyword_names() {
    assert_eq!(Keyword::all_names(), vec!["function"]);
    assert_eq!(Keyword::for_name("function"), Keyword::Function);
}

#[test]
fn whole_program_tokens() {
    let source = "<?php\n\nfunction say($text) {\n    echo('Hello World');\n    $foo = 1 + 2 - 3;\n}\n\n$foo = 'Hello world';\nsay($foo);\n";
    assert_eq!(
        tokenize(s(source)),
        vec![
            Token::PhpStart,
            Token::Keyword(Keyword::Function),
            name("say"),
            Token::ParenthesisOpen,
            var("text"),
            Token::ParenthesisClose,
            Token::BlockOpen,
            name("echo"),
            Token::ParenthesisOpen,
            text("Hello World"),
            Token::ParenthesisClose,
            Token::Semicolon,
            var("foo"),
            Token::Assignment,
            num("1"),
            op("+"),
            num("2"),
            op("-"),
            num("3"),
            Token::Semicolon,
            Token::BlockClose,
            var("foo"),
            Token::Assignment,
            text("Hello world"),
            Token::Semicolon,
            name("say"),
            Token::ParenthesisOpen,
            var("foo"),
            Token::ParenthesisClose,
            Token::Semicolon,
            Token::Eof,
        ]
    );
}

#[test]
fn offsets_tell_where_tokens_begin() {
    let (tokens, offsets) = tokenize_with_offsets(s("<?php $a = 'x y';\n f(1)"));
    assert_eq!(
        tokens,
        vec![
            Token::PhpStart,
            var("a"),
            Token::Assignment,
            text("x y"),
            Token::Semicolon,
            name("f"),
            Token::ParenthesisOpen,
            num("1"),
            Token::ParenthesisClose,
            Token::Eof,
        ]
    );
    assert_eq!(offsets, vec![0, 6, 9, 11, 16, 19, 20, 21, 22, 23]);
}

#[test]
fn offsets_count_characters_not_bytes() {
    let (tokens, offsets) = tokenize_with_offsets(s("'\u{e9}\u{e9}' 7"));
    assert_eq!(tokens, vec![text("\u{e9}\u{e9}"), num("7"), Token::Eof]);
    assert_eq!(offsets, vec![0, 5, 6]);
}

#[test]
fn offsets_of_an_empty_source() {
    assert_eq!(tokenize_with_offsets(s("")), (vec![Token::Eof], vec![0]));
}

#[test]
fn tokenizer_keeps_one_offset_for_each_token() {
    let mut tokenizer = Tokenizer::new(s(" 12 + x"));
    tokenizer.add_standard_token_readers();
    assert!(tokenizer.offsets().is_empty());
    tokenizer.run();
    assert_eq!(tokenizer.tokens, vec![num("12"), op("+"), name("x"), Token::Eof]);
    assert_eq!(tokenizer.offsets(), &vec![1, 4, 6, 7]);
}

#[test]
fn duplicate_gives_an_equal_token() {
    let tokens = vec![
        Token::PhpStart,
        Token::Keyword(Keyword::Function),
        op("+"),
        Token::Assignment,
        text("a b"),
        var("v"),
        num("1.5"),
        Token::Semicolon,
        name("f"),
        Token::ParenthesisOpen,
        Token::ParenthesisClose,
        Token::BlockOpen,
        Token::BlockClose,
        Token::Whitespace,
        Token::Comma,
        Token::Eof,
    ];
    for token in &tokens {
        assert_eq!(&token.duplicate(), token);
    }
}

#[test]
fn discarded_token_of_a_one_character_recognizer() {
    let mut tokenizer = Tokenizer::new(s("a;b"));
    tokenizer.add_token_reader(TokenReader::OneChar(';', Token::Whitespace));
    tokenizer.add_token_reader(TokenReader::FunctionName);
    tokenizer.add_token_reader(TokenReader::Whitespace);
    tokenizer.run();
    assert_eq!(tokenizer.tokens, vec![name("a"), name("b"), Token::Eof]);
}
