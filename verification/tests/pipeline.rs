use php_front::ast::{AstBuilder, Node};
use php_front::reader::Reader;
use php_front::tokenizer::{Keyword, PhpFileState, ReaderStateCollection, Token, Tokenizer};

const SAMPLE: &str = "<?php

function say($text) {
    echo('Hello World');
    $foo = 1 + 2 - 3;
}

function boo() {
    print('Something');
    $foo = 'never';
    print($foo, $foo);
}

$foo = 'Hello world';
say($foo);
";

fn kinds(nodes: &Vec<Node>) -> Vec<String> {
    nodes.iter().map(|n| n.name().clone()).collect()
}

#[test]
fn sample_program_end_to_end() {
    let mut tokenizer = Tokenizer::new(SAMPLE.to_string());
    tokenizer.add_standard_token_readers();
    tokenizer.run();
    let tokens = &tokenizer.tokens;
    assert_eq!(tokens.len(), 53);
    assert_eq!(tokens[0], Token::PhpStart);
    assert_eq!(tokens[1], Token::Keyword(Keyword::Function));
    assert_eq!(tokens[52], Token::Eof);
    assert_eq!(tokenizer.offsets().len(), 53);

    let mut ast_builder = AstBuilder::new(tokens);
    let ast = ast_builder.build().unwrap();
    assert_eq!(ast.name(), "code block");
    assert_eq!(kinds(ast.children()), vec!["stmt", "stmt", "stmt", "stmt"]);

    let boo = &ast.children()[1].children()[0];
    assert_eq!(kinds(boo.children()), vec!["literal", "literal", "arg list", "code block"]);
    assert_eq!(boo.children()[1].token(), &Some(Token::FunctionName("boo".to_string())));
    assert!(boo.children()[2].children().is_empty());
    let body = &boo.children()[3];
    assert_eq!(body.children().len(), 3);

    let print_twice = &body.children()[2].children()[0].children()[0];
    assert_eq!(print_twice.name(), "fn call");
    let arguments = &print_twice.children()[1];
    assert_eq!(arguments.name(), "fn call exp list");
    assert_eq!(kinds(arguments.children()), vec!["exp", "exp"]);
}

#[test]
fn lexical_state_begins_outside_the_code_region() {
    assert_eq!(PhpFileState::default(), PhpFileState::Outside);
    assert_eq!(ReaderStateCollection::default().php_file_state, PhpFileState::Outside);
}

#[test]
fn reader_walks_the_sample() {
    let mut reader = Reader::new(SAMPLE.to_string());
    assert_eq!(reader.peek_char_n(5), "<?php");
    let mut count = 0;
    while !reader.is_end() {
        reader.forward();
        count += 1;
    }
    assert_eq!(count, SAMPLE.chars().count());
}
