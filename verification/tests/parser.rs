use php_front::ast::{parse, AstBuilder, ParseError, TokenListReader};
use php_front::grammar::Rule;
use php_front::node::Node;
use php_front::token::{Keyword, Token};
use php_front::tokenizer::tokenize;

fn lex(source: &str) -> Vec<Token> {
    tokenize(source.to_string())
}

fn composite(name: &str, children: Vec<Node>) -> Node {
    let mut node = Node::new(name.to_string());
    for child in children {
        node.add(child);
    }
    node
}

fn number(text: &str) -> Node {
    Node::leaf(Token::NumericValue(text.to_string()))
}

fn operator(text: &str) -> Node {
    Node::leaf(Token::Op(text.to_string()))
}

fn variable(text: &str) -> Node {
    Node::leaf(Token::VariableName(text.to_string()))
}

fn function_name(text: &str) -> Node {
    Node::leaf(Token::FunctionName(text.to_string()))
}

fn exp(children: Vec<Node>) -> Node {
    composite("exp", children)
}

fn op_node(left: Node, middle: Node, right: Node) -> Node {
    composite("op", vec![left, middle, right])
}

fn assignment(left: Node, right: Node) -> Node {
    composite("assignment", vec![left, right])
}

fn stmt(child: Node) -> Node {
    composite("stmt", vec![child])
}

fn block(children: Vec<Node>) -> Node {
    composite("code block", children)
}

fn call(name: &str, args: Vec<Node>) -> Node {
    composite("fn call", vec![function_name(name), composite("fn call exp list", args)])
}

fn refused(source: &str) -> ParseError {
    parse(&lex(source)).unwrap_err()
}

#[test]
fn node_constructors() {
    let mut node = Node::new("stmt".to_string());
    assert_eq!(node.name(), "stmt");
    assert_eq!(node.token(), &None);
    assert!(node.children().is_empty());
    let leaf = Node::leaf(Token::Semicolon);
    assert_eq!(leaf.name(), "literal");
    assert_eq!(leaf.token(), &Some(Token::Semicolon));
    assert!(leaf.children().is_empty());
    node.add(leaf);
    node.add(Node::leaf(Token::Comma));
    assert_eq!(node.children().len(), 2);
    assert_eq!(node.children()[0].token(), &Some(Token::Semicolon));
    assert_eq!(node.children()[1].token(), &Some(Token::Comma));
    assert_eq!(node.name(), "stmt");
}

#[test]
fn token_cursor_reads_forward() {
    let tokens = vec![Token::PhpStart, Token::Semicolon, Token::Eof];
    let mut cursor = TokenListReader::new(&tokens);
    assert_eq!(cursor.peek(), Token::PhpStart);
    assert_eq!(cursor.peek_from(1), Token::Semicolon);
    assert_eq!(cursor.peek_from(2), Token::Eof);
    assert_eq!(cursor.next(), Token::PhpStart);
    assert_eq!(cursor.next(), Token::Semicolon);
    assert_eq!(cursor.peek(), Token::Eof);
}

#[test]
fn token_cursor_reads_end_of_stream_past_the_tokens() {
    let tokens = vec![Token::Comma];
    let mut cursor = TokenListReader::new(&tokens);
    assert_eq!(cursor.peek_from(1), Token::Eof);
    assert_eq!(cursor.peek_from(usize::MAX), Token::Eof);
    assert_eq!(cursor.next(), Token::Comma);
    assert_eq!(cursor.next(), Token::Eof);
    assert_eq!(cursor.next(), Token::Eof);
    assert_eq!(cursor.peek(), Token::Eof);
}

#[test]
fn empty_program_is_an_empty_block() {
    assert_eq!(parse(&lex("")), Ok(block(vec![])));
    assert_eq!(parse(&lex("<?php")), Ok(block(vec![])));
    assert_eq!(parse(&vec![]), Ok(block(vec![])));
}

#[test]
fn expression_groups_left_to_right() {
    let expected = block(vec![stmt(exp(vec![op_node(
        op_node(number("1"), operator("+"), number("2")),
        operator("-"),
        number("3"),
    )]))]);
    assert_eq!(parse(&lex("1 + 2 - 3;")), Ok(expected));
}

#[test]
fn expression_has_no_precedence() {
    let expected = block(vec![stmt(exp(vec![op_node(
        op_node(number("1"), operator("+"), number("2")),
        operator("*"),
        number("3"),
    )]))]);
    assert_eq!(parse(&lex("<?php 1 + 2 * 3;")), Ok(expected));
}

#[test]
fn start_marker_is_skipped() {
    assert_eq!(parse(&lex("<?php 1;")), parse(&lex("1;")));
    assert_eq!(parse(&lex("<?php 1;")), Ok(block(vec![stmt(exp(vec![number("1")]))])));
}

#[test]
fn unmerged_stack_comes_out_last_pushed_first() {
    let tokens = lex("1 + ;");
    let mut builder = AstBuilder::new(&tokens);
    assert_eq!(builder.build_stmt_exp(), Ok(exp(vec![operator("+"), number("1")])));
}

#[test]
fn expression_leaves_its_terminator() {
    let tokens = lex("1 , 2 ) 3 ;");
    let mut builder = AstBuilder::new(&tokens);
    assert_eq!(builder.build_stmt_exp(), Ok(exp(vec![number("1")])));
    assert_eq!(builder.build_stmt_exp(), Ok(exp(vec![])));
    assert_eq!(builder.build_single_token(), Node::leaf(Token::Comma));
    assert_eq!(builder.build_stmt_exp(), Ok(exp(vec![number("2")])));
    assert_eq!(builder.build_single_token(), Node::leaf(Token::ParenthesisClose));
    assert_eq!(builder.build_stmt_exp(), Ok(exp(vec![number("3")])));
    assert_eq!(builder.build_stmt_exp(), Ok(exp(vec![])));
}

#[test]
fn assignment_is_right_associative() {
    let expected = block(vec![stmt(exp(vec![assignment(
        variable("a"),
        exp(vec![assignment(variable("b"), exp(vec![number("1")]))]),
    )]))]);
    assert_eq!(parse(&lex("$a = $b = 1;")), Ok(expected));
}

#[test]
fn assignment_takes_the_whole_remainder() {
    let expected = block(vec![stmt(exp(vec![assignment(
        variable("foo"),
        exp(vec![op_node(
            op_node(number("1"), operator("+"), number("2")),
            operator("-"),
            number("3"),
        )]),
    )]))]);
    assert_eq!(parse(&lex("$foo = 1 + 2 - 3;")), Ok(expected));
}

#[test]
fn assignment_goes_before_the_rest_of_the_stack() {
    let tokens = lex("$x $a = 2;");
    let mut builder = AstBuilder::new(&tokens);
    assert_eq!(
        builder.build_stmt_exp(),
        Ok(exp(vec![assignment(variable("a"), exp(vec![number("2")])), variable("x")]))
    );
}

#[test]
fn parentheses_group() {
    let expected = block(vec![stmt(exp(vec![op_node(
        number("1"),
        operator("+"),
        exp(vec![op_node(number("2"), operator("*"), number("3"))]),
    )]))]);
    assert_eq!(parse(&lex("1 + (2 * 3);")), Ok(expected));
}

#[test]
fn function_definition() {
    let expected = block(vec![stmt(composite(
        "fn",
        vec![
            Node::leaf(Token::Keyword(Keyword::Function)),
            function_name("f"),
            composite("arg list", vec![variable("x")]),
            block(vec![stmt(exp(vec![variable("x")]))]),
        ],
    ))]);
    assert_eq!(parse(&lex("function f($x) { $x; }")), Ok(expected));
}

#[test]
fn function_definition_without_parameters_or_body() {
    let expected = block(vec![stmt(composite(
        "fn",
        vec![
            Node::leaf(Token::Keyword(Keyword::Function)),
            function_name("boo"),
            composite("arg list", vec![]),
            block(vec![]),
        ],
    ))]);
    assert_eq!(parse(&lex("<?php function boo() {}")), Ok(expected));
}

#[test]
fn parameter_list_skips_commas() {
    let tokens = lex("($a, $b,, $c)");
    let mut builder = AstBuilder::new(&tokens);
    assert_eq!(
        builder.build_arg_list(),
        Ok(composite("arg list", vec![variable("a"), variable("b"), variable("c")]))
    );
}

#[test]
fn function_call_arguments_keep_their_order() {
    let expected = block(vec![stmt(exp(vec![call(
        "f",
        vec![exp(vec![variable("a")]), exp(vec![variable("b")]), exp(vec![number("1")])],
    )]))]);
    assert_eq!(parse(&lex("f($a, $b, 1);")), Ok(expected));
}

#[test]
fn function_call_without_arguments() {
    assert_eq!(parse(&lex("f();")), Ok(block(vec![stmt(exp(vec![call("f", vec![])]))])));
}

#[test]
fn function_call_is_an_operand() {
    let expected = block(vec![stmt(exp(vec![op_node(
        call("f", vec![exp(vec![number("1")])]),
        operator("+"),
        call("g", vec![exp(vec![call("h", vec![])])]),
    )]))]);
    assert_eq!(parse(&lex("f(1) + g(h());")), Ok(expected));
}

#[test]
fn code_block_leaves_the_closing_brace() {
    let tokens = lex("1; } 2;");
    let mut builder = AstBuilder::new(&tokens);
    assert_eq!(builder.build_code_block(), Ok(block(vec![stmt(exp(vec![number("1")]))])));
    assert_eq!(builder.build_single_token(), Node::leaf(Token::BlockClose));
    assert_eq!(builder.build_stmt(), Ok(stmt(exp(vec![number("2")]))));
    assert_eq!(builder.build_code_block(), Ok(block(vec![])));
}

#[test]
fn program_stops_at_a_stray_closing_brace() {
    assert_eq!(parse(&lex("1; } 2;")), Ok(block(vec![stmt(exp(vec![number("1")]))])));
}

#[test]
fn whole_program_tree() {
    let source = "<?php\n\nfunction say($text) {\n    echo('Hello World');\n    $foo = 1 + 2 - 3;\n}\n\n$foo = 'Hello world';\nsay($foo);\n";
    let hello = Node::leaf(Token::StringValue("Hello World".to_string()));
    let sum = op_node(
        op_node(number("1"), operator("+"), number("2")),
        operator("-"),
        number("3"),
    );
    let say = composite(
        "fn",
        vec![
            Node::leaf(Token::Keyword(Keyword::Function)),
            function_name("say"),
            composite("arg list", vec![variable("text")]),
            block(vec![
                stmt(exp(vec![call("echo", vec![exp(vec![hello])])])),
                stmt(exp(vec![assignment(variable("foo"), exp(vec![sum]))])),
            ]),
        ],
    );
    let expected = block(vec![
        stmt(say),
        stmt(exp(vec![assignment(
            variable("foo"),
            exp(vec![Node::leaf(Token::StringValue("Hello world".to_string()))]),
        )])),
        stmt(exp(vec![call("say", vec![exp(vec![variable("foo")])])])),
    ]);
    assert_eq!(parse(&lex(source)), Ok(expected));
}

#[test]
fn missing_semicolon_is_refused() {
    assert_eq!(
        refused("1 + 2"),
        ParseError { token: Token::Eof, position: 3, rule: Rule::StmtExp }
    );
    assert_eq!(
        refused("1 , 2;"),
        ParseError { token: Token::Comma, position: 1, rule: Rule::Stmt }
    );
    assert_eq!(
        refused("<?php 1 )"),
        ParseError { token: Token::ParenthesisClose, position: 2, rule: Rule::Stmt }
    );
}

#[test]
fn unexpected_token_in_expression_is_refused() {
    assert_eq!(
        refused("1 + { 2;"),
        ParseError { token: Token::BlockOpen, position: 2, rule: Rule::StmtExp }
    );
    assert_eq!(
        refused("1 function"),
        ParseError { token: Token::Keyword(Keyword::Function), position: 1, rule: Rule::StmtExp }
    );
}

#[test]
fn assignment_without_left_side_is_refused() {
    assert_eq!(
        refused("= 1;"),
        ParseError { token: Token::Assignment, position: 0, rule: Rule::StmtExp }
    );
}

#[test]
fn unclosed_parenthesis_is_refused() {
    assert_eq!(
        refused("(1 + 2;"),
        ParseError { token: Token::Semicolon, position: 4, rule: Rule::StmtExp }
    );
}

#[test]
fn call_without_parenthesis_is_refused() {
    assert_eq!(
        refused("foo;"),
        ParseError { token: Token::Semicolon, position: 1, rule: Rule::ArgExpList }
    );
}

#[test]
fn semicolon_in_arguments_is_refused() {
    assert_eq!(
        refused("f(1; 2);"),
        ParseError { token: Token::Semicolon, position: 3, rule: Rule::ArgExpList }
    );
}

#[test]
fn unterminated_call_is_refused() {
    assert_eq!(
        refused("f(1, 2"),
        ParseError { token: Token::Eof, position: 5, rule: Rule::StmtExp }
    );
}

#[test]
fn call_needs_a_name() {
    let tokens = lex("$a(1)");
    let mut builder = AstBuilder::new(&tokens);
    assert_eq!(
        builder.build_fn_call(),
        Err(ParseError { token: Token::VariableName("a".to_string()), position: 0, rule: Rule::FnCall })
    );
    let tokens = lex("f(1)");
    let mut builder = AstBuilder::new(&tokens);
    assert_eq!(builder.build_fn_call(), Ok(call("f", vec![exp(vec![number("1")])])));
    let tokens = lex("(1, 2)");
    let mut builder = AstBuilder::new(&tokens);
    assert_eq!(
        builder.build_arg_exp_list(),
        Ok(composite("fn call exp list", vec![exp(vec![number("1")]), exp(vec![number("2")])]))
    );
}

#[test]
fn function_definition_needs_a_name() {
    assert_eq!(
        refused("function ($x) {}"),
        ParseError { token: Token::ParenthesisOpen, position: 1, rule: Rule::StmtFn }
    );
    assert_eq!(
        refused("function function"),
        ParseError { token: Token::Keyword(Keyword::Function), position: 1, rule: Rule::StmtFn }
    );
}

#[test]
fn function_definition_needs_its_braces() {
    assert_eq!(
        refused("function f() 1;"),
        ParseError { token: Token::NumericValue("1".to_string()), position: 4, rule: Rule::StmtFn }
    );
    assert_eq!(
        refused("function f() { 1;"),
        ParseError { token: Token::Eof, position: 7, rule: Rule::StmtFn }
    );
}

#[test]
fn function_definition_needs_its_keyword() {
    let tokens = lex("f() {}");
    let mut builder = AstBuilder::new(&tokens);
    assert_eq!(
        builder.build_stmt_fn(),
        Err(ParseError { token: Token::FunctionName("f".to_string()), position: 0, rule: Rule::StmtFn })
    );
}

#[test]
fn parameter_list_takes_variables_only() {
    assert_eq!(
        refused("function f(1) {}"),
        ParseError { token: Token::NumericValue("1".to_string()), position: 3, rule: Rule::ArgList }
    );
    assert_eq!(
        refused("function f {}"),
        ParseError { token: Token::BlockOpen, position: 2, rule: Rule::ArgList }
    );
    assert_eq!(
        refused("function f($a"),
        ParseError { token: Token::Eof, position: 4, rule: Rule::ArgList }
    );
}

#[test]
fn error_in_a_nested_block_is_reported_where_it_is() {
    assert_eq!(
        refused("<?php function f() { g(1; }"),
        ParseError { token: Token::Semicolon, position: 9, rule: Rule::ArgExpList }
    );
}
