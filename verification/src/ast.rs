//! The tree builder: recursive-descent procedures that read the token
//! sequence through a forward cursor and build the syntax tree.

use vstd::prelude::*;
use crate::grammar::{
    arg_exps_from, ends_exp, exp_from, merge, params_from, spec_arg_exp_list, spec_arg_list,
    spec_build, spec_code_block, spec_fn_call, spec_stmt, spec_stmt_exp, spec_stmt_fn,
    stmts_from, tok, unexpected, ParseErrorView, Parsed, Rule,
};
use crate::grammar_laws::{
    builds_tree, lemma_arg_exp_list_outcome, lemma_arg_list_outcome, lemma_build_outcome,
    lemma_code_block_outcome, lemma_fn_call_outcome, lemma_stmt_exp_outcome,
    lemma_stmt_fn_outcome, lemma_stmt_outcome,
};
use crate::node::{node_views, NodeView};
use crate::token::{token_views, Keyword, Token, TokenView};

pub use crate::node::Node;

verus! {

/// A failed parse: the offending token, its index in the token sequence, and
/// the rule that refused it.
#[derive(Debug, PartialEq, Eq)]
pub struct ParseError {
    pub token: Token,
    pub position: usize,
    pub rule: Rule,
}

impl View for ParseError {
    type V = ParseErrorView;

    open spec fn view(&self) -> ParseErrorView {
        ParseErrorView { token: self.token@, position: self.position as int, rule: self.rule }
    }
}

/// What a builder's result and the cursor's position after it amount to.
pub open spec fn outcome(r: Result<Node, ParseError>, end: int) -> Parsed {
    match r {
        Ok(node) => Parsed::Built { node: node@, next: end },
        Err(e) => Parsed::Refused(e@),
    }
}

/// A forward cursor over a token sequence. Past the last token it reads the
/// end of the stream.
pub struct TokenListReader<'a> {
    tokens: &'a Vec<Token>,
    pos: usize,
}

impl<'a> TokenListReader<'a> {
    /// The tokens, by their views.
    pub closed spec fn tokens(&self) -> Seq<TokenView> {
        token_views(self.tokens@)
    }

    /// The index of the current token.
    pub closed spec fn position(&self) -> int {
        self.pos as int
    }

    /// The cursor never lies beyond the end of the tokens.
    pub open spec fn wf(&self) -> bool {
        0 <= self.position() <= self.tokens().len()
    }

    /// A cursor at the first of `tokens`.
    pub fn new(tokens: &'a Vec<Token>) -> (r: TokenListReader<'a>)
        ensures
            r.wf(),
            r.tokens() == token_views(tokens@),
            r.position() == 0,
    {
        TokenListReader { tokens, pos: 0 }
    }

    /// The current token.
    pub fn peek(&self) -> (t: Token)
        requires
            self.wf(),
        ensures
            t@ == tok(self.tokens(), self.position()),
    {
        self.peek_from(0)
    }

    /// The token `offset` places after the current one.
    pub fn peek_from(&self, offset: usize) -> (t: Token)
        requires
            self.wf(),
        ensures
            t@ == tok(self.tokens(), self.position() + offset),
    {
        if offset < self.tokens.len() - self.pos {
            self.tokens[self.pos + offset].duplicate()
        } else {
            Token::Eof
        }
    }

    /// The current token; the cursor moves one token on, unless it is past
    /// the last token already.
    pub fn next(&mut self) -> (t: Token)
        requires
            old(self).wf(),
        ensures
            final(self).wf(),
            final(self).tokens() == old(self).tokens(),
            t@ == tok(old(self).tokens(), old(self).position()),
            final(self).position() == if old(self).position() < old(self).tokens().len() {
                old(self).position() + 1
            } else {
                old(self).position()
            },
    {
        let current = self.peek();
        if self.pos < self.tokens.len() {
            self.pos = self.pos + 1;
        }
        current
    }
}

/// Applies the merge rule to the stack of an expression: three entries
/// become one `op` node with the three as its children.
fn merge_stack(children: &mut Vec<Node>)
    ensures
        node_views(final(children)@) == merge(node_views(old(children)@)),
{
    if children.len() == 3 {
        let ghost full = node_views(children@);
        let mut op_child = Node::new("op".to_owned());
        let right = children.pop().unwrap();
        let op = children.pop().unwrap();
        let left = children.pop().unwrap();
        op_child.add(left);
        op_child.add(op);
        op_child.add(right);
        children.push(op_child);
        proof {
            assert(op_child@.children =~= full);
            assert(node_views(children@) =~= merge(full));
        }
    }
}

/// The builder of the syntax tree. It reads its tokens through a cursor that
/// only moves forward.
pub struct AstBuilder<'a> {
    tlr: TokenListReader<'a>,
}

impl<'a> AstBuilder<'a> {
    /// The tokens that the builder reads, by their views.
    pub closed spec fn tokens(&self) -> Seq<TokenView> {
        self.tlr.tokens()
    }

    /// The index of the token that the builder reads next.
    pub closed spec fn position(&self) -> int {
        self.tlr.position()
    }

    /// The position never lies beyond the end of the tokens.
    pub open spec fn wf(&self) -> bool {
        0 <= self.position() <= self.tokens().len()
    }

    /// A builder at the first of `tokens`.
    pub fn new(tokens: &'a Vec<Token>) -> (b: AstBuilder<'a>)
        ensures
            b.wf(),
            b.tokens() == token_views(tokens@),
            b.position() == 0,
    {
        AstBuilder { tlr: TokenListReader::new(tokens) }
    }

    /// A whole program: the start marker, where the tokens begin with one,
    /// then a code block.
    pub fn build(&mut self) -> (r: Result<Node, ParseError>)
        requires
            old(self).wf(),
        ensures
            final(self).wf(),
            final(self).tokens() == old(self).tokens(),
            outcome(r, final(self).position()) == spec_build(
                old(self).tokens(),
                old(self).position(),
            ),
            old(self).position() <= final(self).position(),
            r matches Ok(n) ==> n@.wf(),
            r matches Err(e) ==> e@.position == final(self).position(),
    {
        proof {
            lemma_build_outcome(self.tokens(), self.position());
        }
        match self.tlr.peek() {
            Token::PhpStart => {
                self.tlr.next();
            },
            _ => {},
        }
        self.build_code_block()
    }

    /// A code block: statements up to the end of the stream or a closing
    /// brace, which is left unconsumed.
    pub fn build_code_block(&mut self) -> (r: Result<Node, ParseError>)
        requires
            old(self).wf(),
        ensures
            final(self).wf(),
            final(self).tokens() == old(self).tokens(),
            outcome(r, final(self).position()) == spec_code_block(
                old(self).tokens(),
                old(self).position(),
            ),
            old(self).position() <= final(self).position(),
            r is Ok ==> {
                let t = tok(final(self).tokens(), final(self).position());
                t is Eof || t is BlockClose
            },
            r matches Ok(n) ==> n@.wf(),
            r matches Err(e) ==> e@.position == final(self).position(),
        decreases old(self).tokens().len() - old(self).position(), 7nat,
    {
        proof {
            lemma_code_block_outcome(self.tokens(), self.position());
        }
        reveal(spec_code_block);
        reveal(stmts_from);
        reveal(spec_stmt);
        let ghost ts = self.tokens();
        let ghost start = self.position();
        let mut n = Node::new("code block".to_owned());
        loop
            invariant
                self.wf(),
                self.tokens() == ts,
                ts == old(self).tokens(),
                start == old(self).position(),
                start <= self.position(),
                n@ == NodeView::composite("code block"@, n@.children),
                spec_code_block(ts, start) == stmts_from(ts, self.position(), n@.children),
                builds_tree(spec_code_block(ts, start)),
            decreases ts.len() - self.position(),
        {
            reveal(stmts_from);
            reveal(spec_stmt);
            match self.tlr.peek() {
                Token::Eof | Token::BlockClose => {
                    return Ok(n);
                },
                _ => {},
            }
            let child = match self.build_stmt() {
                Ok(node) => node,
                Err(e) => {
                    return Err(e);
                },
            };
            n.add(child);
        }
    }

    /// A statement: a function definition where the current token is the
    /// keyword `function`, else an expression and the `;` after it.
    pub fn build_stmt(&mut self) -> (r: Result<Node, ParseError>)
        requires
            old(self).wf(),
        ensures
            final(self).wf(),
            final(self).tokens() == old(self).tokens(),
            outcome(r, final(self).position()) == spec_stmt(
                old(self).tokens(),
                old(self).position(),
            ),
            old(self).position() <= final(self).position(),
            r is Ok ==> old(self).position() < final(self).position(),
            r matches Ok(n) ==> n@.wf(),
            r matches Err(e) ==> e@.position == final(self).position(),
        decreases old(self).tokens().len() - old(self).position(), 5nat,
    {
        proof {
            lemma_stmt_outcome(self.tokens(), self.position());
        }
        reveal(spec_stmt);
        reveal(spec_stmt_fn);
        reveal(spec_stmt_exp);
        let mut n = Node::new("stmt".to_owned());
        let child = match self.tlr.peek() {
            Token::Keyword(Keyword::Function) => {
                match self.build_stmt_fn() {
                    Ok(node) => node,
                    Err(e) => {
                        return Err(e);
                    },
                }
            },
            _ => {
                let exp_child = match self.build_stmt_exp() {
                    Ok(node) => node,
                    Err(e) => {
                        return Err(e);
                    },
                };
                match self.tlr.peek() {
                    Token::Semicolon => {
                        self.tlr.next();
                    },
                    _ => {
                        return Err(self.refuse(Rule::Stmt));
                    },
                }
                exp_child
            },
        };
        n.add(child);
        assert(n@.children =~= seq![child@]);
        Ok(n)
    }

    /// A function definition: the keyword `function`, the name, the
    /// parameter list, `{`, the body, `}`. The node's children are the
    /// keyword, the name, the parameter list and the body.
    pub fn build_stmt_fn(&mut self) -> (r: Result<Node, ParseError>)
        requires
            old(self).wf(),
        ensures
            final(self).wf(),
            final(self).tokens() == old(self).tokens(),
            outcome(r, final(self).position()) == spec_stmt_fn(
                old(self).tokens(),
                old(self).position(),
            ),
            old(self).position() <= final(self).position(),
            r is Ok ==> old(self).position() < final(self).position(),
            r matches Ok(n) ==> n@.wf(),
            r matches Err(e) ==> e@.position == final(self).position(),
        decreases old(self).tokens().len() - old(self).position(), 4nat,
    {
        proof {
            lemma_stmt_fn_outcome(self.tokens(), self.position());
        }
        reveal(spec_stmt_fn);
        reveal(spec_code_block);
        let mut n = Node::new("fn".to_owned());
        match self.tlr.peek() {
            Token::Keyword(Keyword::Function) => {},
            _ => {
                return Err(self.refuse(Rule::StmtFn));
            },
        }
        let keyword = Node::leaf(self.tlr.next());
        n.add(keyword);
        match self.tlr.peek() {
            Token::FunctionName(_) => {},
            _ => {
                return Err(self.refuse(Rule::StmtFn));
            },
        }
        let name = Node::leaf(self.tlr.next());
        n.add(name);
        let params = match self.build_arg_list() {
            Ok(node) => node,
            Err(e) => {
                return Err(e);
            },
        };
        n.add(params);
        match self.tlr.peek() {
            Token::BlockOpen => {
                self.tlr.next();
            },
            _ => {
                return Err(self.refuse(Rule::StmtFn));
            },
        }
        let body = match self.build_code_block() {
            Ok(node) => node,
            Err(e) => {
                return Err(e);
            },
        };
        n.add(body);
        match self.tlr.peek() {
            Token::BlockClose => {
                self.tlr.next();
            },
            _ => {
                return Err(self.refuse(Rule::StmtFn));
            },
        }
        assert(n@.children =~= seq![keyword@, name@, params@, body@]);
        Ok(n)
    }

    /// The failure of `rule` on the current token.
    fn refuse(&self, rule: Rule) -> (e: ParseError)
        requires
            self.wf(),
        ensures
            Parsed::Refused(e@) == unexpected(self.tokens(), self.position(), rule),
            e@.position == self.position(),
    {
        ParseError { token: self.tlr.peek(), position: self.tlr.pos, rule }
    }

    /// Consumes the current token and makes a leaf of it.
    pub fn build_single_token(&mut self) -> (n: Node)
        requires
            old(self).wf(),
        ensures
            final(self).wf(),
            final(self).tokens() == old(self).tokens(),
            n@ == NodeView::leaf(tok(old(self).tokens(), old(self).position())),
            n@.wf(),
            final(self).position() == if old(self).position() < old(self).tokens().len() {
                old(self).position() + 1
            } else {
                old(self).position()
            },
    {
        Node::leaf(self.tlr.next())
    }

    /// The parameter list of a function definition: `(`, then variable
    /// names with commas skipped, then `)`.
    pub fn build_arg_list(&mut self) -> (r: Result<Node, ParseError>)
        requires
            old(self).wf(),
        ensures
            final(self).wf(),
            final(self).tokens() == old(self).tokens(),
            outcome(r, final(self).position()) == spec_arg_list(
                old(self).tokens(),
                old(self).position(),
            ),
            old(self).position() <= final(self).position(),
            r is Ok ==> old(self).position() < final(self).position(),
            r matches Ok(n) ==> n@.wf(),
            r matches Err(e) ==> e@.position == final(self).position(),
    {
        proof {
            lemma_arg_list_outcome(self.tokens(), self.position());
        }
        reveal(params_from);
        let ghost ts = self.tokens();
        let mut n = Node::new("arg list".to_owned());
        match self.tlr.peek() {
            Token::ParenthesisOpen => {
                self.tlr.next();
            },
            _ => {
                return Err(self.refuse(Rule::ArgList));
            },
        }
        loop
            invariant
                self.wf(),
                self.tokens() == ts,
                ts == old(self).tokens(),
                old(self).position() < self.position(),
                n@ == NodeView::composite("arg list"@, n@.children),
                spec_arg_list(ts, old(self).position()) == params_from(
                    ts,
                    self.position(),
                    n@.children,
                ),
                builds_tree(spec_arg_list(ts, old(self).position())),
            decreases ts.len() - self.position(),
        {
            reveal(params_from);
            match self.tlr.peek() {
                Token::VariableName(_) => {
                    n.add(Node::leaf(self.tlr.next()));
                },
                Token::Comma => {
                    self.tlr.next();
                },
                Token::ParenthesisClose => {
                    self.tlr.next();
                    return Ok(n);
                },
                _ => {
                    return Err(self.refuse(Rule::ArgList));
                },
            }
        }
    }

    /// An expression, up to `;`, `,` or `)`, which is left unconsumed.
    ///
    /// Operands and operators go on a stack, and whenever the stack holds
    /// three entries they are merged into one `op` node: there are no
    /// precedence levels. At the end the stack is emptied into the node, last
    /// pushed first.
    pub fn build_stmt_exp(&mut self) -> (r: Result<Node, ParseError>)
        requires
            old(self).wf(),
        ensures
            final(self).wf(),
            final(self).tokens() == old(self).tokens(),
            outcome(r, final(self).position()) == spec_stmt_exp(
                old(self).tokens(),
                old(self).position(),
            ),
            old(self).position() <= final(self).position(),
            r is Ok ==> ends_exp(tok(final(self).tokens(), final(self).position())),
            r is Ok && !ends_exp(tok(old(self).tokens(), old(self).position())) ==> old(
                self,
            ).position() < final(self).position(),
            r matches Ok(n) ==> n@.wf(),
            r matches Err(e) ==> e@.position == final(self).position(),
        decreases old(self).tokens().len() - old(self).position(), 2nat,
    {
        proof {
            lemma_stmt_exp_outcome(self.tokens(), self.position());
        }
        reveal(spec_stmt_exp);
        reveal(exp_from);
        reveal(spec_fn_call);
        let ghost ts = self.tokens();
        let ghost start = self.position();
        let mut n = Node::new("exp".to_owned());
        let mut children: Vec<Node> = Vec::new();
        assert(node_views(children@) =~= Seq::empty());
        loop
            invariant_except_break
                n@ == NodeView::empty("exp"@),
                children@.len() <= 2,
                spec_stmt_exp(ts, start) == exp_from(
                    ts,
                    self.position(),
                    node_views(children@),
                ),
                self.position() == start ==> children@.len() == 0,
            invariant
                self.wf(),
                self.tokens() == ts,
                ts == old(self).tokens(),
                start == old(self).position(),
                start <= self.position(),
            ensures
                n@ == NodeView::composite("exp"@, n@.children),
                spec_stmt_exp(ts, start) == (Parsed::Built {
                    node: NodeView::composite(
                        "exp"@,
                        n@.children + node_views(children@).reverse(),
                    ),
                    next: self.position(),
                }),
                ends_exp(tok(ts, self.position())),
                !ends_exp(tok(ts, start)) ==> start < self.position(),
            decreases ts.len() - self.position(),
        {
            reveal(spec_stmt_exp);
            reveal(exp_from);
            reveal(spec_fn_call);
            let ghost stack = node_views(children@);
            let current = self.tlr.peek();
            match current {
                Token::Semicolon | Token::Comma | Token::ParenthesisClose => {
                    assert(n@.children + stack.reverse() =~= stack.reverse());
                    break;
                },
                Token::Assignment => {
                    if children.len() == 0 {
                        return Err(self.refuse(Rule::StmtExp));
                    }
                    let left = children.pop().unwrap();
                    let assignment = match self.build_assignment(left) {
                        Ok(node) => node,
                        Err(e) => {
                            return Err(e);
                        },
                    };
                    n.add(assignment);
                    proof {
                        assert(node_views(children@) =~= stack.drop_last());
                        assert(n@.children =~= seq![assignment@]);
                    }
                    break;
                },
                Token::FunctionName(_) => {
                    let call = match self.build_fn_call() {
                        Ok(node) => node,
                        Err(e) => {
                            return Err(e);
                        },
                    };
                    children.push(call);
                    assert(node_views(children@) =~= stack.push(call@));
                },
                Token::VariableName(_) | Token::StringValue(_) | Token::NumericValue(_) | Token::Op(
                    _,
                ) => {
                    let leaf = self.build_single_token();
                    children.push(leaf);
                    assert(node_views(children@) =~= stack.push(leaf@));
                },
                Token::ParenthesisOpen => {
                    let inner = match self.build_group() {
                        Ok(node) => node,
                        Err(e) => {
                            return Err(e);
                        },
                    };
                    children.push(inner);
                    assert(node_views(children@) =~= stack.push(inner@));
                },
                _ => {
                    return Err(self.refuse(Rule::StmtExp));
                },
            }
            merge_stack(&mut children);
        }
        while children.len() > 0
            invariant
                n@ == NodeView::composite("exp"@, n@.children),
                spec_stmt_exp(ts, start) == (Parsed::Built {
                    node: NodeView::composite(
                        "exp"@,
                        n@.children + node_views(children@).reverse(),
                    ),
                    next: self.position(),
                }),
            decreases children@.len(),
        {
            let ghost rest = node_views(children@);
            let ghost done = n@.children;
            let last = children.pop().unwrap();
            n.add(last);
            proof {
                assert(node_views(children@) =~= rest.drop_last());
                assert(done + rest.reverse() =~= done.push(last@) + rest.drop_last().reverse());
            }
        }
        assert(n@.children + node_views(children@).reverse() =~= n@.children);
        Ok(n)
    }

    /// The assignment whose left side is `left`, at its `=`: the right side
    /// is the whole rest of the expression.
    fn build_assignment(&mut self, left: Node) -> (r: Result<Node, ParseError>)
        requires
            old(self).wf(),
            tok(old(self).tokens(), old(self).position()) is Assignment,
        ensures
            final(self).wf(),
            final(self).tokens() == old(self).tokens(),
            match spec_stmt_exp(old(self).tokens(), old(self).position() + 1) {
                Parsed::Built { node, next } => {
                    &&& r matches Ok(a)
                    &&& a@ == NodeView::composite("assignment"@, seq![left@, node])
                    &&& final(self).position() == next
                    &&& old(self).position() < next
                    &&& ends_exp(tok(old(self).tokens(), next))
                },
                Parsed::Refused(e) => {
                    &&& r matches Err(f)
                    &&& f@ == e
                    &&& e.position == final(self).position()
                    &&& old(self).position() < final(self).position()
                },
            },
        decreases old(self).tokens().len() - old(self).position(), 0nat,
    {
        self.tlr.next();
        let right = match self.build_stmt_exp() {
            Ok(node) => node,
            Err(e) => {
                return Err(e);
            },
        };
        let mut assignment = Node::new("assignment".to_owned());
        assignment.add(left);
        assignment.add(right);
        assert(assignment@.children =~= seq![left@, right@]);
        Ok(assignment)
    }

    /// An expression between parentheses, at its `(`.
    fn build_group(&mut self) -> (r: Result<Node, ParseError>)
        requires
            old(self).wf(),
            tok(old(self).tokens(), old(self).position()) is ParenthesisOpen,
        ensures
            final(self).wf(),
            final(self).tokens() == old(self).tokens(),
            old(self).position() < final(self).position(),
            match spec_stmt_exp(old(self).tokens(), old(self).position() + 1) {
                Parsed::Built { node, next } => {
                    if tok(old(self).tokens(), next) is ParenthesisClose {
                        &&& r matches Ok(n)
                        &&& n@ == node
                        &&& final(self).position() == next + 1
                    } else {
                        &&& r matches Err(f)
                        &&& Parsed::Refused(f@) == unexpected(
                            old(self).tokens(),
                            next,
                            Rule::StmtExp,
                        )
                        &&& final(self).position() == next
                    }
                },
                Parsed::Refused(e) => {
                    &&& r matches Err(f)
                    &&& f@ == e
                    &&& e.position == final(self).position()
                },
            },
        decreases old(self).tokens().len() - old(self).position(), 0nat,
    {
        self.tlr.next();
        let inner = match self.build_stmt_exp() {
            Ok(node) => node,
            Err(e) => {
                return Err(e);
            },
        };
        match self.tlr.peek() {
            Token::ParenthesisClose => {
                self.tlr.next();
            },
            _ => {
                return Err(self.refuse(Rule::StmtExp));
            },
        }
        Ok(inner)
    }

    /// A function call: the name, which becomes a leaf, then the argument
    /// list.
    pub fn build_fn_call(&mut self) -> (r: Result<Node, ParseError>)
        requires
            old(self).wf(),
        ensures
            final(self).wf(),
            final(self).tokens() == old(self).tokens(),
            outcome(r, final(self).position()) == spec_fn_call(
                old(self).tokens(),
                old(self).position(),
            ),
            old(self).position() <= final(self).position(),
            r is Ok ==> old(self).position() < final(self).position(),
            r matches Ok(n) ==> n@.wf(),
            r matches Err(e) ==> e@.position == final(self).position(),
        decreases old(self).tokens().len() - old(self).position(), 0nat,
    {
        proof {
            lemma_fn_call_outcome(self.tokens(), self.position());
        }
        reveal(spec_fn_call);
        reveal(spec_arg_exp_list);
        let mut n = Node::new("fn call".to_owned());
        match self.tlr.peek() {
            Token::FunctionName(_) => {},
            _ => {
                return Err(self.refuse(Rule::FnCall));
            },
        }
        let name = Node::leaf(self.tlr.next());
        n.add(name);
        let args = match self.build_arg_exp_list() {
            Ok(node) => node,
            Err(e) => {
                return Err(e);
            },
        };
        n.add(args);
        assert(n@.children =~= seq![name@, args@]);
        Ok(n)
    }

    /// The argument list of a function call: `(`, then one expression per
    /// argument with commas skipped, then `)`.
    pub fn build_arg_exp_list(&mut self) -> (r: Result<Node, ParseError>)
        requires
            old(self).wf(),
        ensures
            final(self).wf(),
            final(self).tokens() == old(self).tokens(),
            outcome(r, final(self).position()) == spec_arg_exp_list(
                old(self).tokens(),
                old(self).position(),
            ),
            old(self).position() <= final(self).position(),
            r is Ok ==> old(self).position() < final(self).position(),
            r matches Ok(n) ==> n@.wf(),
            r matches Err(e) ==> e@.position == final(self).position(),
        decreases old(self).tokens().len() - old(self).position(), 0nat,
    {
        proof {
            lemma_arg_exp_list_outcome(self.tokens(), self.position());
        }
        reveal(spec_arg_exp_list);
        reveal(arg_exps_from);
        reveal(spec_stmt_exp);
        let ghost ts = self.tokens();
        let ghost start = self.position();
        let mut n = Node::new("fn call exp list".to_owned());
        match self.tlr.peek() {
            Token::ParenthesisOpen => {
                self.tlr.next();
            },
            _ => {
                return Err(self.refuse(Rule::ArgExpList));
            },
        }
        loop
            invariant
                self.wf(),
                self.tokens() == ts,
                ts == old(self).tokens(),
                start == old(self).position(),
                start < self.position(),
                n@ == NodeView::composite("fn call exp list"@, n@.children),
                spec_arg_exp_list(ts, start) == arg_exps_from(ts, self.position(), n@.children),
                builds_tree(spec_arg_exp_list(ts, start)),
            decreases ts.len() - self.position(),
        {
            reveal(arg_exps_from);
            reveal(spec_stmt_exp);
            match self.tlr.peek() {
                Token::Comma => {
                    self.tlr.next();
                },
                Token::ParenthesisClose => {
                    self.tlr.next();
                    return Ok(n);
                },
                Token::Semicolon => {
                    return Err(self.refuse(Rule::ArgExpList));
                },
                _ => {
                    let arg = match self.build_stmt_exp() {
                        Ok(node) => node,
                        Err(e) => {
                            return Err(e);
                        },
                    };
                    n.add(arg);
                },
            }
        }
    }
}

/// The syntax tree of a whole token sequence.
pub fn parse(tokens: &Vec<Token>) -> (r: Result<Node, ParseError>)
    ensures
        match spec_build(token_views(tokens@), 0) {
            Parsed::Built { node, next } => r matches Ok(n) && n@ == node,
            Parsed::Refused(e) => r matches Err(f) && f@ == e,
        },
        r matches Ok(n) ==> n@.wf(),
{
    let mut builder = AstBuilder::new(tokens);
    builder.build()
}

} // verus!
