//! The grammar of the language, as functions from a token sequence and a
//! position to the tree that the builder produces there.
//!
//! Expressions have no precedence levels. Operands and operators are pushed
//! on a stack in the order in which they are met, and whenever the stack
//! holds three entries they are merged into one `op` node, so that
//! `1 + 2 * 3` groups as `(1 + 2) * 3`.
//!
//! Where a definition goes on after a part that another definition parsed,
//! it first checks with `advances` that the part consumed a token. The check
//! only makes it evident that the definitions end: it never fails, as the
//! lemmas on the outcome of each definition show.

use vstd::prelude::*;
use crate::node::NodeView;
use crate::token::{Keyword, TokenView};

verus! {

/// The grammar rule that met a token it does not accept.
#[derive(Debug, Clone, Copy, PartialEq, Eq, Structural)]
pub enum Rule {
    /// A statement: the `;` after an expression is missing.
    Stmt,
    /// An expression.
    StmtExp,
    /// A function call: its name.
    FnCall,
    /// The argument list of a function call.
    ArgExpList,
    /// A function definition: its keyword, name or braces.
    StmtFn,
    /// The parameter list of a function definition.
    ArgList,
}

/// A failed parse: the offending token, its index in the token sequence, and
/// the rule that refused it.
pub struct ParseErrorView {
    pub token: TokenView,
    pub position: int,
    pub rule: Rule,
}

/// The outcome of parsing from some position: the node built and the
/// position after it, or the failure.
pub enum Parsed {
    Built { node: NodeView, next: int },
    Refused(ParseErrorView),
}

/// The token at `pos`. Every position outside the sequence reads as the end
/// of the stream.
pub open spec fn tok(ts: Seq<TokenView>, pos: int) -> TokenView {
    if 0 <= pos < ts.len() {
        ts[pos]
    } else {
        TokenView::Eof
    }
}

/// The failure of `rule` on the token at `pos`.
pub open spec fn unexpected(ts: Seq<TokenView>, pos: int, rule: Rule) -> Parsed {
    Parsed::Refused(ParseErrorView { token: tok(ts, pos), position: pos, rule })
}

/// Whether a parse that began at `pos` and ended at `next` consumed at least
/// one token and stayed within the sequence.
pub open spec fn advances(ts: Seq<TokenView>, pos: int, next: int) -> bool {
    pos < next <= ts.len()
}

/// The tokens at which an expression ends. They are left for the caller.
pub open spec fn ends_exp(t: TokenView) -> bool {
    t is Semicolon || t is Comma || t is ParenthesisClose
}

/// The tokens that enter an expression as a leaf of their own.
pub open spec fn is_operand(t: TokenView) -> bool {
    t is VariableName || t is StringValue || t is NumericValue || t is Op
}

/// The merge rule: a stack of exactly three entries collapses into one `op`
/// node whose children are the three, in the order in which they were pushed.
pub open spec fn merge(stack: Seq<NodeView>) -> Seq<NodeView> {
    if stack.len() == 3 {
        seq![NodeView::composite("op"@, stack)]
    } else {
        stack
    }
}

/// The parameter list of a function definition from the token after its
/// opening parenthesis on: variable names, each a leaf, with commas skipped,
/// up to and including the closing parenthesis.
#[verifier::opaque]
pub open spec fn params_from(ts: Seq<TokenView>, pos: int, acc: Seq<NodeView>) -> Parsed
    decreases ts.len() - pos,
{
    let t = tok(ts, pos);
    if t is VariableName {
        params_from(ts, pos + 1, acc.push(NodeView::leaf(t)))
    } else if t is Comma {
        params_from(ts, pos + 1, acc)
    } else if t is ParenthesisClose {
        Parsed::Built { node: NodeView::composite("arg list"@, acc), next: pos + 1 }
    } else {
        unexpected(ts, pos, Rule::ArgList)
    }
}

/// The parameter list of a function definition, parentheses included.
pub open spec fn spec_arg_list(ts: Seq<TokenView>, pos: int) -> Parsed {
    if tok(ts, pos) is ParenthesisOpen {
        params_from(ts, pos + 1, Seq::empty())
    } else {
        unexpected(ts, pos, Rule::ArgList)
    }
}

/// An expression from `pos` on, with `stack` holding the operands and
/// operators met so far.
///
/// At `;`, `,` or `)` the expression ends, and what is left on the stack
/// becomes its children, last pushed first. An `=` takes the entry pushed
/// last as its left side and the whole rest of the expression as its right
/// side; the assignment goes before what is left on the stack.
#[verifier::opaque]
pub open spec fn exp_from(ts: Seq<TokenView>, pos: int, stack: Seq<NodeView>) -> Parsed
    decreases ts.len() - pos, 1nat,
{
    let t = tok(ts, pos);
    if ends_exp(t) {
        Parsed::Built { node: NodeView::composite("exp"@, stack.reverse()), next: pos }
    } else if t is Assignment {
        if stack.len() == 0 {
            unexpected(ts, pos, Rule::StmtExp)
        } else {
            match exp_from(ts, pos + 1, Seq::empty()) {
                Parsed::Built { node, next } => Parsed::Built {
                    node: NodeView::composite(
                        "exp"@,
                        seq![NodeView::composite("assignment"@, seq![stack.last(), node])]
                            + stack.drop_last().reverse(),
                    ),
                    next,
                },
                Parsed::Refused(e) => Parsed::Refused(e),
            }
        }
    } else if t is FunctionName {
        match spec_fn_call(ts, pos) {
            Parsed::Built { node, next } => if advances(ts, pos, next) {
                exp_from(ts, next, merge(stack.push(node)))
            } else {
                unexpected(ts, next, Rule::StmtExp)
            },
            Parsed::Refused(e) => Parsed::Refused(e),
        }
    } else if is_operand(t) {
        exp_from(ts, pos + 1, merge(stack.push(NodeView::leaf(t))))
    } else if t is ParenthesisOpen {
        match exp_from(ts, pos + 1, Seq::empty()) {
            Parsed::Built { node, next } => if tok(ts, next) is ParenthesisClose && advances(
                ts,
                pos,
                next + 1,
            ) {
                exp_from(ts, next + 1, merge(stack.push(node)))
            } else {
                unexpected(ts, next, Rule::StmtExp)
            },
            Parsed::Refused(e) => Parsed::Refused(e),
        }
    } else {
        unexpected(ts, pos, Rule::StmtExp)
    }
}

/// A function call: the name as a leaf, then the argument list.
#[verifier::opaque]
pub open spec fn spec_fn_call(ts: Seq<TokenView>, pos: int) -> Parsed
    decreases ts.len() - pos, 0nat,
{
    let t = tok(ts, pos);
    if t is FunctionName {
        match spec_arg_exp_list(ts, pos + 1) {
            Parsed::Built { node, next } => Parsed::Built {
                node: NodeView::composite("fn call"@, seq![NodeView::leaf(t), node]),
                next,
            },
            Parsed::Refused(e) => Parsed::Refused(e),
        }
    } else {
        unexpected(ts, pos, Rule::FnCall)
    }
}

/// The argument list of a function call, parentheses included.
#[verifier::opaque]
pub open spec fn spec_arg_exp_list(ts: Seq<TokenView>, pos: int) -> Parsed
    decreases ts.len() - pos, 0nat,
{
    if tok(ts, pos) is ParenthesisOpen {
        arg_exps_from(ts, pos + 1, Seq::empty())
    } else {
        unexpected(ts, pos, Rule::ArgExpList)
    }
}

/// The argument list of a function call from the token after its opening
/// parenthesis on: one expression per argument, in the order written, with
/// commas skipped, up to and including the closing parenthesis.
#[verifier::opaque]
pub open spec fn arg_exps_from(ts: Seq<TokenView>, pos: int, acc: Seq<NodeView>) -> Parsed
    decreases ts.len() - pos, 3nat,
{
    let t = tok(ts, pos);
    if t is Comma {
        arg_exps_from(ts, pos + 1, acc)
    } else if t is ParenthesisClose {
        Parsed::Built { node: NodeView::composite("fn call exp list"@, acc), next: pos + 1 }
    } else if t is Semicolon {
        unexpected(ts, pos, Rule::ArgExpList)
    } else {
        match spec_stmt_exp(ts, pos) {
            Parsed::Built { node, next } => if advances(ts, pos, next) {
                arg_exps_from(ts, next, acc.push(node))
            } else {
                unexpected(ts, next, Rule::ArgExpList)
            },
            Parsed::Refused(e) => Parsed::Refused(e),
        }
    }
}

/// An expression from `pos` on.
#[verifier::opaque]
pub open spec fn spec_stmt_exp(ts: Seq<TokenView>, pos: int) -> Parsed
    decreases ts.len() - pos, 2nat,
{
    exp_from(ts, pos, Seq::empty())
}

/// A statement: a function definition where the token at `pos` is the
/// keyword `function`, else an expression followed by `;`.
#[verifier::opaque]
pub open spec fn spec_stmt(ts: Seq<TokenView>, pos: int) -> Parsed
    decreases ts.len() - pos, 5nat,
{
    if tok(ts, pos) == TokenView::Keyword(Keyword::Function) {
        match spec_stmt_fn(ts, pos) {
            Parsed::Built { node, next } => Parsed::Built {
                node: NodeView::composite("stmt"@, seq![node]),
                next,
            },
            Parsed::Refused(e) => Parsed::Refused(e),
        }
    } else {
        match spec_stmt_exp(ts, pos) {
            Parsed::Built { node, next } => if tok(ts, next) is Semicolon {
                Parsed::Built { node: NodeView::composite("stmt"@, seq![node]), next: next + 1 }
            } else {
                unexpected(ts, next, Rule::Stmt)
            },
            Parsed::Refused(e) => Parsed::Refused(e),
        }
    }
}

/// A function definition: the keyword, the name, the parameter list, and the
/// body between braces. The node's children are these four, in this order.
#[verifier::opaque]
pub open spec fn spec_stmt_fn(ts: Seq<TokenView>, pos: int) -> Parsed
    decreases ts.len() - pos, 4nat,
{
    if tok(ts, pos) != TokenView::Keyword(Keyword::Function) {
        unexpected(ts, pos, Rule::StmtFn)
    } else if !(tok(ts, pos + 1) is FunctionName) {
        unexpected(ts, pos + 1, Rule::StmtFn)
    } else {
        match spec_arg_list(ts, pos + 2) {
            Parsed::Built { node: params, next } => if tok(ts, next) is BlockOpen && advances(
                ts,
                pos,
                next + 1,
            ) {
                match spec_code_block(ts, next + 1) {
                    Parsed::Built { node: body, next: end } => if tok(ts, end) is BlockClose {
                        Parsed::Built {
                            node: NodeView::composite(
                                "fn"@,
                                seq![
                                    NodeView::leaf(tok(ts, pos)),
                                    NodeView::leaf(tok(ts, pos + 1)),
                                    params,
                                    body,
                                ],
                            ),
                            next: end + 1,
                        }
                    } else {
                        unexpected(ts, end, Rule::StmtFn)
                    },
                    Parsed::Refused(e) => Parsed::Refused(e),
                }
            } else {
                unexpected(ts, next, Rule::StmtFn)
            },
            Parsed::Refused(e) => Parsed::Refused(e),
        }
    }
}

/// The statements from `pos` on, after the statements `acc`, up to the end
/// of the stream or a closing brace, which is left for the caller.
#[verifier::opaque]
pub open spec fn stmts_from(ts: Seq<TokenView>, pos: int, acc: Seq<NodeView>) -> Parsed
    decreases ts.len() - pos, 6nat,
{
    let t = tok(ts, pos);
    if t is Eof || t is BlockClose {
        Parsed::Built { node: NodeView::composite("code block"@, acc), next: pos }
    } else {
        match spec_stmt(ts, pos) {
            Parsed::Built { node, next } => if advances(ts, pos, next) {
                stmts_from(ts, next, acc.push(node))
            } else {
                unexpected(ts, next, Rule::Stmt)
            },
            Parsed::Refused(e) => Parsed::Refused(e),
        }
    }
}

/// A code block: statements up to the end of the stream or a closing brace.
#[verifier::opaque]
pub open spec fn spec_code_block(ts: Seq<TokenView>, pos: int) -> Parsed
    decreases ts.len() - pos, 7nat,
{
    stmts_from(ts, pos, Seq::empty())
}

/// A whole program: the start marker, where there is one, then a code block.
pub open spec fn spec_build(ts: Seq<TokenView>, pos: int) -> Parsed {
    if tok(ts, pos) is PhpStart {
        spec_code_block(ts, pos + 1)
    } else {
        spec_code_block(ts, pos)
    }
}

} // verus!
