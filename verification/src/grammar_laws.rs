//! What holds of every parse: a parse never moves the cursor backwards nor
//! beyond the tokens, what it builds is a well-formed tree, and the grouping
//! of expressions, the order of arguments and the shape of a function
//! definition are as the grammar describes them.

use vstd::prelude::*;
use crate::grammar::{
    advances, arg_exps_from, ends_exp, exp_from, is_operand, merge, params_from,
    spec_arg_exp_list, spec_arg_list, spec_build, spec_code_block, spec_fn_call, spec_stmt,
    spec_stmt_exp, spec_stmt_fn, stmts_from, tok, Parsed,
};
use crate::node::{all_wf, NodeView};
use crate::token::{Keyword, TokenView};

verus! {

/// Whether `r`, the outcome of a parse that began at `pos`, ends at or
/// after `pos` and within the tokens.
pub open spec fn ends_within(r: Parsed, ts: Seq<TokenView>, pos: int) -> bool {
    r matches Parsed::Built { next, .. } ==> pos <= next <= ts.len()
}

/// Whether `r`, the outcome of a parse that began at `pos`, consumed at
/// least one token and ends within the tokens.
pub open spec fn ends_beyond(r: Parsed, ts: Seq<TokenView>, pos: int) -> bool {
    r matches Parsed::Built { next, .. } ==> advances(ts, pos, next)
}

/// Whether the node that `r` built, if any, is a composite or a leaf, and so
/// every node below it.
pub open spec fn builds_tree(r: Parsed) -> bool {
    r matches Parsed::Built { node, .. } ==> node.wf()
}

/// The merge rule keeps well-formed nodes well formed.
proof fn lemma_merge_wf(stack: Seq<NodeView>)
    requires
        all_wf(stack),
    ensures
        all_wf(merge(stack)),
{
    if stack.len() == 3 {
        assert(NodeView::composite("op"@, stack).wf());
    }
}

/// A parameter list consumes its parentheses at least, never reads beyond
/// the tokens, and is a well-formed tree.
pub proof fn lemma_arg_list_outcome(ts: Seq<TokenView>, pos: int)
    requires
        0 <= pos <= ts.len(),
    ensures
        ends_beyond(spec_arg_list(ts, pos), ts, pos),
        builds_tree(spec_arg_list(ts, pos)),
{
    if tok(ts, pos) is ParenthesisOpen {
        lemma_params_outcome(ts, pos + 1, Seq::empty());
    }
}

proof fn lemma_params_outcome(ts: Seq<TokenView>, pos: int, acc: Seq<NodeView>)
    requires
        0 <= pos <= ts.len(),
        all_wf(acc),
    ensures
        ends_beyond(params_from(ts, pos, acc), ts, pos),
        builds_tree(params_from(ts, pos, acc)),
    decreases ts.len() - pos,
{
    reveal(params_from);
    let t = tok(ts, pos);
    if t is VariableName {
        lemma_params_outcome(ts, pos + 1, acc.push(NodeView::leaf(t)));
    } else if t is Comma {
        lemma_params_outcome(ts, pos + 1, acc);
    }
}

/// An expression never moves backwards nor beyond the tokens. It ends at
/// `;`, `,` or `)`, and where it does not begin at one of these, it consumes
/// at least one token. What it builds is a well-formed tree.
pub proof fn lemma_stmt_exp_outcome(ts: Seq<TokenView>, pos: int)
    requires
        0 <= pos <= ts.len(),
    ensures
        ends_within(spec_stmt_exp(ts, pos), ts, pos),
        spec_stmt_exp(ts, pos) matches Parsed::Built { next, .. } ==> ends_exp(tok(ts, next)),
        !ends_exp(tok(ts, pos)) ==> ends_beyond(spec_stmt_exp(ts, pos), ts, pos),
        builds_tree(spec_stmt_exp(ts, pos)),
    decreases ts.len() - pos, 2nat,
{
    reveal(spec_stmt_exp);
    reveal(exp_from);
    lemma_exp_from_outcome(ts, pos, Seq::empty());
}

proof fn lemma_exp_from_outcome(ts: Seq<TokenView>, pos: int, stack: Seq<NodeView>)
    requires
        0 <= pos <= ts.len(),
        all_wf(stack),
    ensures
        builds_tree(exp_from(ts, pos, stack)),
        ends_within(exp_from(ts, pos, stack), ts, pos),
        exp_from(ts, pos, stack) matches Parsed::Built { next, .. } ==> ends_exp(tok(ts, next)),
        !ends_exp(tok(ts, pos)) ==> ends_beyond(exp_from(ts, pos, stack), ts, pos),
    decreases ts.len() - pos, 1nat,
{
    reveal(exp_from);
    reveal(spec_fn_call);
    let t = tok(ts, pos);
    if ends_exp(t) {
        assert(all_wf(stack.reverse()));
    } else if t is Assignment {
        if stack.len() > 0 {
            lemma_exp_from_outcome(ts, pos + 1, Seq::empty());
            if let Parsed::Built { node, next } = exp_from(ts, pos + 1, Seq::empty()) {
                let assignment = NodeView::composite("assignment"@, seq![stack.last(), node]);
                assert(assignment.wf());
                assert(all_wf(stack.drop_last().reverse()));
                assert(all_wf(seq![assignment] + stack.drop_last().reverse()));
            }
        }
    } else if t is FunctionName {
        lemma_fn_call_outcome(ts, pos);
        if let Parsed::Built { node, next } = spec_fn_call(ts, pos) {
            lemma_merge_wf(stack.push(node));
            lemma_exp_from_outcome(ts, next, merge(stack.push(node)));
        }
    } else if is_operand(t) {
        lemma_merge_wf(stack.push(NodeView::leaf(t)));
        lemma_exp_from_outcome(ts, pos + 1, merge(stack.push(NodeView::leaf(t))));
    } else if t is ParenthesisOpen {
        lemma_exp_from_outcome(ts, pos + 1, Seq::empty());
        if let Parsed::Built { node, next } = exp_from(ts, pos + 1, Seq::empty()) {
            if tok(ts, next) is ParenthesisClose {
                lemma_merge_wf(stack.push(node));
                lemma_exp_from_outcome(ts, next + 1, merge(stack.push(node)));
            }
        }
    }
}

/// A function call consumes its name at least, never reads beyond the
/// tokens, and is a well-formed tree.
pub proof fn lemma_fn_call_outcome(ts: Seq<TokenView>, pos: int)
    requires
        0 <= pos <= ts.len(),
    ensures
        ends_beyond(spec_fn_call(ts, pos), ts, pos),
        builds_tree(spec_fn_call(ts, pos)),
    decreases ts.len() - pos, 0nat,
{
    reveal(spec_fn_call);
    reveal(spec_arg_exp_list);
    if tok(ts, pos) is FunctionName {
        lemma_arg_exp_list_outcome(ts, pos + 1);
        if let Parsed::Built { node, next } = spec_arg_exp_list(ts, pos + 1) {
            assert(NodeView::leaf(tok(ts, pos)).wf());
            assert(NodeView::composite("fn call"@, seq![NodeView::leaf(tok(ts, pos)), node]).wf());
        }
    }
}

/// The argument list of a call consumes its parentheses at least, never
/// reads beyond the tokens, and is a well-formed tree.
pub proof fn lemma_arg_exp_list_outcome(ts: Seq<TokenView>, pos: int)
    requires
        0 <= pos <= ts.len(),
    ensures
        ends_beyond(spec_arg_exp_list(ts, pos), ts, pos),
        builds_tree(spec_arg_exp_list(ts, pos)),
    decreases ts.len() - pos, 0nat,
{
    reveal(spec_arg_exp_list);
    reveal(arg_exps_from);
    if tok(ts, pos) is ParenthesisOpen {
        lemma_arg_exps_outcome(ts, pos + 1, Seq::empty());
    }
}

proof fn lemma_arg_exps_outcome(ts: Seq<TokenView>, pos: int, acc: Seq<NodeView>)
    requires
        0 <= pos <= ts.len(),
        all_wf(acc),
    ensures
        ends_beyond(arg_exps_from(ts, pos, acc), ts, pos),
        builds_tree(arg_exps_from(ts, pos, acc)),
    decreases ts.len() - pos, 3nat,
{
    reveal(arg_exps_from);
    reveal(spec_stmt_exp);
    let t = tok(ts, pos);
    if t is Comma {
        lemma_arg_exps_outcome(ts, pos + 1, acc);
    } else if t is ParenthesisClose {
    } else if t is Semicolon {
    } else {
        lemma_stmt_exp_outcome(ts, pos);
        if let Parsed::Built { node, next } = spec_stmt_exp(ts, pos) {
            lemma_arg_exps_outcome(ts, next, acc.push(node));
        }
    }
}

/// A statement consumes at least one token, never reads beyond the tokens,
/// and is a well-formed tree.
pub proof fn lemma_stmt_outcome(ts: Seq<TokenView>, pos: int)
    requires
        0 <= pos <= ts.len(),
    ensures
        ends_beyond(spec_stmt(ts, pos), ts, pos),
        builds_tree(spec_stmt(ts, pos)),
    decreases ts.len() - pos, 5nat,
{
    reveal(spec_stmt);
    reveal(spec_stmt_fn);
    reveal(spec_stmt_exp);
    if tok(ts, pos) == TokenView::Keyword(Keyword::Function) {
        lemma_stmt_fn_outcome(ts, pos);
        if let Parsed::Built { node, next } = spec_stmt_fn(ts, pos) {
            assert(NodeView::composite("stmt"@, seq![node]).wf());
        }
    } else {
        lemma_stmt_exp_outcome(ts, pos);
        if let Parsed::Built { node, next } = spec_stmt_exp(ts, pos) {
            assert(NodeView::composite("stmt"@, seq![node]).wf());
        }
    }
}

/// A function definition consumes its keyword at least, never reads beyond
/// the tokens, and is a well-formed tree.
pub proof fn lemma_stmt_fn_outcome(ts: Seq<TokenView>, pos: int)
    requires
        0 <= pos <= ts.len(),
    ensures
        ends_beyond(spec_stmt_fn(ts, pos), ts, pos),
        builds_tree(spec_stmt_fn(ts, pos)),
    decreases ts.len() - pos, 4nat,
{
    reveal(spec_stmt_fn);
    reveal(spec_code_block);
    if tok(ts, pos) == TokenView::Keyword(Keyword::Function) && tok(ts, pos + 1) is FunctionName {
        lemma_arg_list_outcome(ts, pos + 2);
        if let Parsed::Built { node: params, next } = spec_arg_list(ts, pos + 2) {
            if tok(ts, next) is BlockOpen {
                lemma_code_block_outcome(ts, next + 1);
                if let Parsed::Built { node: body, next: end } = spec_code_block(ts, next + 1) {
                    let children = seq![
                        NodeView::leaf(tok(ts, pos)),
                        NodeView::leaf(tok(ts, pos + 1)),
                        params,
                        body,
                    ];
                    assert(NodeView::leaf(tok(ts, pos)).wf());
                    assert(NodeView::leaf(tok(ts, pos + 1)).wf());
                    assert(NodeView::composite("fn"@, children).wf());
                }
            }
        }
    }
}

/// A code block never moves backwards nor beyond the tokens, and ends at
/// the end of the stream or at a closing brace. What it builds is a
/// well-formed tree.
pub proof fn lemma_code_block_outcome(ts: Seq<TokenView>, pos: int)
    requires
        0 <= pos <= ts.len(),
    ensures
        ends_within(spec_code_block(ts, pos), ts, pos),
        spec_code_block(ts, pos) matches Parsed::Built { next, .. } ==> {
            let t = tok(ts, next);
            t is Eof || t is BlockClose
        },
        builds_tree(spec_code_block(ts, pos)),
    decreases ts.len() - pos, 7nat,
{
    reveal(spec_code_block);
    reveal(stmts_from);
    lemma_stmts_outcome(ts, pos, Seq::empty());
}

proof fn lemma_stmts_outcome(ts: Seq<TokenView>, pos: int, acc: Seq<NodeView>)
    requires
        0 <= pos <= ts.len(),
        all_wf(acc),
    ensures
        builds_tree(stmts_from(ts, pos, acc)),
        ends_within(stmts_from(ts, pos, acc), ts, pos),
        stmts_from(ts, pos, acc) matches Parsed::Built { next, .. } ==> {
            let t = tok(ts, next);
            t is Eof || t is BlockClose
        },
    decreases ts.len() - pos, 6nat,
{
    reveal(stmts_from);
    reveal(spec_stmt);
    let t = tok(ts, pos);
    if !(t is Eof || t is BlockClose) {
        lemma_stmt_outcome(ts, pos);
        if let Parsed::Built { node, next } = spec_stmt(ts, pos) {
            lemma_stmts_outcome(ts, next, acc.push(node));
        }
    }
}

/// A whole program never reads beyond the tokens, and is a well-formed
/// tree.
pub proof fn lemma_build_outcome(ts: Seq<TokenView>, pos: int)
    requires
        0 <= pos <= ts.len(),
    ensures
        ends_within(spec_build(ts, pos), ts, pos),
        builds_tree(spec_build(ts, pos)),
{
    if tok(ts, pos) is PhpStart {
        lemma_code_block_outcome(ts, pos + 1);
    } else {
        lemma_code_block_outcome(ts, pos);
    }
}

/// Grouping goes from left to right, whatever the operators: five operands
/// and operators in a row, `a b c d e`, make the one node
/// `op(op(a, b, c), d, e)`.
pub proof fn lemma_groups_left_to_right(ts: Seq<TokenView>, pos: int)
    requires
        0 <= pos,
        pos + 5 < ts.len(),
        forall|i: int| pos <= i < pos + 5 ==> is_operand(#[trigger] ts[i]),
        ends_exp(ts[pos + 5]),
    ensures
        spec_stmt_exp(ts, pos) == (Parsed::Built {
            node: NodeView::composite(
                "exp"@,
                seq![
                    NodeView::composite(
                        "op"@,
                        seq![
                            NodeView::composite(
                                "op"@,
                                seq![
                                    NodeView::leaf(ts[pos]),
                                    NodeView::leaf(ts[pos + 1]),
                                    NodeView::leaf(ts[pos + 2]),
                                ],
                            ),
                            NodeView::leaf(ts[pos + 3]),
                            NodeView::leaf(ts[pos + 4]),
                        ],
                    ),
                ],
            ),
            next: pos + 5,
        }),
{
    reveal(spec_stmt_exp);
    reveal(exp_from);
    let a = NodeView::leaf(ts[pos]);
    let b = NodeView::leaf(ts[pos + 1]);
    let c = NodeView::leaf(ts[pos + 2]);
    let d = NodeView::leaf(ts[pos + 3]);
    let e = NodeView::leaf(ts[pos + 4]);
    let abc = NodeView::composite("op"@, seq![a, b, c]);
    let all = NodeView::composite("op"@, seq![abc, d, e]);
    let s0 = Seq::<NodeView>::empty();
    assert(is_operand(ts[pos]) && is_operand(ts[pos + 1]) && is_operand(ts[pos + 2]));
    assert(is_operand(ts[pos + 3]) && is_operand(ts[pos + 4]));
    assert(merge(s0.push(a)) =~= seq![a]);
    assert(exp_from(ts, pos, s0) == exp_from(ts, pos + 1, seq![a]));
    assert(merge(seq![a].push(b)) =~= seq![a, b]);
    assert(exp_from(ts, pos + 1, seq![a]) == exp_from(ts, pos + 2, seq![a, b]));
    assert(seq![a, b].push(c) =~= seq![a, b, c]);
    assert(merge(seq![a, b].push(c)) =~= seq![abc]);
    assert(exp_from(ts, pos + 2, seq![a, b]) == exp_from(ts, pos + 3, seq![abc]));
    assert(merge(seq![abc].push(d)) =~= seq![abc, d]);
    assert(exp_from(ts, pos + 3, seq![abc]) == exp_from(ts, pos + 4, seq![abc, d]));
    assert(seq![abc, d].push(e) =~= seq![abc, d, e]);
    assert(merge(seq![abc, d].push(e)) =~= seq![all]);
    assert(exp_from(ts, pos + 4, seq![abc, d]) == exp_from(ts, pos + 5, seq![all]));
    assert(seq![all].reverse() =~= seq![all]);
}

/// Assignment takes the whole rest of the expression as its right side, so
/// it groups from right to left: `a = b = c`, with `a` and `b` variables and
/// `c` an operand, is `assignment(a, assignment(b, c))`, each right side an
/// expression of its own.
pub proof fn lemma_assignment_groups_right_to_left(ts: Seq<TokenView>, pos: int)
    requires
        0 <= pos,
        pos + 5 < ts.len(),
        ts[pos] is VariableName,
        ts[pos + 1] is Assignment,
        ts[pos + 2] is VariableName,
        ts[pos + 3] is Assignment,
        is_operand(ts[pos + 4]),
        ends_exp(ts[pos + 5]),
    ensures
        spec_stmt_exp(ts, pos) == (Parsed::Built {
            node: NodeView::composite(
                "exp"@,
                seq![
                    NodeView::composite(
                        "assignment"@,
                        seq![
                            NodeView::leaf(ts[pos]),
                            NodeView::composite(
                                "exp"@,
                                seq![
                                    NodeView::composite(
                                        "assignment"@,
                                        seq![
                                            NodeView::leaf(ts[pos + 2]),
                                            NodeView::composite(
                                                "exp"@,
                                                seq![NodeView::leaf(ts[pos + 4])],
                                            ),
                                        ],
                                    ),
                                ],
                            ),
                        ],
                    ),
                ],
            ),
            next: pos + 5,
        }),
{
    reveal(spec_stmt_exp);
    reveal(exp_from);
    let a = NodeView::leaf(ts[pos]);
    let b = NodeView::leaf(ts[pos + 2]);
    let c = NodeView::leaf(ts[pos + 4]);
    let s0 = Seq::<NodeView>::empty();
    let right = NodeView::composite("exp"@, seq![c]);
    let inner = NodeView::composite("exp"@, seq![NodeView::composite("assignment"@, seq![b, right])]);
    assert(exp_from(ts, pos + 4, s0) == (Parsed::Built { node: right, next: pos + 5 })) by {
        assert(merge(s0.push(c)) =~= seq![c]);
        assert(exp_from(ts, pos + 4, s0) == exp_from(ts, pos + 5, seq![c]));
        assert(seq![c].reverse() =~= seq![c]);
    }
    assert(exp_from(ts, pos + 2, s0) == (Parsed::Built { node: inner, next: pos + 5 })) by {
        assert(merge(s0.push(b)) =~= seq![b]);
        assert(exp_from(ts, pos + 2, s0) == exp_from(ts, pos + 3, seq![b]));
        assert(seq![NodeView::composite("assignment"@, seq![seq![b].last(), right])] + seq![
            b,
        ].drop_last().reverse() =~= seq![NodeView::composite("assignment"@, seq![b, right])]);
    }
    assert(merge(s0.push(a)) =~= seq![a]);
    assert(exp_from(ts, pos, s0) == exp_from(ts, pos + 1, seq![a]));
    assert(seq![NodeView::composite("assignment"@, seq![seq![a].last(), inner])] + seq![
        a,
    ].drop_last().reverse() =~= seq![NodeView::composite("assignment"@, seq![a, inner])]);
}

/// The arguments of a call come out in the order in which they are written:
/// `f(a, b, c)`, with `a`, `b` and `c` operands, is a call whose argument
/// list holds the expressions `a`, `b` and `c`, in this order.
pub proof fn lemma_call_arguments_in_order(ts: Seq<TokenView>, pos: int)
    requires
        0 <= pos,
        pos + 7 < ts.len(),
        ts[pos] is FunctionName,
        ts[pos + 1] is ParenthesisOpen,
        is_operand(ts[pos + 2]),
        ts[pos + 3] is Comma,
        is_operand(ts[pos + 4]),
        ts[pos + 5] is Comma,
        is_operand(ts[pos + 6]),
        ts[pos + 7] is ParenthesisClose,
    ensures
        spec_fn_call(ts, pos) == (Parsed::Built {
            node: NodeView::composite(
                "fn call"@,
                seq![
                    NodeView::leaf(ts[pos]),
                    NodeView::composite(
                        "fn call exp list"@,
                        seq![
                            NodeView::composite("exp"@, seq![NodeView::leaf(ts[pos + 2])]),
                            NodeView::composite("exp"@, seq![NodeView::leaf(ts[pos + 4])]),
                            NodeView::composite("exp"@, seq![NodeView::leaf(ts[pos + 6])]),
                        ],
                    ),
                ],
            ),
            next: pos + 8,
        }),
{
    reveal(spec_fn_call);
    reveal(spec_arg_exp_list);
    reveal(arg_exps_from);
    reveal(spec_stmt_exp);
    let a = NodeView::composite("exp"@, seq![NodeView::leaf(ts[pos + 2])]);
    let b = NodeView::composite("exp"@, seq![NodeView::leaf(ts[pos + 4])]);
    let c = NodeView::composite("exp"@, seq![NodeView::leaf(ts[pos + 6])]);
    let s0 = Seq::<NodeView>::empty();
    lemma_single_operand(ts, pos + 2);
    lemma_single_operand(ts, pos + 4);
    lemma_single_operand(ts, pos + 6);
    assert(s0.push(a) =~= seq![a]);
    assert(arg_exps_from(ts, pos + 2, s0) == arg_exps_from(ts, pos + 3, seq![a]));
    assert(arg_exps_from(ts, pos + 3, seq![a]) == arg_exps_from(ts, pos + 4, seq![a]));
    assert(seq![a].push(b) =~= seq![a, b]);
    assert(arg_exps_from(ts, pos + 4, seq![a]) == arg_exps_from(ts, pos + 5, seq![a, b]));
    assert(arg_exps_from(ts, pos + 5, seq![a, b]) == arg_exps_from(ts, pos + 6, seq![a, b]));
    assert(seq![a, b].push(c) =~= seq![a, b, c]);
    assert(arg_exps_from(ts, pos + 6, seq![a, b]) == arg_exps_from(ts, pos + 7, seq![a, b, c]));
}

/// One operand before the end of an expression is an expression of that one
/// leaf.
proof fn lemma_single_operand(ts: Seq<TokenView>, pos: int)
    requires
        0 <= pos,
        pos + 1 < ts.len(),
        is_operand(ts[pos]),
        ends_exp(ts[pos + 1]),
    ensures
        spec_stmt_exp(ts, pos) == (Parsed::Built {
            node: NodeView::composite("exp"@, seq![NodeView::leaf(ts[pos])]),
            next: pos + 1,
        }),
{
    reveal(spec_stmt_exp);
    reveal(exp_from);
    let a = NodeView::leaf(ts[pos]);
    assert(merge(Seq::<NodeView>::empty().push(a)) =~= seq![a]);
    assert(exp_from(ts, pos, Seq::empty()) == exp_from(ts, pos + 1, seq![a]));
    assert(seq![a].reverse() =~= seq![a]);
}

/// Whether `node` is a leaf that carries a variable name.
pub open spec fn is_variable_leaf(node: NodeView) -> bool {
    node.children.len() == 0 && (node.token matches Some(t) && t is VariableName)
}

/// Whether `node` is a parameter list: an `arg list` node whose children are
/// leaves that carry variable names.
pub open spec fn is_param_list(node: NodeView) -> bool {
    &&& node.name == "arg list"@
    &&& node.token is None
    &&& forall|i: int|
        0 <= i < node.children.len() ==> is_variable_leaf(#[trigger] node.children[i])
}

/// A function definition is a `fn` node with four children, in this order:
/// the keyword as a leaf, the name as a leaf, the parameter list, and the
/// body, which is a code block.
pub proof fn lemma_fn_definition_shape(ts: Seq<TokenView>, pos: int)
    ensures
        spec_stmt_fn(ts, pos) matches Parsed::Built { node, .. } ==> {
            &&& node.name == "fn"@
            &&& node.token is None
            &&& node.children.len() == 4
            &&& node.children[0] == NodeView::leaf(TokenView::Keyword(Keyword::Function))
            &&& node.children[1] == NodeView::leaf(tok(ts, pos + 1))
            &&& tok(ts, pos + 1) is FunctionName
            &&& is_param_list(node.children[2])
            &&& node.children[3].name == "code block"@
        },
{
    reveal(spec_stmt_fn);
    reveal(spec_code_block);
    reveal(stmts_from);
    if let Parsed::Built { node: params, next } = spec_arg_list(ts, pos + 2) {
        lemma_params_are_variables(ts, pos + 3, Seq::empty());
        lemma_stmts_make_a_block(ts, next + 1, Seq::empty());
    }
}

proof fn lemma_params_are_variables(ts: Seq<TokenView>, pos: int, acc: Seq<NodeView>)
    requires
        forall|i: int| 0 <= i < acc.len() ==> is_variable_leaf(#[trigger] acc[i]),
    ensures
        params_from(ts, pos, acc) matches Parsed::Built { node, .. } ==> is_param_list(node),
    decreases ts.len() - pos,
{
    reveal(params_from);
    let t = tok(ts, pos);
    if t is VariableName {
        lemma_params_are_variables(ts, pos + 1, acc.push(NodeView::leaf(t)));
    } else if t is Comma {
        lemma_params_are_variables(ts, pos + 1, acc);
    }
}

proof fn lemma_stmts_make_a_block(ts: Seq<TokenView>, pos: int, acc: Seq<NodeView>)
    ensures
        stmts_from(ts, pos, acc) matches Parsed::Built { node, .. } ==> node.name
            == "code block"@,
    decreases ts.len() - pos,
{
    reveal(stmts_from);
    reveal(spec_stmt);
    let t = tok(ts, pos);
    if !(t is Eof || t is BlockClose) {
        if let Parsed::Built { node, next } = spec_stmt(ts, pos) {
            if advances(ts, pos, next) {
                lemma_stmts_make_a_block(ts, next, acc.push(node));
            }
        }
    }
}

} // verus!
