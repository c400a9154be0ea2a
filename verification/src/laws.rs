//! Proved laws of the unrolling pass, stated over the ghost trees.
//!
//! Each public proof function here is a statement about `transform_block_s` /
//! `transform_expr_s`, the functions that the exec pass provably computes:
//! what the pass does to a tree without eligible loops, how many iteration
//! blocks an eligible loop expands to and what each holds, what a
//! disqualified loop keeps, how the traversal walks conditionals and nested
//! blocks, and that a block's statement count, order and tags survive.

use vstd::prelude::*;

use crate::ast::{BlockV, StmtV, ExprV, PatV};
use crate::unroll::{eligible_pattern, eligible_source, pattern_name, source_begin, source_end,
    unroll_count, iteration_stmt, unrolled_block, transform_expr_s, transform_opt_s,
    transform_stmt_s, transform_stmts_s, transform_block_s, lemma_transform_stmts};

verus! {

/// Whether the traversal would unroll some loop in this expression: an
/// eligible loop at the top, or one anywhere the traversal looks — a loop
/// body, a condition or scrutinee, a then or else branch, a nested block.
/// Opaque expressions and loop sources are not looked into.
pub open spec fn has_eligible_loop_expr(e: ExprV) -> bool
    decreases e, 2int, 0int,
{
    match e {
        ExprV::ForLoop { pattern, source, body } => (eligible_pattern(pattern)
            && eligible_source(*source)) || has_eligible_loop_block(body),
        ExprV::If { condition, then_branch, else_branch } => has_eligible_loop_expr(*condition)
            || has_eligible_loop_block(then_branch)
            || has_eligible_loop_opt(else_branch),
        ExprV::IfLet { scrutinee, then_branch, else_branch, .. } => has_eligible_loop_expr(
            *scrutinee,
        ) || has_eligible_loop_block(then_branch) || has_eligible_loop_opt(else_branch),
        ExprV::Block(b) => has_eligible_loop_block(b),
        _ => false,
    }
}

/// Whether an optional else branch holds a loop the traversal would unroll.
pub open spec fn has_eligible_loop_opt(oe: Option<Box<ExprV>>) -> bool
    decreases oe, 3int, 0int,
{
    match oe {
        Some(e) => has_eligible_loop_expr(*e),
        None => false,
    }
}

/// Whether a statement holds a loop the traversal would unroll.
pub open spec fn has_eligible_loop_stmt(s: StmtV) -> bool
    decreases s, 3int, 0int,
{
    match s {
        StmtV::Tail(e) => has_eligible_loop_expr(e),
        StmtV::Terminated(e) => has_eligible_loop_expr(e),
    }
}

/// Whether one of the first `n` statements holds a loop the traversal would
/// unroll.
pub open spec fn has_eligible_loop_stmts(ss: Seq<StmtV>, n: int) -> bool
    decreases ss, 0int, n,
{
    if n <= 0 || ss.len() < n {
        false
    } else {
        has_eligible_loop_stmts(ss, n - 1) || has_eligible_loop_stmt(ss[n - 1])
    }
}

/// Whether a block holds a loop the traversal would unroll.
pub open spec fn has_eligible_loop_block(b: BlockV) -> bool
    decreases b, 1int, 0int,
{
    has_eligible_loop_stmts(b.stmts, b.stmts.len() as int)
}

/// On a block without eligible loops the pass is the identity.
pub proof fn lemma_ineligible_identity_block(b: BlockV)
    requires
        !has_eligible_loop_block(b),
    ensures
        transform_block_s(b) == b,
    decreases b, 1int, 0int,
{
    lemma_ineligible_identity_stmts(b.stmts, b.stmts.len() as int);
    assert(transform_block_s(b).stmts =~= b.stmts);
}

proof fn lemma_ineligible_identity_stmts(ss: Seq<StmtV>, n: int)
    requires
        0 <= n <= ss.len(),
        !has_eligible_loop_stmts(ss, n),
    ensures
        transform_stmts_s(ss, n) =~= ss.take(n),
    decreases ss, 0int, n,
{
    if n > 0 {
        lemma_ineligible_identity_stmts(ss, n - 1);
        lemma_ineligible_identity_stmt(ss[n - 1]);
        assert(transform_stmts_s(ss, n) =~= ss.take(n));
    }
}

proof fn lemma_ineligible_identity_stmt(s: StmtV)
    requires
        !has_eligible_loop_stmt(s),
    ensures
        transform_stmt_s(s) == s,
    decreases s, 3int, 0int,
{
    match s {
        StmtV::Tail(e) => lemma_ineligible_identity_expr(e),
        StmtV::Terminated(e) => lemma_ineligible_identity_expr(e),
    }
}

/// On an expression without eligible loops the pass is the identity.
pub proof fn lemma_ineligible_identity_expr(e: ExprV)
    requires
        !has_eligible_loop_expr(e),
    ensures
        transform_expr_s(e) == e,
    decreases e, 2int, 0int,
{
    match e {
        ExprV::ForLoop { pattern, source, body } => {
            lemma_ineligible_identity_block(body);
        },
        ExprV::If { condition, then_branch, else_branch } => {
            lemma_ineligible_identity_expr(*condition);
            lemma_ineligible_identity_block(then_branch);
            lemma_ineligible_identity_opt(else_branch);
        },
        ExprV::IfLet { scrutinee, then_branch, else_branch, .. } => {
            lemma_ineligible_identity_expr(*scrutinee);
            lemma_ineligible_identity_block(then_branch);
            lemma_ineligible_identity_opt(else_branch);
        },
        ExprV::Block(b) => {
            lemma_ineligible_identity_block(b);
        },
        _ => {},
    }
}

proof fn lemma_ineligible_identity_opt(oe: Option<Box<ExprV>>)
    requires
        !has_eligible_loop_opt(oe),
    ensures
        transform_opt_s(oe) == oe,
    decreases oe, 3int, 0int,
{
    match oe {
        Some(e) => lemma_ineligible_identity_expr(*e),
        None => {},
    }
}

/// Applying the pass twice to a block holding only ineligible loops gives
/// the same tree both times: on such a block the pass is the identity, so a
/// second application changes nothing.
pub proof fn lemma_ineligible_idempotent(b: BlockV)
    requires
        !has_eligible_loop_block(b),
    ensures
        transform_block_s(b) == b,
        transform_block_s(transform_block_s(b)) == transform_block_s(b),
{
    lemma_ineligible_identity_block(b);
}

/// A statement prefix holds an eligible loop exactly when one of its
/// statements does.
proof fn lemma_has_stmts_pointwise(ss: Seq<StmtV>, n: int)
    requires
        0 <= n <= ss.len(),
    ensures
        has_eligible_loop_stmts(ss, n) <==> exists|k: int|
            0 <= k < n && #[trigger] has_eligible_loop_stmt(ss[k]),
    decreases n,
{
    if n > 0 {
        lemma_has_stmts_pointwise(ss, n - 1);
        if has_eligible_loop_stmt(ss[n - 1]) {
            assert(0 <= n - 1 < n && has_eligible_loop_stmt(ss[n - 1]));
        }
    }
}

/// After the pass, a block holds no eligible loop anywhere the traversal
/// looks: every eligible loop was replaced, and a left-over loop is one the
/// pass already found disqualified.
pub proof fn lemma_transform_removes_eligible_block(b: BlockV)
    ensures
        !has_eligible_loop_block(transform_block_s(b)),
    decreases b, 1int, 0int,
{
    let tb = transform_block_s(b);
    lemma_transform_stmts(b.stmts, b.stmts.len() as int);
    lemma_has_stmts_pointwise(tb.stmts, tb.stmts.len() as int);
    assert forall|k: int| 0 <= k < tb.stmts.len() implies !has_eligible_loop_stmt(
        tb.stmts[k],
    ) by {
        lemma_transform_removes_eligible_stmt(b.stmts[k]);
    }
}

proof fn lemma_transform_removes_eligible_stmt(s: StmtV)
    ensures
        !has_eligible_loop_stmt(transform_stmt_s(s)),
    decreases s, 3int, 0int,
{
    match s {
        StmtV::Tail(e) => lemma_transform_removes_eligible_expr(e),
        StmtV::Terminated(e) => lemma_transform_removes_eligible_expr(e),
    }
}

/// After the pass, an expression holds no eligible loop anywhere the
/// traversal looks.
pub proof fn lemma_transform_removes_eligible_expr(e: ExprV)
    ensures
        !has_eligible_loop_expr(transform_expr_s(e)),
    decreases e, 2int, 0int,
{
    match e {
        ExprV::ForLoop { pattern, source, body } => {
            lemma_transform_removes_eligible_block(body);
            let nb = transform_block_s(body);
            if eligible_pattern(pattern) && eligible_source(*source) {
                let ub = unrolled_block(pattern_name(pattern), *source, nb);
                lemma_has_stmts_pointwise(nb.stmts, nb.stmts.len() as int);
                assert forall|k: int| 0 <= k < ub.stmts.len() implies !has_eligible_loop_stmt(
                    ub.stmts[k],
                ) by {
                    let ib = BlockV {
                        stmts: seq![
                            StmtV::Terminated(
                                ExprV::ConstBinding {
                                    name: pattern_name(pattern),
                                    value: (source_begin(*source) + k) as u64,
                                },
                            ),
                        ] + nb.stmts,
                    };
                    assert(ub.stmts[k] == StmtV::Tail(ExprV::Block(ib)));
                    lemma_has_stmts_pointwise(ib.stmts, ib.stmts.len() as int);
                    assert forall|j: int| 0 <= j < ib.stmts.len() implies !has_eligible_loop_stmt(
                        ib.stmts[j],
                    ) by {
                        if j > 0 {
                            assert(ib.stmts[j] == nb.stmts[j - 1]);
                        }
                    }
                }
                lemma_has_stmts_pointwise(ub.stmts, ub.stmts.len() as int);
                assert(transform_expr_s(e) == ExprV::Block(ub));
                assert(!has_eligible_loop_block(ub));
            } else {
                assert(transform_expr_s(e) == (ExprV::ForLoop { pattern, source, body: nb }));
            }
        },
        ExprV::If { condition, then_branch, else_branch } => {
            lemma_transform_removes_eligible_expr(*condition);
            lemma_transform_removes_eligible_block(then_branch);
            lemma_transform_removes_eligible_opt(else_branch);
        },
        ExprV::IfLet { scrutinee, then_branch, else_branch, .. } => {
            lemma_transform_removes_eligible_expr(*scrutinee);
            lemma_transform_removes_eligible_block(then_branch);
            lemma_transform_removes_eligible_opt(else_branch);
        },
        ExprV::Block(b) => {
            lemma_transform_removes_eligible_block(b);
        },
        _ => {},
    }
}

proof fn lemma_transform_removes_eligible_opt(oe: Option<Box<ExprV>>)
    ensures
        !has_eligible_loop_opt(transform_opt_s(oe)),
    decreases oe, 3int, 0int,
{
    match oe {
        Some(e) => lemma_transform_removes_eligible_expr(*e),
        None => {},
    }
}

/// The pass is idempotent on every tree, eligible loops or not: its output
/// holds no eligible loop, and on such a tree it is the identity.
pub proof fn lemma_transform_idempotent(b: BlockV)
    ensures
        transform_block_s(transform_block_s(b)) == transform_block_s(b),
{
    lemma_transform_removes_eligible_block(b);
    lemma_ineligible_identity_block(transform_block_s(b));
}

/// The statement count of a block, the order of its statements and each
/// statement's tag survive the pass: position `i` of the output is the
/// transform of position `i` of the input and nothing else.
pub proof fn lemma_order_preservation(b: BlockV)
    ensures
        transform_block_s(b).stmts.len() == b.stmts.len(),
        forall|i: int|
            0 <= i < b.stmts.len() ==> transform_block_s(b).stmts[i] == transform_stmt_s(
                b.stmts[i],
            ),
        forall|i: int|
            0 <= i < b.stmts.len() ==> (b.stmts[i] is Tail <==> transform_block_s(b).stmts[i]
                is Tail),
{
    lemma_transform_stmts(b.stmts, b.stmts.len() as int);
    assert forall|i: int| 0 <= i < b.stmts.len() implies (b.stmts[i] is Tail <==> transform_block_s(
        b,
    ).stmts[i] is Tail) by {
        match b.stmts[i] {
            StmtV::Tail(e) => {},
            StmtV::Terminated(e) => {},
        }
    }
}

/// An eligible range `lo..hi` (or `lo..=hi`) has begin `lo` and makes
/// `max(0, hi - lo)` iterations (or `max(0, hi + 1 - lo)` when inclusive).
/// In particular `lo..hi` with `lo == hi` makes zero iterations.
pub proof fn lemma_range_bounds(lo: u64, hi: u64, inclusive: bool)
    ensures
        ({
            let src = ExprV::Range {
                lower: Some(Box::new(ExprV::IntLiteral(lo))),
                upper: Some(Box::new(ExprV::IntLiteral(hi))),
                inclusive,
            };
            &&& eligible_source(src)
            &&& source_begin(src) == lo
            &&& source_end(src) == hi + (if inclusive {
                1int
            } else {
                0int
            })
            &&& unroll_count(src) == (if source_end(src) > lo {
                source_end(src) - lo
            } else {
                0int
            })
        }),
{
}

/// An eligible range without a lower bound starts at zero: `..hi` makes
/// `hi` iterations (`hi + 1` when inclusive), binding from `0` upward.
pub proof fn lemma_range_bounds_no_lower(hi: u64, inclusive: bool)
    ensures
        ({
            let src = ExprV::Range {
                lower: None,
                upper: Some(Box::new(ExprV::IntLiteral(hi))),
                inclusive,
            };
            &&& eligible_source(src)
            &&& source_begin(src) == 0
            &&& source_end(src) == hi + (if inclusive {
                1int
            } else {
                0int
            })
            &&& unroll_count(src) == source_end(src)
        }),
{
}

/// What an eligible loop becomes: a block of exactly `unroll_count(source)`
/// statements — `max(0, end - begin)` of them — whose `k`-th statement is the
/// `k`-th iteration block over the transformed body, in ascending order.
pub proof fn lemma_unrolled_shape(pattern: PatV, source: ExprV, body: BlockV)
    requires
        eligible_pattern(pattern),
        eligible_source(source),
    ensures
        ({
            let e = transform_expr_s(ExprV::ForLoop { pattern, source: Box::new(source), body });
            let nb = transform_block_s(body);
            let cnt = unroll_count(source) as int;
            &&& cnt == (if source_end(source) > source_begin(source) {
                source_end(source) - source_begin(source)
            } else {
                0int
            })
            &&& e matches ExprV::Block(rb)
            &&& rb.stmts.len() == cnt
            &&& forall|k: int|
                0 <= k < cnt ==> rb.stmts[k] == iteration_stmt(
                    pattern_name(pattern),
                    (source_begin(source) + k) as u64,
                    nb,
                )
        }),
{
}

/// What one iteration block holds: a tail statement whose block binds the
/// loop variable to this iteration's value in its first statement and then
/// repeats the body's statements unchanged and in order. For the `k`-th
/// iteration block of `lemma_unrolled_shape` the bound value is
/// `source_begin(source) + k`.
pub proof fn lemma_iteration_stmt(name: u64, value: u64, body: BlockV)
    ensures
        ({
            let s = iteration_stmt(name, value, body);
            &&& s matches StmtV::Tail(e)
            &&& e matches ExprV::Block(ib)
            &&& ib.stmts.len() == body.stmts.len() + 1
            &&& ib.stmts[0] == StmtV::Terminated(ExprV::ConstBinding { name, value })
            &&& forall|j: int| 0 <= j < body.stmts.len() ==> ib.stmts[j + 1] == body.stmts[j]
        }),
{
}

/// A disqualified loop — whatever the disqualifier: a by-reference, mutable
/// or subpattern binding, a non-simple pattern, a non-range source, a missing
/// or non-literal upper bound, a non-literal lower bound — keeps its shape:
/// same pattern, same source, only its body transformed.
pub proof fn lemma_disqualified_loop(pattern: PatV, source: ExprV, body: BlockV)
    requires
        !eligible_pattern(pattern) || !eligible_source(source),
    ensures
        transform_expr_s(ExprV::ForLoop { pattern, source: Box::new(source), body }) == (ExprV::ForLoop {
            pattern,
            source: Box::new(source),
            body: transform_block_s(body),
        }),
{
}

/// The pass walks a conditional: condition, then branch and else branch are
/// each transformed exactly as they would be at top level, so a loop in any
/// of them unrolls as if it stood alone; an else-if chain is walked by the
/// recursion into the else expression.
pub proof fn lemma_if_recursion(condition: ExprV, then_branch: BlockV, else_branch: Option<Box<ExprV>>)
    ensures
        transform_expr_s(
            ExprV::If { condition: Box::new(condition), then_branch, else_branch },
        ) == (ExprV::If {
            condition: Box::new(transform_expr_s(condition)),
            then_branch: transform_block_s(then_branch),
            else_branch: transform_opt_s(else_branch),
        }),
{
}

/// The pass walks a pattern-match conditional the same way, leaving its
/// pattern alone.
pub proof fn lemma_if_let_recursion(
    pattern: PatV,
    scrutinee: ExprV,
    then_branch: BlockV,
    else_branch: Option<Box<ExprV>>,
)
    ensures
        transform_expr_s(
            ExprV::IfLet { pattern, scrutinee: Box::new(scrutinee), then_branch, else_branch },
        ) == (ExprV::IfLet {
            pattern,
            scrutinee: Box::new(transform_expr_s(scrutinee)),
            then_branch: transform_block_s(then_branch),
            else_branch: transform_opt_s(else_branch),
        }),
{
}

/// The pass walks a nested block as it walks a body.
pub proof fn lemma_block_recursion(b: BlockV)
    ensures
        transform_expr_s(ExprV::Block(b)) == ExprV::Block(transform_block_s(b)),
{
}

/// Every other expression kind — opaque expressions above all, and with them
/// ranges, literals and constant bindings — passes through untouched: the
/// pass never looks inside it, so a loop nested in an opaque expression is
/// left completely alone, body included.
pub proof fn lemma_opaque_untouched(e: ExprV)
    requires
        !(e is ForLoop),
        !(e is If),
        !(e is IfLet),
        !(e is Block),
    ensures
        transform_expr_s(e) == e,
{
}

} // verus!
