//! The unrolling pass: eligibility of a loop, the shape of its unrolled
//! replacement, and the recursive traversal that applies it.
//!
//! The whole pass is specified by the spec functions `transform_block_s`,
//! `transform_stmt_s` and `transform_expr_s` over the ghost trees; the exec
//! functions return exactly those values. A loop is eligible when its binding
//! is a plain identifier (not by-reference, not mutable, no subpattern) and
//! its source is a range whose present bounds are literal integers with the
//! upper bound present. The replacement for an eligible loop is a block of
//! one iteration block per value of the range, each iteration block holding a
//! constant binding of the loop variable followed by an independent copy of
//! the (already transformed) loop body.

use vstd::prelude::*;

use crate::ast::{Block, Statement, Expression, ForLoop, IfExpr, IfLetExpr, ConstBinding, Pattern,
    BlockV, StmtV, ExprV, PatV, pat_view, expr_view, opt_expr_view, stmt_view, block_view,
    lemma_stmts_view, lemma_block_view, lemma_expr_view_int};

verus! {

/// An unrollable binding: a plain identifier, not by reference, not mutable,
/// without a subpattern.
pub open spec fn eligible_pattern(p: PatV) -> bool {
    p matches PatV::Simple { by_reference: false, mutable: false, has_subpattern: false, .. }
}

/// The bound identifier of a simple binding.
pub open spec fn pattern_name(p: PatV) -> u64
    recommends
        p is Simple,
{
    match p {
        PatV::Simple { name, .. } => name,
        PatV::Other(h) => h,
    }
}

/// An unrollable loop source: a range whose upper bound is a present literal
/// integer and whose lower bound, if present, is a literal integer.
pub open spec fn eligible_source(src: ExprV) -> bool {
    &&& src matches ExprV::Range { lower, upper, .. }
    &&& upper matches Some(u)
    &&& *u matches ExprV::IntLiteral(_)
    &&& (lower matches Some(l) ==> *l matches ExprV::IntLiteral(_))
}

/// The first value of the range: its literal lower bound, or `0` when the
/// lower bound is absent.
pub open spec fn source_begin(src: ExprV) -> u64 {
    match src {
        ExprV::Range { lower: Some(l), .. } => match *l {
            ExprV::IntLiteral(v) => v,
            _ => 0,
        },
        _ => 0,
    }
}

/// One past the last value of the range: the literal upper bound, plus one
/// when the range is inclusive.
pub open spec fn source_end(src: ExprV) -> int {
    match src {
        ExprV::Range { upper: Some(u), inclusive, .. } => match *u {
            ExprV::IntLiteral(v) => v + if inclusive {
                1int
            } else {
                0int
            },
            _ => 0,
        },
        _ => 0,
    }
}

/// How many iterations the loop makes: `max(0, end - begin)`.
pub open spec fn unroll_count(src: ExprV) -> nat {
    if source_end(src) > source_begin(src) {
        (source_end(src) - source_begin(src)) as nat
    } else {
        0
    }
}

/// One unrolled iteration: a block holding a constant binding of the loop
/// variable to this iteration's value, followed by the loop body's
/// statements, standing as a tail statement.
pub open spec fn iteration_stmt(name: u64, value: u64, body: BlockV) -> StmtV {
    StmtV::Tail(
        ExprV::Block(
            BlockV {
                stmts: seq![StmtV::Terminated(ExprV::ConstBinding { name, value })] + body.stmts,
            },
        ),
    )
}

/// The whole replacement for an eligible loop: one iteration block per value
/// of the range, in ascending order.
pub open spec fn unrolled_block(name: u64, src: ExprV, body: BlockV) -> BlockV {
    BlockV {
        stmts: Seq::new(
            unroll_count(src),
            |k: int| iteration_stmt(name, (source_begin(src) + k) as u64, body),
        ),
    }
}

/// What the pass does to one expression.
pub open spec fn transform_expr_s(e: ExprV) -> ExprV
    decreases e, 2int, 0int,
{
    match e {
        ExprV::ForLoop { pattern, source, body } => {
            let new_body = transform_block_s(body);
            if eligible_pattern(pattern) && eligible_source(*source) {
                ExprV::Block(unrolled_block(pattern_name(pattern), *source, new_body))
            } else {
                ExprV::ForLoop { pattern, source, body: new_body }
            }
        },
        ExprV::If { condition, then_branch, else_branch } => ExprV::If {
            condition: Box::new(transform_expr_s(*condition)),
            then_branch: transform_block_s(then_branch),
            else_branch: transform_opt_s(else_branch),
        },
        ExprV::IfLet { pattern, scrutinee, then_branch, else_branch } => ExprV::IfLet {
            pattern,
            scrutinee: Box::new(transform_expr_s(*scrutinee)),
            then_branch: transform_block_s(then_branch),
            else_branch: transform_opt_s(else_branch),
        },
        ExprV::Block(b) => ExprV::Block(transform_block_s(b)),
        _ => e,
    }
}

/// What the pass does to an optional else branch.
pub open spec fn transform_opt_s(oe: Option<Box<ExprV>>) -> Option<Box<ExprV>>
    decreases oe, 3int, 0int,
{
    match oe {
        Some(e) => Some(Box::new(transform_expr_s(*e))),
        None => None,
    }
}

/// What the pass does to one statement: the inner expression is transformed,
/// the tag is kept.
pub open spec fn transform_stmt_s(s: StmtV) -> StmtV
    decreases s, 3int, 0int,
{
    match s {
        StmtV::Tail(e) => StmtV::Tail(transform_expr_s(e)),
        StmtV::Terminated(e) => StmtV::Terminated(transform_expr_s(e)),
    }
}

/// What the pass does to the first `n` statements of a sequence.
pub open spec fn transform_stmts_s(ss: Seq<StmtV>, n: int) -> Seq<StmtV>
    decreases ss, 0int, n,
{
    if n <= 0 || ss.len() < n {
        Seq::empty()
    } else {
        transform_stmts_s(ss, n - 1).push(transform_stmt_s(ss[n - 1]))
    }
}

/// What the pass does to a block: every statement rewritten in place.
pub open spec fn transform_block_s(b: BlockV) -> BlockV
    decreases b, 1int, 0int,
{
    BlockV { stmts: transform_stmts_s(b.stmts, b.stmts.len() as int) }
}

/// What an eligible loop unrolls over: the bound name, the first value, the
/// literal upper bound, and whether the range includes it.
struct LoopPlan {
    name: u64,
    begin: u64,
    raw_end: u64,
    inclusive: bool,
}

/// Decides eligibility of a loop from its binding and its source, and reads
/// the bounds off an eligible one.
fn loop_plan(pattern: &Pattern, source: &Expression) -> (r: Option<LoopPlan>)
    ensures
        r is Some <==> eligible_pattern(pat_view(*pattern)) && eligible_source(expr_view(*source)),
        r matches Some(pl) ==> {
            &&& pl.name == pattern_name(pat_view(*pattern))
            &&& pl.begin == source_begin(expr_view(*source))
            &&& pl.raw_end + (if pl.inclusive {
                1int
            } else {
                0int
            }) == source_end(expr_view(*source))
        },
{
    let name: u64 = match pattern {
        Pattern::Simple { name, by_reference, mutable, has_subpattern } => {
            if *by_reference || *mutable || *has_subpattern {
                return None;
            }
            *name
        },
        Pattern::Other(_) => {
            return None;
        },
    };
    match source {
        Expression::Range(r) => {
            proof {
                // Connect the source's view to the views of its parts once;
                // eligibility and the bound readers below all match on these.
                assert(expr_view(*source) matches ExprV::Range { lower, upper, inclusive }
                    ==> lower == opt_expr_view(r.lower) && upper == opt_expr_view(r.upper)
                        && inclusive == r.inclusive);
            }
            let raw_end: u64 = match &r.upper {
                Some(u) => {
                    proof {
                        lemma_expr_view_int(*u);
                    }
                    match u {
                        Expression::IntLiteral(v) => *v,
                        _ => {
                            return None;
                        },
                    }
                },
                None => {
                    return None;
                },
            };
            let begin: u64 = match &r.lower {
                Some(l) => {
                    proof {
                        lemma_expr_view_int(*l);
                    }
                    match l {
                        Expression::IntLiteral(v) => *v,
                        _ => {
                            return None;
                        },
                    }
                },
                None => 0,
            };
            Some(LoopPlan { name, begin, raw_end, inclusive: r.inclusive })
        },
        _ => None,
    }
}

/// Applies the pass to a whole function body. The result is the tree that
/// `transform_block_s` describes: same statement count and order, each
/// statement rewritten in place, every eligible loop anywhere under a
/// transparent construct replaced by its unrolled block.
pub fn transform(body: &Block) -> (r: Block)
    ensures
        r@ == transform_block_s(body@),
{
    transform_block(body)
}

/// Applies the pass to every statement of a block, keeping count and order.
pub fn transform_block(b: &Block) -> (r: Block)
    ensures
        r@ == transform_block_s(b@),
    decreases b, 1int, 0int,
{
    let mut stmts: Vec<Statement> = Vec::new();
    let n = b.stmts.len();
    let mut i: usize = 0;
    while i < n
        invariant
            i <= n,
            n == b.stmts@.len(),
            stmts@.len() == i,
            forall|k: int|
                0 <= k < i ==> stmt_view(stmts@[k]) == transform_stmt_s(stmt_view(b.stmts@[k])),
        decreases n - i,
    {
        stmts.push(transform_statement(&b.stmts[i]));
        i += 1;
    }
    let r = Block { stmts };
    proof {
        lemma_stmts_view(r.stmts@, r.stmts@.len() as int);
        lemma_stmts_view(b.stmts@, b.stmts@.len() as int);
        lemma_transform_stmts(b@.stmts, b@.stmts.len() as int);
        assert(r@.stmts =~= transform_block_s(b@).stmts);
    }
    r
}

/// Applies the pass to one statement, keeping its tag.
pub fn transform_statement(s: &Statement) -> (r: Statement)
    ensures
        r@ == transform_stmt_s(s@),
    decreases s, 3int, 0int,
{
    match s {
        Statement::Tail(e) => Statement::Tail(transform_expression(e)),
        Statement::Terminated(e) => Statement::Terminated(transform_expression(e)),
    }
}

/// Applies the pass to an optional else branch.
fn transform_opt(oe: &Option<Expression>) -> (r: Option<Expression>)
    ensures
        opt_expr_view(r) == transform_opt_s(opt_expr_view(*oe)),
    decreases oe, 3int, 0int,
{
    match oe {
        Some(e) => Some(transform_expression(e)),
        None => None,
    }
}

/// Applies the pass to one expression: an eligible loop is unrolled, an
/// ineligible one keeps its shape with only its body transformed,
/// conditionals and nested blocks are walked, and every other expression is
/// returned unchanged.
pub fn transform_expression(e: &Expression) -> (r: Expression)
    ensures
        r@ == transform_expr_s(e@),
    decreases e, 2int, 0int,
{
    match e {
        Expression::ForLoop(fl) => {
            let new_body = transform_block(&fl.body);
            match loop_plan(&fl.pattern, &fl.source) {
                Some(plan) => unroll_loop(&plan, Ghost(expr_view(fl.source)), &new_body),
                None => Expression::ForLoop(
                    Box::new(
                        ForLoop {
                            pattern: fl.pattern,
                            source: fl.source.deep_copy(),
                            body: new_body,
                        },
                    ),
                ),
            }
        },
        Expression::If(ie) => Expression::If(
            Box::new(
                IfExpr {
                    condition: transform_expression(&ie.condition),
                    then_branch: transform_block(&ie.then_branch),
                    else_branch: transform_opt(&ie.else_branch),
                },
            ),
        ),
        Expression::IfLet(ie) => Expression::IfLet(
            Box::new(
                IfLetExpr {
                    pattern: ie.pattern,
                    scrutinee: transform_expression(&ie.scrutinee),
                    then_branch: transform_block(&ie.then_branch),
                    else_branch: transform_opt(&ie.else_branch),
                },
            ),
        ),
        Expression::Block(b) => Expression::Block(transform_block(b)),
        _ => e.deep_copy(),
    }
}

/// Builds the unrolled replacement for an eligible loop: one iteration block
/// per range value, in ascending order, each holding a constant binding of
/// the loop variable followed by an independent copy of the transformed body.
fn unroll_loop(plan: &LoopPlan, src: Ghost<ExprV>, new_body: &Block) -> (r: Expression)
    requires
        plan.begin == source_begin(src@),
        plan.raw_end + (if plan.inclusive {
            1int
        } else {
            0int
        }) == source_end(src@),
    ensures
        r@ == ExprV::Block(unrolled_block(plan.name, src@, new_body@)),
{
    let end: u128 = plan.raw_end as u128 + if plan.inclusive {
        1
    } else {
        0
    };
    let ghost count = unroll_count(src@);
    let mut stmts: Vec<Statement> = Vec::new();
    let mut i: u128 = plan.begin as u128;
    while i < end
        invariant
            plan.begin <= i,
            i == plan.begin + stmts@.len(),
            stmts@.len() <= count,
            end == source_end(src@),
            plan.begin == source_begin(src@),
            count == unroll_count(src@),
            forall|k: int|
                0 <= k < stmts@.len() ==> stmt_view(stmts@[k]) == iteration_stmt(
                    plan.name,
                    (plan.begin + k) as u64,
                    new_body@,
                ),
        decreases end - i,
    {
        let mut iter_stmts: Vec<Statement> = Vec::new();
        iter_stmts.push(
            Statement::Terminated(
                Expression::ConstBinding(ConstBinding { name: plan.name, value: i as u64 }),
            ),
        );
        let m = new_body.stmts.len();
        let mut j: usize = 0;
        while j < m
            invariant
                j <= m,
                m == new_body.stmts@.len(),
                iter_stmts@.len() == j + 1,
                stmt_view(iter_stmts@[0]) == StmtV::Terminated(
                    ExprV::ConstBinding { name: plan.name, value: i as u64 },
                ),
                i <= u64::MAX,
                forall|k: int|
                    0 <= k < j ==> stmt_view(iter_stmts@[k + 1]) == stmt_view(new_body.stmts@[k]),
            decreases m - j,
        {
            iter_stmts.push(new_body.stmts[j].deep_copy());
            j += 1;
        }
        let ib = Block { stmts: iter_stmts };
        proof {
            lemma_block_view(ib);
            lemma_block_view(*new_body);
            assert(block_view(ib).stmts =~= seq![
                StmtV::Terminated(ExprV::ConstBinding { name: plan.name, value: i as u64 }),
            ] + new_body@.stmts);
        }
        stmts.push(Statement::Tail(Expression::Block(ib)));
        i += 1;
    }
    let rb = Block { stmts };
    proof {
        lemma_block_view(rb);
        assert(rb@.stmts =~= unrolled_block(plan.name, src@, new_body@).stmts);
    }
    Expression::Block(rb)
}

/// The transformed statement sequence is pointwise: same length, each entry
/// the transform of the entry at the same position.
pub proof fn lemma_transform_stmts(ss: Seq<StmtV>, n: int)
    requires
        0 <= n <= ss.len(),
    ensures
        transform_stmts_s(ss, n).len() == n,
        forall|k: int| 0 <= k < n ==> transform_stmts_s(ss, n)[k] == transform_stmt_s(ss[k]),
    decreases n,
{
    if n > 0 {
        lemma_transform_stmts(ss, n - 1);
    }
}

} // verus!
