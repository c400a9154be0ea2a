use unroll::ast::{Block, Statement, Expression, ForLoop, IfExpr, IfLetExpr, RangeExpr,
    ConstBinding, Pattern};
use unroll::unroll::{transform, transform_block, transform_expression, transform_statement};

fn lit(v: u64) -> Expression {
    Expression::IntLiteral(v)
}

fn range(lower: Option<Expression>, upper: Option<Expression>, inclusive: bool) -> Expression {
    Expression::Range(Box::new(RangeExpr { lower, upper, inclusive }))
}

fn lit_range(lo: u64, hi: u64, inclusive: bool) -> Expression {
    range(Some(lit(lo)), Some(lit(hi)), inclusive)
}

fn simple_pat(name: u64) -> Pattern {
    Pattern::Simple { name, by_reference: false, mutable: false, has_subpattern: false }
}

fn for_loop(pattern: Pattern, source: Expression, body: Vec<Statement>) -> Expression {
    Expression::ForLoop(Box::new(ForLoop { pattern, source, body: Block { stmts: body } }))
}

fn opaque_stmt(h: u64) -> Statement {
    Statement::Terminated(Expression::Opaque(h))
}

fn const_stmt(name: u64, value: u64) -> Statement {
    Statement::Terminated(Expression::ConstBinding(ConstBinding { name, value }))
}

/// One expected iteration block: `{ const name = value; body... }` as a tail
/// statement.
fn iteration(name: u64, value: u64, body: Vec<Statement>) -> Statement {
    let mut stmts = vec![const_stmt(name, value)];
    stmts.extend(body);
    Statement::Tail(Expression::Block(Block { stmts }))
}

const J: u64 = 1;
const I: u64 = 2;
const SUM: u64 = 100;

#[test]
fn unrolls_exclusive_range_zero_to_three() {
    // for j in 0..3 { sum += j; }
    let input = Block {
        stmts: vec![Statement::Tail(for_loop(simple_pat(J), lit_range(0, 3, false), vec![
            opaque_stmt(SUM),
        ]))],
    };
    let expected = Block {
        stmts: vec![Statement::Tail(Expression::Block(Block {
            stmts: vec![
                iteration(J, 0, vec![opaque_stmt(SUM)]),
                iteration(J, 1, vec![opaque_stmt(SUM)]),
                iteration(J, 2, vec![opaque_stmt(SUM)]),
            ],
        }))],
    };
    assert_eq!(transform(&input), expected);
}

#[test]
fn unrolls_inclusive_single_iteration() {
    // for j in 2..=2 { x(j); }
    let input = Block {
        stmts: vec![Statement::Tail(for_loop(simple_pat(J), lit_range(2, 2, true), vec![
            opaque_stmt(SUM),
        ]))],
    };
    let expected = Block {
        stmts: vec![Statement::Tail(Expression::Block(Block {
            stmts: vec![iteration(J, 2, vec![opaque_stmt(SUM)])],
        }))],
    };
    assert_eq!(transform(&input), expected);
}

#[test]
fn by_reference_binding_left_intact() {
    // for ref j in 0..5 { inner eligible loop } — the loop keeps its shape,
    // bound unchanged, only the body is processed.
    let by_ref = Pattern::Simple { name: J, by_reference: true, mutable: false, has_subpattern: false };
    let inner = Statement::Tail(for_loop(simple_pat(I), lit_range(0, 1, false), vec![
        opaque_stmt(SUM),
    ]));
    let input = for_loop(by_ref, lit_range(0, 5, false), vec![inner]);
    let expected_inner = Statement::Tail(Expression::Block(Block {
        stmts: vec![iteration(I, 0, vec![opaque_stmt(SUM)])],
    }));
    let expected = for_loop(by_ref, lit_range(0, 5, false), vec![expected_inner]);
    assert_eq!(transform_expression(&input), expected);
}

#[test]
fn mutable_binding_left_intact() {
    let pat = Pattern::Simple { name: J, by_reference: false, mutable: true, has_subpattern: false };
    let input = for_loop(pat, lit_range(0, 3, false), vec![opaque_stmt(SUM)]);
    let expected = for_loop(pat, lit_range(0, 3, false), vec![opaque_stmt(SUM)]);
    assert_eq!(transform_expression(&input), expected);
}

#[test]
fn subpattern_binding_left_intact() {
    let pat = Pattern::Simple { name: J, by_reference: false, mutable: false, has_subpattern: true };
    let input = for_loop(pat, lit_range(0, 3, false), vec![opaque_stmt(SUM)]);
    let expected = for_loop(pat, lit_range(0, 3, false), vec![opaque_stmt(SUM)]);
    assert_eq!(transform_expression(&input), expected);
}

#[test]
fn structured_pattern_left_intact() {
    let pat = Pattern::Other(7);
    let input = for_loop(pat, lit_range(0, 3, false), vec![opaque_stmt(SUM)]);
    let expected = for_loop(pat, lit_range(0, 3, false), vec![opaque_stmt(SUM)]);
    assert_eq!(transform_expression(&input), expected);
}

#[test]
fn non_range_source_left_intact() {
    let input = for_loop(simple_pat(J), Expression::Opaque(9), vec![opaque_stmt(SUM)]);
    let expected = for_loop(simple_pat(J), Expression::Opaque(9), vec![opaque_stmt(SUM)]);
    assert_eq!(transform_expression(&input), expected);
}

#[test]
fn missing_upper_bound_left_intact() {
    let input = for_loop(simple_pat(J), range(Some(lit(0)), None, false), vec![opaque_stmt(SUM)]);
    let expected = for_loop(simple_pat(J), range(Some(lit(0)), None, false), vec![
        opaque_stmt(SUM),
    ]);
    assert_eq!(transform_expression(&input), expected);
}

#[test]
fn non_literal_upper_bound_left_intact() {
    let src = range(Some(lit(0)), Some(Expression::Opaque(9)), false);
    let src2 = range(Some(lit(0)), Some(Expression::Opaque(9)), false);
    let input = for_loop(simple_pat(J), src, vec![opaque_stmt(SUM)]);
    let expected = for_loop(simple_pat(J), src2, vec![opaque_stmt(SUM)]);
    assert_eq!(transform_expression(&input), expected);
}

#[test]
fn non_literal_lower_bound_left_intact() {
    let src = range(Some(Expression::Opaque(9)), Some(lit(3)), false);
    let src2 = range(Some(Expression::Opaque(9)), Some(lit(3)), false);
    let input = for_loop(simple_pat(J), src, vec![opaque_stmt(SUM)]);
    let expected = for_loop(simple_pat(J), src2, vec![opaque_stmt(SUM)]);
    assert_eq!(transform_expression(&input), expected);
}

#[test]
fn empty_exclusive_range_gives_empty_block() {
    // for j in 5..5 { ... } unrolls to zero iterations, not an error.
    let input = for_loop(simple_pat(J), lit_range(5, 5, false), vec![opaque_stmt(SUM)]);
    let expected = Expression::Block(Block { stmts: vec![] });
    assert_eq!(transform_expression(&input), expected);
}

#[test]
fn descending_range_gives_empty_block() {
    let input = for_loop(simple_pat(J), lit_range(3, 1, false), vec![opaque_stmt(SUM)]);
    let expected = Expression::Block(Block { stmts: vec![] });
    assert_eq!(transform_expression(&input), expected);
}

#[test]
fn missing_lower_bound_starts_at_zero() {
    // for j in ..2 { ... } binds 0 then 1.
    let input = for_loop(simple_pat(J), range(None, Some(lit(2)), false), vec![opaque_stmt(SUM)]);
    let expected = Expression::Block(Block {
        stmts: vec![
            iteration(J, 0, vec![opaque_stmt(SUM)]),
            iteration(J, 1, vec![opaque_stmt(SUM)]),
        ],
    });
    assert_eq!(transform_expression(&input), expected);
}

#[test]
fn inclusive_range_reaching_largest_value() {
    // An inclusive upper bound of u64::MAX must not overflow the bound
    // arithmetic: two iterations, binding MAX-1 then MAX.
    let input = for_loop(simple_pat(J), lit_range(u64::MAX - 1, u64::MAX, true), vec![
        opaque_stmt(SUM),
    ]);
    let expected = Expression::Block(Block {
        stmts: vec![
            iteration(J, u64::MAX - 1, vec![opaque_stmt(SUM)]),
            iteration(J, u64::MAX, vec![opaque_stmt(SUM)]),
        ],
    });
    assert_eq!(transform_expression(&input), expected);
}

#[test]
fn binding_values_ascend_from_lower_bound() {
    // for j in 4..7: the k-th iteration block binds 4 + k.
    let input = for_loop(simple_pat(J), lit_range(4, 7, false), vec![]);
    let expected = Expression::Block(Block {
        stmts: vec![iteration(J, 4, vec![]), iteration(J, 5, vec![]), iteration(J, 6, vec![])],
    });
    assert_eq!(transform_expression(&input), expected);
}

#[test]
fn unrolls_inside_if_branches_and_chain() {
    // if c { for.. } else if c2 { for.. } else { for.. }
    let looped = |h: u64| {
        Statement::Tail(for_loop(simple_pat(J), lit_range(0, 1, false), vec![opaque_stmt(h)]))
    };
    let unrolled = |h: u64| {
        Statement::Tail(Expression::Block(Block {
            stmts: vec![iteration(J, 0, vec![opaque_stmt(h)])],
        }))
    };
    let input = Expression::If(Box::new(IfExpr {
        condition: Expression::Opaque(50),
        then_branch: Block { stmts: vec![looped(60)] },
        else_branch: Some(Expression::If(Box::new(IfExpr {
            condition: Expression::Opaque(51),
            then_branch: Block { stmts: vec![looped(61)] },
            else_branch: Some(Expression::Block(Block { stmts: vec![looped(62)] })),
        }))),
    }));
    let expected = Expression::If(Box::new(IfExpr {
        condition: Expression::Opaque(50),
        then_branch: Block { stmts: vec![unrolled(60)] },
        else_branch: Some(Expression::If(Box::new(IfExpr {
            condition: Expression::Opaque(51),
            then_branch: Block { stmts: vec![unrolled(61)] },
            else_branch: Some(Expression::Block(Block { stmts: vec![unrolled(62)] })),
        }))),
    }));
    assert_eq!(transform_expression(&input), expected);
}

#[test]
fn unrolls_inside_pattern_match_conditional() {
    let looped = Statement::Tail(for_loop(simple_pat(J), lit_range(0, 1, false), vec![
        opaque_stmt(SUM),
    ]));
    let unrolled = Statement::Tail(Expression::Block(Block {
        stmts: vec![iteration(J, 0, vec![opaque_stmt(SUM)])],
    }));
    let input = Expression::IfLet(Box::new(IfLetExpr {
        pattern: Pattern::Other(8),
        scrutinee: Expression::Opaque(50),
        then_branch: Block { stmts: vec![looped] },
        else_branch: None,
    }));
    let expected = Expression::IfLet(Box::new(IfLetExpr {
        pattern: Pattern::Other(8),
        scrutinee: Expression::Opaque(50),
        then_branch: Block { stmts: vec![unrolled] },
        else_branch: None,
    }));
    assert_eq!(transform_expression(&input), expected);
}

#[test]
fn unrolls_inside_nested_block() {
    let looped = Statement::Tail(for_loop(simple_pat(J), lit_range(0, 1, false), vec![
        opaque_stmt(SUM),
    ]));
    let unrolled = Statement::Tail(Expression::Block(Block {
        stmts: vec![iteration(J, 0, vec![opaque_stmt(SUM)])],
    }));
    let input = Expression::Block(Block { stmts: vec![looped] });
    let expected = Expression::Block(Block { stmts: vec![unrolled] });
    assert_eq!(transform_expression(&input), expected);
}

#[test]
fn opaque_expression_left_completely_untouched() {
    // A loop buried in an opaque expression (a closure, a match arm) is the
    // ingestor's business: the pass carries the handle through unchanged.
    let input = Statement::Terminated(Expression::Opaque(77));
    assert_eq!(transform_statement(&input), Statement::Terminated(Expression::Opaque(77)));
}

#[test]
fn unrolls_nested_loops_inside_out() {
    // for i in 0..2 { for j in 0..1 { op; } }
    let inner = Statement::Tail(for_loop(simple_pat(J), lit_range(0, 1, false), vec![
        opaque_stmt(SUM),
    ]));
    let input = for_loop(simple_pat(I), lit_range(0, 2, false), vec![inner]);
    let inner_unrolled = || {
        Statement::Tail(Expression::Block(Block {
            stmts: vec![iteration(J, 0, vec![opaque_stmt(SUM)])],
        }))
    };
    let expected = Expression::Block(Block {
        stmts: vec![
            iteration(I, 0, vec![inner_unrolled()]),
            iteration(I, 1, vec![inner_unrolled()]),
        ],
    });
    assert_eq!(transform_expression(&input), expected);
}

#[test]
fn statement_order_and_tags_preserved() {
    let input = Block {
        stmts: vec![
            opaque_stmt(10),
            Statement::Terminated(for_loop(simple_pat(J), lit_range(0, 1, false), vec![
                opaque_stmt(SUM),
            ])),
            Statement::Tail(Expression::Opaque(11)),
        ],
    };
    let out = transform_block(&input);
    assert_eq!(out.stmts.len(), 3);
    assert_eq!(out.stmts[0], opaque_stmt(10));
    // The replacement keeps the terminated tag of the loop statement.
    assert!(matches!(out.stmts[1], Statement::Terminated(Expression::Block(_))));
    assert_eq!(out.stmts[2], Statement::Tail(Expression::Opaque(11)));
}

#[test]
fn ineligible_only_body_is_a_fixed_point() {
    let build = || {
        Block {
            stmts: vec![
                opaque_stmt(10),
                Statement::Tail(for_loop(
                    Pattern::Other(7),
                    lit_range(0, 3, false),
                    vec![opaque_stmt(SUM)],
                )),
            ],
        }
    };
    let once = transform(&build());
    assert_eq!(once, build());
    let twice = transform(&once);
    assert_eq!(twice, once);
}

#[test]
fn empty_body_still_unrolls_with_only_bindings() {
    let input = for_loop(simple_pat(J), lit_range(0, 2, false), vec![]);
    let expected = Expression::Block(Block {
        stmts: vec![iteration(J, 0, vec![]), iteration(J, 1, vec![])],
    });
    assert_eq!(transform_expression(&input), expected);
}

#[test]
fn transform_is_idempotent_after_unrolling() {
    let input = Block {
        stmts: vec![Statement::Tail(for_loop(simple_pat(J), lit_range(0, 3, false), vec![
            opaque_stmt(SUM),
        ]))],
    };
    let once = transform(&input);
    let twice = transform(&once);
    assert_eq!(twice, once);
}

#[test]
fn deep_copy_matches_original() {
    let e = for_loop(simple_pat(J), lit_range(0, 2, true), vec![opaque_stmt(SUM)]);
    let e2 = for_loop(simple_pat(J), lit_range(0, 2, true), vec![opaque_stmt(SUM)]);
    assert_eq!(e.deep_copy(), e2);
}
