//! The tree model that the unrolling pass works on.
//!
//! A function body is a [`Block`]: an ordered sequence of statements, each a
//! tail expression or a terminated (semicolon-ended) expression. Expressions
//! the pass understands are loops, conditionals, pattern-match conditionals,
//! nested blocks, ranges and integer literals; everything else is carried as
//! an [`Expression::Opaque`] handle that the pass never looks inside. The
//! ingestor that builds these trees keeps the mapping from opaque handles and
//! name handles back to concrete syntax; the pass itself only copies them.
//!
//! Each exec type has a ghost counterpart (`BlockV`, `StmtV`, `ExprV`,
//! `PatV`) built from `Seq` rather than `Vec`; the view functions relate the
//! two, and every contract of the pass is stated over the ghost trees.

use vstd::prelude::*;

verus! {

/// A brace-delimited, ordered sequence of statements.
#[derive(Debug, PartialEq, Eq)]
pub struct Block {
    pub stmts: Vec<Statement>,
}

/// A statement: an expression either in tail position (no terminator) or
/// followed by an explicit terminator. Rewrites keep the tag.
#[derive(Debug, PartialEq, Eq)]
pub enum Statement {
    /// An expression without a terminator (a block's tail value, or a
    /// block-like expression standing as a statement).
    Tail(Expression),
    /// An expression followed by an explicit terminator.
    Terminated(Expression),
}

/// An expression. The unrolling pass looks inside loops, conditionals and
/// nested blocks only; every other kind is an opaque handle.
#[derive(Debug, PartialEq, Eq)]
pub enum Expression {
    /// `for pattern in source { body }`
    ForLoop(Box<ForLoop>),
    /// `if condition { then_branch } else ...`
    If(Box<IfExpr>),
    /// `if let pattern = scrutinee { then_branch } else ...`
    IfLet(Box<IfLetExpr>),
    /// A nested block used as an expression.
    Block(Block),
    /// `lower..upper` or `lower..=upper`, either bound optional.
    Range(Box<RangeExpr>),
    /// A literal unsigned integer.
    IntLiteral(u64),
    /// A constant binding of a name to a literal value, synthesized by the
    /// pass at the head of each unrolled iteration.
    ConstBinding(ConstBinding),
    /// Any other expression, held by a handle the ingestor can resolve.
    /// The pass never looks inside it.
    Opaque(u64),
}

/// A `for` loop.
#[derive(Debug, PartialEq, Eq)]
pub struct ForLoop {
    pub pattern: Pattern,
    pub source: Expression,
    pub body: Block,
}

/// A conditional. The else branch, when present, is either a nested block or
/// another conditional (an else-if chain).
#[derive(Debug, PartialEq, Eq)]
pub struct IfExpr {
    pub condition: Expression,
    pub then_branch: Block,
    pub else_branch: Option<Expression>,
}

/// A pattern-match conditional. The pattern itself is never rewritten.
#[derive(Debug, PartialEq, Eq)]
pub struct IfLetExpr {
    pub pattern: Pattern,
    pub scrutinee: Expression,
    pub then_branch: Block,
    pub else_branch: Option<Expression>,
}

/// A range expression. Bounds may be absent (`..n`, `n..`) and, when present,
/// are arbitrary expressions; only literal integer bounds make a loop
/// eligible for unrolling.
#[derive(Debug, PartialEq, Eq)]
pub struct RangeExpr {
    pub lower: Option<Expression>,
    pub upper: Option<Expression>,
    pub inclusive: bool,
}

/// A constant binding `const name = value` of a loop variable for one
/// unrolled iteration. `name` is a name handle assigned by the ingestor.
#[derive(Debug, PartialEq, Eq, Clone, Copy)]
pub struct ConstBinding {
    pub name: u64,
    pub value: u64,
}

/// A loop binding pattern: either a simple identifier binding (with its
/// modifiers) or any other pattern, held opaquely by a handle.
#[derive(Debug, PartialEq, Eq, Clone, Copy)]
pub enum Pattern {
    /// A single identifier, with the modifiers that disqualify unrolling.
    Simple { name: u64, by_reference: bool, mutable: bool, has_subpattern: bool },
    /// Any structured or destructuring pattern, never rewritten.
    Other(u64),
}

/// Ghost counterpart of [`Block`].
#[verifier::ext_equal]
pub struct BlockV {
    pub stmts: Seq<StmtV>,
}

/// Ghost counterpart of [`Statement`].
#[verifier::ext_equal]
pub enum StmtV {
    Tail(ExprV),
    Terminated(ExprV),
}

/// Ghost counterpart of [`Expression`].
#[verifier::ext_equal]
pub enum ExprV {
    ForLoop { pattern: PatV, source: Box<ExprV>, body: BlockV },
    If { condition: Box<ExprV>, then_branch: BlockV, else_branch: Option<Box<ExprV>> },
    IfLet { pattern: PatV, scrutinee: Box<ExprV>, then_branch: BlockV, else_branch: Option<Box<ExprV>> },
    Block(BlockV),
    Range { lower: Option<Box<ExprV>>, upper: Option<Box<ExprV>>, inclusive: bool },
    IntLiteral(u64),
    ConstBinding { name: u64, value: u64 },
    Opaque(u64),
}

/// Ghost counterpart of [`Pattern`].
#[verifier::ext_equal]
pub enum PatV {
    Simple { name: u64, by_reference: bool, mutable: bool, has_subpattern: bool },
    Other(u64),
}

pub open spec fn pat_view(p: Pattern) -> PatV {
    match p {
        Pattern::Simple { name, by_reference, mutable, has_subpattern } => PatV::Simple {
            name,
            by_reference,
            mutable,
            has_subpattern,
        },
        Pattern::Other(h) => PatV::Other(h),
    }
}

pub open spec fn expr_view(e: Expression) -> ExprV
    decreases e, 0int, 0int,
{
    match e {
        Expression::ForLoop(fl) => ExprV::ForLoop {
            pattern: pat_view(fl.pattern),
            source: Box::new(expr_view(fl.source)),
            body: block_view(fl.body),
        },
        Expression::If(ie) => ExprV::If {
            condition: Box::new(expr_view(ie.condition)),
            then_branch: block_view(ie.then_branch),
            else_branch: opt_expr_view(ie.else_branch),
        },
        Expression::IfLet(ie) => ExprV::IfLet {
            pattern: pat_view(ie.pattern),
            scrutinee: Box::new(expr_view(ie.scrutinee)),
            then_branch: block_view(ie.then_branch),
            else_branch: opt_expr_view(ie.else_branch),
        },
        Expression::Block(b) => ExprV::Block(block_view(b)),
        Expression::Range(r) => ExprV::Range {
            lower: opt_expr_view(r.lower),
            upper: opt_expr_view(r.upper),
            inclusive: r.inclusive,
        },
        Expression::IntLiteral(v) => ExprV::IntLiteral(v),
        Expression::ConstBinding(c) => ExprV::ConstBinding { name: c.name, value: c.value },
        Expression::Opaque(h) => ExprV::Opaque(h),
    }
}

pub open spec fn opt_expr_view(oe: Option<Expression>) -> Option<Box<ExprV>>
    decreases oe, 1int, 0int,
{
    match oe {
        Some(e) => Some(Box::new(expr_view(e))),
        None => None,
    }
}

pub open spec fn stmt_view(s: Statement) -> StmtV
    decreases s, 0int, 0int,
{
    match s {
        Statement::Tail(e) => StmtV::Tail(expr_view(e)),
        Statement::Terminated(e) => StmtV::Terminated(expr_view(e)),
    }
}

/// The views of the first `n` statements of `ss`, in order.
pub open spec fn stmts_view(ss: Seq<Statement>, n: int) -> Seq<StmtV>
    decreases ss, 0int, n,
{
    if n <= 0 || ss.len() < n {
        Seq::empty()
    } else {
        stmts_view(ss, n - 1).push(stmt_view(ss[n - 1]))
    }
}

pub open spec fn block_view(b: Block) -> BlockV
    decreases b, 1int, 0int,
{
    BlockV { stmts: stmts_view(b.stmts@, b.stmts@.len() as int) }
}

impl View for Block {
    type V = BlockV;

    open spec fn view(&self) -> BlockV {
        block_view(*self)
    }
}

impl View for Statement {
    type V = StmtV;

    open spec fn view(&self) -> StmtV {
        stmt_view(*self)
    }
}

impl View for Expression {
    type V = ExprV;

    open spec fn view(&self) -> ExprV {
        expr_view(*self)
    }
}

impl View for Pattern {
    type V = PatV;

    open spec fn view(&self) -> PatV {
        pat_view(*self)
    }
}

impl Expression {
    /// A deep, independent copy: the result is a fresh tree with the same
    /// view, sharing no node with `self`.
    pub fn deep_copy(&self) -> (r: Expression)
        ensures
            r@ == self@,
        decreases self, 2int, 0int,
    {
        match self {
            Expression::ForLoop(fl) => Expression::ForLoop(
                Box::new(
                    ForLoop {
                        pattern: fl.pattern,
                        source: fl.source.deep_copy(),
                        body: fl.body.deep_copy(),
                    },
                ),
            ),
            Expression::If(ie) => Expression::If(
                Box::new(
                    IfExpr {
                        condition: ie.condition.deep_copy(),
                        then_branch: ie.then_branch.deep_copy(),
                        else_branch: copy_opt_expression(&ie.else_branch),
                    },
                ),
            ),
            Expression::IfLet(ie) => Expression::IfLet(
                Box::new(
                    IfLetExpr {
                        pattern: ie.pattern,
                        scrutinee: ie.scrutinee.deep_copy(),
                        then_branch: ie.then_branch.deep_copy(),
                        else_branch: copy_opt_expression(&ie.else_branch),
                    },
                ),
            ),
            Expression::Block(b) => Expression::Block(b.deep_copy()),
            Expression::Range(r) => Expression::Range(
                Box::new(
                    RangeExpr {
                        lower: copy_opt_expression(&r.lower),
                        upper: copy_opt_expression(&r.upper),
                        inclusive: r.inclusive,
                    },
                ),
            ),
            Expression::IntLiteral(v) => Expression::IntLiteral(*v),
            Expression::ConstBinding(c) => Expression::ConstBinding(*c),
            Expression::Opaque(h) => Expression::Opaque(*h),
        }
    }
}

fn copy_opt_expression(oe: &Option<Expression>) -> (r: Option<Expression>)
    ensures
        opt_expr_view(r) == opt_expr_view(*oe),
    decreases oe, 3int, 0int,
{
    match oe {
        Some(e) => Some(e.deep_copy()),
        None => None,
    }
}

impl Statement {
    /// A deep, independent copy with the same view and the same tag.
    pub fn deep_copy(&self) -> (r: Statement)
        ensures
            r@ == self@,
        decreases self, 3int, 0int,
    {
        match self {
            Statement::Tail(e) => Statement::Tail(e.deep_copy()),
            Statement::Terminated(e) => Statement::Terminated(e.deep_copy()),
        }
    }
}

impl Block {
    /// A deep, independent copy with the same view.
    pub fn deep_copy(&self) -> (r: Block)
        ensures
            r@ == self@,
        decreases self, 1int, 0int,
    {
        let mut stmts: Vec<Statement> = Vec::new();
        let n = self.stmts.len();
        let mut i: usize = 0;
        while i < n
            invariant
                0 <= i <= n,
                n == self.stmts@.len(),
                stmts@.len() == i,
                forall|k: int| 0 <= k < i ==> stmt_view(stmts@[k]) == stmt_view(self.stmts@[k]),
            decreases n - i,
        {
            stmts.push(self.stmts[i].deep_copy());
            i += 1;
        }
        let r = Block { stmts };
        proof {
            lemma_stmts_view(r.stmts@, r.stmts@.len() as int);
            lemma_stmts_view(self.stmts@, self.stmts@.len() as int);
            assert(block_view(r).stmts =~= block_view(*self).stmts);
            assert(block_view(r) =~= block_view(*self));
        }
        r
    }
}

/// The view of a statement sequence is pointwise: it has one entry per
/// statement, each the view of the statement at the same position.
pub proof fn lemma_stmts_view(ss: Seq<Statement>, n: int)
    requires
        0 <= n <= ss.len(),
    ensures
        stmts_view(ss, n).len() == n,
        forall|k: int| 0 <= k < n ==> stmts_view(ss, n)[k] == stmt_view(ss[k]),
    decreases n,
{
    if n > 0 {
        lemma_stmts_view(ss, n - 1);
    }
}

/// A view is a literal integer exactly when the expression it comes from is.
pub proof fn lemma_expr_view_int(e: Expression)
    ensures
        expr_view(e) is IntLiteral <==> e is IntLiteral,
        e matches Expression::IntLiteral(v) ==> expr_view(e) == ExprV::IntLiteral(v),
{
    match e {
        Expression::ForLoop(_) => {},
        Expression::If(_) => {},
        Expression::IfLet(_) => {},
        Expression::Block(_) => {},
        Expression::Range(_) => {},
        Expression::IntLiteral(_) => {},
        Expression::ConstBinding(_) => {},
        Expression::Opaque(_) => {},
    }
}

/// A block's view keeps the statement count and maps each position through
/// `stmt_view`.
pub proof fn lemma_block_view(b: Block)
    ensures
        block_view(b).stmts.len() == b.stmts@.len(),
        forall|k: int| 0 <= k < b.stmts@.len() ==> block_view(b).stmts[k] == stmt_view(b.stmts@[k]),
{
    lemma_stmts_view(b.stmts@, b.stmts@.len() as int);
}

} // verus!
