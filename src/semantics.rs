//! The meaning of programs: a big-step semantics over abstract syntax, indexed
//! by fuel so that a run that never ends has a meaning too.
use crate::program::{ComparisonOperator, Operator};
use crate::state::Int;
use vstd::prelude::*;

verus! {

/// The abstract value of a [`crate::program::Value`].
pub ghost enum ValueModel {
    Variable(Seq<char>),
    Const(Int),
}

/// The abstract value of a [`crate::program::Expression`].
pub ghost enum ExprModel {
    Const(Int),
    Binary(ValueModel, Operator, ValueModel),
}

/// The abstract value of a [`crate::program::ComparisonExpression`].
pub ghost struct CmpModel {
    pub left: Seq<char>,
    pub operator: ComparisonOperator,
    pub right: ValueModel,
}

/// The abstract value of a [`crate::program::Statement`].
pub ghost enum StmtModel {
    Assign(Seq<char>, ExprModel),
    If(CmpModel, Seq<StmtModel>, Seq<StmtModel>),
    While(CmpModel, Seq<StmtModel>),
}

/// The abstract value of a [`crate::program::Program`].
pub ghost struct ProgramModel {
    pub statements: Seq<StmtModel>,
    pub return_variable: Seq<char>,
}

/// A variable store: variable name to value.
pub type Store = Map<Seq<char>, Int>;

/// What running a piece of code yields within a given fuel: `None` when the
/// fuel ran out, `Some(Err(name))` when an unbound variable `name` was read.
pub type Outcome<T> = Option<Result<T, Seq<char>>>;

/// A value operand: a variable's current value, or the literal itself.
pub open spec fn value_of(v: ValueModel, s: Store) -> Result<Int, Seq<char>> {
    match v {
        ValueModel::Variable(n) => if s.contains_key(n) {
            Ok(s[n])
        } else {
            Err(n)
        },
        ValueModel::Const(c) => Ok(c),
    }
}

/// A binary operator, wrapping on overflow.
pub open spec fn apply(op: Operator, a: Int, b: Int) -> Int {
    match op {
        Operator::Add => a.wrapping_add(b),
        Operator::Substract => a.wrapping_sub(b),
        Operator::Multiply => a.wrapping_mul(b),
    }
}

/// An expression; the left operand is read before the right one.
pub open spec fn expr_value(e: ExprModel, s: Store) -> Result<Int, Seq<char>> {
    match e {
        ExprModel::Const(c) => Ok(c),
        ExprModel::Binary(l, op, r) => match value_of(l, s) {
            Err(n) => Err(n),
            Ok(a) => match value_of(r, s) {
                Err(n) => Err(n),
                Ok(b) => Ok(apply(op, a, b)),
            },
        },
    }
}

/// A comparison; the left variable is read before the right operand.
pub open spec fn cmp_value(c: CmpModel, s: Store) -> Result<bool, Seq<char>> {
    match value_of(ValueModel::Variable(c.left), s) {
        Err(n) => Err(n),
        Ok(a) => match value_of(c.right, s) {
            Err(n) => Err(n),
            Ok(b) => Ok(
                match c.operator {
                    ComparisonOperator::GreaterThan => a > b,
                    ComparisonOperator::LessThan => a < b,
                },
            ),
        },
    }
}

/// Runs one statement. Each iteration of a loop costs one unit of `fuel`.
pub open spec fn run_stmt(st: StmtModel, s: Store, fuel: nat) -> Outcome<Store>
    decreases fuel, st, 0nat,
{
    match st {
        StmtModel::Assign(n, e) => Some(
            match expr_value(e, s) {
                Ok(v) => Ok(s.insert(n, v)),
                Err(x) => Err(x),
            },
        ),
        StmtModel::If(c, t, e) => match cmp_value(c, s) {
            Err(x) => Some(Err(x)),
            Ok(b) => if b {
                run_block(t, 0, s, fuel)
            } else {
                run_block(e, 0, s, fuel)
            },
        },
        StmtModel::While(c, body) => if fuel == 0 {
            None
        } else {
            match cmp_value(c, s) {
                Err(x) => Some(Err(x)),
                Ok(b) => if !b {
                    Some(Ok(s))
                } else {
                    match run_block(body, 0, s, (fuel - 1) as nat) {
                        Some(Ok(s2)) => run_stmt(st, s2, (fuel - 1) as nat),
                        other => other,
                    }
                },
            }
        },
    }
}

/// Runs the statements of `b` from index `i` on, in order, stopping at the first error.
pub open spec fn run_block(b: Seq<StmtModel>, i: nat, s: Store, fuel: nat) -> Outcome<Store>
    decreases fuel, b, b.len() - i,
{
    if i >= b.len() {
        Some(Ok(s))
    } else {
        match run_stmt(b[i as int], s, fuel) {
            Some(Ok(s2)) => run_block(b, i + 1, s2, fuel),
            other => other,
        }
    }
}

/// Runs a program from an empty store; its result is the final value of its
/// return variable.
pub open spec fn run_program(p: ProgramModel, fuel: nat) -> Outcome<Int> {
    match run_block(p.statements, 0, Map::empty(), fuel) {
        None => None,
        Some(Err(x)) => Some(Err(x)),
        Some(Ok(s)) => Some(value_of(ValueModel::Variable(p.return_variable), s)),
    }
}

/// The program halts: some fuel suffices for its run to end.
pub open spec fn halts(p: ProgramModel) -> bool {
    exists|fuel: nat| #[trigger] run_program(p, fuel) is Some
}

/// The result of a program that halts.
pub open spec fn program_result(p: ProgramModel) -> Result<Int, Seq<char>>
    recommends
        halts(p),
{
    run_program(p, choose|fuel: nat| #[trigger] run_program(p, fuel) is Some)->0
}

/// The statement's run from `s` ends: some fuel suffices.
pub open spec fn stmt_ends(st: StmtModel, s: Store) -> bool {
    exists|fuel: nat| #[trigger] run_stmt(st, s, fuel) is Some
}

/// How the statement's run from `s` ends, where it does.
pub open spec fn stmt_outcome(st: StmtModel, s: Store) -> Result<Store, Seq<char>>
    recommends
        stmt_ends(st, s),
{
    run_stmt(st, s, choose|fuel: nat| #[trigger] run_stmt(st, s, fuel) is Some)->0
}

} // verus!
