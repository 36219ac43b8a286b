//! The abstract syntax of programs, and running it.
use crate::semantics::{
    CmpModel, ExprModel, ProgramModel, StmtModel, ValueModel, apply, cmp_value, expr_value, halts,
    program_result, run_block, run_program, run_stmt, value_of,
};
use crate::state::{Int, State};
use vstd::prelude::*;

verus! {

broadcast use vstd::std_specs::vec::group_vec_axioms;

/// A whole program: its statements, and the variable whose final value is its result.
pub struct Program {
    pub statements: Statements,
    pub return_variable: String,
}

/// A sequence of statements, run in order.
pub struct Statements {
    pub statements: Vec<Statement>,
}

/// One statement.
#[allow(inconsistent_fields)]
pub enum Statement {
    Assign { variable: String, expression: Expression },
    If {
        expression: ComparisonExpression,
        if_statements: Statements,
        else_statements: Statements,
    },
    While { expression: ComparisonExpression, statements: Statements },
}

/// An operand: a variable reference or a literal.
pub enum Value {
    Variable(String),
    Const(Int),
}

/// A literal, or one binary operation on two operands.
pub enum Expression {
    Const(Int),
    Expression { left: Value, right: Value, operator: Operator },
}

/// A binary arithmetic operator.
#[derive(PartialEq, Eq, Structural, Clone, Copy, Debug)]
pub enum Operator {
    Add,
    Substract,
    Multiply,
}

/// A comparison of a variable with an operand.
pub struct ComparisonExpression {
    pub left: String,
    pub right: Value,
    pub operator: ComparisonOperator,
}

/// A comparison operator.
#[derive(PartialEq, Eq, Structural, Clone, Copy, Debug)]
pub enum ComparisonOperator {
    GreaterThan,
    LessThan,
}

/// The one run-time error: a variable was read before it was ever assigned.
#[derive(Debug)]
pub enum EvalError {
    UnboundVariable(String),
}

impl View for EvalError {
    type V = Seq<char>;

    open spec fn view(&self) -> Seq<char> {
        match self {
            EvalError::UnboundVariable(n) => n@,
        }
    }
}

impl EvalError {
    /// The name of the unbound variable.
    pub fn variable(&self) -> (r: &String)
        ensures
            r@ == self@,
    {
        match self {
            EvalError::UnboundVariable(n) => n,
        }
    }
}

/// A result whose error is reduced to the unbound variable's name.
pub open spec fn lift<T>(r: Result<T, EvalError>) -> Result<T, Seq<char>> {
    match r {
        Ok(v) => Ok(v),
        Err(e) => Err(e@),
    }
}

impl View for Value {
    type V = ValueModel;

    open spec fn view(&self) -> ValueModel {
        match self {
            Value::Variable(n) => ValueModel::Variable(n@),
            Value::Const(c) => ValueModel::Const(*c),
        }
    }
}

impl View for Expression {
    type V = ExprModel;

    open spec fn view(&self) -> ExprModel {
        match self {
            Expression::Const(c) => ExprModel::Const(*c),
            Expression::Expression { left, right, operator } => ExprModel::Binary(
                left@,
                *operator,
                right@,
            ),
        }
    }
}

impl View for ComparisonExpression {
    type V = CmpModel;

    open spec fn view(&self) -> CmpModel {
        CmpModel { left: self.left@, operator: self.operator, right: self.right@ }
    }
}

/// The abstract value of a statement.
pub open spec fn stmt_model(s: Statement) -> StmtModel
    decreases s, 1nat,
{
    match s {
        Statement::Assign { variable, expression } => StmtModel::Assign(variable@, expression@),
        Statement::If { expression, if_statements, else_statements } => StmtModel::If(
            expression@,
            block_model(if_statements.statements@),
            block_model(else_statements.statements@),
        ),
        Statement::While { expression, statements } => StmtModel::While(
            expression@,
            block_model(statements.statements@),
        ),
    }
}

/// The abstract value of a sequence of statements.
pub open spec fn block_model(v: Seq<Statement>) -> Seq<StmtModel>
    decreases v, 0nat,
{
    Seq::new(v.len(), |i: int| if 0 <= i < v.len() { stmt_model(v[i]) } else { arbitrary() })
}

impl View for Statement {
    type V = StmtModel;

    open spec fn view(&self) -> StmtModel {
        stmt_model(*self)
    }
}

impl View for Statements {
    type V = Seq<StmtModel>;

    open spec fn view(&self) -> Seq<StmtModel> {
        block_model(self.statements@)
    }
}

impl View for Program {
    type V = ProgramModel;

    open spec fn view(&self) -> ProgramModel {
        ProgramModel { statements: self.statements@, return_variable: self.return_variable@ }
    }
}

impl Value {
    /// The operand's value in `state`: a variable's binding, or the literal.
    pub fn get(&self, state: &State) -> (r: Result<Int, EvalError>)
        ensures
            lift(r) == value_of(self@, state@),
    {
        match self {
            Value::Variable(name) => match state.get(name) {
                Some(v) => Ok(v),
                None => Err(EvalError::UnboundVariable(name.clone())),
            },
            Value::Const(value) => Ok(*value),
        }
    }
}

impl Operator {
    /// Applies the operator, wrapping on overflow.
    pub fn apply(&self, a: Int, b: Int) -> (r: Int)
        ensures
            r == apply(*self, a, b),
    {
        match self {
            Operator::Add => a.wrapping_add(b),
            Operator::Substract => a.wrapping_sub(b),
            Operator::Multiply => a.wrapping_mul(b),
        }
    }
}

impl Expression {
    /// The expression's value in `state`; the left operand is read first.
    pub fn evaluate(&self, state: &State) -> (r: Result<Int, EvalError>)
        ensures
            lift(r) == expr_value(self@, state@),
    {
        match self {
            Expression::Const(value) => Ok(*value),
            Expression::Expression { left, right, operator } => {
                let left_value = match left.get(state) {
                    Ok(v) => v,
                    Err(e) => return Err(e),
                };
                let right_value = match right.get(state) {
                    Ok(v) => v,
                    Err(e) => return Err(e),
                };
                Ok(operator.apply(left_value, right_value))
            },
        }
    }
}

impl ComparisonExpression {
    /// Whether the comparison holds in `state`; the left variable is read first.
    pub fn evaluate(&self, state: &State) -> (r: Result<bool, EvalError>)
        ensures
            lift(r) == cmp_value(self@, state@),
    {
        let left_value = match state.get(&self.left) {
            Some(v) => v,
            None => {
                return Err(EvalError::UnboundVariable(self.left.clone()));
            },
        };
        let right_value = match self.right.get(state) {
            Ok(v) => v,
            Err(e) => return Err(e),
        };
        match self.operator {
            ComparisonOperator::GreaterThan => Ok(left_value > right_value),
            ComparisonOperator::LessThan => Ok(left_value < right_value),
        }
    }
}

impl Statement {
    /// Runs the statement on `state` within `fuel`, which suffices.
    pub(crate) fn execute(&self, state: &mut State, fuel: Ghost<nat>) -> (r: Result<(), EvalError>)
        requires
            run_stmt(self@, old(state)@, fuel@) is Some,
        ensures
            run_stmt(self@, old(state)@, fuel@) == Some(
                match r {
                    Ok(_) => Ok(final(state)@),
                    Err(e) => Err(e@),
                },
            ),
        decreases fuel@, self,
    {
        match self {
            Statement::Assign { variable, expression } => {
                let value = match expression.evaluate(state) {
                    Ok(v) => v,
                    Err(e) => return Err(e),
                };
                state.set(variable, value);
                Ok(())
            },
            Statement::If { expression, if_statements, else_statements } => {
                let holds = match expression.evaluate(state) {
                    Ok(b) => b,
                    Err(e) => return Err(e),
                };
                if holds {
                    if_statements.execute(state, fuel)
                } else {
                    else_statements.execute(state, fuel)
                }
            },
            Statement::While { expression, statements } => {
                let ghost s0 = state@;
                let ghost mut f: nat = fuel@;
                loop
                    invariant
                        run_stmt(self@, state@, f) == run_stmt(self@, s0, fuel@),
                        run_stmt(self@, s0, fuel@) is Some,
                        f <= fuel@,
                        s0 == old(state)@,
                        self@ == StmtModel::While(expression@, statements@),
                    decreases f,
                {
                    let holds = match expression.evaluate(state) {
                        Ok(b) => b,
                        Err(e) => return Err(e),
                    };
                    if !holds {
                        return Ok(());
                    }
                    match statements.execute(state, Ghost((f - 1) as nat)) {
                        Ok(_) => {},
                        Err(e) => return Err(e),
                    }
                    proof {
                        f = (f - 1) as nat;
                    }
                }
            },
        }
    }
}

impl Statements {
    /// Runs the statements in order on `state` within `fuel`, which suffices,
    /// stopping at the first error.
    pub(crate) fn execute(&self, state: &mut State, fuel: Ghost<nat>) -> (r: Result<(), EvalError>)
        requires
            run_block(self@, 0, old(state)@, fuel@) is Some,
        ensures
            run_block(self@, 0, old(state)@, fuel@) == Some(
                match r {
                    Ok(_) => Ok(final(state)@),
                    Err(e) => Err(e@),
                },
            ),
        decreases fuel@, self,
    {
        let ghost s0 = state@;
        let mut i: usize = 0;
        while i < self.statements.len()
            invariant
                i <= self.statements.len(),
                s0 == old(state)@,
                self@.len() == self.statements@.len(),
                run_block(self@, i as nat, state@, fuel@) == run_block(self@, 0, s0, fuel@),
                run_block(self@, 0, s0, fuel@) is Some,
            decreases self.statements.len() - i,
        {
            assert(self@[i as int] == self.statements@[i as int]@);
            match self.statements[i].execute(state, fuel) {
                Ok(_) => {},
                Err(e) => return Err(e),
            }
            i = i + 1;
        }
        Ok(())
    }
}

impl Program {
    /// Runs the program from an empty store and returns the final value of its
    /// return variable, or the first unbound variable that was read.
    ///
    /// The program must halt: the language lets a loop run forever, and a run
    /// of such a program would not return.
    pub fn execute(&self) -> (r: Result<Int, EvalError>)
        requires
            halts(self@),
        ensures
            lift(r) == program_result(self@),
    {
        let ghost fuel = choose|fuel: nat| #[trigger] run_program(self@, fuel) is Some;
        let mut state = State::new();
        match self.statements.execute(&mut state, Ghost(fuel)) {
            Ok(_) => {},
            Err(e) => return Err(e),
        }
        match state.get(&self.return_variable) {
            Some(v) => Ok(v),
            None => Err(EvalError::UnboundVariable(self.return_variable.clone())),
        }
    }
}

} // verus!
