//! Parsing tokens into a program.
//!
//! ```text
//! program    := statement* identifier
//! statement  := identifier AWOO expression
//!             | RUF? comparison statement* ROWH statement* ARRUF
//!             | GRRR comparison statement* BORF
//! expression := value | value (WOOF | BARK | ARF) value
//! comparison := identifier (YIP | YAP) value
//! value      := identifier | integer
//! ```
//!
//! The identifier that ends a program names its return variable. An
//! expression that is a lone variable `x` is held as `x + 0`.
use crate::lexer::{KindModel, ParseError, Token, TokenKind, TokenModel, lex_from, tokenize, tokens_model};
use crate::program::{
    ComparisonExpression, ComparisonOperator, Expression, Operator, Program, Statement, Statements,
    Value, block_model,
};
use crate::semantics::{CmpModel, ExprModel, ProgramModel, StmtModel, ValueModel};
use vstd::prelude::*;
use vstd::string::StringSliceAdditionalSpecFns;

verus! {

/// The error for a parse that fails at token `i`.
pub open spec fn error_at(t: Seq<TokenModel>, i: nat) -> ParseError {
    if i < t.len() {
        ParseError::UnexpectedToken { offset: t[i as int].offset as usize }
    } else {
        ParseError::UnexpectedEnd
    }
}

/// A value at token `i`, and the index after it.
pub open spec fn parse_value(t: Seq<TokenModel>, i: nat) -> Result<(ValueModel, nat), ParseError> {
    if i < t.len() {
        match t[i as int].kind {
            KindModel::Identifier(n) => Ok((ValueModel::Variable(n), i + 1)),
            KindModel::Integer(v) => Ok((ValueModel::Const(v), i + 1)),
            _ => Err(error_at(t, i)),
        }
    } else {
        Err(ParseError::UnexpectedEnd)
    }
}

/// The arithmetic operator at token `i`, if there is one.
pub open spec fn operator_at(t: Seq<TokenModel>, i: nat) -> Option<Operator> {
    if i < t.len() {
        match t[i as int].kind {
            KindModel::Add => Some(Operator::Add),
            KindModel::Subtract => Some(Operator::Substract),
            KindModel::Multiply => Some(Operator::Multiply),
            _ => None,
        }
    } else {
        None
    }
}

/// The comparison operator at token `i`, if there is one.
pub open spec fn comparison_operator_at(t: Seq<TokenModel>, i: nat) -> Option<ComparisonOperator> {
    if i < t.len() {
        match t[i as int].kind {
            KindModel::LessThan => Some(ComparisonOperator::LessThan),
            KindModel::GreaterThan => Some(ComparisonOperator::GreaterThan),
            _ => None,
        }
    } else {
        None
    }
}

/// An expression at token `i`, and the index after it.
pub open spec fn parse_expr(t: Seq<TokenModel>, i: nat) -> Result<(ExprModel, nat), ParseError> {
    match parse_value(t, i) {
        Err(e) => Err(e),
        Ok((v, j)) => match operator_at(t, j) {
            Some(op) => match parse_value(t, j + 1) {
                Err(e) => Err(e),
                Ok((w, k)) => Ok((ExprModel::Binary(v, op, w), k)),
            },
            None => match v {
                ValueModel::Const(c) => Ok((ExprModel::Const(c), j)),
                ValueModel::Variable(_) => Ok(
                    (ExprModel::Binary(v, Operator::Add, ValueModel::Const(0)), j),
                ),
            },
        },
    }
}

/// A comparison at token `i`, and the index after it.
pub open spec fn parse_cmp(t: Seq<TokenModel>, i: nat) -> Result<(CmpModel, nat), ParseError> {
    if i < t.len() {
        match t[i as int].kind {
            KindModel::Identifier(n) => match comparison_operator_at(t, i + 1) {
                Some(op) => match parse_value(t, i + 2) {
                    Err(e) => Err(e),
                    Ok((w, k)) => Ok((CmpModel { left: n, operator: op, right: w }, k)),
                },
                None => Err(error_at(t, i + 1)),
            },
            _ => Err(error_at(t, i)),
        }
    } else {
        Err(ParseError::UnexpectedEnd)
    }
}

/// Whether a statement starts at token `i`.
pub open spec fn starts_stmt(t: Seq<TokenModel>, i: nat) -> bool {
    i < t.len() && match t[i as int].kind {
        KindModel::If => true,
        KindModel::While => true,
        KindModel::Identifier(_) => i + 1 < t.len() && t[i + 1 as int].kind is Assign,
        _ => false,
    }
}

/// Whether the index `j` lies after `i` and within the tokens.
pub open spec fn advances(t: Seq<TokenModel>, i: nat, j: nat) -> bool {
    i < j <= t.len()
}

/// A statement at token `i`, and the index after it.
pub open spec fn parse_stmt(t: Seq<TokenModel>, i: nat) -> Result<(StmtModel, nat), ParseError>
    decreases t.len() - i, 0nat,
{
    if i >= t.len() {
        Err(ParseError::UnexpectedEnd)
    } else {
        match t[i as int].kind {
            KindModel::Identifier(n) => if i + 1 < t.len() && t[i + 1 as int].kind is Assign {
                match parse_expr(t, i + 2) {
                    Err(e) => Err(e),
                    Ok((e, j)) => Ok((StmtModel::Assign(n, e), j)),
                }
            } else {
                Err(error_at(t, i + 1))
            },
            KindModel::If => match parse_cmp(t, i + 1) {
                Err(e) => Err(e),
                Ok((c, j)) => if !advances(t, i, j) {
                    Err(error_at(t, i))
                } else {
                    match parse_block(t, j) {
                        Err(e) => Err(e),
                        Ok((tb, k)) => if !(k < t.len() && t[k as int].kind is Else) {
                            Err(error_at(t, k))
                        } else if !advances(t, i, k + 1) {
                            Err(error_at(t, i))
                        } else {
                            match parse_block(t, k + 1) {
                                Err(e) => Err(e),
                                Ok((eb, m)) => if m < t.len() && t[m as int].kind is EndIf {
                                    Ok((StmtModel::If(c, tb, eb), m + 1))
                                } else {
                                    Err(error_at(t, m))
                                },
                            }
                        },
                    }
                },
            },
            KindModel::While => match parse_cmp(t, i + 1) {
                Err(e) => Err(e),
                Ok((c, j)) => if !advances(t, i, j) {
                    Err(error_at(t, i))
                } else {
                    match parse_block(t, j) {
                        Err(e) => Err(e),
                        Ok((b, k)) => if k < t.len() && t[k as int].kind is EndWhile {
                            Ok((StmtModel::While(c, b), k + 1))
                        } else {
                            Err(error_at(t, k))
                        },
                    }
                },
            },
            _ => Err(error_at(t, i)),
        }
    }
}

/// The longest run of statements from token `i` on, and the index after it.
pub open spec fn parse_block(t: Seq<TokenModel>, i: nat) -> Result<
    (Seq<StmtModel>, nat),
    ParseError,
>
    decreases t.len() - i, 1nat,
{
    if !starts_stmt(t, i) {
        Ok((Seq::empty(), i))
    } else {
        match parse_stmt(t, i) {
            Err(e) => Err(e),
            Ok((s, j)) => if !advances(t, i, j) {
                Err(error_at(t, i))
            } else {
                match parse_block(t, j) {
                    Err(e) => Err(e),
                    Ok((ss, k)) => Ok((seq![s] + ss, k)),
                }
            },
        }
    }
}

/// A whole program: statements, then the return variable, then nothing.
pub open spec fn parse_tokens(t: Seq<TokenModel>) -> Result<ProgramModel, ParseError> {
    match parse_block(t, 0) {
        Err(e) => Err(e),
        Ok((ss, j)) => if j < t.len() {
            match t[j as int].kind {
                KindModel::Identifier(n) => if j + 1 == t.len() {
                    Ok(ProgramModel { statements: ss, return_variable: n })
                } else {
                    Err(error_at(t, j + 1))
                },
                _ => Err(error_at(t, j)),
            }
        } else {
            Err(ParseError::UnexpectedEnd)
        },
    }
}

/// The program that the source text `b` holds, or why it holds none.
pub open spec fn parse_source(b: Seq<u8>) -> Result<ProgramModel, ParseError> {
    match lex_from(b, 0) {
        Err(e) => Err(e),
        Ok(t) => parse_tokens(t),
    }
}

/// The error for a parse that fails at token `i`.
fn error_at_index(t: &Vec<Token>, i: usize) -> (r: ParseError)
    ensures
        r == error_at(tokens_model(t@), i as nat),
{
    if i < t.len() {
        ParseError::UnexpectedToken { offset: t[i].offset }
    } else {
        ParseError::UnexpectedEnd
    }
}

fn parse_value_at(t: &Vec<Token>, i: usize) -> (r: Result<(Value, usize), ParseError>)
    ensures
        match r {
            Ok((v, j)) => parse_value(tokens_model(t@), i as nat) == Ok::<_, ParseError>(
                (v@, j as nat),
            ) && i < j <= t@.len(),
            Err(e) => parse_value(tokens_model(t@), i as nat) == Err::<(ValueModel, nat), _>(e),
        },
{
    if i < t.len() {
        match &t[i].kind {
            TokenKind::Identifier(n) => Ok((Value::Variable(n.clone()), i + 1)),
            TokenKind::Integer(v) => Ok((Value::Const(*v), i + 1)),
            _ => Err(error_at_index(t, i)),
        }
    } else {
        Err(ParseError::UnexpectedEnd)
    }
}

fn operator_at_index(t: &Vec<Token>, i: usize) -> (r: Option<Operator>)
    ensures
        r == operator_at(tokens_model(t@), i as nat),
        r is Some ==> i < t@.len() <= usize::MAX,
{
    if i < t.len() {
        match &t[i].kind {
            TokenKind::Add => Some(Operator::Add),
            TokenKind::Subtract => Some(Operator::Substract),
            TokenKind::Multiply => Some(Operator::Multiply),
            _ => None,
        }
    } else {
        None
    }
}

fn comparison_operator_at_index(t: &Vec<Token>, i: usize) -> (r: Option<ComparisonOperator>)
    ensures
        r == comparison_operator_at(tokens_model(t@), i as nat),
        r is Some ==> i < t@.len(),
{
    if i < t.len() {
        match &t[i].kind {
            TokenKind::LessThan => Some(ComparisonOperator::LessThan),
            TokenKind::GreaterThan => Some(ComparisonOperator::GreaterThan),
            _ => None,
        }
    } else {
        None
    }
}

fn parse_expr_at(t: &Vec<Token>, i: usize) -> (r: Result<(Expression, usize), ParseError>)
    ensures
        match r {
            Ok((e, j)) => parse_expr(tokens_model(t@), i as nat) == Ok::<_, ParseError>(
                (e@, j as nat),
            ) && i < j <= t@.len(),
            Err(e) => parse_expr(tokens_model(t@), i as nat) == Err::<(ExprModel, nat), _>(e),
        },
{
    let (v, j) = match parse_value_at(t, i) {
        Ok(x) => x,
        Err(e) => return Err(e),
    };
    match operator_at_index(t, j) {
        Some(op) => match parse_value_at(t, j + 1) {
            Err(e) => Err(e),
            Ok((w, k)) => Ok((Expression::Expression { left: v, right: w, operator: op }, k)),
        },
        None => match v {
            Value::Const(c) => Ok((Expression::Const(c), j)),
            Value::Variable(n) => Ok(
                (
                    Expression::Expression {
                        left: Value::Variable(n),
                        right: Value::Const(0),
                        operator: Operator::Add,
                    },
                    j,
                ),
            ),
        },
    }
}

fn parse_cmp_at(t: &Vec<Token>, i: usize) -> (r: Result<(ComparisonExpression, usize), ParseError>)
    ensures
        match r {
            Ok((c, j)) => parse_cmp(tokens_model(t@), i as nat) == Ok::<_, ParseError>(
                (c@, j as nat),
            ) && i < j <= t@.len(),
            Err(e) => parse_cmp(tokens_model(t@), i as nat) == Err::<(CmpModel, nat), _>(e),
        },
{
    if i < t.len() {
        match &t[i].kind {
            TokenKind::Identifier(n) => match comparison_operator_at_index(t, i + 1) {
                Some(op) => match parse_value_at(t, i + 2) {
                    Err(e) => Err(e),
                    Ok((w, k)) => Ok(
                        (ComparisonExpression { left: n.clone(), right: w, operator: op }, k),
                    ),
                },
                None => Err(error_at_index(t, i + 1)),
            },
            _ => Err(error_at_index(t, i)),
        }
    } else {
        Err(ParseError::UnexpectedEnd)
    }
}

fn starts_stmt_at(t: &Vec<Token>, i: usize) -> (r: bool)
    ensures
        r == starts_stmt(tokens_model(t@), i as nat),
{
    if i < t.len() {
        match &t[i].kind {
            TokenKind::If => true,
            TokenKind::While => true,
            TokenKind::Identifier(_) => i + 1 < t.len() && match &t[i + 1].kind {
                TokenKind::Assign => true,
                _ => false,
            },
            _ => false,
        }
    } else {
        false
    }
}

fn parse_stmt_at(t: &Vec<Token>, i: usize) -> (r: Result<(Statement, usize), ParseError>)
    ensures
        match r {
            Ok((s, j)) => parse_stmt(tokens_model(t@), i as nat) == Ok::<_, ParseError>(
                (s@, j as nat),
            ) && i < j <= t@.len(),
            Err(e) => parse_stmt(tokens_model(t@), i as nat) == Err::<(StmtModel, nat), _>(e),
        },
    decreases t@.len() - i, 0nat,
{
    if i >= t.len() {
        return Err(ParseError::UnexpectedEnd);
    }
    match &t[i].kind {
        TokenKind::Identifier(n) => {
            let assigns = i + 1 < t.len() && match &t[i + 1].kind {
                TokenKind::Assign => true,
                _ => false,
            };
            if assigns {
                match parse_expr_at(t, i + 2) {
                    Err(e) => Err(e),
                    Ok((e, j)) => Ok((Statement::Assign { variable: n.clone(), expression: e }, j)),
                }
            } else {
                Err(error_at_index(t, i + 1))
            }
        },
        TokenKind::If => {
            let (c, j) = match parse_cmp_at(t, i + 1) {
                Ok(x) => x,
                Err(e) => return Err(e),
            };
            let (tb, k) = match parse_block_at(t, j) {
                Ok(x) => x,
                Err(e) => return Err(e),
            };
            let is_else = k < t.len() && match &t[k].kind {
                TokenKind::Else => true,
                _ => false,
            };
            if !is_else {
                return Err(error_at_index(t, k));
            }
            let (eb, m) = match parse_block_at(t, k + 1) {
                Ok(x) => x,
                Err(e) => return Err(e),
            };
            let is_end = m < t.len() && match &t[m].kind {
                TokenKind::EndIf => true,
                _ => false,
            };
            if !is_end {
                return Err(error_at_index(t, m));
            }
            Ok(
                (
                    Statement::If { expression: c, if_statements: tb, else_statements: eb },
                    m + 1,
                ),
            )
        },
        TokenKind::While => {
            let (c, j) = match parse_cmp_at(t, i + 1) {
                Ok(x) => x,
                Err(e) => return Err(e),
            };
            let (b, k) = match parse_block_at(t, j) {
                Ok(x) => x,
                Err(e) => return Err(e),
            };
            let is_end = k < t.len() && match &t[k].kind {
                TokenKind::EndWhile => true,
                _ => false,
            };
            if !is_end {
                return Err(error_at_index(t, k));
            }
            Ok((Statement::While { expression: c, statements: b }, k + 1))
        },
        _ => Err(error_at_index(t, i)),
    }
}

fn parse_block_at(t: &Vec<Token>, i: usize) -> (r: Result<(Statements, usize), ParseError>)
    requires
        i <= t@.len(),
    ensures
        match r {
            Ok((b, j)) => parse_block(tokens_model(t@), i as nat) == Ok::<_, ParseError>(
                (b@, j as nat),
            ) && i <= j <= t@.len(),
            Err(e) => parse_block(tokens_model(t@), i as nat) == Err::<(Seq<StmtModel>, nat), _>(
                e,
            ),
        },
    decreases t@.len() - i, 1nat,
{
    let ghost tm = tokens_model(t@);
    let mut v: Vec<Statement> = Vec::new();
    let mut k: usize = i;
    while starts_stmt_at(t, k)
        invariant
            i <= k <= t@.len(),
            tm == tokens_model(t@),
            parse_block(tm, i as nat) == match parse_block(tm, k as nat) {
                Ok((ss, m)) => Ok((block_model(v@) + ss, m)),
                Err(e) => Err(e),
            },
        decreases t@.len() - k,
    {
        let (s, j) = match parse_stmt_at(t, k) {
            Ok(x) => x,
            Err(e) => return Err(e),
        };
        proof {
            match parse_block(tm, j as nat) {
                Ok((ss, m)) => {
                    assert(block_model(v@.push(s)) =~= block_model(v@).push(s@));
                    assert(block_model(v@) + (seq![s@] + ss) =~= block_model(v@).push(s@) + ss);
                },
                Err(_) => {},
            }
        }
        v.push(s);
        k = j;
    }
    proof {
        assert(block_model(v@) + Seq::<StmtModel>::empty() =~= block_model(v@));
    }
    Ok((Statements { statements: v }, k))
}

/// Parses the source text of a program: its statements, then the name of its
/// return variable. The result is the one program that the grammar gives for
/// the text, or the error at the first place where the text leaves the grammar.
pub fn parse_program(src: &str) -> (r: Result<Program, ParseError>)
    ensures
        match r {
            Ok(p) => parse_source(src.spec_bytes()) == Ok::<_, ParseError>(p@),
            Err(e) => parse_source(src.spec_bytes()) == Err::<ProgramModel, _>(e),
        },
{
    let t = match tokenize(src) {
        Ok(t) => t,
        Err(e) => return Err(e),
    };
    let (statements, j) = match parse_block_at(&t, 0) {
        Ok(x) => x,
        Err(e) => return Err(e),
    };
    if j < t.len() {
        match &t[j].kind {
            TokenKind::Identifier(n) => if j + 1 == t.len() {
                Ok(Program { statements, return_variable: n.clone() })
            } else {
                Err(error_at_index(&t, j + 1))
            },
            _ => Err(error_at_index(&t, j)),
        }
    } else {
        Err(ParseError::UnexpectedEnd)
    }
}

} // verus!
