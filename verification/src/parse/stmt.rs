//! Statements and blocks.

use crate::ast::{AssignOp, Block, Else, Expression, Id, IfStmt, SimpleStmt, Statement};
use crate::lex::token::{Token, TokenInfo};
use crate::parse::cursor::{cover, lemma_after_after, loc_of, parsed, peek, push_node, Failure};
use crate::parse::decl::parse_declaration;
use crate::parse::expr::{parse_expression, parse_expression_list};
use crate::parse::grammar::{
    after, assign_op, block, covers, else_branch, if_header, if_stmt, simple_stmt, statement,
    statements,
};
use std::rc::Rc;
use vstd::prelude::*;

verus! {

pub(crate) fn assign_op_of(kind: &TokenInfo) -> (r: Option<Option<AssignOp>>)
    ensures
        r == assign_op(kind.deep_view()),
{
    match kind {
        TokenInfo::Eq => Some(None),
        TokenInfo::PlusEq => Some(Some(AssignOp::Add)),
        TokenInfo::MinusEq => Some(Some(AssignOp::Sub)),
        TokenInfo::StarEq => Some(Some(AssignOp::Mul)),
        TokenInfo::SlashEq => Some(Some(AssignOp::Div)),
        TokenInfo::PercentEq => Some(Some(AssignOp::Rem)),
        TokenInfo::AmpEq => Some(Some(AssignOp::And)),
        TokenInfo::PipeEq => Some(Some(AssignOp::Or)),
        TokenInfo::CaretEq => Some(Some(AssignOp::Xor)),
        TokenInfo::LtLtEq => Some(Some(AssignOp::Shl)),
        TokenInfo::GtGtEq => Some(Some(AssignOp::Shr)),
        TokenInfo::AmpCaretEq => Some(Some(AssignOp::AndNot)),
        _ => None,
    }
}

pub(crate) fn parse_simple_stmt(tokens: &Vec<Token>, pos: usize) -> (r: Result<
    (SimpleStmt, usize),
    Failure,
>)
    requires
        pos <= tokens.len(),
    ensures
        parsed(r, pos, simple_stmt(tokens.deep_view(), pos as int)),
        r matches Ok((_, next)) ==> pos < next <= tokens.len(),
{
    let (mut lhs, p) = match parse_expression_list(tokens, pos) {
        Ok(read) => read,
        Err(f) => {
            return Err(f);
        },
    };
    let kind = peek(tokens, p);
    let assign = match kind {
        Some(k) => assign_op_of(k),
        None => None,
    };
    let short = match kind {
        Some(TokenInfo::ColonEq) => true,
        _ => false,
    };
    if assign.is_some() || short {
        match parse_expression_list(tokens, p + 1) {
            Ok((rhs, next)) => {
                let loc = cover(tokens, pos, next);
                match assign {
                    Some(op) => Ok((SimpleStmt::Assign { loc, lhs, op, rhs }, next)),
                    None => Ok((SimpleStmt::ShortVarDecl { loc, lhs, op: None, rhs }, next)),
                }
            },
            Err(f) => Err(f),
        }
    } else if lhs.len() != 1 {
        Err(Failure { at: p, expected: "expected assignment" })
    } else {
        let ghost list = lhs.deep_view();
        let first = lhs.pop().unwrap();
        assert(first.deep_view() == list[0]);
        match kind {
            Some(TokenInfo::LtMinus) => match parse_expression(tokens, p + 1) {
                Ok((value, next)) => Ok(
                    (
                        SimpleStmt::Send {
                            loc: cover(tokens, pos, next),
                            chan: first,
                            value: Rc::new(value),
                        },
                        next,
                    ),
                ),
                Err(f) => Err(f),
            },
            Some(TokenInfo::PlusPlus) => Ok(
                (SimpleStmt::Inc { loc: cover(tokens, pos, p + 1), lhs: first }, p + 1),
            ),
            Some(TokenInfo::MinusMinus) => Ok(
                (SimpleStmt::Dec { loc: cover(tokens, pos, p + 1), lhs: first }, p + 1),
            ),
            _ => Ok((SimpleStmt::Expr { loc: cover(tokens, pos, p), expr: first }, p)),
        }
    }
}

/// Reads what stands between `if` and the block: the leading statement,
/// where there is one, and the condition.
pub(crate) fn parse_if_header(tokens: &Vec<Token>, pos: usize) -> (r: Result<
    ((Option<SimpleStmt>, Rc<Expression>), usize),
    Failure,
>)
    requires
        pos <= tokens.len(),
    ensures
        parsed(r, pos, if_header(tokens.deep_view(), pos as int)),
        r matches Ok((_, next)) ==> pos < next <= tokens.len(),
{
    match parse_simple_stmt(tokens, pos) {
        Ok((first, p)) => {
            if let Some(TokenInfo::Semicolon) = peek(tokens, p) {
                match parse_expression(tokens, p + 1) {
                    Ok((cond, next)) => Ok(((Some(first), Rc::new(cond)), next)),
                    Err(f) => Err(f),
                }
            } else {
                match first {
                    SimpleStmt::Expr { loc: _, expr } => Ok(((None, expr), p)),
                    _ => Err(Failure { at: p, expected: "expected ';'" }),
                }
            }
        },
        Err(f) => Err(f),
    }
}

pub(crate) fn parse_statements(tokens: &Vec<Token>, pos: usize) -> (r: Result<
    (Vec<Rc<Statement>>, usize),
    Failure,
>)
    requires
        pos <= tokens.len(),
    ensures
        parsed(r, pos, statements(tokens.deep_view(), pos as int)),
        r matches Ok((_, next)) ==> pos <= next <= tokens.len(),
    decreases tokens.len() - pos, 4int,
{
    let ghost view = tokens.deep_view();
    let mut list: Vec<Rc<Statement>> = Vec::new();
    let mut p = pos;
    assert(list.deep_view() =~= Seq::empty());
    proof {
        let all = statements(view, pos as int);
        if let Ok((items, _)) = all {
            assert(Seq::empty() + items =~= items);
        }
    }
    loop
        invariant
            view == tokens.deep_view(),
            pos <= p <= tokens.len(),
            statements(view, pos as int) == after(
                list.deep_view(),
                (p - pos) as nat,
                statements(view, p as int),
            ),
        decreases tokens.len() - p,
    {
        let ghost done = list.deep_view();
        match peek(tokens, p) {
            Some(TokenInfo::RBrace) => {
                assert(done + Seq::empty() =~= done);
                return Ok((list, p));
            },
            None | Some(TokenInfo::Eof) => {
                return Err(Failure { at: p, expected: "expected '}'" });
            },
            _ => {},
        }
        match parse_statement(tokens, p) {
            Ok((stmt, next)) => {
                if let Some(TokenInfo::Semicolon) = peek(tokens, next) {
                    let ghost item = stmt.deep_view();
                    push_node(&mut list, Rc::new(stmt));
                    proof {
                        assert(list.deep_view() =~= done + seq![item]);
                        lemma_after_after(
                            done,
                            (p - pos) as nat,
                            seq![item],
                            (next - p + 1) as nat,
                            statements(view, next + 1),
                        );
                    }
                    p = next + 1;
                } else {
                    return Err(Failure { at: next, expected: "expected ';'" });
                }
            },
            Err(f) => {
                return Err(f);
            },
        }
    }
}

pub(crate) fn parse_statement(tokens: &Vec<Token>, pos: usize) -> (r: Result<
    (Statement, usize),
    Failure,
>)
    requires
        pos <= tokens.len(),
    ensures
        parsed(r, pos, statement(tokens.deep_view(), pos as int)),
        r matches Ok((_, next)) ==> pos < next <= tokens.len(),
    decreases tokens.len() - pos, 3int,
{
    match peek(tokens, pos) {
        Some(TokenInfo::Const) | Some(TokenInfo::Type) | Some(TokenInfo::Var) => {
            match parse_declaration(tokens, pos) {
                Ok((decl, next)) => Ok(
                    (Statement::Decl { loc: cover(tokens, pos, next), decl }, next),
                ),
                Err(f) => Err(f),
            }
        },
        Some(TokenInfo::If) => match parse_if_stmt(tokens, pos) {
            Ok((if_, next)) => Ok((Statement::If { loc: cover(tokens, pos, next), if_ }, next)),
            Err(f) => Err(f),
        },
        Some(TokenInfo::Identifier(text)) => {
            if let Some(TokenInfo::Colon) = peek(tokens, pos + 1) {
                match parse_statement(tokens, pos + 2) {
                    Ok((stmt, next)) => Ok(
                        (
                            Statement::Labeled {
                                loc: cover(tokens, pos, next),
                                label: Id { loc: loc_of(tokens, pos), ident: text.clone() },
                                stmt: Rc::new(stmt),
                            },
                            next,
                        ),
                    ),
                    Err(f) => Err(f),
                }
            } else {
                parse_simple(tokens, pos)
            }
        },
        _ => parse_simple(tokens, pos),
    }
}

/// Reads a simple statement as a statement.
fn parse_simple(tokens: &Vec<Token>, pos: usize) -> (r: Result<(Statement, usize), Failure>)
    requires
        pos <= tokens.len(),
    ensures
        match simple_stmt(tokens.deep_view(), pos as int) {
            Ok((simple, n)) => r matches Ok((Statement::Simple { loc, simple: s }, next))
                && s.deep_view() == simple && next == pos + n && pos < next <= tokens.len() && loc
                == covers(tokens.deep_view(), pos as int, pos + n),
            Err(f) => r matches Err(e) && e.deep_view() == f,
        },
{
    match parse_simple_stmt(tokens, pos) {
        Ok((simple, next)) => Ok(
            (Statement::Simple { loc: cover(tokens, pos, next), simple }, next),
        ),
        Err(f) => Err(f),
    }
}

#[verifier::rlimit(30)]
pub(crate) fn parse_if_stmt(tokens: &Vec<Token>, pos: usize) -> (r: Result<
    (IfStmt, usize),
    Failure,
>)
    requires
        pos <= tokens.len(),
    ensures
        parsed(r, pos, if_stmt(tokens.deep_view(), pos as int)),
        r matches Ok((_, next)) ==> pos < next <= tokens.len(),
    decreases tokens.len() - pos, 2int,
{
    if let Some(TokenInfo::If) = peek(tokens, pos) {
        match parse_if_header(tokens, pos + 1) {
            Ok(((stmt, cond), after_header)) => match parse_block(tokens, after_header) {
                Ok((then_, after_block)) => match parse_else_branch(tokens, after_block) {
                    Ok((else_, next)) => {
                        let else_ = match else_ {
                            Some(branch) => Some(Rc::new(branch)),
                            None => None,
                        };
                        let loc = cover(tokens, pos, next);
                        Ok((IfStmt { loc, stmt, cond, then_, else_ }, next))
                    },
                    Err(f) => Err(f),
                },
                Err(f) => Err(f),
            },
            Err(f) => Err(f),
        }
    } else {
        Err(Failure { at: pos, expected: "expected 'if'" })
    }
}

pub(crate) fn parse_else_branch(tokens: &Vec<Token>, pos: usize) -> (r: Result<
    (Option<Else>, usize),
    Failure,
>)
    requires
        pos <= tokens.len(),
    ensures
        parsed(r, pos, else_branch(tokens.deep_view(), pos as int)),
        r matches Ok((_, next)) ==> pos <= next <= tokens.len(),
    decreases tokens.len() - pos, 1int,
{
    if let Some(TokenInfo::Else) = peek(tokens, pos) {
        if let Some(TokenInfo::If) = peek(tokens, pos + 1) {
            match parse_if_stmt(tokens, pos + 1) {
                Ok((if_, next)) => Ok(
                    (Some(Else::If { loc: cover(tokens, pos, next), if_ }), next),
                ),
                Err(f) => Err(f),
            }
        } else {
            match parse_block(tokens, pos + 1) {
                Ok((else_, next)) => Ok(
                    (Some(Else::Else { loc: cover(tokens, pos, next), else_ }), next),
                ),
                Err(f) => Err(f),
            }
        }
    } else {
        Ok((None, pos))
    }
}

pub(crate) fn parse_block(tokens: &Vec<Token>, pos: usize) -> (r: Result<(Block, usize), Failure>)
    requires
        pos <= tokens.len(),
    ensures
        parsed(r, pos, block(tokens.deep_view(), pos as int)),
        r matches Ok((_, next)) ==> pos < next <= tokens.len(),
    decreases tokens.len() - pos, 0int,
{
    if let Some(TokenInfo::LBrace) = peek(tokens, pos) {
        match parse_statements(tokens, pos + 1) {
            Ok((statements, p)) => {
                if let Some(TokenInfo::RBrace) = peek(tokens, p) {
                    let ghost items = statements.deep_view();
                    let block = Block { loc: cover(tokens, pos, p + 1), statements };
                    assert(block.deep_view().statements =~= items);
                    Ok((block, p + 1))
                } else {
                    Err(Failure { at: p, expected: "expected '}'" })
                }
            },
            Err(f) => Err(f),
        }
    } else {
        Err(Failure { at: pos, expected: "expected '{'" })
    }
}

} // verus!
