//! Expressions: operands, unary operators, and binary operators by
//! precedence.

use crate::ast::{BinaryOp, Expression, ExpressionView, Id, LiteralKind, StringLit, UnaryOp};
use crate::lex::token::{Token, TokenInfo};
use crate::parse::cursor::{
    copy_bytes, cover, lemma_after_after, loc_of, parsed, peek, push_node, Failure,
};
use crate::parse::grammar::{
    after, arguments, binary, binary_op, binary_tail, expression, expression_list, ident, operand,
    precedence, primary, string_lit, suffixes, unary, unary_op,
};
use std::rc::Rc;
use vstd::prelude::*;

verus! {

pub(crate) fn unary_op_of(kind: &TokenInfo) -> (r: Option<UnaryOp>)
    ensures
        r == unary_op(kind.deep_view()),
{
    match kind {
        TokenInfo::Plus => Some(UnaryOp::Plus),
        TokenInfo::Minus => Some(UnaryOp::Minus),
        TokenInfo::Not => Some(UnaryOp::Not),
        TokenInfo::Caret => Some(UnaryOp::Xor),
        TokenInfo::Star => Some(UnaryOp::Deref),
        TokenInfo::Amp => Some(UnaryOp::Addr),
        TokenInfo::LtMinus => Some(UnaryOp::Recv),
        _ => None,
    }
}

pub(crate) fn binary_op_of(kind: &TokenInfo) -> (r: Option<BinaryOp>)
    ensures
        r == binary_op(kind.deep_view()),
{
    match kind {
        TokenInfo::PipePipe => Some(BinaryOp::LogicalOr),
        TokenInfo::AmpAmp => Some(BinaryOp::LogicalAnd),
        TokenInfo::EqEq => Some(BinaryOp::Eq),
        TokenInfo::NotEq => Some(BinaryOp::NotEq),
        TokenInfo::Lt => Some(BinaryOp::Lt),
        TokenInfo::LtEq => Some(BinaryOp::LtEq),
        TokenInfo::Gt => Some(BinaryOp::Gt),
        TokenInfo::GtEq => Some(BinaryOp::GtEq),
        TokenInfo::Plus => Some(BinaryOp::Add),
        TokenInfo::Minus => Some(BinaryOp::Sub),
        TokenInfo::Pipe => Some(BinaryOp::Or),
        TokenInfo::Caret => Some(BinaryOp::Xor),
        TokenInfo::Star => Some(BinaryOp::Mul),
        TokenInfo::Slash => Some(BinaryOp::Div),
        TokenInfo::Percent => Some(BinaryOp::Rem),
        TokenInfo::LtLt => Some(BinaryOp::Shl),
        TokenInfo::GtGt => Some(BinaryOp::Shr),
        TokenInfo::Amp => Some(BinaryOp::And),
        TokenInfo::AmpCaret => Some(BinaryOp::AndNot),
        _ => None,
    }
}

pub(crate) fn precedence_of(op: BinaryOp) -> (p: u8)
    ensures
        p == precedence(op),
        1 <= p <= 5,
{
    match op {
        BinaryOp::LogicalOr => 1,
        BinaryOp::LogicalAnd => 2,
        BinaryOp::Eq | BinaryOp::NotEq | BinaryOp::Lt | BinaryOp::LtEq | BinaryOp::Gt
        | BinaryOp::GtEq => 3,
        BinaryOp::Add | BinaryOp::Sub | BinaryOp::Or | BinaryOp::Xor => 4,
        BinaryOp::Mul | BinaryOp::Div | BinaryOp::Rem | BinaryOp::Shl | BinaryOp::Shr
        | BinaryOp::And | BinaryOp::AndNot => 5,
    }
}

pub(crate) fn parse_ident(tokens: &Vec<Token>, pos: usize) -> (r: Result<(Id, usize), Failure>)
    requires
        pos <= tokens.len(),
    ensures
        parsed(r, pos, ident(tokens.deep_view(), pos as int)),
        r matches Ok((_, next)) ==> next == pos + 1 && next <= tokens.len(),
{
    match peek(tokens, pos) {
        Some(TokenInfo::Identifier(text)) => Ok(
            (Id { loc: loc_of(tokens, pos), ident: text.clone() }, pos + 1),
        ),
        _ => Err(Failure { at: pos, expected: "expected identifier" }),
    }
}

pub(crate) fn parse_string_lit(tokens: &Vec<Token>, pos: usize) -> (r: Result<
    (StringLit, usize),
    Failure,
>)
    requires
        pos <= tokens.len(),
    ensures
        parsed(r, pos, string_lit(tokens.deep_view(), pos as int)),
        r matches Ok((_, next)) ==> pos < next <= tokens.len(),
{
    if let Some(TokenInfo::StringBeg) = peek(tokens, pos) {
        if let Some(TokenInfo::StringContents(bytes)) = peek(tokens, pos + 1) {
            if let Some(TokenInfo::StringEnd) = peek(tokens, pos + 2) {
                let lit = StringLit { loc: cover(tokens, pos, pos + 3), value: copy_bytes(bytes) };
                return Ok((lit, pos + 3));
            }
        }
    }
    Err(Failure { at: pos, expected: "expected string literal" })
}

fn literal(tokens: &Vec<Token>, pos: usize, kind: LiteralKind, text: &String) -> (e: Expression)
    requires
        pos < tokens.len(),
    ensures
        e == (Expression::Literal { loc: tokens@[pos as int].loc, kind, text: *text }),
{
    Expression::Literal { loc: loc_of(tokens, pos), kind, text: text.clone() }
}

pub(crate) fn parse_operand(tokens: &Vec<Token>, pos: usize) -> (r: Result<
    (Expression, usize),
    Failure,
>)
    requires
        pos <= tokens.len(),
    ensures
        parsed(r, pos, operand(tokens.deep_view(), pos as int)),
        r matches Ok((_, next)) ==> pos < next <= tokens.len(),
    decreases tokens.len() - pos, 1int,
{
    match peek(tokens, pos) {
        Some(TokenInfo::Identifier(text)) => Ok(
            (Expression::Ident { loc: loc_of(tokens, pos), ident: text.clone() }, pos + 1),
        ),
        Some(TokenInfo::DecInt(text)) => Ok(
            (literal(tokens, pos, LiteralKind::Dec, text), pos + 1),
        ),
        Some(TokenInfo::OctInt(text)) => Ok(
            (literal(tokens, pos, LiteralKind::Oct, text), pos + 1),
        ),
        Some(TokenInfo::HexInt(text)) => Ok(
            (literal(tokens, pos, LiteralKind::Hex, text), pos + 1),
        ),
        Some(TokenInfo::Float(text)) => Ok(
            (literal(tokens, pos, LiteralKind::Float, text), pos + 1),
        ),
        Some(TokenInfo::Imaginary(text)) => Ok(
            (literal(tokens, pos, LiteralKind::Imaginary, text), pos + 1),
        ),
        Some(TokenInfo::RuneBeg) => {
            if let Some(TokenInfo::RuneContents(c)) = peek(tokens, pos + 1) {
                if let Some(TokenInfo::RuneEnd) = peek(tokens, pos + 2) {
                    return Ok(
                        (Expression::Rune { loc: cover(tokens, pos, pos + 3), value: *c }, pos + 3),
                    );
                }
            }
            Err(Failure { at: pos, expected: "expected expression" })
        },
        Some(TokenInfo::StringBeg) => match parse_string_lit(tokens, pos) {
            Ok((lit, next)) => Ok((Expression::Str { loc: lit.loc, value: lit.value }, next)),
            Err(_) => Err(Failure { at: pos, expected: "expected expression" }),
        },
        Some(TokenInfo::LParen) => match parse_expression(tokens, pos + 1) {
            Ok((inner, next)) => {
                if let Some(TokenInfo::RParen) = peek(tokens, next) {
                    Ok(
                        (
                            Expression::Paren {
                                loc: cover(tokens, pos, next + 1),
                                expr: Rc::new(inner),
                            },
                            next + 1,
                        ),
                    )
                } else {
                    Err(Failure { at: next, expected: "expected ')'" })
                }
            },
            Err(f) => Err(f),
        },
        _ => Err(Failure { at: pos, expected: "expected expression" }),
    }
}

/// Reads the selectors, calls and indexes that follow the operand `base`,
/// which started at `start` and ends before `pos`.
#[verifier::rlimit(30)]
pub(crate) fn parse_suffixes(
    tokens: &Vec<Token>,
    start: usize,
    pos: usize,
    base: Expression,
) -> (r: Result<(Expression, usize), Failure>)
    requires
        start < pos <= tokens.len(),
    ensures
        parsed(
            r,
            pos,
            suffixes(tokens.deep_view(), start as int, pos as int, base.deep_view()),
        ),
        r matches Ok((_, next)) ==> pos <= next <= tokens.len(),
    decreases tokens.len() - pos, 2int,
{
    match peek(tokens, pos) {
        Some(TokenInfo::Dot) => match parse_ident(tokens, pos + 1) {
            Ok((name, next)) => {
                let selected = Expression::Selector {
                    loc: cover(tokens, start, next),
                    operand: Rc::new(base),
                    name,
                };
                parse_suffixes(tokens, start, next, selected)
            },
            Err(f) => Err(f),
        },
        Some(TokenInfo::LParen) => match parse_arguments(tokens, pos + 1) {
            Ok((args, p)) => {
                if let Some(TokenInfo::RParen) = peek(tokens, p) {
                    let ghost list = args.deep_view();
                    let called = Expression::Call {
                        loc: cover(tokens, start, p + 1),
                        callee: Rc::new(base),
                        args,
                    };
                    proof {
                        if let ExpressionView::Call { args: views, .. } = called.deep_view() {
                            assert(views =~= list);
                        }
                    }
                    parse_suffixes(tokens, start, p + 1, called)
                } else {
                    Err(Failure { at: p, expected: "expected ')'" })
                }
            },
            Err(f) => Err(f),
        },
        Some(TokenInfo::LBracket) => match parse_expression(tokens, pos + 1) {
            Ok((index, p)) => {
                if let Some(TokenInfo::RBracket) = peek(tokens, p) {
                    let indexed = Expression::Index {
                        loc: cover(tokens, start, p + 1),
                        operand: Rc::new(base),
                        index: Rc::new(index),
                    };
                    parse_suffixes(tokens, start, p + 1, indexed)
                } else {
                    Err(Failure { at: p, expected: "expected ']'" })
                }
            },
            Err(f) => Err(f),
        },
        _ => Ok((base, pos)),
    }
}

/// Reads the arguments of a call, up to its closing parenthesis.
pub(crate) fn parse_arguments(tokens: &Vec<Token>, pos: usize) -> (r: Result<
    (Vec<Rc<Expression>>, usize),
    Failure,
>)
    requires
        pos <= tokens.len(),
    ensures
        parsed(r, pos, arguments(tokens.deep_view(), pos as int)),
        r matches Ok((_, next)) ==> pos <= next <= tokens.len(),
    decreases tokens.len() - pos, 9int,
{
    if let Some(TokenInfo::RParen) = peek(tokens, pos) {
        let args: Vec<Rc<Expression>> = Vec::new();
        assert(args.deep_view() =~= Seq::empty());
        Ok((args, pos))
    } else {
        parse_expression_list(tokens, pos)
    }
}

pub(crate) fn parse_primary(tokens: &Vec<Token>, pos: usize) -> (r: Result<
    (Expression, usize),
    Failure,
>)
    requires
        pos <= tokens.len(),
    ensures
        parsed(r, pos, primary(tokens.deep_view(), pos as int)),
        r matches Ok((_, next)) ==> pos < next <= tokens.len(),
    decreases tokens.len() - pos, 3int,
{
    match parse_operand(tokens, pos) {
        Ok((base, next)) => parse_suffixes(tokens, pos, next, base),
        Err(f) => Err(f),
    }
}

pub(crate) fn parse_unary(tokens: &Vec<Token>, pos: usize) -> (r: Result<
    (Expression, usize),
    Failure,
>)
    requires
        pos <= tokens.len(),
    ensures
        parsed(r, pos, unary(tokens.deep_view(), pos as int)),
        r matches Ok((_, next)) ==> pos < next <= tokens.len(),
    decreases tokens.len() - pos, 4int,
{
    let op = match peek(tokens, pos) {
        Some(kind) => unary_op_of(kind),
        None => None,
    };
    match op {
        Some(op) => match parse_unary(tokens, pos + 1) {
            Ok((inner, next)) => Ok(
                (
                    Expression::Unary {
                        loc: cover(tokens, pos, next),
                        op,
                        operand: Rc::new(inner),
                    },
                    next,
                ),
            ),
            Err(f) => Err(f),
        },
        None => parse_primary(tokens, pos),
    }
}

/// Reads the operators and operands that follow the left operand `lhs`,
/// which started at `start` and ends before `pos`.
pub(crate) fn parse_binary_tail(
    tokens: &Vec<Token>,
    start: usize,
    pos: usize,
    lhs: Expression,
    min: u8,
) -> (r: Result<(Expression, usize), Failure>)
    requires
        start < pos <= tokens.len(),
        1 <= min <= 6,
    ensures
        parsed(
            r,
            pos,
            binary_tail(tokens.deep_view(), start as int, pos as int, lhs.deep_view(), min as nat),
        ),
        r matches Ok((_, next)) ==> pos <= next <= tokens.len(),
    decreases tokens.len() - pos, 5int,
{
    let op = match peek(tokens, pos) {
        Some(kind) => binary_op_of(kind),
        None => None,
    };
    match op {
        Some(op) if precedence_of(op) >= min => match parse_binary(
            tokens,
            pos + 1,
            precedence_of(op) + 1,
        ) {
            Ok((rhs, next)) => {
                let both = Expression::Binary {
                    loc: cover(tokens, start, next),
                    op,
                    lhs: Rc::new(lhs),
                    rhs: Rc::new(rhs),
                };
                parse_binary_tail(tokens, start, next, both, min)
            },
            Err(f) => Err(f),
        },
        _ => Ok((lhs, pos)),
    }
}

/// Reads an expression of operators that bind at least as tightly as `min`.
pub(crate) fn parse_binary(tokens: &Vec<Token>, pos: usize, min: u8) -> (r: Result<
    (Expression, usize),
    Failure,
>)
    requires
        pos <= tokens.len(),
        1 <= min <= 6,
    ensures
        parsed(r, pos, binary(tokens.deep_view(), pos as int, min as nat)),
        r matches Ok((_, next)) ==> pos < next <= tokens.len(),
    decreases tokens.len() - pos, 6int,
{
    match parse_unary(tokens, pos) {
        Ok((lhs, next)) => parse_binary_tail(tokens, pos, next, lhs, min),
        Err(f) => Err(f),
    }
}

pub(crate) fn parse_expression(tokens: &Vec<Token>, pos: usize) -> (r: Result<
    (Expression, usize),
    Failure,
>)
    requires
        pos <= tokens.len(),
    ensures
        parsed(r, pos, expression(tokens.deep_view(), pos as int)),
        r matches Ok((_, next)) ==> pos < next <= tokens.len(),
    decreases tokens.len() - pos, 7int,
{
    parse_binary(tokens, pos, 1)
}

pub(crate) fn parse_expression_list(tokens: &Vec<Token>, pos: usize) -> (r: Result<
    (Vec<Rc<Expression>>, usize),
    Failure,
>)
    requires
        pos <= tokens.len(),
    ensures
        parsed(r, pos, expression_list(tokens.deep_view(), pos as int)),
        r matches Ok((list, next)) ==> pos < next <= tokens.len() && list.len() >= 1,
    decreases tokens.len() - pos, 8int,
{
    let ghost view = tokens.deep_view();
    let mut list: Vec<Rc<Expression>> = Vec::new();
    let mut p = pos;
    assert(list.deep_view() =~= Seq::empty());
    proof {
        let all = expression_list(view, pos as int);
        if let Ok((items, _)) = all {
            assert(Seq::empty() + items =~= items);
        }
    }
    loop
        invariant
            view == tokens.deep_view(),
            pos <= p <= tokens.len(),
            p == pos <==> list.len() == 0,
            expression_list(view, pos as int) == after(
                list.deep_view(),
                (p - pos) as nat,
                expression_list(view, p as int),
            ),
        decreases tokens.len() - p,
    {
        let ghost done = list.deep_view();
        match parse_expression(tokens, p) {
            Ok((e, next)) => {
                let ghost item = e.deep_view();
                push_node(&mut list, Rc::new(e));
                assert(list.deep_view() =~= done + seq![item]);
                if let Some(TokenInfo::Comma) = peek(tokens, next) {
                    proof {
                        lemma_after_after(
                            done,
                            (p - pos) as nat,
                            seq![item],
                            (next - p + 1) as nat,
                            expression_list(view, next + 1),
                        );
                    }
                    p = next + 1;
                } else {
                    return Ok((list, next));
                }
            },
            Err(f) => {
                return Err(f);
            },
        }
    }
}

} // verus!
