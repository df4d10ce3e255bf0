//! The grammar, as functions from a token stream and a position in it to
//! the node that starts there and the number of tokens that it spans, or to
//! the first token that does not fit.
//!
//! Behind the last token the stream counts as an endless run of
//! end-of-input tokens. The location of a node joins the locations of its
//! first and its last token.

use crate::ast::{
    AssignOp, BinaryOp, BlockView, ConstDeclView, ConstSpecView, DeclarationView, ElseView,
    ExpressionView, FunctionDeclView, IdView, IfStmtView, ImportNameView, ImportSpecView,
    LiteralKind, MethodDeclView, PackageClauseView, SimpleStmtView, SourceFileView, StatementView,
    StringLitView, TopLevelDeclView, TypeDeclView, TypeView, UnaryOp, VarDeclView,
};
use crate::lex::token::{KindView, TokenInfo, TokenView};
use crate::loc::Loc;
use vstd::prelude::*;

verus! {

/// Where parsing failed: the position of the token that did not fit, and
/// what was expected in its place.
pub struct FailureView {
    pub at: int,
    pub expected: Seq<char>,
}

/// The location that stands for the end of the token stream: the end of
/// its last token.
pub open spec fn end_loc(tokens: Seq<TokenView>) -> Loc {
    if tokens.len() == 0 {
        Loc { start: 0, end: 0 }
    } else {
        Loc { start: tokens.last().loc.end, end: tokens.last().loc.end }
    }
}

/// The token at `pos`; behind the last token, the end of input.
pub open spec fn token_at(tokens: Seq<TokenView>, pos: int) -> TokenView {
    if 0 <= pos < tokens.len() {
        tokens[pos]
    } else {
        TokenView { loc: end_loc(tokens), kind: KindView::Plain(TokenInfo::Eof) }
    }
}

pub open spec fn kind_at(tokens: Seq<TokenView>, pos: int) -> KindView {
    token_at(tokens, pos).kind
}

pub open spec fn loc_at(tokens: Seq<TokenView>, pos: int) -> Loc {
    token_at(tokens, pos).loc
}

/// Whether the token at `pos` is of the kind `kind`, a kind without text.
pub open spec fn is_at(tokens: Seq<TokenView>, pos: int, kind: TokenInfo) -> bool {
    kind_at(tokens, pos) == KindView::Plain(kind)
}

/// The location of the tokens from `first` up to `next`, the position
/// behind the last of them.
pub open spec fn covers(tokens: Seq<TokenView>, first: int, next: int) -> Loc {
    loc_at(tokens, first).spec_join(loc_at(tokens, next - 1))
}

/// The number of tokens from `pos` on.
pub open spec fn remaining(tokens: Seq<TokenView>, pos: int) -> int {
    if pos < tokens.len() {
        tokens.len() - pos
    } else {
        0
    }
}

pub open spec fn fail<T>(at: int, expected: &str) -> Result<T, FailureView> {
    Err(FailureView { at, expected: expected@ })
}

/// `Identifier`
pub open spec fn ident(tokens: Seq<TokenView>, pos: int) -> Result<(IdView, nat), FailureView> {
    match kind_at(tokens, pos) {
        KindView::Identifier(text) => Ok((IdView { loc: loc_at(tokens, pos), ident: text }, 1)),
        _ => fail(pos, "expected identifier"),
    }
}

/// `StringLit`: the three tokens of a string literal.
pub open spec fn string_lit(tokens: Seq<TokenView>, pos: int) -> Result<
    (StringLitView, nat),
    FailureView,
> {
    match kind_at(tokens, pos + 1) {
        KindView::StringContents(bytes) if is_at(tokens, pos, TokenInfo::StringBeg) && is_at(
            tokens,
            pos + 2,
            TokenInfo::StringEnd,
        ) => Ok((StringLitView { loc: covers(tokens, pos, pos + 3), value: bytes }, 3)),
        _ => fail(pos, "expected string literal"),
    }
}

/// `Type := Identifier`
pub open spec fn type_(tokens: Seq<TokenView>, pos: int) -> Result<(TypeView, nat), FailureView> {
    match kind_at(tokens, pos) {
        KindView::Identifier(text) => Ok(
            (
                TypeView {
                    loc: loc_at(tokens, pos),
                    name: IdView { loc: loc_at(tokens, pos), ident: text },
                },
                1,
            ),
        ),
        _ => fail(pos, "expected type"),
    }
}

/// The unary operator that a token of this kind is, if it is one.
pub open spec fn unary_op(kind: KindView) -> Option<UnaryOp> {
    match kind {
        KindView::Plain(TokenInfo::Plus) => Some(UnaryOp::Plus),
        KindView::Plain(TokenInfo::Minus) => Some(UnaryOp::Minus),
        KindView::Plain(TokenInfo::Not) => Some(UnaryOp::Not),
        KindView::Plain(TokenInfo::Caret) => Some(UnaryOp::Xor),
        KindView::Plain(TokenInfo::Star) => Some(UnaryOp::Deref),
        KindView::Plain(TokenInfo::Amp) => Some(UnaryOp::Addr),
        KindView::Plain(TokenInfo::LtMinus) => Some(UnaryOp::Recv),
        _ => None,
    }
}

/// The binary operator that a token of this kind is, if it is one.
pub open spec fn binary_op(kind: KindView) -> Option<BinaryOp> {
    match kind {
        KindView::Plain(TokenInfo::PipePipe) => Some(BinaryOp::LogicalOr),
        KindView::Plain(TokenInfo::AmpAmp) => Some(BinaryOp::LogicalAnd),
        KindView::Plain(TokenInfo::EqEq) => Some(BinaryOp::Eq),
        KindView::Plain(TokenInfo::NotEq) => Some(BinaryOp::NotEq),
        KindView::Plain(TokenInfo::Lt) => Some(BinaryOp::Lt),
        KindView::Plain(TokenInfo::LtEq) => Some(BinaryOp::LtEq),
        KindView::Plain(TokenInfo::Gt) => Some(BinaryOp::Gt),
        KindView::Plain(TokenInfo::GtEq) => Some(BinaryOp::GtEq),
        KindView::Plain(TokenInfo::Plus) => Some(BinaryOp::Add),
        KindView::Plain(TokenInfo::Minus) => Some(BinaryOp::Sub),
        KindView::Plain(TokenInfo::Pipe) => Some(BinaryOp::Or),
        KindView::Plain(TokenInfo::Caret) => Some(BinaryOp::Xor),
        KindView::Plain(TokenInfo::Star) => Some(BinaryOp::Mul),
        KindView::Plain(TokenInfo::Slash) => Some(BinaryOp::Div),
        KindView::Plain(TokenInfo::Percent) => Some(BinaryOp::Rem),
        KindView::Plain(TokenInfo::LtLt) => Some(BinaryOp::Shl),
        KindView::Plain(TokenInfo::GtGt) => Some(BinaryOp::Shr),
        KindView::Plain(TokenInfo::Amp) => Some(BinaryOp::And),
        KindView::Plain(TokenInfo::AmpCaret) => Some(BinaryOp::AndNot),
        _ => None,
    }
}

/// How tightly a binary operator binds, from 1 (`||`) to 5 (`*`).
pub open spec fn precedence(op: BinaryOp) -> nat {
    match op {
        BinaryOp::LogicalOr => 1,
        BinaryOp::LogicalAnd => 2,
        BinaryOp::Eq | BinaryOp::NotEq | BinaryOp::Lt | BinaryOp::LtEq | BinaryOp::Gt
        | BinaryOp::GtEq => 3,
        BinaryOp::Add | BinaryOp::Sub | BinaryOp::Or | BinaryOp::Xor => 4,
        BinaryOp::Mul | BinaryOp::Div | BinaryOp::Rem | BinaryOp::Shl | BinaryOp::Shr
        | BinaryOp::And | BinaryOp::AndNot => 5,
    }
}

/// The operator of the assignment that a token of this kind makes, if it
/// makes one: none for `=`, the operator for `+=` and the like.
pub open spec fn assign_op(kind: KindView) -> Option<Option<AssignOp>> {
    match kind {
        KindView::Plain(TokenInfo::Eq) => Some(None),
        KindView::Plain(TokenInfo::PlusEq) => Some(Some(AssignOp::Add)),
        KindView::Plain(TokenInfo::MinusEq) => Some(Some(AssignOp::Sub)),
        KindView::Plain(TokenInfo::StarEq) => Some(Some(AssignOp::Mul)),
        KindView::Plain(TokenInfo::SlashEq) => Some(Some(AssignOp::Div)),
        KindView::Plain(TokenInfo::PercentEq) => Some(Some(AssignOp::Rem)),
        KindView::Plain(TokenInfo::AmpEq) => Some(Some(AssignOp::And)),
        KindView::Plain(TokenInfo::PipeEq) => Some(Some(AssignOp::Or)),
        KindView::Plain(TokenInfo::CaretEq) => Some(Some(AssignOp::Xor)),
        KindView::Plain(TokenInfo::LtLtEq) => Some(Some(AssignOp::Shl)),
        KindView::Plain(TokenInfo::GtGtEq) => Some(Some(AssignOp::Shr)),
        KindView::Plain(TokenInfo::AmpCaretEq) => Some(Some(AssignOp::AndNot)),
        _ => None,
    }
}

/// What was read behind `used` tokens, counted from before those tokens.
pub open spec fn further<V>(used: nat, rest: Result<(V, nat), FailureView>) -> Result<
    (V, nat),
    FailureView,
> {
    match rest {
        Ok((node, n)) => Ok((node, used + n)),
        Err(f) => Err(f),
    }
}

/// `Operand := Identifier | literal | "(" Expression ")"`
pub open spec fn operand(tokens: Seq<TokenView>, pos: int) -> Result<
    (ExpressionView, nat),
    FailureView,
>
    decreases remaining(tokens, pos), 1int,
{
    let loc = loc_at(tokens, pos);
    match kind_at(tokens, pos) {
        KindView::Identifier(text) => Ok((ExpressionView::Ident { loc, ident: text }, 1)),
        KindView::DecInt(text) => Ok(
            (ExpressionView::Literal { loc, kind: LiteralKind::Dec, text }, 1),
        ),
        KindView::OctInt(text) => Ok(
            (ExpressionView::Literal { loc, kind: LiteralKind::Oct, text }, 1),
        ),
        KindView::HexInt(text) => Ok(
            (ExpressionView::Literal { loc, kind: LiteralKind::Hex, text }, 1),
        ),
        KindView::Float(text) => Ok(
            (ExpressionView::Literal { loc, kind: LiteralKind::Float, text }, 1),
        ),
        KindView::Imaginary(text) => Ok(
            (ExpressionView::Literal { loc, kind: LiteralKind::Imaginary, text }, 1),
        ),
        KindView::Plain(TokenInfo::RuneBeg) => match kind_at(tokens, pos + 1) {
            KindView::Plain(TokenInfo::RuneContents(c)) if is_at(
                tokens,
                pos + 2,
                TokenInfo::RuneEnd,
            ) => Ok((ExpressionView::Rune { loc: covers(tokens, pos, pos + 3), value: c }, 3)),
            _ => fail(pos, "expected expression"),
        },
        KindView::Plain(TokenInfo::StringBeg) => match string_lit(tokens, pos) {
            Ok((lit, n)) => Ok((ExpressionView::Str { loc: lit.loc, value: lit.value }, n)),
            Err(_) => fail(pos, "expected expression"),
        },
        KindView::Plain(TokenInfo::LParen) => match expression(tokens, pos + 1) {
            Ok((inner, n)) => if is_at(tokens, pos + 1 + n, TokenInfo::RParen) {
                Ok(
                    (
                        ExpressionView::Paren {
                            loc: covers(tokens, pos, pos + n + 2),
                            expr: Box::new(inner),
                        },
                        (n + 2) as nat,
                    ),
                )
            } else {
                fail(pos + 1 + n, "expected ')'")
            },
            Err(f) => Err(f),
        },
        _ => fail(pos, "expected expression"),
    }
}

/// What follows the operand `base` of a primary expression, which started
/// at `start` and ends before `pos`: selectors, calls and indexes, each
/// applied to what stands before it.
pub open spec fn suffixes(
    tokens: Seq<TokenView>,
    start: int,
    pos: int,
    base: ExpressionView,
) -> Result<(ExpressionView, nat), FailureView>
    decreases remaining(tokens, pos), 2int,
{
    if is_at(tokens, pos, TokenInfo::Dot) {
        match ident(tokens, pos + 1) {
            Ok((name, _)) => {
                let selected = ExpressionView::Selector {
                    loc: covers(tokens, start, pos + 2),
                    operand: Box::new(base),
                    name,
                };
                further(2, suffixes(tokens, start, pos + 2, selected))
            },
            Err(f) => Err(f),
        }
    } else if is_at(tokens, pos, TokenInfo::LParen) {
        match arguments(tokens, pos + 1) {
            Ok((args, n)) => if is_at(tokens, pos + 1 + n, TokenInfo::RParen) {
                let called = ExpressionView::Call {
                    loc: covers(tokens, start, pos + n + 2),
                    callee: Box::new(base),
                    args,
                };
                further(n + 2, suffixes(tokens, start, pos + n + 2, called))
            } else {
                fail(pos + 1 + n, "expected ')'")
            },
            Err(f) => Err(f),
        }
    } else if is_at(tokens, pos, TokenInfo::LBracket) {
        match expression(tokens, pos + 1) {
            Ok((index, n)) => if is_at(tokens, pos + 1 + n, TokenInfo::RBracket) {
                let indexed = ExpressionView::Index {
                    loc: covers(tokens, start, pos + n + 2),
                    operand: Box::new(base),
                    index: Box::new(index),
                };
                further(n + 2, suffixes(tokens, start, pos + n + 2, indexed))
            } else {
                fail(pos + 1 + n, "expected ']'")
            },
            Err(f) => Err(f),
        }
    } else {
        Ok((base, 0))
    }
}

/// `[ ExpressionList ]`: the arguments of a call, up to its closing
/// parenthesis.
pub open spec fn arguments(tokens: Seq<TokenView>, pos: int) -> Result<
    (Seq<ExpressionView>, nat),
    FailureView,
>
    decreases remaining(tokens, pos), 9int,
{
    if is_at(tokens, pos, TokenInfo::RParen) {
        Ok((Seq::empty(), 0))
    } else {
        expression_list(tokens, pos)
    }
}

/// `PrimaryExpr := Operand { "." Identifier | "(" [ ExpressionList ] ")" | "[" Expression "]" }`
pub open spec fn primary(tokens: Seq<TokenView>, pos: int) -> Result<
    (ExpressionView, nat),
    FailureView,
>
    decreases remaining(tokens, pos), 3int,
{
    match operand(tokens, pos) {
        Ok((base, n)) => further(n, suffixes(tokens, pos, pos + n, base)),
        Err(f) => Err(f),
    }
}

/// `UnaryExpr := unary_op UnaryExpr | PrimaryExpr`
pub open spec fn unary(tokens: Seq<TokenView>, pos: int) -> Result<
    (ExpressionView, nat),
    FailureView,
>
    decreases remaining(tokens, pos), 4int,
{
    match unary_op(kind_at(tokens, pos)) {
        Some(op) => match unary(tokens, pos + 1) {
            Ok((inner, n)) => Ok(
                (
                    ExpressionView::Unary {
                        loc: covers(tokens, pos, pos + n + 1),
                        op,
                        operand: Box::new(inner),
                    },
                    (n + 1) as nat,
                ),
            ),
            Err(f) => Err(f),
        },
        None => primary(tokens, pos),
    }
}

/// What follows the left operand `lhs` of a binary operator. The operand
/// started at `start` and ends before `pos`. Operators that bind less
/// tightly than `min` are left to the caller.
pub open spec fn binary_tail(
    tokens: Seq<TokenView>,
    start: int,
    pos: int,
    lhs: ExpressionView,
    min: nat,
) -> Result<(ExpressionView, nat), FailureView>
    decreases remaining(tokens, pos), 5int,
{
    match binary_op(kind_at(tokens, pos)) {
        Some(op) if precedence(op) >= min => match binary(tokens, pos + 1, precedence(op) + 1) {
            Ok((rhs, n)) => {
                let both = ExpressionView::Binary {
                    loc: covers(tokens, start, pos + 1 + n),
                    op,
                    lhs: Box::new(lhs),
                    rhs: Box::new(rhs),
                };
                further(n + 1, binary_tail(tokens, start, pos + 1 + n, both, min))
            },
            Err(f) => Err(f),
        },
        _ => Ok((lhs, 0)),
    }
}

/// An expression of operators that bind at least as tightly as `min`.
/// Operators of one precedence associate to the left.
pub open spec fn binary(tokens: Seq<TokenView>, pos: int, min: nat) -> Result<
    (ExpressionView, nat),
    FailureView,
>
    decreases remaining(tokens, pos), 6int,
{
    match unary(tokens, pos) {
        Ok((lhs, n)) => further(n, binary_tail(tokens, pos, pos + n, lhs, min)),
        Err(f) => Err(f),
    }
}

/// `Expression := UnaryExpr { binary_op UnaryExpr }`
pub open spec fn expression(tokens: Seq<TokenView>, pos: int) -> Result<
    (ExpressionView, nat),
    FailureView,
>
    decreases remaining(tokens, pos), 7int,
{
    binary(tokens, pos, 1)
}

/// `done`, which took `used` tokens, in front of the rest of a list.
pub open spec fn after<V>(
    done: Seq<V>,
    used: nat,
    rest: Result<(Seq<V>, nat), FailureView>,
) -> Result<(Seq<V>, nat), FailureView> {
    match rest {
        Ok((more, n)) => Ok((done + more, used + n)),
        Err(f) => Err(f),
    }
}

/// `ExpressionList := Expression { "," Expression }`
pub open spec fn expression_list(tokens: Seq<TokenView>, pos: int) -> Result<
    (Seq<ExpressionView>, nat),
    FailureView,
>
    decreases remaining(tokens, pos), 8int,
{
    match expression(tokens, pos) {
        Ok((first, n)) => if is_at(tokens, pos + n, TokenInfo::Comma) {
            after(seq![first], n + 1, expression_list(tokens, pos + n + 1))
        } else {
            Ok((seq![first], n))
        },
        Err(f) => Err(f),
    }
}

/// `IdentifierList := Identifier { "," Identifier }`
pub open spec fn identifier_list(tokens: Seq<TokenView>, pos: int) -> Result<
    (Seq<IdView>, nat),
    FailureView,
>
    decreases remaining(tokens, pos),
{
    match ident(tokens, pos) {
        Ok((first, n)) => if is_at(tokens, pos + n, TokenInfo::Comma) {
            after(seq![first], n + 1, identifier_list(tokens, pos + n + 1))
        } else {
            Ok((seq![first], n))
        },
        Err(f) => Err(f),
    }
}

/// `ConstSpec := IdentifierList [ Type ] [ "=" ExpressionList ]`
pub open spec fn value_spec(tokens: Seq<TokenView>, pos: int) -> Result<
    (ConstSpecView, nat),
    FailureView,
> {
    match identifier_list(tokens, pos) {
        Ok((idents, n)) => {
            let (ty, k): (Option<TypeView>, nat) = match type_(tokens, pos + n) {
                Ok((t, k)) => (Some(t), k),
                Err(_) => (None, 0),
            };
            let p = pos + n + k;
            if is_at(tokens, p, TokenInfo::Eq) {
                match expression_list(tokens, p + 1) {
                    Ok((exprs, m)) => Ok(
                        (
                            ConstSpecView {
                                loc: covers(tokens, pos, p + 1 + m),
                                idents,
                                type_: ty,
                                exprs,
                            },
                            (n + k + 1 + m) as nat,
                        ),
                    ),
                    Err(f) => Err(f),
                }
            } else {
                Ok(
                    (
                        ConstSpecView {
                            loc: covers(tokens, pos, p),
                            idents,
                            type_: ty,
                            exprs: Seq::empty(),
                        },
                        (n + k) as nat,
                    ),
                )
            }
        },
        Err(f) => Err(f),
    }
}

/// `{ ConstSpec ";" }`, up to a closing parenthesis.
pub open spec fn value_specs(tokens: Seq<TokenView>, pos: int) -> Result<
    (Seq<ConstSpecView>, nat),
    FailureView,
>
    decreases remaining(tokens, pos),
{
    if is_at(tokens, pos, TokenInfo::RParen) {
        Ok((Seq::empty(), 0))
    } else {
        match value_spec(tokens, pos) {
            Ok((spec, n)) => if is_at(tokens, pos + n, TokenInfo::Semicolon) {
                after(seq![spec], n + 1, value_specs(tokens, pos + n + 1))
            } else {
                fail(pos + n, "expected ';'")
            },
            Err(f) => Err(f),
        }
    }
}

/// `ConstSpec | "(" { ConstSpec ";" } ")"`: what follows `const` or `var`.
pub open spec fn spec_group(tokens: Seq<TokenView>, pos: int) -> Result<
    (Seq<ConstSpecView>, nat),
    FailureView,
> {
    if is_at(tokens, pos, TokenInfo::LParen) {
        match value_specs(tokens, pos + 1) {
            Ok((specs, n)) => if is_at(tokens, pos + 1 + n, TokenInfo::RParen) {
                Ok((specs, (n + 2) as nat))
            } else {
                fail(pos + 1 + n, "expected ')'")
            },
            Err(f) => Err(f),
        }
    } else {
        match value_spec(tokens, pos) {
            Ok((spec, n)) => Ok((seq![spec], n)),
            Err(f) => Err(f),
        }
    }
}

/// `Declaration := ConstDecl | TypeDecl | VarDecl`, with
/// `ConstDecl := "const" ( ConstSpec | "(" { ConstSpec ";" } ")" )`,
/// `VarDecl` likewise behind `var`, and `TypeDecl := "type" Identifier Type`.
pub open spec fn declaration(tokens: Seq<TokenView>, pos: int) -> Result<
    (DeclarationView, nat),
    FailureView,
> {
    if is_at(tokens, pos, TokenInfo::Const) || is_at(tokens, pos, TokenInfo::Var) {
        match spec_group(tokens, pos + 1) {
            Ok((specs, n)) => {
                let loc = covers(tokens, pos, pos + 1 + n);
                if is_at(tokens, pos, TokenInfo::Const) {
                    Ok(
                        (
                            DeclarationView::Const { loc, decl: ConstDeclView { loc, specs } },
                            (n + 1) as nat,
                        ),
                    )
                } else {
                    Ok(
                        (
                            DeclarationView::Var { loc, decl: VarDeclView { loc, specs } },
                            (n + 1) as nat,
                        ),
                    )
                }
            },
            Err(f) => Err(f),
        }
    } else if is_at(tokens, pos, TokenInfo::Type) {
        match (ident(tokens, pos + 1), type_(tokens, pos + 2)) {
            (Ok((name, _)), Ok((ty, _))) => {
                let loc = covers(tokens, pos, pos + 3);
                Ok((DeclarationView::Type { loc, decl: TypeDeclView { loc, name, type_: ty } }, 3))
            },
            (Err(f), _) => Err(f),
            (_, Err(f)) => Err(f),
        }
    } else {
        fail(pos, "expected declaration")
    }
}

/// `SimpleStmt`: an expression; a send (`<-`); an increment or a decrement;
/// an assignment; or a short variable declaration (`:=`, which takes no
/// operator).
pub open spec fn simple_stmt(tokens: Seq<TokenView>, pos: int) -> Result<
    (SimpleStmtView, nat),
    FailureView,
> {
    match expression_list(tokens, pos) {
        Ok((lhs, n)) => {
            let p = pos + n;
            let kind = kind_at(tokens, p);
            if assign_op(kind) is Some || is_at(tokens, p, TokenInfo::ColonEq) {
                match expression_list(tokens, p + 1) {
                    Ok((rhs, m)) => {
                        let loc = covers(tokens, pos, p + 1 + m);
                        if assign_op(kind) is Some {
                            let op = assign_op(kind)->0;
                            Ok((SimpleStmtView::Assign { loc, lhs, op, rhs }, (n + 1 + m) as nat))
                        } else {
                            Ok(
                                (
                                    SimpleStmtView::ShortVarDecl { loc, lhs, op: None, rhs },
                                    (n + 1 + m) as nat,
                                ),
                            )
                        }
                    },
                    Err(f) => Err(f),
                }
            } else if lhs.len() != 1 {
                fail(p, "expected assignment")
            } else if is_at(tokens, p, TokenInfo::LtMinus) {
                match expression(tokens, p + 1) {
                    Ok((value, m)) => Ok(
                        (
                            SimpleStmtView::Send {
                                loc: covers(tokens, pos, p + 1 + m),
                                chan: lhs[0],
                                value,
                            },
                            (n + 1 + m) as nat,
                        ),
                    ),
                    Err(f) => Err(f),
                }
            } else if is_at(tokens, p, TokenInfo::PlusPlus) {
                Ok(
                    (
                        SimpleStmtView::Inc { loc: covers(tokens, pos, p + 1), lhs: lhs[0] },
                        (n + 1) as nat,
                    ),
                )
            } else if is_at(tokens, p, TokenInfo::MinusMinus) {
                Ok(
                    (
                        SimpleStmtView::Dec { loc: covers(tokens, pos, p + 1), lhs: lhs[0] },
                        (n + 1) as nat,
                    ),
                )
            } else {
                Ok((SimpleStmtView::Expr { loc: covers(tokens, pos, p), expr: lhs[0] }, n))
            }
        },
        Err(f) => Err(f),
    }
}

/// `[ SimpleStmt ";" ] Expression`: what stands between `if` and the
/// block. A simple statement is read first. Where a semicolon follows, it
/// is the leading statement and the condition comes next; else it must be
/// an expression, which is the condition.
pub open spec fn if_header(tokens: Seq<TokenView>, pos: int) -> Result<
    ((Option<SimpleStmtView>, ExpressionView), nat),
    FailureView,
> {
    match simple_stmt(tokens, pos) {
        Ok((first, n)) => if is_at(tokens, pos + n, TokenInfo::Semicolon) {
            match expression(tokens, pos + n + 1) {
                Ok((cond, m)) => Ok(((Some(first), cond), (n + 1 + m) as nat)),
                Err(f) => Err(f),
            }
        } else {
            match first {
                SimpleStmtView::Expr { expr, .. } => Ok(((None, expr), n)),
                _ => fail(pos + n, "expected ';'"),
            }
        },
        Err(f) => Err(f),
    }
}

/// `{ Statement ";" }`, up to a closing brace.
pub open spec fn statements(tokens: Seq<TokenView>, pos: int) -> Result<
    (Seq<StatementView>, nat),
    FailureView,
>
    decreases remaining(tokens, pos), 4int,
{
    if is_at(tokens, pos, TokenInfo::RBrace) {
        Ok((Seq::empty(), 0))
    } else if is_at(tokens, pos, TokenInfo::Eof) {
        fail(pos, "expected '}'")
    } else {
        match statement(tokens, pos) {
            Ok((first, n)) => if is_at(tokens, pos + n, TokenInfo::Semicolon) {
                after(seq![first], n + 1, statements(tokens, pos + n + 1))
            } else {
                fail(pos + n, "expected ';'")
            },
            Err(f) => Err(f),
        }
    }
}

/// `Statement := Declaration | LabeledStmt | SimpleStmt | IfStmt`, with
/// `LabeledStmt := Identifier ":" Statement`.
pub open spec fn statement(tokens: Seq<TokenView>, pos: int) -> Result<
    (StatementView, nat),
    FailureView,
>
    decreases remaining(tokens, pos), 3int,
{
    if is_at(tokens, pos, TokenInfo::Const) || is_at(tokens, pos, TokenInfo::Type) || is_at(
        tokens,
        pos,
        TokenInfo::Var,
    ) {
        match declaration(tokens, pos) {
            Ok((decl, n)) => Ok(
                (StatementView::Decl { loc: covers(tokens, pos, pos + n), decl }, n),
            ),
            Err(f) => Err(f),
        }
    } else if is_at(tokens, pos, TokenInfo::If) {
        match if_stmt(tokens, pos) {
            Ok((if_, n)) => Ok((StatementView::If { loc: covers(tokens, pos, pos + n), if_ }, n)),
            Err(f) => Err(f),
        }
    } else {
        let labeled = is_at(tokens, pos + 1, TokenInfo::Colon);
        match kind_at(tokens, pos) {
            KindView::Identifier(text) if labeled => match statement(tokens, pos + 2) {
                Ok((stmt, n)) => Ok(
                    (
                        StatementView::Labeled {
                            loc: covers(tokens, pos, pos + 2 + n),
                            label: IdView { loc: loc_at(tokens, pos), ident: text },
                            stmt: Box::new(stmt),
                        },
                        (n + 2) as nat,
                    ),
                ),
                Err(f) => Err(f),
            },
            _ => match simple_stmt(tokens, pos) {
                Ok((simple, n)) => Ok(
                    (StatementView::Simple { loc: covers(tokens, pos, pos + n), simple }, n),
                ),
                Err(f) => Err(f),
            },
        }
    }
}

/// `IfStmt := "if" [ SimpleStmt ";" ] Expression Block [ "else" ( IfStmt | Block ) ]`
pub open spec fn if_stmt(tokens: Seq<TokenView>, pos: int) -> Result<(IfStmtView, nat), FailureView>
    decreases remaining(tokens, pos), 2int,
{
    if !is_at(tokens, pos, TokenInfo::If) {
        fail(pos, "expected 'if'")
    } else {
        match if_header(tokens, pos + 1) {
            Ok(((stmt, cond), h)) => match block(tokens, pos + 1 + h) {
                Ok((then_, k)) => match else_branch(tokens, pos + 1 + h + k) {
                    Ok((else_, j)) => Ok(
                        (
                            IfStmtView {
                                loc: covers(tokens, pos, pos + 1 + h + k + j),
                                stmt,
                                cond,
                                then_,
                                else_: match else_ {
                                    Some(branch) => Some(Box::new(branch)),
                                    None => None,
                                },
                            },
                            (1 + h + k + j) as nat,
                        ),
                    ),
                    Err(f) => Err(f),
                },
                Err(f) => Err(f),
            },
            Err(f) => Err(f),
        }
    }
}

/// `[ "else" ( IfStmt | Block ) ]`. An `else` belongs to the nearest `if`
/// that has none yet.
pub open spec fn else_branch(tokens: Seq<TokenView>, pos: int) -> Result<
    (Option<ElseView>, nat),
    FailureView,
>
    decreases remaining(tokens, pos), 1int,
{
    if !is_at(tokens, pos, TokenInfo::Else) {
        Ok((None, 0))
    } else if is_at(tokens, pos + 1, TokenInfo::If) {
        match if_stmt(tokens, pos + 1) {
            Ok((if_, n)) => Ok(
                (
                    Some(ElseView::If { loc: covers(tokens, pos, pos + 1 + n), if_ }),
                    (n + 1) as nat,
                ),
            ),
            Err(f) => Err(f),
        }
    } else {
        match block(tokens, pos + 1) {
            Ok((else_, n)) => Ok(
                (
                    Some(ElseView::Else { loc: covers(tokens, pos, pos + 1 + n), else_ }),
                    (n + 1) as nat,
                ),
            ),
            Err(f) => Err(f),
        }
    }
}

/// `Block := "{" { Statement ";" } "}"`
pub open spec fn block(tokens: Seq<TokenView>, pos: int) -> Result<(BlockView, nat), FailureView>
    decreases remaining(tokens, pos), 0int,
{
    if !is_at(tokens, pos, TokenInfo::LBrace) {
        fail(pos, "expected '{'")
    } else {
        match statements(tokens, pos + 1) {
            Ok((items, n)) => if is_at(tokens, pos + 1 + n, TokenInfo::RBrace) {
                Ok(
                    (
                        BlockView { loc: covers(tokens, pos, pos + n + 2), statements: items },
                        (n + 2) as nat,
                    ),
                )
            } else {
                fail(pos + 1 + n, "expected '}'")
            },
            Err(f) => Err(f),
        }
    }
}

/// `[ Block ]`: the body of a function, where it has one.
pub open spec fn optional_body(tokens: Seq<TokenView>, pos: int) -> Result<
    (Option<BlockView>, nat),
    FailureView,
> {
    if is_at(tokens, pos, TokenInfo::LBrace) {
        match block(tokens, pos) {
            Ok((body, n)) => Ok((Some(body), n)),
            Err(f) => Err(f),
        }
    } else {
        Ok((None, 0))
    }
}

/// `"(" ")" [ Block ]`: the empty parameter list and the body that close a
/// function or method declaration.
pub open spec fn signature_and_body(tokens: Seq<TokenView>, pos: int) -> Result<
    (Option<BlockView>, nat),
    FailureView,
> {
    if !is_at(tokens, pos, TokenInfo::LParen) {
        fail(pos, "expected '('")
    } else if !is_at(tokens, pos + 1, TokenInfo::RParen) {
        fail(pos + 1, "expected ')'")
    } else {
        match optional_body(tokens, pos + 2) {
            Ok((body, n)) => Ok((body, (n + 2) as nat)),
            Err(f) => Err(f),
        }
    }
}

/// `FunctionDecl := "func" Identifier "(" ")" [ Block ]`
pub open spec fn function_decl(tokens: Seq<TokenView>, pos: int) -> Result<
    (FunctionDeclView, nat),
    FailureView,
> {
    if !is_at(tokens, pos, TokenInfo::Func) {
        fail(pos, "expected 'func'")
    } else {
        match ident(tokens, pos + 1) {
            Ok((name, _)) => match signature_and_body(tokens, pos + 2) {
                Ok((body, n)) => Ok(
                    (
                        FunctionDeclView { loc: covers(tokens, pos, pos + 2 + n), name, body },
                        (n + 2) as nat,
                    ),
                ),
                Err(f) => Err(f),
            },
            Err(f) => Err(f),
        }
    }
}

/// `"(" Identifier Type ")"`: the receiver of a method, its name and type.
pub open spec fn receiver(tokens: Seq<TokenView>, pos: int) -> Result<
    ((IdView, TypeView), nat),
    FailureView,
> {
    if !is_at(tokens, pos, TokenInfo::LParen) {
        fail(pos, "expected '('")
    } else {
        match (ident(tokens, pos + 1), type_(tokens, pos + 2)) {
            (Ok((name, _)), Ok((ty, _))) => if is_at(tokens, pos + 3, TokenInfo::RParen) {
                Ok(((name, ty), 4))
            } else {
                fail(pos + 3, "expected ')'")
            },
            (Err(f), _) => Err(f),
            (_, Err(f)) => Err(f),
        }
    }
}

/// `MethodDecl := "func" "(" Identifier Type ")" Identifier "(" ")" [ Block ]`
pub open spec fn method_decl(tokens: Seq<TokenView>, pos: int) -> Result<
    (MethodDeclView, nat),
    FailureView,
> {
    if !is_at(tokens, pos, TokenInfo::Func) {
        fail(pos, "expected 'func'")
    } else {
        match receiver(tokens, pos + 1) {
            Ok(((receiver, receiver_type), _)) => match ident(tokens, pos + 5) {
                Ok((name, _)) => match signature_and_body(tokens, pos + 6) {
                    Ok((body, n)) => Ok(
                        (
                            MethodDeclView {
                                loc: covers(tokens, pos, pos + 6 + n),
                                receiver,
                                receiver_type,
                                name,
                                body,
                            },
                            (n + 6) as nat,
                        ),
                    ),
                    Err(f) => Err(f),
                },
                Err(f) => Err(f),
            },
            Err(f) => Err(f),
        }
    }
}

/// `TopLevelDecl := Declaration | FunctionDecl | MethodDecl`. Behind
/// `func`, a parenthesis starts the receiver of a method.
pub open spec fn top_level_decl(tokens: Seq<TokenView>, pos: int) -> Result<
    (TopLevelDeclView, nat),
    FailureView,
> {
    if is_at(tokens, pos, TokenInfo::Func) {
        if is_at(tokens, pos + 1, TokenInfo::LParen) {
            match method_decl(tokens, pos) {
                Ok((decl, n)) => Ok((TopLevelDeclView::Method(decl), n)),
                Err(f) => Err(f),
            }
        } else {
            match function_decl(tokens, pos) {
                Ok((decl, n)) => Ok((TopLevelDeclView::Func(decl), n)),
                Err(f) => Err(f),
            }
        }
    } else {
        match declaration(tokens, pos) {
            Ok((decl, n)) => Ok((TopLevelDeclView::Decl(decl), n)),
            Err(f) => Err(f),
        }
    }
}

/// `{ TopLevelDecl ";" }`, up to the end of input.
pub open spec fn top_level_decls(tokens: Seq<TokenView>, pos: int) -> Result<
    (Seq<TopLevelDeclView>, nat),
    FailureView,
>
    decreases remaining(tokens, pos),
{
    if is_at(tokens, pos, TokenInfo::Eof) {
        Ok((Seq::empty(), 0))
    } else {
        match top_level_decl(tokens, pos) {
            Ok((decl, n)) => if is_at(tokens, pos + n, TokenInfo::Semicolon) {
                after(seq![decl], n + 1, top_level_decls(tokens, pos + n + 1))
            } else {
                fail(pos + n, "expected ';'")
            },
            Err(f) => Err(f),
        }
    }
}

/// `ImportSpec := [ "." | Identifier ] StringLit`
pub open spec fn import_spec(tokens: Seq<TokenView>, pos: int) -> Result<
    (ImportSpecView, nat),
    FailureView,
> {
    let (name, k): (Option<ImportNameView>, nat) = match kind_at(tokens, pos) {
        KindView::Plain(TokenInfo::Dot) => (
            Some(ImportNameView::Dot { loc: loc_at(tokens, pos) }),
            1,
        ),
        KindView::Identifier(text) => (
            Some(ImportNameView::Name { loc: loc_at(tokens, pos), name: text }),
            1,
        ),
        _ => (None, 0),
    };
    match string_lit(tokens, pos + k) {
        Ok((path, n)) => Ok(
            (ImportSpecView { loc: covers(tokens, pos, pos + k + n), name, path }, (k + n) as nat),
        ),
        Err(f) => Err(f),
    }
}

/// `{ ImportSpec ";" }`, up to a closing parenthesis.
pub open spec fn import_specs(tokens: Seq<TokenView>, pos: int) -> Result<
    (Seq<ImportSpecView>, nat),
    FailureView,
>
    decreases remaining(tokens, pos),
{
    if is_at(tokens, pos, TokenInfo::RParen) {
        Ok((Seq::empty(), 0))
    } else {
        match import_spec(tokens, pos) {
            Ok((spec, n)) => if is_at(tokens, pos + n, TokenInfo::Semicolon) {
                after(seq![spec], n + 1, import_specs(tokens, pos + n + 1))
            } else {
                fail(pos + n, "expected ';'")
            },
            Err(f) => Err(f),
        }
    }
}

/// `ImportDecl := "import" ( ImportSpec | "(" { ImportSpec ";" } ")" )`
pub open spec fn import_decl(tokens: Seq<TokenView>, pos: int) -> Result<
    (Seq<ImportSpecView>, nat),
    FailureView,
> {
    if !is_at(tokens, pos, TokenInfo::Import) {
        fail(pos, "expected 'import'")
    } else if is_at(tokens, pos + 1, TokenInfo::LParen) {
        match import_specs(tokens, pos + 2) {
            Ok((specs, n)) => if is_at(tokens, pos + 2 + n, TokenInfo::RParen) {
                Ok((specs, (n + 3) as nat))
            } else {
                fail(pos + 2 + n, "expected ')'")
            },
            Err(f) => Err(f),
        }
    } else {
        match import_spec(tokens, pos + 1) {
            Ok((spec, n)) => Ok((seq![spec], (n + 1) as nat)),
            Err(f) => Err(f),
        }
    }
}

/// `{ ImportDecl ";" }`: the imports of all the import declarations that
/// follow one another.
pub open spec fn imports(tokens: Seq<TokenView>, pos: int) -> Result<
    (Seq<ImportSpecView>, nat),
    FailureView,
>
    decreases remaining(tokens, pos),
{
    if !is_at(tokens, pos, TokenInfo::Import) {
        Ok((Seq::empty(), 0))
    } else {
        match import_decl(tokens, pos) {
            Ok((specs, n)) => if is_at(tokens, pos + n, TokenInfo::Semicolon) {
                after(specs, n + 1, imports(tokens, pos + n + 1))
            } else {
                fail(pos + n, "expected ';'")
            },
            Err(f) => Err(f),
        }
    }
}

/// `[ PackageClause ";" ]`, at the start of the token stream, with
/// `PackageClause := "package" Identifier`.
pub open spec fn package_clause(tokens: Seq<TokenView>) -> Result<
    (Option<PackageClauseView>, nat),
    FailureView,
> {
    if !is_at(tokens, 0, TokenInfo::Package) {
        Ok((None, 0))
    } else {
        match ident(tokens, 1) {
            Ok((name, _)) => if is_at(tokens, 2, TokenInfo::Semicolon) {
                Ok((Some(PackageClauseView { loc: covers(tokens, 0, 2), name }), 3))
            } else {
                fail(2, "expected ';'")
            },
            Err(f) => Err(f),
        }
    }
}

/// `SourceFile := [ PackageClause ";" ] { ImportDecl ";" } { TopLevelDecl ";" }`,
/// up to the end of input. The location of a source file reaches from its
/// first token to the end of input.
pub open spec fn source_file(tokens: Seq<TokenView>) -> Result<SourceFileView, FailureView> {
    match package_clause(tokens) {
        Ok((package, n)) => match imports(tokens, n as int) {
            Ok((imports, m)) => match top_level_decls(tokens, (n + m) as int) {
                Ok((decls, k)) => Ok(
                    SourceFileView {
                        loc: loc_at(tokens, 0).spec_join(loc_at(tokens, (n + m + k) as int)),
                        package,
                        imports,
                        decls,
                    },
                ),
                Err(f) => Err(f),
            },
            Err(f) => Err(f),
        },
        Err(f) => Err(f),
    }
}

/// One statement that makes up the whole token stream: `Statement [ ";" ]`,
/// up to the end of input.
pub open spec fn lone_statement(tokens: Seq<TokenView>) -> Result<StatementView, FailureView> {
    match statement(tokens, 0) {
        Ok((stmt, n)) => {
            let p: int = if is_at(tokens, n as int, TokenInfo::Semicolon) {
                n as int + 1
            } else {
                n as int
            };
            if is_at(tokens, p, TokenInfo::Eof) {
                Ok(stmt)
            } else {
                fail(p, "expected end of input")
            }
        },
        Err(f) => Err(f),
    }
}

} // verus!
