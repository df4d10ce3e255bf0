//! What holds of every outcome of the grammar: a node spans tokens of the
//! stream, and a failure lies at a token of the stream or at its end.

use crate::ast::ExpressionView;
use crate::lex::token::{TokenInfo, TokenView};
use crate::parse::grammar::{
    arguments, binary, binary_op, binary_tail, block, covers, declaration, else_branch, expression,
    expression_list, ident, identifier_list, if_header, if_stmt, import_decl, import_spec,
    import_specs, imports, is_at, kind_at, lone_statement, operand, package_clause, precedence,
    primary, receiver, remaining, signature_and_body, simple_stmt, source_file, spec_group,
    statement, statements, suffixes, top_level_decl, top_level_decls, type_, unary, unary_op,
    value_spec, value_specs, FailureView,
};
use vstd::prelude::*;

verus! {

/// Whether the outcome of parsing from `pos` stays inside the token stream:
/// what was read spans at least `least` tokens and ends no further than the
/// stream does, and a failure lies at `pos` or behind it, no further than
/// the end of the stream.
pub open spec fn within_stream<V>(
    tokens: Seq<TokenView>,
    pos: int,
    least: nat,
    outcome: Result<(V, nat), FailureView>,
) -> bool {
    match outcome {
        Ok((_, n)) => least <= n && pos + n <= tokens.len(),
        Err(f) => pos <= f.at <= tokens.len(),
    }
}

proof fn lemma_operand(tokens: Seq<TokenView>, pos: int)
    requires
        0 <= pos <= tokens.len(),
    ensures
        within_stream(tokens, pos, 1, operand(tokens, pos)),
    decreases remaining(tokens, pos), 1int,
{
    if is_at(tokens, pos, TokenInfo::LParen) {
        lemma_expression(tokens, pos + 1);
    }
}

proof fn lemma_suffixes(tokens: Seq<TokenView>, start: int, pos: int, base: ExpressionView)
    requires
        0 <= pos <= tokens.len(),
    ensures
        within_stream(tokens, pos, 0, suffixes(tokens, start, pos, base)),
    decreases remaining(tokens, pos), 2int,
{
    if is_at(tokens, pos, TokenInfo::Dot) {
        if let Ok((name, _)) = ident(tokens, pos + 1) {
            let selected = ExpressionView::Selector {
                loc: covers(tokens, start, pos + 2),
                operand: Box::new(base),
                name,
            };
            lemma_suffixes(tokens, start, pos + 2, selected);
        }
    } else if is_at(tokens, pos, TokenInfo::LParen) {
        lemma_arguments(tokens, pos + 1);
        if let Ok((args, n)) = arguments(tokens, pos + 1) {
            if is_at(tokens, pos + 1 + n, TokenInfo::RParen) {
                let called = ExpressionView::Call {
                    loc: covers(tokens, start, pos + n + 2),
                    callee: Box::new(base),
                    args,
                };
                lemma_suffixes(tokens, start, pos + n + 2, called);
            }
        }
    } else if is_at(tokens, pos, TokenInfo::LBracket) {
        lemma_expression(tokens, pos + 1);
        if let Ok((index, n)) = expression(tokens, pos + 1) {
            if is_at(tokens, pos + 1 + n, TokenInfo::RBracket) {
                let indexed = ExpressionView::Index {
                    loc: covers(tokens, start, pos + n + 2),
                    operand: Box::new(base),
                    index: Box::new(index),
                };
                lemma_suffixes(tokens, start, pos + n + 2, indexed);
            }
        }
    }
}

proof fn lemma_arguments(tokens: Seq<TokenView>, pos: int)
    requires
        0 <= pos <= tokens.len(),
    ensures
        within_stream(tokens, pos, 0, arguments(tokens, pos)),
    decreases remaining(tokens, pos), 9int,
{
    if !is_at(tokens, pos, TokenInfo::RParen) {
        lemma_expression_list(tokens, pos);
    }
}

proof fn lemma_primary(tokens: Seq<TokenView>, pos: int)
    requires
        0 <= pos <= tokens.len(),
    ensures
        within_stream(tokens, pos, 1, primary(tokens, pos)),
    decreases remaining(tokens, pos), 3int,
{
    lemma_operand(tokens, pos);
    if let Ok((base, n)) = operand(tokens, pos) {
        lemma_suffixes(tokens, pos, pos + n, base);
    }
}

proof fn lemma_unary(tokens: Seq<TokenView>, pos: int)
    requires
        0 <= pos <= tokens.len(),
    ensures
        within_stream(tokens, pos, 1, unary(tokens, pos)),
    decreases remaining(tokens, pos), 4int,
{
    if unary_op(kind_at(tokens, pos)) is Some {
        lemma_unary(tokens, pos + 1);
    } else {
        lemma_primary(tokens, pos);
    }
}

proof fn lemma_binary_tail(
    tokens: Seq<TokenView>,
    start: int,
    pos: int,
    lhs: ExpressionView,
    min: nat,
)
    requires
        0 <= pos <= tokens.len(),
    ensures
        within_stream(tokens, pos, 0, binary_tail(tokens, start, pos, lhs, min)),
    decreases remaining(tokens, pos), 5int,
{
    if let Some(op) = binary_op(kind_at(tokens, pos)) {
        if precedence(op) >= min {
            lemma_binary(tokens, pos + 1, precedence(op) + 1);
            if let Ok((rhs, n)) = binary(tokens, pos + 1, precedence(op) + 1) {
                let both = ExpressionView::Binary {
                    loc: covers(tokens, start, pos + 1 + n),
                    op,
                    lhs: Box::new(lhs),
                    rhs: Box::new(rhs),
                };
                lemma_binary_tail(tokens, start, pos + 1 + n, both, min);
            }
        }
    }
}

proof fn lemma_binary(tokens: Seq<TokenView>, pos: int, min: nat)
    requires
        0 <= pos <= tokens.len(),
    ensures
        within_stream(tokens, pos, 1, binary(tokens, pos, min)),
    decreases remaining(tokens, pos), 6int,
{
    lemma_unary(tokens, pos);
    if let Ok((lhs, n)) = unary(tokens, pos) {
        lemma_binary_tail(tokens, pos, pos + n, lhs, min);
    }
}

/// An expression spans at least one token of the stream.
pub proof fn lemma_expression(tokens: Seq<TokenView>, pos: int)
    requires
        0 <= pos <= tokens.len(),
    ensures
        within_stream(tokens, pos, 1, expression(tokens, pos)),
    decreases remaining(tokens, pos), 7int,
{
    lemma_binary(tokens, pos, 1);
}

proof fn lemma_expression_list(tokens: Seq<TokenView>, pos: int)
    requires
        0 <= pos <= tokens.len(),
    ensures
        within_stream(tokens, pos, 1, expression_list(tokens, pos)),
        expression_list(tokens, pos) matches Ok((list, _)) ==> list.len() >= 1,
    decreases remaining(tokens, pos), 8int,
{
    lemma_expression(tokens, pos);
    if let Ok((_, n)) = expression(tokens, pos) {
        if is_at(tokens, pos + n, TokenInfo::Comma) {
            lemma_expression_list(tokens, pos + n + 1);
        }
    }
}

proof fn lemma_identifier_list(tokens: Seq<TokenView>, pos: int)
    requires
        0 <= pos <= tokens.len(),
    ensures
        within_stream(tokens, pos, 1, identifier_list(tokens, pos)),
    decreases remaining(tokens, pos),
{
    if let Ok((_, n)) = ident(tokens, pos) {
        if is_at(tokens, pos + n, TokenInfo::Comma) {
            lemma_identifier_list(tokens, pos + n + 1);
        }
    }
}

proof fn lemma_value_spec(tokens: Seq<TokenView>, pos: int)
    requires
        0 <= pos <= tokens.len(),
    ensures
        within_stream(tokens, pos, 1, value_spec(tokens, pos)),
{
    lemma_identifier_list(tokens, pos);
    if let Ok((_, n)) = identifier_list(tokens, pos) {
        let k: nat = if type_(tokens, pos + n) is Ok {
            1
        } else {
            0
        };
        if is_at(tokens, pos + n + k, TokenInfo::Eq) {
            lemma_expression_list(tokens, pos + n + k + 1);
        }
    }
}

proof fn lemma_value_specs(tokens: Seq<TokenView>, pos: int)
    requires
        0 <= pos <= tokens.len(),
    ensures
        within_stream(tokens, pos, 0, value_specs(tokens, pos)),
    decreases remaining(tokens, pos),
{
    if !is_at(tokens, pos, TokenInfo::RParen) {
        lemma_value_spec(tokens, pos);
        if let Ok((_, n)) = value_spec(tokens, pos) {
            if is_at(tokens, pos + n, TokenInfo::Semicolon) {
                lemma_value_specs(tokens, pos + n + 1);
            }
        }
    }
}

proof fn lemma_spec_group(tokens: Seq<TokenView>, pos: int)
    requires
        0 <= pos <= tokens.len(),
    ensures
        within_stream(tokens, pos, 1, spec_group(tokens, pos)),
{
    if is_at(tokens, pos, TokenInfo::LParen) {
        lemma_value_specs(tokens, pos + 1);
    } else {
        lemma_value_spec(tokens, pos);
    }
}

/// A declaration spans at least one token of the stream.
pub proof fn lemma_declaration(tokens: Seq<TokenView>, pos: int)
    requires
        0 <= pos <= tokens.len(),
    ensures
        within_stream(tokens, pos, 1, declaration(tokens, pos)),
{
    if is_at(tokens, pos, TokenInfo::Const) || is_at(tokens, pos, TokenInfo::Var) {
        lemma_spec_group(tokens, pos + 1);
    }
}

proof fn lemma_simple_stmt(tokens: Seq<TokenView>, pos: int)
    requires
        0 <= pos <= tokens.len(),
    ensures
        within_stream(tokens, pos, 1, simple_stmt(tokens, pos)),
{
    lemma_expression_list(tokens, pos);
    if let Ok((_, n)) = expression_list(tokens, pos) {
        if pos + n < tokens.len() {
            lemma_expression_list(tokens, pos + n + 1);
            lemma_expression(tokens, pos + n + 1);
        }
    }
}

proof fn lemma_if_header(tokens: Seq<TokenView>, pos: int)
    requires
        0 <= pos <= tokens.len(),
    ensures
        within_stream(tokens, pos, 1, if_header(tokens, pos)),
{
    lemma_simple_stmt(tokens, pos);
    if let Ok((_, n)) = simple_stmt(tokens, pos) {
        if is_at(tokens, pos + n, TokenInfo::Semicolon) {
            lemma_expression(tokens, pos + n + 1);
        }
    }
}

proof fn lemma_statements(tokens: Seq<TokenView>, pos: int)
    requires
        0 <= pos <= tokens.len(),
    ensures
        within_stream(tokens, pos, 0, statements(tokens, pos)),
    decreases remaining(tokens, pos), 4int,
{
    if !is_at(tokens, pos, TokenInfo::RBrace) && !is_at(tokens, pos, TokenInfo::Eof) {
        lemma_statement(tokens, pos);
        if let Ok((_, n)) = statement(tokens, pos) {
            if is_at(tokens, pos + n, TokenInfo::Semicolon) {
                lemma_statements(tokens, pos + n + 1);
            }
        }
    }
}

/// A statement spans at least one token of the stream.
pub proof fn lemma_statement(tokens: Seq<TokenView>, pos: int)
    requires
        0 <= pos <= tokens.len(),
    ensures
        within_stream(tokens, pos, 1, statement(tokens, pos)),
    decreases remaining(tokens, pos), 3int,
{
    if is_at(tokens, pos, TokenInfo::Const) || is_at(tokens, pos, TokenInfo::Type) || is_at(
        tokens,
        pos,
        TokenInfo::Var,
    ) {
        lemma_declaration(tokens, pos);
    } else if is_at(tokens, pos, TokenInfo::If) {
        lemma_if_stmt(tokens, pos);
    } else if kind_at(tokens, pos) is Identifier && is_at(tokens, pos + 1, TokenInfo::Colon) {
        lemma_statement(tokens, pos + 2);
    } else {
        lemma_simple_stmt(tokens, pos);
    }
}

proof fn lemma_if_stmt(tokens: Seq<TokenView>, pos: int)
    requires
        0 <= pos <= tokens.len(),
    ensures
        within_stream(tokens, pos, 1, if_stmt(tokens, pos)),
    decreases remaining(tokens, pos), 2int,
{
    if is_at(tokens, pos, TokenInfo::If) {
        lemma_if_header(tokens, pos + 1);
        if let Ok((_, h)) = if_header(tokens, pos + 1) {
            lemma_block(tokens, pos + 1 + h);
            if let Ok((_, k)) = block(tokens, pos + 1 + h) {
                lemma_else_branch(tokens, pos + 1 + h + k);
            }
        }
    }
}

proof fn lemma_else_branch(tokens: Seq<TokenView>, pos: int)
    requires
        0 <= pos <= tokens.len(),
    ensures
        within_stream(tokens, pos, 0, else_branch(tokens, pos)),
    decreases remaining(tokens, pos), 1int,
{
    if is_at(tokens, pos, TokenInfo::Else) {
        if is_at(tokens, pos + 1, TokenInfo::If) {
            lemma_if_stmt(tokens, pos + 1);
        } else {
            lemma_block(tokens, pos + 1);
        }
    }
}

/// A block spans at least its two braces.
pub proof fn lemma_block(tokens: Seq<TokenView>, pos: int)
    requires
        0 <= pos <= tokens.len(),
    ensures
        within_stream(tokens, pos, 2, block(tokens, pos)),
    decreases remaining(tokens, pos), 0int,
{
    if is_at(tokens, pos, TokenInfo::LBrace) {
        lemma_statements(tokens, pos + 1);
    }
}

proof fn lemma_signature_and_body(tokens: Seq<TokenView>, pos: int)
    requires
        0 <= pos <= tokens.len(),
    ensures
        within_stream(tokens, pos, 2, signature_and_body(tokens, pos)),
{
    if is_at(tokens, pos, TokenInfo::LParen) && is_at(tokens, pos + 1, TokenInfo::RParen) {
        if is_at(tokens, pos + 2, TokenInfo::LBrace) {
            lemma_block(tokens, pos + 2);
        }
    }
}

/// A declaration at the top level spans at least one token of the stream.
pub proof fn lemma_top_level_decl(tokens: Seq<TokenView>, pos: int)
    requires
        0 <= pos <= tokens.len(),
    ensures
        within_stream(tokens, pos, 1, top_level_decl(tokens, pos)),
{
    if is_at(tokens, pos, TokenInfo::Func) {
        if is_at(tokens, pos + 1, TokenInfo::LParen) {
            if receiver(tokens, pos + 1) is Ok && ident(tokens, pos + 5) is Ok {
                lemma_signature_and_body(tokens, pos + 6);
            }
        } else if ident(tokens, pos + 1) is Ok {
            lemma_signature_and_body(tokens, pos + 2);
        }
    } else {
        lemma_declaration(tokens, pos);
    }
}

proof fn lemma_top_level_decls(tokens: Seq<TokenView>, pos: int)
    requires
        0 <= pos <= tokens.len(),
    ensures
        within_stream(tokens, pos, 0, top_level_decls(tokens, pos)),
        top_level_decls(tokens, pos) matches Ok((_, n)) ==> is_at(tokens, pos + n, TokenInfo::Eof),
    decreases remaining(tokens, pos),
{
    if !is_at(tokens, pos, TokenInfo::Eof) {
        lemma_top_level_decl(tokens, pos);
        if let Ok((_, n)) = top_level_decl(tokens, pos) {
            if is_at(tokens, pos + n, TokenInfo::Semicolon) {
                lemma_top_level_decls(tokens, pos + n + 1);
            }
        }
    }
}

proof fn lemma_import_specs(tokens: Seq<TokenView>, pos: int)
    requires
        0 <= pos <= tokens.len(),
    ensures
        within_stream(tokens, pos, 0, import_specs(tokens, pos)),
    decreases remaining(tokens, pos),
{
    if !is_at(tokens, pos, TokenInfo::RParen) {
        if let Ok((_, n)) = import_spec(tokens, pos) {
            if is_at(tokens, pos + n, TokenInfo::Semicolon) {
                lemma_import_specs(tokens, pos + n + 1);
            }
        }
    }
}

proof fn lemma_imports(tokens: Seq<TokenView>, pos: int)
    requires
        0 <= pos <= tokens.len(),
    ensures
        within_stream(tokens, pos, 0, imports(tokens, pos)),
    decreases remaining(tokens, pos),
{
    if is_at(tokens, pos, TokenInfo::Import) {
        if is_at(tokens, pos + 1, TokenInfo::LParen) {
            lemma_import_specs(tokens, pos + 2);
        }
        if let Ok((_, n)) = import_decl(tokens, pos) {
            if is_at(tokens, pos + n, TokenInfo::Semicolon) {
                lemma_imports(tokens, pos + n + 1);
            }
        }
    }
}

/// Parsing a source file fails at a token of the stream or at its end,
/// never further.
pub proof fn lemma_source_file_fails_within_stream(tokens: Seq<TokenView>)
    ensures
        source_file(tokens) matches Err(f) ==> 0 <= f.at <= tokens.len(),
{
    if let Ok((_, n)) = package_clause(tokens) {
        lemma_imports(tokens, n as int);
        if let Ok((_, m)) = imports(tokens, n as int) {
            lemma_top_level_decls(tokens, (n + m) as int);
        }
    }
}

/// Parsing a lone statement fails at a token of the stream or at its end,
/// never further.
pub proof fn lemma_lone_statement_fails_within_stream(tokens: Seq<TokenView>)
    ensures
        lone_statement(tokens) matches Err(f) ==> 0 <= f.at <= tokens.len(),
{
    lemma_statement(tokens, 0);
}

} // verus!
