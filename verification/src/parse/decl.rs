//! Declarations of constants, types and variables.

use crate::ast::{ConstDecl, ConstSpec, Declaration, Expression, Id, Type, TypeDecl, VarDecl};
use crate::lex::token::{Token, TokenInfo};
use crate::parse::cursor::{cover, lemma_after_after, loc_of, parsed, peek, push_node, Failure};
use crate::parse::expr::{parse_expression_list, parse_ident};
use crate::parse::grammar::{
    after, declaration, identifier_list, spec_group, type_, value_spec, value_specs,
};
use std::rc::Rc;
use vstd::prelude::*;

verus! {

pub(crate) fn parse_type(tokens: &Vec<Token>, pos: usize) -> (r: Result<(Type, usize), Failure>)
    requires
        pos <= tokens.len(),
    ensures
        parsed(r, pos, type_(tokens.deep_view(), pos as int)),
        r matches Ok((_, next)) ==> next == pos + 1 && next <= tokens.len(),
{
    match peek(tokens, pos) {
        Some(TokenInfo::Identifier(text)) => {
            let loc = loc_of(tokens, pos);
            Ok((Type { loc, name: Id { loc, ident: text.clone() } }, pos + 1))
        },
        _ => Err(Failure { at: pos, expected: "expected type" }),
    }
}

pub(crate) fn parse_identifier_list(tokens: &Vec<Token>, pos: usize) -> (r: Result<
    (Vec<Id>, usize),
    Failure,
>)
    requires
        pos <= tokens.len(),
    ensures
        parsed(r, pos, identifier_list(tokens.deep_view(), pos as int)),
        r matches Ok((_, next)) ==> pos < next <= tokens.len(),
{
    let ghost view = tokens.deep_view();
    let mut list: Vec<Id> = Vec::new();
    let mut p = pos;
    assert(list.deep_view() =~= Seq::empty());
    proof {
        let all = identifier_list(view, pos as int);
        if let Ok((items, _)) = all {
            assert(Seq::empty() + items =~= items);
        }
    }
    loop
        invariant
            view == tokens.deep_view(),
            pos <= p <= tokens.len(),
            identifier_list(view, pos as int) == after(
                list.deep_view(),
                (p - pos) as nat,
                identifier_list(view, p as int),
            ),
        decreases tokens.len() - p,
    {
        let ghost done = list.deep_view();
        match parse_ident(tokens, p) {
            Ok((id, next)) => {
                let ghost item = id.deep_view();
                push_node(&mut list, id);
                assert(list.deep_view() =~= done + seq![item]);
                if let Some(TokenInfo::Comma) = peek(tokens, next) {
                    proof {
                        lemma_after_after(
                            done,
                            (p - pos) as nat,
                            seq![item],
                            (next - p + 1) as nat,
                            identifier_list(view, next + 1),
                        );
                    }
                    p = next + 1;
                } else {
                    return Ok((list, next));
                }
            },
            Err(f) => {
                return Err(f);
            },
        }
    }
}

pub(crate) fn parse_value_spec(tokens: &Vec<Token>, pos: usize) -> (r: Result<
    (ConstSpec, usize),
    Failure,
>)
    requires
        pos <= tokens.len(),
    ensures
        parsed(r, pos, value_spec(tokens.deep_view(), pos as int)),
        r matches Ok((_, next)) ==> pos < next <= tokens.len(),
{
    match parse_identifier_list(tokens, pos) {
        Ok((idents, after_names)) => {
            let (type_, p) = match parse_type(tokens, after_names) {
                Ok((t, next)) => (Some(t), next),
                Err(_) => (None, after_names),
            };
            if let Some(TokenInfo::Eq) = peek(tokens, p) {
                match parse_expression_list(tokens, p + 1) {
                    Ok((exprs, next)) => Ok(
                        (ConstSpec { loc: cover(tokens, pos, next), idents, type_, exprs }, next),
                    ),
                    Err(f) => Err(f),
                }
            } else {
                let exprs: Vec<Rc<Expression>> = Vec::new();
                assert(exprs.deep_view() =~= Seq::empty());
                Ok((ConstSpec { loc: cover(tokens, pos, p), idents, type_, exprs }, p))
            }
        },
        Err(f) => Err(f),
    }
}

pub(crate) fn parse_value_specs(tokens: &Vec<Token>, pos: usize) -> (r: Result<
    (Vec<ConstSpec>, usize),
    Failure,
>)
    requires
        pos <= tokens.len(),
    ensures
        parsed(r, pos, value_specs(tokens.deep_view(), pos as int)),
        r matches Ok((_, next)) ==> pos <= next <= tokens.len(),
{
    let ghost view = tokens.deep_view();
    let mut list: Vec<ConstSpec> = Vec::new();
    let mut p = pos;
    assert(list.deep_view() =~= Seq::empty());
    proof {
        let all = value_specs(view, pos as int);
        if let Ok((items, _)) = all {
            assert(Seq::empty() + items =~= items);
        }
    }
    loop
        invariant
            view == tokens.deep_view(),
            pos <= p <= tokens.len(),
            value_specs(view, pos as int) == after(
                list.deep_view(),
                (p - pos) as nat,
                value_specs(view, p as int),
            ),
        decreases tokens.len() - p,
    {
        let ghost done = list.deep_view();
        if let Some(TokenInfo::RParen) = peek(tokens, p) {
            assert(done + Seq::empty() =~= done);
            return Ok((list, p));
        }
        match parse_value_spec(tokens, p) {
            Ok((spec, next)) => {
                if let Some(TokenInfo::Semicolon) = peek(tokens, next) {
                    let ghost item = spec.deep_view();
                    push_node(&mut list, spec);
                    proof {
                        assert(list.deep_view() =~= done + seq![item]);
                        lemma_after_after(
                            done,
                            (p - pos) as nat,
                            seq![item],
                            (next - p + 1) as nat,
                            value_specs(view, next + 1),
                        );
                    }
                    p = next + 1;
                } else {
                    return Err(Failure { at: next, expected: "expected ';'" });
                }
            },
            Err(f) => {
                return Err(f);
            },
        }
    }
}

pub(crate) fn parse_spec_group(tokens: &Vec<Token>, pos: usize) -> (r: Result<
    (Vec<ConstSpec>, usize),
    Failure,
>)
    requires
        pos <= tokens.len(),
    ensures
        parsed(r, pos, spec_group(tokens.deep_view(), pos as int)),
        r matches Ok((_, next)) ==> pos < next <= tokens.len(),
{
    if let Some(TokenInfo::LParen) = peek(tokens, pos) {
        match parse_value_specs(tokens, pos + 1) {
            Ok((specs, next)) => {
                if let Some(TokenInfo::RParen) = peek(tokens, next) {
                    Ok((specs, next + 1))
                } else {
                    Err(Failure { at: next, expected: "expected ')'" })
                }
            },
            Err(f) => Err(f),
        }
    } else {
        match parse_value_spec(tokens, pos) {
            Ok((spec, next)) => {
                let mut specs: Vec<ConstSpec> = Vec::new();
                let ghost item = spec.deep_view();
                push_node(&mut specs, spec);
                assert(specs.deep_view() =~= seq![item]);
                Ok((specs, next))
            },
            Err(f) => Err(f),
        }
    }
}

pub(crate) fn parse_declaration(tokens: &Vec<Token>, pos: usize) -> (r: Result<
    (Declaration, usize),
    Failure,
>)
    requires
        pos <= tokens.len(),
    ensures
        parsed(r, pos, declaration(tokens.deep_view(), pos as int)),
        r matches Ok((_, next)) ==> pos < next <= tokens.len(),
{
    match peek(tokens, pos) {
        Some(TokenInfo::Const) => match parse_spec_group(tokens, pos + 1) {
            Ok((specs, next)) => {
                let loc = cover(tokens, pos, next);
                Ok((Declaration::Const { loc, decl: ConstDecl { loc, specs } }, next))
            },
            Err(f) => Err(f),
        },
        Some(TokenInfo::Var) => match parse_spec_group(tokens, pos + 1) {
            Ok((specs, next)) => {
                let loc = cover(tokens, pos, next);
                Ok((Declaration::Var { loc, decl: VarDecl { loc, specs } }, next))
            },
            Err(f) => Err(f),
        },
        Some(TokenInfo::Type) => match parse_ident(tokens, pos + 1) {
            Ok((name, after_name)) => match parse_type(tokens, after_name) {
                Ok((type_, next)) => {
                    let loc = cover(tokens, pos, next);
                    Ok((Declaration::Type { loc, decl: TypeDecl { loc, name, type_ } }, next))
                },
                Err(f) => Err(f),
            },
            Err(f) => Err(f),
        },
        _ => Err(Failure { at: pos, expected: "expected declaration" }),
    }
}

} // verus!
