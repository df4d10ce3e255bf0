//! Source files: the package clause, imports and top-level declarations.

use crate::ast::{
    Block, FunctionDecl, Id, ImportName, ImportSpec, ImportSpecView, MethodDecl, PackageClause,
    SourceFile, Statement, TopLevelDecl, Type,
};
use crate::lex::token::{Token, TokenInfo};
use crate::loc::Loc;
use crate::parse::cursor::{cover, lemma_after_after, loc_of, parsed, peek, push_node, Failure};
use crate::parse::decl::{parse_declaration, parse_type};
use crate::parse::expr::{parse_ident, parse_string_lit};
use crate::parse::grammar::{
    after, function_decl, import_decl, import_spec, import_specs, imports, loc_at, lone_statement,
    method_decl, optional_body, package_clause, receiver, signature_and_body, source_file,
    top_level_decl, top_level_decls, FailureView,
};
use crate::parse::stmt::{parse_block, parse_statement};
use vstd::prelude::*;

verus! {

fn parse_optional_body(tokens: &Vec<Token>, pos: usize) -> (r: Result<
    (Option<Block>, usize),
    Failure,
>)
    requires
        pos <= tokens.len(),
    ensures
        parsed(r, pos, optional_body(tokens.deep_view(), pos as int)),
        r matches Ok((_, next)) ==> pos <= next <= tokens.len(),
{
    if let Some(TokenInfo::LBrace) = peek(tokens, pos) {
        match parse_block(tokens, pos) {
            Ok((body, next)) => Ok((Some(body), next)),
            Err(f) => Err(f),
        }
    } else {
        Ok((None, pos))
    }
}

fn parse_signature_and_body(tokens: &Vec<Token>, pos: usize) -> (r: Result<
    (Option<Block>, usize),
    Failure,
>)
    requires
        pos <= tokens.len(),
    ensures
        parsed(r, pos, signature_and_body(tokens.deep_view(), pos as int)),
        r matches Ok((_, next)) ==> pos < next <= tokens.len(),
{
    if let Some(TokenInfo::LParen) = peek(tokens, pos) {
        if let Some(TokenInfo::RParen) = peek(tokens, pos + 1) {
            parse_optional_body(tokens, pos + 2)
        } else {
            Err(Failure { at: pos + 1, expected: "expected ')'" })
        }
    } else {
        Err(Failure { at: pos, expected: "expected '('" })
    }
}

pub(crate) fn parse_function_decl(tokens: &Vec<Token>, pos: usize) -> (r: Result<
    (FunctionDecl, usize),
    Failure,
>)
    requires
        pos <= tokens.len(),
    ensures
        parsed(r, pos, function_decl(tokens.deep_view(), pos as int)),
        r matches Ok((_, next)) ==> pos < next <= tokens.len(),
{
    if let Some(TokenInfo::Func) = peek(tokens, pos) {
        match parse_ident(tokens, pos + 1) {
            Ok((name, after_name)) => match parse_signature_and_body(tokens, after_name) {
                Ok((body, next)) => Ok(
                    (FunctionDecl { loc: cover(tokens, pos, next), name, body }, next),
                ),
                Err(f) => Err(f),
            },
            Err(f) => Err(f),
        }
    } else {
        Err(Failure { at: pos, expected: "expected 'func'" })
    }
}

fn parse_receiver(tokens: &Vec<Token>, pos: usize) -> (r: Result<((Id, Type), usize), Failure>)
    requires
        pos <= tokens.len(),
    ensures
        parsed(r, pos, receiver(tokens.deep_view(), pos as int)),
        r matches Ok((_, next)) ==> next == pos + 4 && next <= tokens.len(),
{
    if let Some(TokenInfo::LParen) = peek(tokens, pos) {
        match parse_ident(tokens, pos + 1) {
            Ok((name, after_name)) => match parse_type(tokens, after_name) {
                Ok((type_, p)) => {
                    if let Some(TokenInfo::RParen) = peek(tokens, p) {
                        Ok(((name, type_), p + 1))
                    } else {
                        Err(Failure { at: p, expected: "expected ')'" })
                    }
                },
                Err(f) => Err(f),
            },
            Err(f) => Err(f),
        }
    } else {
        Err(Failure { at: pos, expected: "expected '('" })
    }
}

pub(crate) fn parse_method_decl(tokens: &Vec<Token>, pos: usize) -> (r: Result<
    (MethodDecl, usize),
    Failure,
>)
    requires
        pos <= tokens.len(),
    ensures
        parsed(r, pos, method_decl(tokens.deep_view(), pos as int)),
        r matches Ok((_, next)) ==> pos < next <= tokens.len(),
{
    if let Some(TokenInfo::Func) = peek(tokens, pos) {
        match parse_receiver(tokens, pos + 1) {
            Ok(((receiver, receiver_type), p)) => match parse_ident(tokens, p) {
                Ok((name, after_name)) => match parse_signature_and_body(tokens, after_name) {
                    Ok((body, next)) => Ok(
                        (
                            MethodDecl {
                                loc: cover(tokens, pos, next),
                                receiver,
                                receiver_type,
                                name,
                                body,
                            },
                            next,
                        ),
                    ),
                    Err(f) => Err(f),
                },
                Err(f) => Err(f),
            },
            Err(f) => Err(f),
        }
    } else {
        Err(Failure { at: pos, expected: "expected 'func'" })
    }
}

pub(crate) fn parse_top_level_decl(tokens: &Vec<Token>, pos: usize) -> (r: Result<
    (TopLevelDecl, usize),
    Failure,
>)
    requires
        pos <= tokens.len(),
    ensures
        parsed(r, pos, top_level_decl(tokens.deep_view(), pos as int)),
        r matches Ok((_, next)) ==> pos < next <= tokens.len(),
{
    if let Some(TokenInfo::Func) = peek(tokens, pos) {
        if let Some(TokenInfo::LParen) = peek(tokens, pos + 1) {
            match parse_method_decl(tokens, pos) {
                Ok((decl, next)) => Ok((TopLevelDecl::Method(decl), next)),
                Err(f) => Err(f),
            }
        } else {
            match parse_function_decl(tokens, pos) {
                Ok((decl, next)) => Ok((TopLevelDecl::Func(decl), next)),
                Err(f) => Err(f),
            }
        }
    } else {
        match parse_declaration(tokens, pos) {
            Ok((decl, next)) => Ok((TopLevelDecl::Decl(decl), next)),
            Err(f) => Err(f),
        }
    }
}

pub(crate) fn parse_top_level_decls(tokens: &Vec<Token>, pos: usize) -> (r: Result<
    (Vec<TopLevelDecl>, usize),
    Failure,
>)
    requires
        pos <= tokens.len(),
    ensures
        parsed(r, pos, top_level_decls(tokens.deep_view(), pos as int)),
        r matches Ok((_, next)) ==> pos <= next <= tokens.len(),
{
    let ghost view = tokens.deep_view();
    let mut list: Vec<TopLevelDecl> = Vec::new();
    let mut p = pos;
    assert(list.deep_view() =~= Seq::empty());
    proof {
        let all = top_level_decls(view, pos as int);
        if let Ok((items, _)) = all {
            assert(Seq::empty() + items =~= items);
        }
    }
    loop
        invariant
            view == tokens.deep_view(),
            pos <= p <= tokens.len(),
            top_level_decls(view, pos as int) == after(
                list.deep_view(),
                (p - pos) as nat,
                top_level_decls(view, p as int),
            ),
        decreases tokens.len() - p,
    {
        let ghost done = list.deep_view();
        match peek(tokens, p) {
            None | Some(TokenInfo::Eof) => {
                assert(done + Seq::empty() =~= done);
                return Ok((list, p));
            },
            _ => {},
        }
        match parse_top_level_decl(tokens, p) {
            Ok((decl, next)) => {
                if let Some(TokenInfo::Semicolon) = peek(tokens, next) {
                    let ghost item = decl.deep_view();
                    push_node(&mut list, decl);
                    proof {
                        assert(list.deep_view() =~= done + seq![item]);
                        lemma_after_after(
                            done,
                            (p - pos) as nat,
                            seq![item],
                            (next - p + 1) as nat,
                            top_level_decls(view, next + 1),
                        );
                    }
                    p = next + 1;
                } else {
                    return Err(Failure { at: next, expected: "expected ';'" });
                }
            },
            Err(f) => {
                return Err(f);
            },
        }
    }
}

pub(crate) fn parse_import_spec(tokens: &Vec<Token>, pos: usize) -> (r: Result<
    (ImportSpec, usize),
    Failure,
>)
    requires
        pos <= tokens.len(),
    ensures
        parsed(r, pos, import_spec(tokens.deep_view(), pos as int)),
        r matches Ok((_, next)) ==> pos < next <= tokens.len(),
{
    let (name, p) = match peek(tokens, pos) {
        Some(TokenInfo::Dot) => (Some(ImportName::Dot { loc: loc_of(tokens, pos) }), pos + 1),
        Some(TokenInfo::Identifier(text)) => (
            Some(ImportName::Name { loc: loc_of(tokens, pos), name: text.clone() }),
            pos + 1,
        ),
        _ => (None, pos),
    };
    match parse_string_lit(tokens, p) {
        Ok((path, next)) => Ok((ImportSpec { loc: cover(tokens, pos, next), name, path }, next)),
        Err(f) => Err(f),
    }
}

/// Whether reading imports into a list came out as `want` says: the same
/// failure, or the imports behind those that the list held and the
/// position behind their tokens.
pub open spec fn imports_read(
    r: Result<usize, Failure>,
    pos: usize,
    before: Seq<ImportSpecView>,
    now: Seq<ImportSpecView>,
    want: Result<(Seq<ImportSpecView>, nat), FailureView>,
) -> bool {
    match want {
        Ok((specs, n)) => r matches Ok(next) && next == pos + n && now == before + specs,
        Err(f) => r matches Err(e) && e.deep_view() == f,
    }
}

/// Reads import specifications up to a closing parenthesis into `out`.
fn parse_import_specs(tokens: &Vec<Token>, pos: usize, out: &mut Vec<ImportSpec>) -> (r: Result<
    usize,
    Failure,
>)
    requires
        pos <= tokens.len(),
    ensures
        imports_read(
            r,
            pos,
            old(out).deep_view(),
            final(out).deep_view(),
            import_specs(tokens.deep_view(), pos as int),
        ),
        r matches Ok(next) ==> pos <= next <= tokens.len(),
{
    let ghost view = tokens.deep_view();
    let ghost before = out.deep_view();
    let mut p = pos;
    proof {
        let all = import_specs(view, pos as int);
        if let Ok((items, _)) = all {
            assert(Seq::empty() + items =~= items);
        }
    }
    let ghost mut read: Seq<ImportSpecView> = Seq::empty();
    assert(before + read =~= before);
    loop
        invariant
            view == tokens.deep_view(),
            pos <= p <= tokens.len(),
            before == old(out).deep_view(),
            out.deep_view() == before + read,
            import_specs(view, pos as int) == after(
                read,
                (p - pos) as nat,
                import_specs(view, p as int),
            ),
        decreases tokens.len() - p,
    {
        if let Some(TokenInfo::RParen) = peek(tokens, p) {
            assert(read + Seq::empty() =~= read);
            return Ok(p);
        }
        match parse_import_spec(tokens, p) {
            Ok((spec, next)) => {
                if let Some(TokenInfo::Semicolon) = peek(tokens, next) {
                    let ghost item = spec.deep_view();
                    push_node(out, spec);
                    proof {
                        lemma_after_after(
                            read,
                            (p - pos) as nat,
                            seq![item],
                            (next - p + 1) as nat,
                            import_specs(view, next + 1),
                        );
                        assert(out.deep_view() =~= before + (read + seq![item]));
                        read = read + seq![item];
                    }
                    p = next + 1;
                } else {
                    return Err(Failure { at: next, expected: "expected ';'" });
                }
            },
            Err(f) => {
                return Err(f);
            },
        }
    }
}

/// Reads one import declaration into `out`.
fn parse_import_decl(tokens: &Vec<Token>, pos: usize, out: &mut Vec<ImportSpec>) -> (r: Result<
    usize,
    Failure,
>)
    requires
        pos <= tokens.len(),
    ensures
        imports_read(
            r,
            pos,
            old(out).deep_view(),
            final(out).deep_view(),
            import_decl(tokens.deep_view(), pos as int),
        ),
        r matches Ok(next) ==> pos < next <= tokens.len(),
{
    match peek(tokens, pos) {
        Some(TokenInfo::Import) => {},
        _ => {
            return Err(Failure { at: pos, expected: "expected 'import'" });
        },
    }
    if let Some(TokenInfo::LParen) = peek(tokens, pos + 1) {
        match parse_import_specs(tokens, pos + 2, out) {
            Ok(p) => {
                if let Some(TokenInfo::RParen) = peek(tokens, p) {
                    Ok(p + 1)
                } else {
                    Err(Failure { at: p, expected: "expected ')'" })
                }
            },
            Err(f) => Err(f),
        }
    } else {
        match parse_import_spec(tokens, pos + 1) {
            Ok((spec, next)) => {
                let ghost item = spec.deep_view();
                push_node(out, spec);
                assert(out.deep_view() =~= old(out).deep_view() + seq![item]);
                Ok(next)
            },
            Err(f) => Err(f),
        }
    }
}

pub(crate) fn parse_imports(tokens: &Vec<Token>, pos: usize) -> (r: Result<
    (Vec<ImportSpec>, usize),
    Failure,
>)
    requires
        pos <= tokens.len(),
    ensures
        parsed(r, pos, imports(tokens.deep_view(), pos as int)),
        r matches Ok((_, next)) ==> pos <= next <= tokens.len(),
{
    let ghost view = tokens.deep_view();
    let mut list: Vec<ImportSpec> = Vec::new();
    let mut p = pos;
    assert(list.deep_view() =~= Seq::empty());
    proof {
        let all = imports(view, pos as int);
        if let Ok((items, _)) = all {
            assert(Seq::empty() + items =~= items);
        }
    }
    loop
        invariant
            view == tokens.deep_view(),
            pos <= p <= tokens.len(),
            imports(view, pos as int) == after(
                list.deep_view(),
                (p - pos) as nat,
                imports(view, p as int),
            ),
        decreases tokens.len() - p,
    {
        let ghost done = list.deep_view();
        match peek(tokens, p) {
            Some(TokenInfo::Import) => {},
            _ => {
                assert(done + Seq::empty() =~= done);
                return Ok((list, p));
            },
        }
        match parse_import_decl(tokens, p, &mut list) {
            Ok(next) => {
                if let Some(TokenInfo::Semicolon) = peek(tokens, next) {
                    proof {
                        let specs = import_decl(view, p as int)->Ok_0.0;
                        lemma_after_after(
                            done,
                            (p - pos) as nat,
                            specs,
                            (next - p + 1) as nat,
                            imports(view, next + 1),
                        );
                    }
                    p = next + 1;
                } else {
                    return Err(Failure { at: next, expected: "expected ';'" });
                }
            },
            Err(f) => {
                return Err(f);
            },
        }
    }
}

pub(crate) fn parse_package_clause(tokens: &Vec<Token>) -> (r: Result<
    (Option<PackageClause>, usize),
    Failure,
>)
    ensures
        parsed(r, 0, package_clause(tokens.deep_view())),
        r matches Ok((_, next)) ==> next <= tokens.len(),
{
    if let Some(TokenInfo::Package) = peek(tokens, 0) {
        match parse_ident(tokens, 1) {
            Ok((name, _)) => {
                if let Some(TokenInfo::Semicolon) = peek(tokens, 2) {
                    Ok((Some(PackageClause { loc: cover(tokens, 0, 2), name }), 3))
                } else {
                    Err(Failure { at: 2, expected: "expected ';'" })
                }
            },
            Err(f) => Err(f),
        }
    } else {
        Ok((None, 0))
    }
}

/// The location of the token at `pos`; behind the last token, the end of
/// the token stream.
fn loc_or_end(tokens: &Vec<Token>, pos: usize) -> (loc: Loc)
    ensures
        loc == loc_at(tokens.deep_view(), pos as int),
{
    let len = tokens.len();
    if pos < len {
        tokens[pos].loc
    } else if len == 0 {
        Loc { start: 0, end: 0 }
    } else {
        let end = tokens[len - 1].loc.end;
        Loc { start: end, end }
    }
}

pub(crate) fn parse_source_file(tokens: &Vec<Token>) -> (r: Result<SourceFile, Failure>)
    ensures
        match source_file(tokens.deep_view()) {
            Ok(file) => r matches Ok(f) && f.deep_view() == file,
            Err(failure) => r matches Err(e) && e.deep_view() == failure,
        },
{
    let (package, p) = match parse_package_clause(tokens) {
        Ok(read) => read,
        Err(f) => {
            return Err(f);
        },
    };
    let (imports, p) = match parse_imports(tokens, p) {
        Ok(read) => read,
        Err(f) => {
            return Err(f);
        },
    };
    let (decls, p) = match parse_top_level_decls(tokens, p) {
        Ok(read) => read,
        Err(f) => {
            return Err(f);
        },
    };
    let loc = loc_or_end(tokens, 0).join(&loc_or_end(tokens, p));
    Ok(SourceFile { loc, package, imports, decls })
}

pub(crate) fn parse_lone_statement(tokens: &Vec<Token>) -> (r: Result<Statement, Failure>)
    ensures
        match lone_statement(tokens.deep_view()) {
            Ok(stmt) => r matches Ok(s) && s.deep_view() == stmt,
            Err(failure) => r matches Err(e) && e.deep_view() == failure,
        },
{
    match parse_statement(tokens, 0) {
        Ok((stmt, next)) => {
            let p = if let Some(TokenInfo::Semicolon) = peek(tokens, next) {
                next + 1
            } else {
                next
            };
            match peek(tokens, p) {
                None | Some(TokenInfo::Eof) => Ok(stmt),
                _ => Err(Failure { at: p, expected: "expected end of input" }),
            }
        },
        Err(f) => Err(f),
    }
}

} // verus!
