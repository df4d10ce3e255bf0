//! Automatic semicolon insertion.
//!
//! Tokens pass through, white space is dropped, and a newline becomes a
//! semicolon where the token before it could end a statement. The rule looks
//! at no more than the last token that passed.

use crate::lex::token::{plain_token, KindView, Lexeme, LexemeView, Token, TokenInfo, TokenView};
use crate::loc::Loc;
use vstd::prelude::*;

verus! {

/// Whether a line break behind a token of this kind ends a statement: behind
/// an identifier, a literal, `++`, `--`, a closing bracket, and the keywords
/// `break`, `continue`, `fallthrough` and `return`.
pub open spec fn ends_statement(kind: KindView) -> bool {
    match kind {
        KindView::Identifier(_) => true,
        KindView::DecInt(_) => true,
        KindView::OctInt(_) => true,
        KindView::HexInt(_) => true,
        KindView::Float(_) => true,
        KindView::Imaginary(_) => true,
        KindView::StringContents(_) => false,
        KindView::Plain(plain) => match plain {
            TokenInfo::RuneEnd => true,
            TokenInfo::StringEnd => true,
            TokenInfo::PlusPlus => true,
            TokenInfo::MinusMinus => true,
            TokenInfo::RParen => true,
            TokenInfo::RBracket => true,
            TokenInfo::RBrace => true,
            TokenInfo::Break => true,
            TokenInfo::Continue => true,
            TokenInfo::Fallthrough => true,
            TokenInfo::Return => true,
            _ => false,
        },
    }
}

/// Whether a line break behind the last of `tokens` ends a statement.
pub open spec fn statement_open(tokens: Seq<TokenView>) -> bool {
    tokens.len() > 0 && ends_statement(tokens.last().kind)
}

/// The semicolon that stands for a line break at `pos`. It has no width.
pub open spec fn semicolon_at(pos: usize) -> TokenView {
    plain_token(pos as int, pos as int, TokenInfo::Semicolon)
}

/// The tokens of `lexemes`, with a semicolon for each newline that ends a
/// statement.
pub open spec fn with_semicolons(lexemes: Seq<LexemeView>) -> Seq<TokenView>
    decreases lexemes.len(),
{
    if lexemes.len() == 0 {
        Seq::empty()
    } else {
        let tokens = with_semicolons(lexemes.drop_last());
        match lexemes.last() {
            LexemeView::Token(token) => tokens.push(token),
            LexemeView::Whitespace => tokens,
            LexemeView::Newline(start, _) => if statement_open(tokens) {
                tokens.push(semicolon_at(start))
            } else {
                tokens
            },
        }
    }
}

/// The token stream as the parser reads it: `tokens`, a last semicolon
/// where the text ends in an open statement, and the end-of-input token.
/// Both stand at `end`, the length of the text.
pub open spec fn closed(tokens: Seq<TokenView>, end: usize) -> Seq<TokenView> {
    let tokens = if statement_open(tokens) {
        tokens.push(semicolon_at(end))
    } else {
        tokens
    };
    tokens.push(plain_token(end as int, end as int, TokenInfo::Eof))
}

/// Whether `gap` holds white space and newlines only.
pub open spec fn no_tokens(gap: Seq<LexemeView>) -> bool {
    forall|i: int| 0 <= i < gap.len() ==> !(#[trigger] gap[i] is Token)
}

/// Where the first newline of `gap` starts, if it holds one.
pub open spec fn first_newline(gap: Seq<LexemeView>) -> Option<usize>
    decreases gap.len(),
{
    if gap.len() == 0 {
        None
    } else {
        match first_newline(gap.drop_last()) {
            Some(start) => Some(start),
            None => match gap.last() {
                LexemeView::Newline(start, _) => Some(start),
                _ => None,
            },
        }
    }
}

/// The tokens up to a token that can end a statement, followed by `gap`.
proof fn lemma_gap(before: Seq<LexemeView>, token: TokenView, gap: Seq<LexemeView>)
    requires
        ends_statement(token.kind),
        no_tokens(gap),
    ensures
        with_semicolons(before.push(LexemeView::Token(token)) + gap) == match first_newline(gap) {
            Some(start) => with_semicolons(before).push(token).push(semicolon_at(start)),
            None => with_semicolons(before).push(token),
        },
    decreases gap.len(),
{
    let head = before.push(LexemeView::Token(token));
    if gap.len() == 0 {
        assert(head + gap =~= head);
        assert(head.drop_last() =~= before);
    } else {
        lemma_gap(before, token, gap.drop_last());
        assert((head + gap).drop_last() =~= head + gap.drop_last());
        assert(gap[gap.len() - 1] == gap.last());
    }
}

/// Between a token that can end a statement and the next token stands
/// exactly one semicolon where a newline separates the two, however many
/// newlines there are, and none where no newline does. The semicolon stands
/// where the first newline starts.
pub proof fn lemma_one_semicolon_per_line_break(
    before: Seq<LexemeView>,
    token: TokenView,
    gap: Seq<LexemeView>,
    next: TokenView,
)
    requires
        ends_statement(token.kind),
        no_tokens(gap),
    ensures
        with_semicolons(
            before.push(LexemeView::Token(token)) + gap.push(LexemeView::Token(next)),
        ) == match first_newline(gap) {
            Some(start) => with_semicolons(before).push(token).push(semicolon_at(start)).push(next),
            None => with_semicolons(before).push(token).push(next),
        },
{
    let head = before.push(LexemeView::Token(token));
    let all = head + gap.push(LexemeView::Token(next));
    lemma_gap(before, token, gap);
    assert(all.drop_last() =~= head + gap);
}

/// Behind a token that cannot end a statement, white space and newlines
/// leave no trace.
pub proof fn lemma_no_semicolon_elsewhere(
    before: Seq<LexemeView>,
    token: TokenView,
    gap: Seq<LexemeView>,
)
    requires
        !ends_statement(token.kind),
        no_tokens(gap),
    ensures
        with_semicolons(before.push(LexemeView::Token(token)) + gap) == with_semicolons(
            before,
        ).push(token),
    decreases gap.len(),
{
    let head = before.push(LexemeView::Token(token));
    if gap.len() == 0 {
        assert(head + gap =~= head);
        assert(head.drop_last() =~= before);
    } else {
        lemma_no_semicolon_elsewhere(before, token, gap.drop_last());
        assert((head + gap).drop_last() =~= head + gap.drop_last());
        assert(gap[gap.len() - 1] == gap.last());
    }
}

/// A closed token stream ends in the end-of-input token, and the token
/// before it leaves no statement open: the last statement of a text is
/// terminated, whether or not a line break follows it.
pub proof fn lemma_closed_stream_is_terminated(tokens: Seq<TokenView>, end: usize)
    ensures
        ({
            let stream = closed(tokens, end);
            &&& stream.len() >= 1
            &&& stream.last() == plain_token(end as int, end as int, TokenInfo::Eof)
            &&& stream.len() >= 2 ==> !ends_statement(stream[stream.len() - 2].kind)
            &&& stream.len() == tokens.len() + (if statement_open(tokens) {
                2int
            } else {
                1int
            })
            &&& forall|i: int| 0 <= i < tokens.len() ==> stream[i] == tokens[i]
        }),
{
}

pub(crate) fn kind_ends_statement(kind: &TokenInfo) -> (r: bool)
    ensures
        r == ends_statement(kind.deep_view()),
{
    match kind {
        TokenInfo::Identifier(_) => true,
        TokenInfo::DecInt(_) => true,
        TokenInfo::OctInt(_) => true,
        TokenInfo::HexInt(_) => true,
        TokenInfo::Float(_) => true,
        TokenInfo::Imaginary(_) => true,
        TokenInfo::RuneEnd => true,
        TokenInfo::StringEnd => true,
        TokenInfo::PlusPlus => true,
        TokenInfo::MinusMinus => true,
        TokenInfo::RParen => true,
        TokenInfo::RBracket => true,
        TokenInfo::RBrace => true,
        TokenInfo::Break => true,
        TokenInfo::Continue => true,
        TokenInfo::Fallthrough => true,
        TokenInfo::Return => true,
        _ => false,
    }
}

fn is_statement_open(tokens: &Vec<Token>) -> (r: bool)
    ensures
        r == statement_open(tokens.deep_view()),
{
    tokens.len() > 0 && kind_ends_statement(&tokens[tokens.len() - 1].kind)
}

fn push_token(tokens: &mut Vec<Token>, token: Token)
    ensures
        final(tokens).deep_view() == old(tokens).deep_view().push(token.deep_view()),
{
    tokens.push(token);
    assert(tokens.deep_view() =~= old(tokens).deep_view().push(token.deep_view()));
}

/// Turns the lexemes of a text of `end` bytes into its token stream.
pub fn insert_semicolons(lexemes: Vec<Lexeme>, end: usize) -> (tokens: Vec<Token>)
    ensures
        tokens.deep_view() == closed(with_semicolons(lexemes.deep_view()), end),
{
    let ghost all = lexemes.deep_view();
    let ghost items = lexemes@;
    let mut tokens: Vec<Token> = Vec::new();
    assert(tokens.deep_view() =~= Seq::<TokenView>::empty());
    assert(all.subrange(0, 0) =~= Seq::<LexemeView>::empty());
    for lexeme in it: lexemes.into_iter()
        invariant
            it.seq() == items,
            all.len() == items.len(),
            forall|i: int| 0 <= i < items.len() ==> all[i] == (#[trigger] items[i]).deep_view(),
            tokens.deep_view() == with_semicolons(all.subrange(0, it.index() as int)),
    {
        assert(all.subrange(0, it.index() + 1).drop_last() =~= all.subrange(0, it.index() as int));
        match lexeme {
            Lexeme::Token(token) => {
                push_token(&mut tokens, token);
            },
            Lexeme::Whitespace => {},
            Lexeme::Newline(start, _) => {
                if is_statement_open(&tokens) {
                    push_token(
                        &mut tokens,
                        Token { loc: Loc { start, end: start }, kind: TokenInfo::Semicolon },
                    );
                }
            },
        }
    }
    assert(all.subrange(0, items.len() as int) =~= all);
    if is_statement_open(&tokens) {
        push_token(&mut tokens, Token { loc: Loc { start: end, end }, kind: TokenInfo::Semicolon });
    }
    push_token(&mut tokens, Token { loc: Loc { start: end, end }, kind: TokenInfo::Eof });
    tokens
}

} // verus!
