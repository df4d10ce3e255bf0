use go_parser::{lex, scan, LexError, Lexeme, Loc, Token, TokenInfo};

fn kinds(source: &str) -> Vec<TokenInfo> {
    lex(source).unwrap().into_iter().map(|t| t.kind).collect()
}

fn ident(name: &str) -> TokenInfo {
    TokenInfo::Identifier(name.to_string())
}

fn token(start: usize, end: usize, kind: TokenInfo) -> Token {
    Token { loc: Loc::new(start..end), kind }
}

#[test]
fn empty_source_is_end_of_input() {
    assert_eq!(lex("").unwrap(), vec![token(0, 0, TokenInfo::Eof)]);
    assert_eq!(scan("").unwrap(), vec![]);
}

#[test]
fn shift_assign_is_one_token() {
    assert_eq!(kinds("<<="), vec![TokenInfo::LtLtEq, TokenInfo::Eof]);
}

#[test]
fn operators_take_the_longest_match() {
    assert_eq!(
        kinds("< <= << <<= <- > >= >> >>= & && &= &^ &^= . ..."),
        vec![
            TokenInfo::Lt,
            TokenInfo::LtEq,
            TokenInfo::LtLt,
            TokenInfo::LtLtEq,
            TokenInfo::LtMinus,
            TokenInfo::Gt,
            TokenInfo::GtEq,
            TokenInfo::GtGt,
            TokenInfo::GtGtEq,
            TokenInfo::Amp,
            TokenInfo::AmpAmp,
            TokenInfo::AmpEq,
            TokenInfo::AmpCaret,
            TokenInfo::AmpCaretEq,
            TokenInfo::Dot,
            TokenInfo::Ellipsis,
            TokenInfo::Eof
        ]
    );
    assert_eq!(kinds("<<<"), vec![TokenInfo::LtLt, TokenInfo::Lt, TokenInfo::Eof]);
    assert_eq!(kinds(".."), vec![TokenInfo::Dot, TokenInfo::Dot, TokenInfo::Eof]);
}

#[test]
fn every_symbol_is_recognised() {
    assert_eq!(
        kinds("+ += ++ - -= -- * *= / /= % %= | |= || ^ ^= = == ! != := , ; : ( [ {"),
        vec![
            TokenInfo::Plus,
            TokenInfo::PlusEq,
            TokenInfo::PlusPlus,
            TokenInfo::Minus,
            TokenInfo::MinusEq,
            TokenInfo::MinusMinus,
            TokenInfo::Star,
            TokenInfo::StarEq,
            TokenInfo::Slash,
            TokenInfo::SlashEq,
            TokenInfo::Percent,
            TokenInfo::PercentEq,
            TokenInfo::Pipe,
            TokenInfo::PipeEq,
            TokenInfo::PipePipe,
            TokenInfo::Caret,
            TokenInfo::CaretEq,
            TokenInfo::Eq,
            TokenInfo::EqEq,
            TokenInfo::Not,
            TokenInfo::NotEq,
            TokenInfo::ColonEq,
            TokenInfo::Comma,
            TokenInfo::Semicolon,
            TokenInfo::Colon,
            TokenInfo::LParen,
            TokenInfo::LBracket,
            TokenInfo::LBrace,
            TokenInfo::Eof
        ]
    );
}

#[test]
fn words_and_keywords() {
    assert_eq!(
        kinds("package main"),
        vec![TokenInfo::Package, ident("main"), TokenInfo::Semicolon, TokenInfo::Eof]
    );
}

#[test]
fn every_keyword_is_recognised() {
    assert_eq!(
        kinds(
            "break default func interface select case defer go map struct chan else goto \
             package switch const fallthrough if range type continue for import return var ("
        ),
        vec![
            TokenInfo::Break,
            TokenInfo::Default,
            TokenInfo::Func,
            TokenInfo::Interface,
            TokenInfo::Select,
            TokenInfo::Case,
            TokenInfo::Defer,
            TokenInfo::Go,
            TokenInfo::MapKw,
            TokenInfo::Struct,
            TokenInfo::Chan,
            TokenInfo::Else,
            TokenInfo::Goto,
            TokenInfo::Package,
            TokenInfo::Switch,
            TokenInfo::Const,
            TokenInfo::Fallthrough,
            TokenInfo::If,
            TokenInfo::Range,
            TokenInfo::Type,
            TokenInfo::Continue,
            TokenInfo::For,
            TokenInfo::Import,
            TokenInfo::Return,
            TokenInfo::Var,
            TokenInfo::LParen,
            TokenInfo::Eof
        ]
    );
}

#[test]
fn a_keyword_inside_a_word_is_no_keyword() {
    assert_eq!(kinds("iffy ("), vec![ident("iffy"), TokenInfo::LParen, TokenInfo::Eof]);
    assert_eq!(kinds("_if ("), vec![ident("_if"), TokenInfo::LParen, TokenInfo::Eof]);
    assert_eq!(kinds("x9 ("), vec![ident("x9"), TokenInfo::LParen, TokenInfo::Eof]);
}

#[test]
fn unicode_identifier() {
    let tokens = lex("näme := 'é'").unwrap();
    assert_eq!(tokens[0], token(0, 5, ident("näme")));
    assert_eq!(tokens[1], token(6, 8, TokenInfo::ColonEq));
    assert_eq!(tokens[2], token(9, 10, TokenInfo::RuneBeg));
    assert_eq!(tokens[3], token(10, 12, TokenInfo::RuneContents('é')));
    assert_eq!(tokens[4], token(12, 13, TokenInfo::RuneEnd));
}

#[test]
fn unicode_letters_and_digits_continue_a_word() {
    assert_eq!(kinds("日本語 ("), vec![ident("日本語"), TokenInfo::LParen, TokenInfo::Eof]);
    assert_eq!(kinds("a٣ ("), vec![ident("a٣"), TokenInfo::LParen, TokenInfo::Eof]);
    assert_eq!(lex("٣"), Err(LexError::UnexpectedChar(0, 2)));
}

#[test]
fn locations_give_back_the_text() {
    let source = "func näme(x) { return 0x1F + y10 }";
    for t in lex(source).unwrap() {
        let text = &source[t.loc.range()];
        match t.kind {
            TokenInfo::Identifier(s) | TokenInfo::HexInt(s) => assert_eq!(text, s),
            TokenInfo::Func => assert_eq!(text, "func"),
            TokenInfo::Return => assert_eq!(text, "return"),
            TokenInfo::LParen => assert_eq!(text, "("),
            TokenInfo::RParen => assert_eq!(text, ")"),
            TokenInfo::LBrace => assert_eq!(text, "{"),
            TokenInfo::RBrace => assert_eq!(text, "}"),
            TokenInfo::Plus => assert_eq!(text, "+"),
            TokenInfo::Semicolon | TokenInfo::Eof => assert_eq!(text, ""),
            other => panic!("unexpected token {:?}", other),
        }
    }
}

#[test]
fn rescanning_a_token_gives_the_same_kind() {
    let source = "if näme <<= 0x1F { x := 1.5e3 + 017 &^ 2i }";
    for t in lex(source).unwrap() {
        if t.loc.start() == t.loc.end() {
            continue;
        }
        let again = lex(&source[t.loc.range()]).unwrap();
        assert_eq!(again[0].kind, t.kind);
        assert_eq!(again[0].loc, Loc::new(0..t.loc.end() - t.loc.start()));
    }
}

#[test]
fn rune_escapes() {
    assert_eq!(kinds("'\\n'")[1], TokenInfo::RuneContents('\n'));
    assert_eq!(kinds("'\\x41'")[1], TokenInfo::RuneContents('A'));
    assert_eq!(kinds("'\\101'")[1], TokenInfo::RuneContents('A'));
    assert_eq!(kinds("'\\u00e9'")[1], TokenInfo::RuneContents('é'));
    assert_eq!(kinds("'\\U0001F600'")[1], TokenInfo::RuneContents('\u{1F600}'));
    assert_eq!(kinds("'\\''")[1], TokenInfo::RuneContents('\''));
    assert_eq!(kinds("'\\\\'")[1], TokenInfo::RuneContents('\\'));
    assert_eq!(kinds("'\\xff'")[1], TokenInfo::RuneContents('\u{ff}'));
    assert_eq!(kinds("'\\a'")[1], TokenInfo::RuneContents('\u{7}'));
    assert_eq!(kinds("'\\b'")[1], TokenInfo::RuneContents('\u{8}'));
    assert_eq!(kinds("'\\f'")[1], TokenInfo::RuneContents('\u{c}'));
    assert_eq!(kinds("'\\r'")[1], TokenInfo::RuneContents('\r'));
    assert_eq!(kinds("'\\t'")[1], TokenInfo::RuneContents('\t'));
    assert_eq!(kinds("'\\v'")[1], TokenInfo::RuneContents('\u{b}'));
}

#[test]
fn rune_literal_is_three_tokens() {
    assert_eq!(
        lex("'a'").unwrap(),
        vec![
            token(0, 1, TokenInfo::RuneBeg),
            token(1, 2, TokenInfo::RuneContents('a')),
            token(2, 3, TokenInfo::RuneEnd),
            token(3, 3, TokenInfo::Semicolon),
            token(3, 3, TokenInfo::Eof)
        ]
    );
}

#[test]
fn string_escapes() {
    assert_eq!(
        kinds("\"a\\u00e9\\x41\\101\\n\""),
        vec![
            TokenInfo::StringBeg,
            TokenInfo::StringContents(vec![b'a', 0xc3, 0xa9, b'A', b'A', b'\n']),
            TokenInfo::StringEnd,
            TokenInfo::Semicolon,
            TokenInfo::Eof
        ]
    );
    assert_eq!(kinds("\"\\u0041\"")[1], TokenInfo::StringContents(vec![b'A']));
    assert_eq!(kinds("\"\\xff\"")[1], TokenInfo::StringContents(vec![0xff]));
    assert_eq!(kinds("\"\\377\"")[1], TokenInfo::StringContents(vec![0xff]));
    assert_eq!(kinds("\"\\\"\"")[1], TokenInfo::StringContents(vec![b'"']));
    assert_eq!(kinds("\"\\u20ac\"")[1], TokenInfo::StringContents("€".as_bytes().to_vec()));
    assert_eq!(
        kinds("\"\\U0001F600\"")[1],
        TokenInfo::StringContents("\u{1F600}".as_bytes().to_vec())
    );
    assert_eq!(kinds("\"é'\"")[1], TokenInfo::StringContents("é'".as_bytes().to_vec()));
}

#[test]
fn string_literal_is_three_tokens() {
    assert_eq!(
        lex("\"\"").unwrap(),
        vec![
            token(0, 1, TokenInfo::StringBeg),
            token(1, 1, TokenInfo::StringContents(vec![])),
            token(1, 2, TokenInfo::StringEnd),
            token(2, 2, TokenInfo::Semicolon),
            token(2, 2, TokenInfo::Eof)
        ]
    );
}

#[test]
fn raw_string_keeps_backslashes_and_drops_carriage_returns() {
    assert_eq!(
        lex("`a\\n\r\nb`").unwrap(),
        vec![
            token(0, 1, TokenInfo::StringBeg),
            token(1, 7, TokenInfo::StringContents(b"a\\n\nb".to_vec())),
            token(7, 8, TokenInfo::StringEnd),
            token(8, 8, TokenInfo::Semicolon),
            token(8, 8, TokenInfo::Eof)
        ]
    );
}

#[test]
fn numbers() {
    assert_eq!(
        kinds("0x1F 017 12 1.5e+3 .5 2i 0 1. 1e5 0XaB 09.5 08i 1E-2 3.i"),
        vec![
            TokenInfo::HexInt("0x1F".to_string()),
            TokenInfo::OctInt("017".to_string()),
            TokenInfo::DecInt("12".to_string()),
            TokenInfo::Float("1.5e+3".to_string()),
            TokenInfo::Float(".5".to_string()),
            TokenInfo::Imaginary("2i".to_string()),
            TokenInfo::OctInt("0".to_string()),
            TokenInfo::Float("1.".to_string()),
            TokenInfo::Float("1e5".to_string()),
            TokenInfo::HexInt("0XaB".to_string()),
            TokenInfo::Float("09.5".to_string()),
            TokenInfo::Imaginary("08i".to_string()),
            TokenInfo::Float("1E-2".to_string()),
            TokenInfo::Imaginary("3.i".to_string()),
            TokenInfo::Semicolon,
            TokenInfo::Eof
        ]
    );
}

#[test]
fn a_number_ends_where_its_grammar_ends() {
    assert_eq!(
        kinds("1e+"),
        vec![TokenInfo::DecInt("1".to_string()), ident("e"), TokenInfo::Plus, TokenInfo::Eof]
    );
    assert_eq!(
        kinds("0x1g"),
        vec![TokenInfo::HexInt("0x1".to_string()), ident("g"), TokenInfo::Semicolon, TokenInfo::Eof]
    );
    assert_eq!(
        kinds("x.y"),
        vec![ident("x"), TokenInfo::Dot, ident("y"), TokenInfo::Semicolon, TokenInfo::Eof]
    );
}

#[test]
fn comments_and_newlines() {
    let lexemes = scan("a /* x\n y */ b // c\n").unwrap();
    assert_eq!(
        lexemes,
        vec![
            Lexeme::Token(token(0, 1, ident("a"))),
            Lexeme::Whitespace,
            Lexeme::Newline(2, 12),
            Lexeme::Whitespace,
            Lexeme::Token(token(13, 14, ident("b"))),
            Lexeme::Whitespace,
            Lexeme::Whitespace,
            Lexeme::Newline(19, 20)
        ]
    );
}

#[test]
fn a_comment_within_a_line_is_white_space() {
    assert_eq!(
        scan("a/* x */b").unwrap(),
        vec![
            Lexeme::Token(token(0, 1, ident("a"))),
            Lexeme::Whitespace,
            Lexeme::Token(token(8, 9, ident("b")))
        ]
    );
    assert_eq!(
        kinds("a /**/ b ("),
        vec![ident("a"), ident("b"), TokenInfo::LParen, TokenInfo::Eof]
    );
}

#[test]
fn a_comment_over_several_lines_ends_a_statement() {
    assert_eq!(
        lex("a /* x\n y */ b").unwrap(),
        vec![
            token(0, 1, ident("a")),
            token(2, 2, TokenInfo::Semicolon),
            token(13, 14, ident("b")),
            token(14, 14, TokenInfo::Semicolon),
            token(14, 14, TokenInfo::Eof)
        ]
    );
}

#[test]
fn newline_after_a_statement_end_gives_one_semicolon() {
    assert_eq!(
        lex("x\n\n \n y").unwrap(),
        vec![
            token(0, 1, ident("x")),
            token(1, 1, TokenInfo::Semicolon),
            token(6, 7, ident("y")),
            token(7, 7, TokenInfo::Semicolon),
            token(7, 7, TokenInfo::Eof)
        ]
    );
}

#[test]
fn kinds_that_end_a_statement() {
    for source in
        ["x", "1", "017", "0x1", "1.5", "2i", "'a'", "\"s\"", "`s`", "x++", "x--", ")", "]", "}",
         "break", "continue", "fallthrough", "return"]
    {
        let with_newline = format!("{}\n(", source);
        let tokens = kinds(&with_newline);
        let n = tokens.len();
        assert_eq!(tokens[n - 3], TokenInfo::Semicolon, "{}", source);
        assert_eq!(tokens[n - 2], TokenInfo::LParen, "{}", source);
        let at_end = kinds(source);
        assert_eq!(at_end[at_end.len() - 2], TokenInfo::Semicolon, "{}", source);
    }
}

#[test]
fn kinds_that_do_not_end_a_statement() {
    for source in ["+", "(", "{", "[", ",", ";", "if", "func", "=", ":=", "else", "package", "."] {
        let with_newline = format!("{}\n(", source);
        let tokens = kinds(&with_newline);
        assert_eq!(tokens.len(), 3, "{}", source);
        assert_eq!(tokens[1], TokenInfo::LParen, "{}", source);
        assert_eq!(kinds(source).len(), 2, "{}", source);
    }
}

#[test]
fn input_ending_in_increment_gets_a_semicolon() {
    assert_eq!(
        lex("x++").unwrap(),
        vec![
            token(0, 1, ident("x")),
            token(1, 3, TokenInfo::PlusPlus),
            token(3, 3, TokenInfo::Semicolon),
            token(3, 3, TokenInfo::Eof)
        ]
    );
}

#[test]
fn rune_with_two_characters_is_an_error() {
    assert_eq!(lex("'ab'"), Err(LexError::UnexpectedChar(2, 3)));
    assert_eq!(lex("'aé'"), Err(LexError::UnexpectedChar(2, 4)));
}

#[test]
fn unexpected_character() {
    assert_eq!(lex("a # b"), Err(LexError::UnexpectedChar(2, 3)));
    assert_eq!(lex("a € b"), Err(LexError::UnexpectedChar(2, 5)));
    assert_eq!(lex("''"), Err(LexError::UnexpectedChar(1, 2)));
    assert_eq!(scan("\u{a0}"), Err(LexError::UnexpectedChar(0, 2)));
}

#[test]
fn unterminated_comment() {
    assert_eq!(lex("a /* b"), Err(LexError::UnterminatedComment));
    assert_eq!(lex("/*/"), Err(LexError::UnterminatedComment));
    assert_eq!(kinds("/**/"), vec![TokenInfo::Eof]);
}

#[test]
fn unterminated_string() {
    assert_eq!(lex("\"abc"), Err(LexError::UnterminatedString));
    assert_eq!(lex("`abc"), Err(LexError::UnterminatedString));
    assert_eq!(lex("\"abc\\"), Err(LexError::UnterminatedString));
    assert_eq!(lex("\"\\x4"), Err(LexError::UnterminatedString));
}

#[test]
fn unterminated_rune() {
    assert_eq!(lex("'"), Err(LexError::UnterminatedRune));
    assert_eq!(lex("'a"), Err(LexError::UnterminatedRune));
    assert_eq!(lex("'a\n'"), Err(LexError::UnterminatedRune));
    assert_eq!(lex("'\\"), Err(LexError::UnterminatedRune));
    assert_eq!(lex("'\\u00"), Err(LexError::UnterminatedRune));
}

#[test]
fn bad_escape() {
    assert_eq!(lex("'\\q'"), Err(LexError::BadEscape(1, 3)));
    assert_eq!(lex("\"a\\q\""), Err(LexError::BadEscape(2, 4)));
    assert_eq!(lex("'\\18'"), Err(LexError::BadEscape(1, 4)));
    assert_eq!(lex("'\\\"'"), Err(LexError::BadEscape(1, 3)));
    assert_eq!(lex("\"\\'\""), Err(LexError::BadEscape(1, 3)));
}

#[test]
fn illegal_newline() {
    assert_eq!(lex("\"a\nb\""), Err(LexError::IllegalNewline(2, 3)));
    assert_eq!(lex("'\n'"), Err(LexError::IllegalNewline(1, 2)));
}

#[test]
fn illegal_hex_digit() {
    assert_eq!(lex("'\\xqq'"), Err(LexError::IllegalHexDigit(3, 4)));
    assert_eq!(lex("\"\\xqq\""), Err(LexError::IllegalHexDigit(3, 4)));
    assert_eq!(lex("\"\\u00g0\""), Err(LexError::IllegalHexDigit(5, 6)));
    assert_eq!(lex("0x"), Err(LexError::IllegalHexDigit(2, 2)));
    assert_eq!(lex("0xg"), Err(LexError::IllegalHexDigit(2, 3)));
}

#[test]
fn illegal_octal_value() {
    assert_eq!(lex("089"), Err(LexError::IllegalOctalValue(0, 3)));
    assert_eq!(lex("x = 0779 + 1"), Err(LexError::IllegalOctalValue(4, 8)));
    assert_eq!(lex("'\\400'"), Err(LexError::IllegalOctalValue(1, 5)));
}

#[test]
fn illegal_unicode_value() {
    assert_eq!(lex("'\\ud800'"), Err(LexError::IllegalUnicodeValue(1, 7)));
    assert_eq!(lex("'\\U00110000'"), Err(LexError::IllegalUnicodeValue(1, 11)));
    assert_eq!(lex("\"\\udfff\""), Err(LexError::IllegalUnicodeValue(1, 7)));
}

#[test]
fn scanning_stops_at_the_first_error() {
    assert_eq!(lex("# 'ab'"), Err(LexError::UnexpectedChar(0, 1)));
    assert_eq!(lex("089 #"), Err(LexError::IllegalOctalValue(0, 3)));
}
