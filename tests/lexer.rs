use compiler::error::{Diagnostic, LErrorHandler, Problem};
use compiler::grammar::CharClass;
use compiler::lexer::{tokenize, Lexer};
use compiler::token::{KeywordKind, LiteralKind, Span, Token, TokenKind};

fn kinds(code: &str) -> Vec<TokenKind> {
    tokenize(code).into_iter().map(|t| t.kind).collect()
}

fn solid_kinds(code: &str) -> Vec<TokenKind> {
    kinds(code).into_iter().filter(|k| *k != TokenKind::Whitespace).collect()
}

fn single(code: &str) -> Token {
    let tokens = tokenize(code);
    assert_eq!(tokens.len(), 2, "{:?}", tokens);
    assert_eq!(tokens[1].kind, TokenKind::Eof);
    tokens[0].clone()
}

fn integer(value: i64) -> TokenKind {
    TokenKind::Literal { kind: LiteralKind::Int { value } }
}

fn float_text(kind: &TokenKind) -> String {
    match kind {
        TokenKind::Literal { kind: LiteralKind::Float { literal } } => literal.clone(),
        other => panic!("not a float: {:?}", other),
    }
}

fn string(terminated: bool, value: &str) -> TokenKind {
    TokenKind::Literal { kind: LiteralKind::Str { terminated, value: value.to_string() } }
}

fn ident(name: &str) -> TokenKind {
    TokenKind::Ident { name: name.to_string() }
}

#[test]
fn empty_input_gives_only_eof() {
    let tokens = tokenize("");
    assert_eq!(tokens.len(), 1);
    assert_eq!(tokens[0].kind, TokenKind::Eof);
    assert_eq!(tokens[0].span, Span { low: 0, high: 0 });
}

#[test]
fn eof_repeats_after_the_end() {
    let mut lexer = Lexer::new("x");
    assert_eq!(lexer.next_token().kind, ident("x"));
    for _ in 0..3 {
        let t = lexer.next_token();
        assert_eq!(t.kind, TokenKind::Eof);
        assert_eq!(t.span, Span { low: 0, high: 0 });
    }
}

#[test]
fn totality_on_awkward_input() {
    let code = "let x = 1.; y = 2e+; /* open \"str 'a\\' \u{1F600}\u{200D} ` \\ §";
    let tokens = tokenize(code);
    assert_eq!(tokens.last().unwrap().kind, TokenKind::Eof);
    assert!(tokens.len() <= code.chars().count() + 1);
}

#[test]
fn spans_partition_the_input() {
    let code = "let café = \"a\\\"b\" + 12.5e-3; // note\n/* x /* y */ */ ab\u{1F600}c ?";
    let tokens = tokenize(code);
    let n = code.chars().count();
    let mut at = 0;
    for t in &tokens[..tokens.len() - 1] {
        assert_eq!(t.span.low, at);
        assert!(t.span.low < t.span.high);
        at = t.span.high;
    }
    assert_eq!(at, n);
}

#[test]
fn spans_count_characters_not_bytes() {
    let tokens = tokenize("é = 1");
    assert_eq!(tokens[0].kind, ident("é"));
    assert_eq!(tokens[0].span, Span { low: 0, high: 1 });
    assert_eq!(tokens[1].span, Span { low: 1, high: 2 });
    assert_eq!(tokens[2].kind, TokenKind::Eq);
    assert_eq!(tokens[2].span, Span { low: 2, high: 3 });
    assert_eq!(tokens[4].kind, integer(1));
    assert_eq!(tokens[4].span, Span { low: 4, high: 5 });
}

#[test]
fn integer_round_trip() {
    assert_eq!(single("7").kind, integer(7));
    assert_eq!(single("0042").kind, integer(42));
    assert_eq!(single("123456789012345").kind, integer(123456789012345));
    assert_eq!(single("999999999999999").kind, integer(999999999999999));
}

#[test]
fn float_round_trip() {
    let t = single("3.14");
    assert_eq!(float_text(&t.kind), "3.14");
    let v: f64 = float_text(&t.kind).parse().unwrap();
    assert!((v - 3.14).abs() < 1e-12);
    let t = single("123456789012345.5");
    let v: f64 = float_text(&t.kind).parse().unwrap();
    assert!((v - 123456789012345.5).abs() < 1e-3);
}

#[test]
fn exponents() {
    assert_eq!(float_text(&single("1e10").kind), "1e10");
    assert_eq!(float_text(&single("2.5E-3").kind), "2.5E-3");
    assert_eq!(float_text(&single("6e+2").kind), "6e+2");
    let v: f64 = float_text(&single("2.5E-3").kind).parse().unwrap();
    assert!((v - 0.0025).abs() < 1e-15);
}

#[test]
fn missing_fraction_digit() {
    let tokens = tokenize("1.x");
    assert_eq!(tokens[0].kind, TokenKind::InvalidDecimal);
    assert_eq!(tokens[0].span, Span { low: 0, high: 2 });
    assert_eq!(tokens[1].kind, ident("x"));
    assert_eq!(tokenize("5.")[0].kind, TokenKind::InvalidDecimal);
}

#[test]
fn missing_exponent_digit() {
    let tokens = tokenize("1e+;");
    assert_eq!(tokens[0].kind, TokenKind::InvalidExponent);
    assert_eq!(tokens[0].span, Span { low: 0, high: 3 });
    assert_eq!(tokens[1].kind, TokenKind::Semi);
    let tokens = tokenize("1.5ex");
    assert_eq!(tokens[0].kind, TokenKind::InvalidExponent);
    assert_eq!(tokens[0].span, Span { low: 0, high: 4 });
}

#[test]
fn integer_too_large() {
    assert_eq!(single("9223372036854775807").kind, integer(i64::MAX));
    assert_eq!(single("9223372036854775808").kind, TokenKind::InvalidLiteral);
    assert_eq!(single("99999999999999999999999").kind, TokenKind::InvalidLiteral);
}

#[test]
fn nested_block_comment() {
    let t = single("/* a /* b */ c */");
    assert_eq!(t.kind, TokenKind::BlockComment { terminated: true });
    assert_eq!(t.span, Span { low: 0, high: 17 });
}

#[test]
fn unterminated_block_comment() {
    let t = single("/* never closed");
    assert_eq!(t.kind, TokenKind::BlockComment { terminated: false });
    assert_eq!(t.span, Span { low: 0, high: 15 });
}

#[test]
fn block_comment_closes_at_first_close() {
    let tokens = tokenize("/* */ */");
    assert_eq!(tokens[0].kind, TokenKind::BlockComment { terminated: true });
    assert_eq!(tokens[0].span, Span { low: 0, high: 5 });
    assert_eq!(tokens[1].kind, TokenKind::Whitespace);
    assert_eq!(tokens[2].kind, TokenKind::Asterisk);
    assert_eq!(tokens[3].kind, TokenKind::Slash);
}

#[test]
fn line_comment_stops_before_newline() {
    let tokens = tokenize("// hi\nx");
    assert_eq!(tokens[0].kind, TokenKind::LineComment);
    assert_eq!(tokens[0].span, Span { low: 0, high: 5 });
    assert_eq!(tokens[1].kind, TokenKind::Whitespace);
    assert_eq!(tokens[2].kind, ident("x"));
    assert_eq!(single("// to the end").kind, TokenKind::LineComment);
}

#[test]
fn escape_passthrough() {
    let t = single("\"a\\\"b\"");
    assert_eq!(t.kind, string(true, "a\\\"b"));
    assert_eq!(t.span, Span { low: 0, high: 6 });
}

#[test]
fn strings() {
    assert_eq!(tokenize("'it''s'")[0].kind, string(true, "it"));
    assert_eq!(single("'say \"hi\"'").kind, string(true, "say \"hi\""));
    assert_eq!(single("\"a\\\\\"").kind, string(true, "a\\\\"));
    assert_eq!(single("\"a\\n\"").kind, string(true, "a\\n"));
    let t = single("\"open");
    assert_eq!(t.kind, string(false, "open"));
    assert_eq!(t.span, Span { low: 0, high: 5 });
    assert_eq!(single("\"").kind, string(false, ""));
}

#[test]
fn invalid_identifier() {
    let t = single("abc\u{1F600}");
    assert_eq!(t.kind, TokenKind::InvalidIdent);
    assert_eq!(t.span, Span { low: 0, high: 4 });
    let tokens = tokenize("ab\u{1F600}\u{200D}\u{1F525}cd e");
    assert_eq!(tokens[0].kind, TokenKind::InvalidIdent);
    assert_eq!(tokens[0].span, Span { low: 0, high: 7 });
    assert_eq!(tokens[2].kind, ident("e"));
}

#[test]
fn emoji_alone_is_invalid_identifier() {
    let t = single("\u{1F600}x");
    assert_eq!(t.kind, TokenKind::InvalidIdent);
    assert_eq!(t.span, Span { low: 0, high: 2 });
}

#[test]
fn ascii_digit_after_identifier_is_not_emoji() {
    assert_eq!(tokenize("x1#")[0].kind, ident("x1"));
}

#[test]
fn keyword_precedence() {
    assert_eq!(single("fn").kind, TokenKind::Keyword { kind: KeywordKind::Fn });
    assert_eq!(single("fnx").kind, ident("fnx"));
    assert_eq!(single("_fn").kind, ident("_fn"));
}

#[test]
fn every_keyword() {
    let table = [
        ("let", KeywordKind::Let),
        ("const", KeywordKind::Const),
        ("function", KeywordKind::Function),
        ("fn", KeywordKind::Fn),
        ("while", KeywordKind::While),
        ("do", KeywordKind::Do),
        ("for", KeywordKind::For),
        ("continue", KeywordKind::Continue),
        ("break", KeywordKind::Break),
        ("return", KeywordKind::Return),
        ("if", KeywordKind::If),
        ("else", KeywordKind::Else),
        ("struct", KeywordKind::Struct),
        ("enum", KeywordKind::Enum),
        ("switch", KeywordKind::Switch),
        ("case", KeywordKind::Case),
        ("true", KeywordKind::True),
        ("false", KeywordKind::False),
        ("int", KeywordKind::IntegerType),
        ("float", KeywordKind::FloatType),
        ("str", KeywordKind::StringType),
        ("bool", KeywordKind::BooleanType),
    ];
    for (word, kind) in table {
        assert_eq!(Token::literal_to_keyword(word), Some(kind));
        assert_eq!(single(word).kind, TokenKind::Keyword { kind });
    }
    assert_eq!(Token::literal_to_keyword("Let"), None);
    assert_eq!(Token::literal_to_keyword(""), None);
}

#[test]
fn unicode_identifiers() {
    assert_eq!(single("naïve").kind, ident("naïve"));
    assert_eq!(single("日本").kind, ident("日本"));
    assert_eq!(single("_").kind, ident("_"));
}

#[test]
fn operators() {
    assert_eq!(
        solid_kinds(":: : -> -= - == = != ! <= < >= > && & || | += + *= * ^= ^ %= % /= /"),
        vec![
            TokenKind::Scope,
            TokenKind::Colon,
            TokenKind::Arrow,
            TokenKind::MinusEq,
            TokenKind::Minus,
            TokenKind::EqEq,
            TokenKind::Eq,
            TokenKind::NotEq,
            TokenKind::Bang,
            TokenKind::LtEq,
            TokenKind::Lt,
            TokenKind::GtEq,
            TokenKind::Gt,
            TokenKind::And,
            TokenKind::Ampersand,
            TokenKind::Or,
            TokenKind::Pipe,
            TokenKind::PlusEq,
            TokenKind::Plus,
            TokenKind::AsteriskEq,
            TokenKind::Asterisk,
            TokenKind::CaretEq,
            TokenKind::Caret,
            TokenKind::PercentEq,
            TokenKind::Percent,
            TokenKind::SlashEq,
            TokenKind::Slash,
            TokenKind::Eof,
        ]
    );
    assert_eq!(single("->").span, Span { low: 0, high: 2 });
}

#[test]
fn punctuation() {
    assert_eq!(
        kinds(";,.(){}[]@#~?$"),
        vec![
            TokenKind::Semi,
            TokenKind::Comma,
            TokenKind::Dot,
            TokenKind::OpenPara,
            TokenKind::ClosePara,
            TokenKind::OpenBrace,
            TokenKind::CloseBrace,
            TokenKind::OpenBracket,
            TokenKind::CloseBracket,
            TokenKind::At,
            TokenKind::Sharp,
            TokenKind::Tilde,
            TokenKind::Question,
            TokenKind::Dollar,
            TokenKind::Eof,
        ]
    );
}

#[test]
fn unknown_characters() {
    assert_eq!(single("`").kind, TokenKind::Unknown);
    assert_eq!(single("\\").kind, TokenKind::Unknown);
    assert_eq!(single("§").kind, TokenKind::Unknown);
}

#[test]
fn whitespace_runs() {
    let t = single(" \t\n\r\u{000B}\u{000C}\u{0085}\u{200E}\u{200F}\u{2028}\u{2029}");
    assert_eq!(t.kind, TokenKind::Whitespace);
    assert_eq!(t.span, Span { low: 0, high: 11 });
    assert_eq!(Lexer::is_whitespace('\u{00A0}'), false);
    assert!(Lexer::is_whitespace('\u{2029}'));
}

#[test]
fn cursor_operations() {
    let mut lexer = Lexer::new("ab1 c");
    assert!(!lexer.is_eof());
    assert_eq!(lexer.first(), 'a');
    assert_eq!(lexer.next(), Some('a'));
    lexer.read_char();
    assert_eq!(lexer.create_span(), Span { low: 0, high: 2 });
    lexer.reset();
    assert_eq!(lexer.create_span(), Span { low: 2, high: 2 });
    let digits = lexer.eat_while_get_literal(CharClass::Digit, Some('x'));
    assert_eq!(digits, "x1");
    assert_eq!(lexer.whitespace(), TokenKind::Whitespace);
    lexer.eat_while(CharClass::IdContinue);
    assert!(lexer.is_eof());
    assert_eq!(lexer.first(), '\0');
    assert_eq!(lexer.next(), None);
    assert_eq!(lexer.create_span(), Span { low: 2, high: 5 });
}

#[test]
fn character_classes() {
    assert!(Lexer::in_class(CharClass::IdContinue, 'é'));
    assert!(!Lexer::in_class(CharClass::IdContinue, '\u{1F600}'));
    assert!(Lexer::in_class(CharClass::InvalidIdContinue, '\u{1F600}'));
    assert!(Lexer::in_class(CharClass::InvalidIdContinue, '\u{200D}'));
    assert!(!Lexer::in_class(CharClass::InvalidIdContinue, '#'));
    assert!(Lexer::in_class(CharClass::NotNewline, 'x'));
    assert!(!Lexer::in_class(CharClass::NotNewline, '\n'));
}

#[test]
fn diagnostics() {
    let code = "x\u{1F600} 1. 1e /* `";
    let handler = LErrorHandler::new(code, "main.rsc");
    assert_eq!(handler.code(), code);
    assert_eq!(handler.file_name(), "main.rsc");
    let found: Vec<Diagnostic> = tokenize(code).iter().filter_map(|t| handler.diagnose(t)).collect();
    assert_eq!(
        found,
        vec![
            Diagnostic { problem: Problem::InvalidIdentifier, span: Span { low: 0, high: 2 } },
            Diagnostic { problem: Problem::MissingFraction, span: Span { low: 3, high: 5 } },
            Diagnostic { problem: Problem::MissingExponent, span: Span { low: 6, high: 8 } },
            Diagnostic {
                problem: Problem::UnterminatedBlockComment,
                span: Span { low: 9, high: 13 },
            },
        ]
    );
    let unknown = handler.diagnose(&single("`"));
    assert_eq!(unknown.map(|d| d.problem), Some(Problem::UnknownToken));
    let big = handler.diagnose(&single("99999999999999999999"));
    assert_eq!(big.map(|d| d.problem.code()), Some(6));
    assert_eq!(handler.diagnose(&single("/**/")), None);
    assert_eq!(handler.diagnose(&single("x")), None);
    assert_eq!(Problem::InvalidIdentifier.code(), 1);
    assert_eq!(Problem::UnknownToken.code(), 5);
}
