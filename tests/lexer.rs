use mew::{ErrorKind, MewLexer, Token, TokenKind};

fn lex(src: &str) -> Vec<Token> {
    MewLexer::new(src).scan_tokens().expect("source should lex")
}

fn lex_error(src: &str) -> ErrorKind {
    match MewLexer::new(src).scan_tokens() {
        Ok(ts) => panic!("expected an error, got {:?}", ts),
        Err(e) => e.kind(),
    }
}

#[test]
fn declaration_tokens() {
    let ts = lex("catst x = 1;");
    assert_eq!(ts.len(), 6);
    assert!(matches!(ts[0].kind, TokenKind::Const));
    assert!(matches!(&ts[1].kind, TokenKind::Identifier(n) if n == "x"));
    assert!(matches!(ts[2].kind, TokenKind::Equal));
    assert!(matches!(&ts[3].kind, TokenKind::Number(n) if n == "1"));
    assert!(matches!(ts[4].kind, TokenKind::Semicolon));
    assert!(matches!(ts[5].kind, TokenKind::Eof));
    assert_eq!(ts[5].lexeme, "");
}

#[test]
fn keyword_table() {
    let ts = lex("catst catlt catv meow? meowse? hiss fur mewhile mewdo clawt meownext catwalk claw default cat in of return purr pub import from null undefined NaN Infinity true false");
    let expected = [
        "Const", "Let", "Var", "If", "ElseIf", "Else", "For", "While", "Do", "Break", "Continue",
        "Switch", "Case", "Default", "Function", "In", "Of", "Return", "Print", "Public", "Import",
        "From", "Null", "Undefined", "NaN", "Infinity", "Boolean(true)", "Boolean(false)", "Eof",
    ];
    assert_eq!(ts.len(), expected.len());
    for (t, e) in ts.iter().zip(expected.iter()) {
        assert_eq!(format!("{:?}", t.kind), *e);
    }
}

#[test]
fn words_that_are_not_keywords() {
    let ts = lex("cats _x9 meow Catst what?");
    for t in &ts[..5] {
        assert!(matches!(&t.kind, TokenKind::Identifier(n) if *n == t.lexeme));
    }
    assert_eq!(ts[4].lexeme, "what?");
}

#[test]
fn operators_one_and_two_characters() {
    let ts = lex("+ += ++ - -= -- * *= / /= % %= ! != = == => < <= > >= && || ( ) { } [ ] , . ; :");
    let expected = [
        "Plus", "PlusEqual", "Increment", "Minus", "MinusEqual", "Decrement", "Star", "StarEqual",
        "Slash", "SlashEqual", "Percent", "PercentEqual", "Bang", "BangEqual", "Equal", "EqualEqual",
        "Arrow", "Less", "LessEqual", "Greater", "GreaterEqual", "And", "Or", "LeftParen",
        "RightParen", "LeftBrace", "RightBrace", "LeftBracket", "RightBracket", "Comma", "Dot",
        "Semicolon", "Colon", "Eof",
    ];
    assert_eq!(ts.len(), expected.len());
    for (t, e) in ts.iter().zip(expected.iter()) {
        assert_eq!(format!("{:?}", t.kind), *e);
    }
}

#[test]
fn numbers_keep_their_digits() {
    let ts = lex("3.14 42 7.");
    assert!(matches!(&ts[0].kind, TokenKind::Number(n) if n == "3.14"));
    assert!(matches!(&ts[1].kind, TokenKind::Number(n) if n == "42"));
    assert!(matches!(&ts[2].kind, TokenKind::Number(n) if n == "7"));
    assert!(matches!(ts[3].kind, TokenKind::Dot));
}

#[test]
fn string_escapes_and_quotes() {
    let ts = lex(r#""a\nb" 'it\'s' "q\"\\\t\r""#);
    assert!(matches!(&ts[0].kind, TokenKind::String(s) if s == "a\nb"));
    assert_eq!(ts[0].lexeme, r#""a\nb""#);
    assert!(matches!(&ts[1].kind, TokenKind::String(s) if s == "it's"));
    assert!(matches!(&ts[2].kind, TokenKind::String(s) if s == "q\"\\\t\r"));
}

#[test]
fn comments_are_skipped() {
    let ts = lex("1 // line comment\n/* block\n comment */ 2");
    assert_eq!(ts.len(), 3);
    assert!(matches!(&ts[1].kind, TokenKind::Number(n) if n == "2"));
    assert_eq!(ts[1].location.line, 3);
}

#[test]
fn locations_count_lines_and_columns() {
    let ts = lex("catv a;\n  purr(a);");
    assert_eq!((ts[0].location.line, ts[0].location.column), (1, 1));
    assert_eq!((ts[1].location.line, ts[1].location.column), (1, 6));
    assert_eq!((ts[3].location.line, ts[3].location.column), (2, 3));
}

#[test]
fn lexing_errors_are_syntax_errors() {
    assert_eq!(lex_error("\"open"), ErrorKind::Syntax);
    assert_eq!(lex_error("'bad \\q escape'"), ErrorKind::Syntax);
    assert_eq!(lex_error("/* never closed"), ErrorKind::Syntax);
    assert_eq!(lex_error("a @ b"), ErrorKind::Syntax);
    assert_eq!(lex_error("a & b"), ErrorKind::Syntax);
    assert_eq!(lex_error("a | b"), ErrorKind::Syntax);
}

#[test]
fn unexpected_character_has_a_place() {
    let e = MewLexer::new("x\n  #").scan_tokens().unwrap_err();
    let loc = e.location().unwrap();
    assert_eq!((loc.line, loc.column), (2, 3));
    assert_eq!(e.message(), "Unexpected character '#'.");
}

#[test]
fn empty_source_is_one_end_token() {
    let ts = lex("");
    assert_eq!(ts.len(), 1);
    assert!(matches!(ts[0].kind, TokenKind::Eof));
}

#[test]
fn token_new_keeps_its_parts() {
    let t = Token::new(TokenKind::Comma, ",".to_string(), 4, 9);
    assert!(matches!(t.kind, TokenKind::Comma));
    assert_eq!(t.lexeme, ",");
    assert_eq!((t.location.line, t.location.column), (4, 9));
}

fn error_place(src: &str) -> (usize, usize) {
    let e = MewLexer::new(src).scan_tokens().unwrap_err();
    let l = e.location().unwrap();
    (l.line, l.column)
}

#[test]
fn failures_are_placed_where_lexing_fails() {
    // an unterminated string or comment fails at the end of the source
    assert_eq!(error_place("x = \"abc"), (1, 9));
    assert_eq!(error_place("a\n/* open"), (2, 8));
    // an unknown escape fails at its letter
    assert_eq!(error_place("'a\\qb'"), (1, 4));
    // an unexpected character fails where it stands
    assert_eq!(error_place("x\n  @"), (2, 3));
}

#[test]
fn token_places_after_a_multiline_string() {
    let ts = lex("'a\nb' x");
    assert!(matches!(&ts[0].kind, TokenKind::String(s) if s == "a\nb"));
    assert_eq!((ts[1].location.line, ts[1].location.column), (2, 4));
}
