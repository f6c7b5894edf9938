use vstd::prelude::*;
use crate::error::{Location, MewError, MewResult};
use crate::text::{push_char, spells, string_of};

verus! {

/// The kinds of token. A number literal keeps its digits as written; its
/// numeric value is read where numbers are computed.
#[derive(Debug, Clone)]
pub enum TokenKind {
    Const,
    Let,
    Var,
    If,
    ElseIf,
    Else,
    For,
    While,
    Do,
    Break,
    Continue,
    Switch,
    Case,
    Default,
    Function,
    In,
    Of,
    Return,
    Print,
    Public,
    Import,
    From,
    Number(String),
    Boolean(bool),
    String(String),
    Null,
    Undefined,
    NaN,
    Infinity,
    Identifier(String),
    Plus,
    Minus,
    Star,
    Slash,
    Percent,
    EqualEqual,
    BangEqual,
    Less,
    LessEqual,
    Greater,
    GreaterEqual,
    And,
    Or,
    Bang,
    Equal,
    PlusEqual,
    MinusEqual,
    StarEqual,
    SlashEqual,
    PercentEqual,
    Increment,
    Decrement,
    LeftParen,
    RightParen,
    LeftBrace,
    RightBrace,
    LeftBracket,
    RightBracket,
    Comma,
    Dot,
    Semicolon,
    Colon,
    Arrow,
    Eof,
}

/// A token with the text it was read from and the place where it starts.
#[derive(Debug, Clone)]
pub struct Token {
    pub kind: TokenKind,
    pub lexeme: String,
    pub location: Location,
}

impl Token {
    pub fn new(kind: TokenKind, lexeme: String, line: usize, column: usize) -> (r: Token)
        ensures
            r == (Token { kind, lexeme, location: Location { line, column } }),
    {
        Token { kind, lexeme, location: Location::new(line, column) }
    }
}

pub open spec fn is_digit(c: char) -> bool {
    '0' <= c && c <= '9'
}

pub open spec fn is_ident_start(c: char) -> bool {
    ('a' <= c && c <= 'z') || ('A' <= c && c <= 'Z') || c == '_'
}

pub open spec fn is_ident_char(c: char) -> bool {
    is_ident_start(c) || is_digit(c) || c == '?'
}

/// `[A-Za-z_][A-Za-z0-9_?]*`
pub open spec fn is_identifier_text(s: Seq<char>) -> bool {
    &&& s.len() > 0
    &&& is_ident_start(s[0])
    &&& forall|i: int| 1 <= i < s.len() ==> is_ident_char(#[trigger] s[i])
}

/// Digits, with at most one `.` that has a digit on each side.
pub open spec fn is_number_text(s: Seq<char>) -> bool {
    &&& s.len() > 0
    &&& is_digit(s[0])
    &&& is_digit(s[s.len() - 1])
    &&& forall|i: int| 0 <= i < s.len() ==> is_digit(#[trigger] s[i]) || s[i] == '.'
    &&& forall|i: int, j: int|
        0 <= i < s.len() && 0 <= j < s.len() && #[trigger] s[i] == '.' && #[trigger] s[j] == '.'
            ==> i == j
}

/// The fixed table of reserved words and literal words.
pub open spec fn keyword_kind(s: Seq<char>) -> Option<TokenKind> {
    if s == "catst"@ { Some(TokenKind::Const) }
    else if s == "catlt"@ { Some(TokenKind::Let) }
    else if s == "catv"@ { Some(TokenKind::Var) }
    else if s == "meow?"@ { Some(TokenKind::If) }
    else if s == "meowse?"@ { Some(TokenKind::ElseIf) }
    else if s == "hiss"@ { Some(TokenKind::Else) }
    else if s == "fur"@ { Some(TokenKind::For) }
    else if s == "mewhile"@ { Some(TokenKind::While) }
    else if s == "mewdo"@ { Some(TokenKind::Do) }
    else if s == "clawt"@ { Some(TokenKind::Break) }
    else if s == "meownext"@ { Some(TokenKind::Continue) }
    else if s == "catwalk"@ { Some(TokenKind::Switch) }
    else if s == "claw"@ { Some(TokenKind::Case) }
    else if s == "default"@ { Some(TokenKind::Default) }
    else if s == "cat"@ { Some(TokenKind::Function) }
    else if s == "in"@ { Some(TokenKind::In) }
    else if s == "of"@ { Some(TokenKind::Of) }
    else if s == "return"@ { Some(TokenKind::Return) }
    else if s == "purr"@ { Some(TokenKind::Print) }
    else if s == "pub"@ { Some(TokenKind::Public) }
    else if s == "import"@ { Some(TokenKind::Import) }
    else if s == "from"@ { Some(TokenKind::From) }
    else if s == "null"@ { Some(TokenKind::Null) }
    else if s == "undefined"@ { Some(TokenKind::Undefined) }
    else if s == "NaN"@ { Some(TokenKind::NaN) }
    else if s == "Infinity"@ { Some(TokenKind::Infinity) }
    else if s == "true"@ { Some(TokenKind::Boolean(true)) }
    else if s == "false"@ { Some(TokenKind::Boolean(false)) }
    else { None }
}

/// What holds of each token before the end-of-stream token: a word is a
/// keyword exactly when the table lists it, a name or number keeps its text,
/// and a string literal is written between two equal quotes.
pub open spec fn token_ok(t: Token) -> bool {
    match t.kind {
        TokenKind::Identifier(n) => {
            &&& n@ == t.lexeme@
            &&& is_identifier_text(n@)
            &&& keyword_kind(n@) is None
        },
        TokenKind::Number(n) => n@ == t.lexeme@ && is_number_text(n@),
        TokenKind::String(_) => {
            &&& t.lexeme@.len() >= 2
            &&& (t.lexeme@[0] == '"' || t.lexeme@[0] == '\'')
            &&& t.lexeme@[t.lexeme@.len() - 1] == t.lexeme@[0]
        },
        TokenKind::Eof => false,
        _ => is_word_kind(t.kind) ==> keyword_kind(t.lexeme@) == Some(t.kind),
    }
}

/// The kinds that the keyword table gives.
pub open spec fn is_word_kind(k: TokenKind) -> bool {
    match k {
        TokenKind::Const | TokenKind::Let | TokenKind::Var | TokenKind::If | TokenKind::ElseIf
        | TokenKind::Else | TokenKind::For | TokenKind::While | TokenKind::Do | TokenKind::Break
        | TokenKind::Continue | TokenKind::Switch | TokenKind::Case | TokenKind::Default
        | TokenKind::Function | TokenKind::In | TokenKind::Of | TokenKind::Return
        | TokenKind::Print | TokenKind::Public | TokenKind::Import | TokenKind::From
        | TokenKind::Null | TokenKind::Undefined | TokenKind::NaN | TokenKind::Infinity
        | TokenKind::Boolean(_) => true,
        _ => false,
    }
}

/// A token stream as the lexer hands it to the parser: one end-of-stream
/// token, at the end.
pub open spec fn stream_ok(ts: Seq<Token>) -> bool {
    &&& ts.len() > 0
    &&& ts[ts.len() - 1].kind is Eof
    &&& forall|i: int| 0 <= i < ts.len() - 1 ==> token_ok(#[trigger] ts[i])
}

/// A character that never starts a failing token: a letter, `_`, a digit, a space, or punctuation that stands alone or pairs without
/// risk. Quotes, `/`, `&` and `|` are left out.
pub open spec fn is_plain_char(c: char) -> bool {
    is_ident_start(c) || is_digit(c) || c == ' ' || c == '\t' || c == '\n' || c == '\r' || c == '\x0C'
        || c == '(' || c == ')' || c == '{' || c == '}' || c == '[' || c == ']' || c == ','
        || c == '.' || c == ';' || c == ':' || c == '+' || c == '-' || c == '*' || c == '%'
        || c == '!' || c == '=' || c == '<' || c == '>'
}

/// Looks a word up in the keyword table.
pub fn keyword(v: &Vec<char>, from: usize, to: usize) -> (r: Option<TokenKind>)
    requires
        from <= to <= v@.len(),
    ensures
        r == keyword_kind(v@.subrange(from as int, to as int)),
{
    if spells(v, from, to, "catst") { Some(TokenKind::Const) }
    else if spells(v, from, to, "catlt") { Some(TokenKind::Let) }
    else if spells(v, from, to, "catv") { Some(TokenKind::Var) }
    else if spells(v, from, to, "meow?") { Some(TokenKind::If) }
    else if spells(v, from, to, "meowse?") { Some(TokenKind::ElseIf) }
    else if spells(v, from, to, "hiss") { Some(TokenKind::Else) }
    else if spells(v, from, to, "fur") { Some(TokenKind::For) }
    else if spells(v, from, to, "mewhile") { Some(TokenKind::While) }
    else if spells(v, from, to, "mewdo") { Some(TokenKind::Do) }
    else if spells(v, from, to, "clawt") { Some(TokenKind::Break) }
    else if spells(v, from, to, "meownext") { Some(TokenKind::Continue) }
    else if spells(v, from, to, "catwalk") { Some(TokenKind::Switch) }
    else if spells(v, from, to, "claw") { Some(TokenKind::Case) }
    else if spells(v, from, to, "default") { Some(TokenKind::Default) }
    else if spells(v, from, to, "cat") { Some(TokenKind::Function) }
    else if spells(v, from, to, "in") { Some(TokenKind::In) }
    else if spells(v, from, to, "of") { Some(TokenKind::Of) }
    else if spells(v, from, to, "return") { Some(TokenKind::Return) }
    else if spells(v, from, to, "purr") { Some(TokenKind::Print) }
    else if spells(v, from, to, "pub") { Some(TokenKind::Public) }
    else if spells(v, from, to, "import") { Some(TokenKind::Import) }
    else if spells(v, from, to, "from") { Some(TokenKind::From) }
    else if spells(v, from, to, "null") { Some(TokenKind::Null) }
    else if spells(v, from, to, "undefined") { Some(TokenKind::Undefined) }
    else if spells(v, from, to, "NaN") { Some(TokenKind::NaN) }
    else if spells(v, from, to, "Infinity") { Some(TokenKind::Infinity) }
    else if spells(v, from, to, "true") { Some(TokenKind::Boolean(true)) }
    else if spells(v, from, to, "false") { Some(TokenKind::Boolean(false)) }
    else { None }
}

/// The character at `i`, or `'\0'` past either end.
pub open spec fn char_at_spec(src: Seq<char>, i: int) -> char {
    if 0 <= i < src.len() { src[i] } else { '\0' }
}

/// Where the run of characters satisfying `digit` (digits) or else
/// identifier characters, from `i`, ends.
pub open spec fn run_end(src: Seq<char>, i: int, digit: bool) -> int
    decreases src.len() - i when 0 <= i <= src.len()
{
    if i < src.len() && (if digit { is_digit(src[i]) } else { is_ident_char(src[i]) }) {
        run_end(src, i + 1, digit)
    } else {
        i
    }
}

/// The end of the number literal whose first digit is at `i`.
pub open spec fn number_end(src: Seq<char>, i: int) -> int {
    let d = run_end(src, i + 1, true);
    if char_at_spec(src, d) == '.' && is_digit(char_at_spec(src, d + 1)) { run_end(src, d + 1, true) } else { d }
}

/// The first newline at or after `i`, or the end.
pub open spec fn newline_from(src: Seq<char>, i: int) -> int
    decreases src.len() - i when 0 <= i <= src.len()
{
    if i < src.len() && src[i] != '\n' { newline_from(src, i + 1) } else { i }
}

/// Just past the first `*/` at or after `i`, if there is one.
pub open spec fn close_from(src: Seq<char>, i: int) -> Option<int>
    decreases src.len() - i when 0 <= i <= src.len()
{
    if i >= src.len() {
        None
    } else if src[i] == '*' && char_at_spec(src, i + 1) == '/' {
        Some(i + 2)
    } else {
        close_from(src, i + 1)
    }
}

pub open spec fn is_escape(c: char) -> bool {
    c == 'n' || c == 't' || c == 'r' || c == '\\' || c == '\'' || c == '"'
}

/// The character an escape letter stands for.
pub open spec fn unescape(c: char) -> char {
    if c == 'n' { '\n' } else if c == 't' { '\t' } else if c == 'r' { '\r' } else { c }
}

/// A string whose text goes on from `i` up to its closing quote `q`: the
/// position just past that quote and the unescaped text, or the position of
/// the failure (the end for an unterminated string, the escape letter for an
/// unknown escape).
pub open spec fn string_scan(src: Seq<char>, i: int, q: char) -> Result<(int, Seq<char>), int>
    decreases src.len() - i when 0 <= i <= src.len()
{
    if i >= src.len() {
        Err(i)
    } else if src[i] == q {
        Ok((i + 1, Seq::empty()))
    } else if src[i] == '\\' && i + 1 < src.len() {
        if is_escape(src[i + 1]) {
            match string_scan(src, i + 2, q) {
                Ok((e, v)) => Ok((e, seq![unescape(src[i + 1])] + v)),
                Err(f) => Err(f),
            }
        } else {
            Err(i + 1)
        }
    } else {
        match string_scan(src, i + 1, q) {
            Ok((e, v)) => Ok((e, seq![src[i]] + v)),
            Err(f) => Err(f),
        }
    }
}

/// How many characters the operator or punctuation token starting with `c`
/// (followed by `n`) takes; 0 where no such token starts with `c`.
pub open spec fn operator_len(c: char, n: char) -> int {
    if c == '(' || c == ')' || c == '{' || c == '}' || c == '[' || c == ']' || c == ',' || c == '.'
        || c == ';' || c == ':' {
        1
    } else if c == '+' || c == '-' {
        if n == '=' || n == c { 2 } else { 1 }
    } else if c == '*' || c == '/' || c == '%' || c == '!' || c == '<' || c == '>' {
        if n == '=' { 2 } else { 1 }
    } else if c == '=' {
        if n == '=' || n == '>' { 2 } else { 1 }
    } else if (c == '&' || c == '|') && n == c {
        2
    } else {
        0
    }
}

pub open spec fn is_blank(c: char) -> bool {
    c == ' ' || c == '\r' || c == '\t' || c == '\n' || c == '\x0C'
}

/// The kind of the operator or punctuation token that starts with `c`
/// (followed by `n`), where `operator_len(c, n) > 0`.
pub open spec fn operator_tag(c: char, n: char) -> Tag {
    if c == '(' { Tag::LeftParen }
    else if c == ')' { Tag::RightParen }
    else if c == '{' { Tag::LeftBrace }
    else if c == '}' { Tag::RightBrace }
    else if c == '[' { Tag::LeftBracket }
    else if c == ']' { Tag::RightBracket }
    else if c == ',' { Tag::Comma }
    else if c == '.' { Tag::Dot }
    else if c == ';' { Tag::Semicolon }
    else if c == ':' { Tag::Colon }
    else if c == '+' { if n == '=' { Tag::PlusEqual } else if n == '+' { Tag::Increment } else { Tag::Plus } }
    else if c == '-' { if n == '=' { Tag::MinusEqual } else if n == '-' { Tag::Decrement } else { Tag::Minus } }
    else if c == '*' { if n == '=' { Tag::StarEqual } else { Tag::Star } }
    else if c == '/' { if n == '=' { Tag::SlashEqual } else { Tag::Slash } }
    else if c == '%' { if n == '=' { Tag::PercentEqual } else { Tag::Percent } }
    else if c == '!' { if n == '=' { Tag::BangEqual } else { Tag::Bang } }
    else if c == '=' { if n == '=' { Tag::EqualEqual } else if n == '>' { Tag::Arrow } else { Tag::Equal } }
    else if c == '<' { if n == '=' { Tag::LessEqual } else { Tag::Less } }
    else if c == '>' { if n == '=' { Tag::GreaterEqual } else { Tag::Greater } }
    else if c == '&' { Tag::And }
    else { Tag::Or }
}

/// The kind of a word: its keyword, or a name.
pub open spec fn word_tag(w: Seq<char>) -> Tag {
    match keyword_kind(w) {
        Some(k) => tag_of(k),
        None => Tag::Identifier,
    }
}

/// A token as the source fixes it: where it starts and ends, its kind, and
/// for a string literal its unescaped text.
pub type Lexeme = (int, int, Tag, Seq<char>);

pub open spec fn prefixed(pre: Seq<Lexeme>, r: Result<Seq<Lexeme>, int>) -> Result<Seq<Lexeme>, int> {
    match r {
        Ok(s) => Ok(pre + s),
        Err(f) => Err(f),
    }
}

/// The tokens that the source from `i` on splits into, skipping spaces and
/// comments; or the position where lexing fails: an unexpected character,
/// an unterminated string or block comment (at the end), or an unknown
/// escape (at its letter).
pub open spec fn lex_from(src: Seq<char>, i: int) -> Result<Seq<Lexeme>, int>
    decreases src.len() - i when 0 <= i <= src.len()
{
    if i >= src.len() {
        Ok(Seq::empty())
    } else {
        let c = src[i];
        let n = char_at_spec(src, i + 1);
        if is_blank(c) {
            lex_from(src, i + 1)
        } else if c == '/' && n == '/' {
            let e = newline_from(src, i + 1);
            if i < e <= src.len() { lex_from(src, e) } else { Err(i) }
        } else if c == '/' && n == '*' {
            match close_from(src, i + 2) {
                Some(e) => if i < e <= src.len() { lex_from(src, e) } else { Err(i) },
                None => Err(src.len() as int),
            }
        } else if c == '"' || c == '\'' {
            match string_scan(src, i + 1, c) {
                Ok((e, v)) => if i < e <= src.len() {
                    prefixed(seq![(i, e, Tag::String, v)], lex_from(src, e))
                } else {
                    Err(i)
                },
                Err(f) => Err(f),
            }
        } else if is_digit(c) {
            let e = number_end(src, i);
            if i < e <= src.len() {
                prefixed(seq![(i, e, Tag::Number, Seq::empty())], lex_from(src, e))
            } else {
                Err(i)
            }
        } else if is_ident_start(c) {
            let e = run_end(src, i + 1, false);
            if i < e <= src.len() {
                prefixed(seq![(i, e, word_tag(src.subrange(i, e)), Seq::empty())], lex_from(src, e))
            } else {
                Err(i)
            }
        } else if operator_len(c, n) > 0 && i + operator_len(c, n) <= src.len() {
            let e = i + operator_len(c, n);
            prefixed(seq![(i, e, operator_tag(c, n), Seq::empty())], lex_from(src, e))
        } else {
            Err(i)
        }
    }
}

/// Whether the source from `i` on splits into tokens, spaces and comments.
pub open spec fn lexable(src: Seq<char>, i: int) -> bool {
    lex_from(src, i) is Ok
}

/// Line and column of position `i`: (1, 1) at the start; each newline
/// starts the next line at column 1.
pub open spec fn place_at(src: Seq<char>, i: int) -> (int, int)
    decreases i when 0 <= i <= src.len()
{
    if i <= 0 {
        (1, 1)
    } else {
        let (l, c) = place_at(src, i - 1);
        if src[i - 1] == '\n' { (l + 1, 1) } else { (l, c + 1) }
    }
}

pub open spec fn placed_at(src: Seq<char>, i: int, l: Location) -> bool {
    l.line == place_at(src, i).0 && l.column == place_at(src, i).1
}

/// Token `t` is the one that lexeme `d` describes.
pub open spec fn token_matches(src: Seq<char>, t: Token, d: Lexeme) -> bool {
    &&& t.lexeme@ == src.subrange(d.0, d.1)
    &&& placed_at(src, d.0, t.location)
    &&& tag_of(t.kind) == d.2
    &&& match t.kind {
        TokenKind::Identifier(n) => n@ == t.lexeme@,
        TokenKind::Number(n) => n@ == t.lexeme@,
        TokenKind::String(v) => v@ == d.3,
        TokenKind::Boolean(_) => keyword_kind(t.lexeme@) == Some(t.kind),
        _ => true,
    }
}

/// `ts` is what the lexer makes of `src`: one token for each lexeme, then
/// the end-of-stream token with an empty lexeme, placed at the end.
pub open spec fn lexed(src: Seq<char>, ts: Seq<Token>) -> bool {
    &&& lex_from(src, 0) matches Ok(ds)
    &&& ts.len() == ds.len() + 1
    &&& forall|k: int| 0 <= k < ds.len() ==> token_matches(src, #[trigger] ts[k], ds[k])
    &&& ts[ts.len() - 1].kind is Eof
    &&& ts[ts.len() - 1].lexeme@.len() == 0
    &&& placed_at(src, src.len() as int, ts[ts.len() - 1].location)
}

/// `e` is the error the lexer reports for `src`: a Syntax error placed where
/// lexing fails.
pub open spec fn lex_error(src: Seq<char>, e: MewError) -> bool {
    &&& e.spec_kind() is Syntax
    &&& lex_from(src, 0) matches Err(f)
    &&& e matches MewError::Syntax(_, l) && placed_at(src, f, l)
}

/// A position in the source, with its line and column.
#[derive(Clone, Copy)]
struct Cursor {
    pos: usize,
    line: usize,
    column: usize,
}

spec fn cursor_ok(c: Cursor, n: int) -> bool {
    &&& c.pos <= n
    &&& 1 <= c.line <= c.pos + 1
    &&& 1 <= c.column <= c.pos + 1
}

/// A cursor inside `src` whose line and column are those of its position.
spec fn cursor_in(src: Seq<char>, c: Cursor) -> bool {
    &&& cursor_ok(c, src.len() as int)
    &&& c.line == place_at(src, c.pos as int).0
    &&& c.column == place_at(src, c.pos as int).1
}

/// Moves past one character; a newline starts the next line.
fn step(src: &Vec<char>, c: Cursor) -> (r: Cursor)
    requires
        c.pos < src@.len(),
        src@.len() < usize::MAX,
        cursor_in(src@, c),
    ensures
        r.pos == c.pos + 1,
        cursor_in(src@, r),
{
    if src[c.pos] == '\n' {
        Cursor { pos: c.pos + 1, line: c.line + 1, column: 1 }
    } else {
        Cursor { pos: c.pos + 1, line: c.line, column: c.column + 1 }
    }
}

/// The character at `i`, or `'\0'` past the end.
fn char_at(src: &Vec<char>, i: usize) -> (r: char)
    ensures
        i < src@.len() ==> r == src@[i as int],
        i >= src@.len() ==> r == '\0',
{
    if i < src.len() { src[i] } else { '\0' }
}

fn is_digit_char(c: char) -> (r: bool)
    ensures
        r == is_digit(c),
{
    '0' <= c && c <= '9'
}

fn is_ident_start_char(c: char) -> (r: bool)
    ensures
        r == is_ident_start(c),
{
    ('a' <= c && c <= 'z') || ('A' <= c && c <= 'Z') || c == '_'
}

fn is_ident_char_char(c: char) -> (r: bool)
    ensures
        r == is_ident_char(c),
{
    is_ident_start_char(c) || is_digit_char(c) || c == '?'
}

fn syntax_error(message: &str, at: Cursor) -> (r: MewError)
    ensures
        r.spec_kind() is Syntax,
        r matches MewError::Syntax(_, l) && l.line == at.line && l.column == at.column,
{
    MewError::syntax_at(String::from_str(message), Location::new(at.line, at.column))
}

/// `pre` followed by what a string scan gives.
pub open spec fn scanned(pre: Seq<char>, r: Result<(int, Seq<char>), int>) -> Result<(int, Seq<char>), int> {
    match r {
        Ok((e, v)) => Ok((e, pre + v)),
        Err(f) => Err(f),
    }
}

proof fn lemma_scanned_push(pre: Seq<char>, c: char, r: Result<(int, Seq<char>), int>)
    ensures
        scanned(pre, match r {
            Ok((e, v)) => Ok((e, seq![c] + v)),
            Err(f) => Err(f),
        }) == scanned(pre.push(c), r),
{
    match r {
        Ok((e, v)) => {
            assert(pre + (seq![c] + v) =~= pre.push(c) + v);
        },
        Err(f) => {},
    }
}

/// Reads a string literal whose opening quote is at `c.pos`. Returns the
/// unescaped value and the cursor after the closing quote.
fn scan_string(src: &Vec<char>, c: Cursor) -> (r: MewResult<(String, Cursor)>)
    requires
        c.pos < src@.len(),
        src@.len() < usize::MAX,
        cursor_in(src@, c),
        src@[c.pos as int] == '"' || src@[c.pos as int] == '\'',
    ensures
        r matches Ok((_, e)) ==> {
            &&& c.pos + 2 <= e.pos
            &&& cursor_in(src@, e)
            &&& src@[e.pos - 1] == src@[c.pos as int]
        },
        r matches Err(e) ==> e.spec_kind() is Syntax,
        r matches Ok((v, e)) ==> string_scan(src@, c.pos + 1, src@[c.pos as int]) == Ok::<(int, Seq<char>), int>((e.pos as int, v@)),
        r matches Err(err) ==> (string_scan(src@, c.pos + 1, src@[c.pos as int]) matches Err(f)
            && (err matches MewError::Syntax(_, l) && placed_at(src@, f, l))),
{
    let quote = src[c.pos];
    let mut value = String::new();
    let mut cur = step(src, c);
    while cur.pos < src.len() && src[cur.pos] != quote
        invariant
            src@.len() < usize::MAX,
            cursor_in(src@, cur),
            c.pos < cur.pos,
            quote == src@[c.pos as int],
            string_scan(src@, c.pos + 1, quote) == scanned(value@, string_scan(src@, cur.pos as int, quote)),
        decreases src@.len() - cur.pos,
    {
        let ch = src[cur.pos];
        cur = step(src, cur);
        if ch == '\\' && cur.pos < src.len() {
            let next = src[cur.pos];
            let escaped: char;
            if next == 'n' {
                escaped = '\n';
            } else if next == 't' {
                escaped = '\t';
            } else if next == 'r' {
                escaped = '\r';
            } else if next == '\\' {
                escaped = '\\';
            } else if next == '\'' {
                escaped = '\'';
            } else if next == '"' {
                escaped = '"';
            } else {
                return Err(syntax_error("Invalid escape sequence.", cur));
            }
            cur = step(src, cur);
            let ghost pre = value@;
            push_char(&mut value, escaped);
            proof {
                lemma_scanned_push(pre, escaped, string_scan(src@, cur.pos as int, quote));
            }
        } else {
            let ghost pre = value@;
            push_char(&mut value, ch);
            proof {
                lemma_scanned_push(pre, ch, string_scan(src@, cur.pos as int, quote));
            }
        }
    }
    if cur.pos >= src.len() {
        return Err(syntax_error("Unterminated string.", cur));
    }
    let end = step(src, cur);
    Ok((value, end))
}

/// Reads a number literal whose first digit is at `c.pos`.
fn scan_number(src: &Vec<char>, c: Cursor) -> (r: Cursor)
    requires
        c.pos < src@.len(),
        src@.len() < usize::MAX,
        cursor_in(src@, c),
        is_digit(src@[c.pos as int]),
    ensures
        c.pos < r.pos,
        cursor_in(src@, r),
        is_number_text(src@.subrange(c.pos as int, r.pos as int)),
        r.pos == number_end(src@, c.pos as int),
{
    let mut cur = step(src, c);
    while cur.pos < src.len() && is_digit_char(src[cur.pos])
        invariant
            src@.len() < usize::MAX,
            cursor_in(src@, cur),
            c.pos < cur.pos,
            run_end(src@, c.pos + 1, true) == run_end(src@, cur.pos as int, true),
            forall|i: int| c.pos <= i < cur.pos ==> is_digit(#[trigger] src@[i]),
        decreases src@.len() - cur.pos,
    {
        cur = step(src, cur);
    }
    let int_end = cur.pos;
    if cur.pos < src.len() && src[cur.pos] == '.' && is_digit_char(char_at(src, cur.pos + 1)) {
        cur = step(src, cur);
        while cur.pos < src.len() && is_digit_char(src[cur.pos])
            invariant
                src@.len() < usize::MAX,
                cursor_in(src@, cur),
                c.pos < int_end < cur.pos,
                src@[int_end as int] == '.',
                forall|i: int| c.pos <= i < int_end ==> is_digit(#[trigger] src@[i]),
                forall|i: int| int_end < i < cur.pos ==> is_digit(#[trigger] src@[i]),
                is_digit(src@[int_end + 1]),
                int_end + 1 < src@.len(),
                run_end(src@, c.pos + 1, true) == int_end,
                run_end(src@, int_end + 1, true) == run_end(src@, cur.pos as int, true),
            decreases src@.len() - cur.pos,
        {
            cur = step(src, cur);
        }
        proof {
            let s = src@.subrange(c.pos as int, cur.pos as int);
            assert(cur.pos > int_end + 1) by {
                if cur.pos == int_end + 1 {
                    assert(cur.pos < src@.len() && is_digit(src@[cur.pos as int]));
                }
            }
            assert forall|i: int| 0 <= i < s.len() implies is_digit(#[trigger] s[i]) || s[i] == '.' by {
                assert(s[i] == src@[c.pos + i]);
            }
            assert forall|i: int, j: int|
                0 <= i < s.len() && 0 <= j < s.len() && #[trigger] s[i] == '.' && #[trigger] s[j] == '.'
                implies i == j by {
                assert(s[i] == src@[c.pos + i]);
                assert(s[j] == src@[c.pos + j]);
                assert(c.pos + i == int_end);
                assert(c.pos + j == int_end);
            }
            assert(s[s.len() - 1] == src@[cur.pos - 1]);
        }
    } else {
        proof {
            let s = src@.subrange(c.pos as int, cur.pos as int);
            assert forall|i: int| 0 <= i < s.len() implies is_digit(#[trigger] s[i]) by {
                assert(s[i] == src@[c.pos + i]);
            }
            assert(s[s.len() - 1] == src@[cur.pos - 1]);
        }
    }
    cur
}

/// Reads a word (a name or a keyword) whose first character is at `c.pos`.
fn scan_word(src: &Vec<char>, c: Cursor) -> (r: Cursor)
    requires
        c.pos < src@.len(),
        src@.len() < usize::MAX,
        cursor_in(src@, c),
        is_ident_start(src@[c.pos as int]),
    ensures
        c.pos < r.pos,
        cursor_in(src@, r),
        is_identifier_text(src@.subrange(c.pos as int, r.pos as int)),
        r.pos == run_end(src@, c.pos + 1, false),
{
    let mut cur = step(src, c);
    while cur.pos < src.len() && is_ident_char_char(src[cur.pos])
        invariant
            src@.len() < usize::MAX,
            cursor_in(src@, cur),
            c.pos < cur.pos,
            run_end(src@, c.pos + 1, false) == run_end(src@, cur.pos as int, false),
            forall|i: int| c.pos < i < cur.pos ==> is_ident_char(#[trigger] src@[i]),
        decreases src@.len() - cur.pos,
    {
        cur = step(src, cur);
    }
    proof {
        let s = src@.subrange(c.pos as int, cur.pos as int);
        assert forall|i: int| 1 <= i < s.len() implies is_ident_char(#[trigger] s[i]) by {
            assert(s[i] == src@[c.pos + i]);
        }
    }
    cur
}

/// Skips a block comment whose `/*` starts at `c.pos`; the first `*/` ends it.
fn skip_block_comment(src: &Vec<char>, c: Cursor) -> (r: MewResult<Cursor>)
    requires
        c.pos + 1 < src@.len(),
        src@.len() < usize::MAX,
        cursor_in(src@, c),
    ensures
        r matches Ok(e) ==> c.pos < e.pos && cursor_in(src@, e),
        r matches Err(e) ==> e.spec_kind() is Syntax,
        r matches Ok(e) ==> close_from(src@, c.pos + 2) == Some(e.pos as int),
        r is Err ==> close_from(src@, c.pos + 2) is None,
        r matches Err(e) ==> (e matches MewError::Syntax(_, l) && placed_at(src@, src@.len() as int, l)),
{
    let mut cur = step(src, step(src, c));
    loop
        invariant
            src@.len() < usize::MAX,
            cursor_in(src@, cur),
            c.pos < cur.pos,
            close_from(src@, c.pos + 2) == close_from(src@, cur.pos as int),
        decreases src@.len() - cur.pos,
    {
        if cur.pos >= src.len() {
            return Err(syntax_error("Unterminated multi-line comment.", cur));
        }
        if src[cur.pos] == '*' && char_at(src, cur.pos + 1) == '/' {
            return Ok(step(src, step(src, cur)));
        }
        cur = step(src, cur);
    }
}

/// The kind of an operator or punctuation token that starts with `ch`, with
/// the number of characters it takes (one or two), or `None` if no such
/// token starts with `ch`.
fn operator(ch: char, next: char) -> (r: Option<(TokenKind, usize)>)
    ensures
        r matches Some((k, n)) ==> (n == 1 || n == 2) && !is_word_kind(k) && !(k is Eof),
        r matches Some((_, n)) ==> n == operator_len(ch, next),
        r matches Some((k, _)) ==> tag_of(k) == operator_tag(ch, next),
        r is None ==> operator_len(ch, next) == 0,
        r matches Some((k, _)) ==> !(k is Identifier) && !(k is Number) && !(k is String),
        r matches Some((_, n)) ==> (n == 2 ==> next != '\0'),
        (is_plain_char(ch) && !is_ident_start(ch) && !is_digit(ch) && !(ch == ' ' || ch == '\t' || ch == '\n'
            || ch == '\r' || ch == '\x0C')) ==> r is Some,
{
    if ch == '(' { Some((TokenKind::LeftParen, 1)) }
    else if ch == ')' { Some((TokenKind::RightParen, 1)) }
    else if ch == '{' { Some((TokenKind::LeftBrace, 1)) }
    else if ch == '}' { Some((TokenKind::RightBrace, 1)) }
    else if ch == '[' { Some((TokenKind::LeftBracket, 1)) }
    else if ch == ']' { Some((TokenKind::RightBracket, 1)) }
    else if ch == ',' { Some((TokenKind::Comma, 1)) }
    else if ch == '.' { Some((TokenKind::Dot, 1)) }
    else if ch == ';' { Some((TokenKind::Semicolon, 1)) }
    else if ch == ':' { Some((TokenKind::Colon, 1)) }
    else if ch == '+' {
        if next == '=' { Some((TokenKind::PlusEqual, 2)) }
        else if next == '+' { Some((TokenKind::Increment, 2)) }
        else { Some((TokenKind::Plus, 1)) }
    } else if ch == '-' {
        if next == '=' { Some((TokenKind::MinusEqual, 2)) }
        else if next == '-' { Some((TokenKind::Decrement, 2)) }
        else { Some((TokenKind::Minus, 1)) }
    } else if ch == '*' {
        if next == '=' { Some((TokenKind::StarEqual, 2)) } else { Some((TokenKind::Star, 1)) }
    } else if ch == '/' {
        if next == '=' { Some((TokenKind::SlashEqual, 2)) } else { Some((TokenKind::Slash, 1)) }
    } else if ch == '%' {
        if next == '=' { Some((TokenKind::PercentEqual, 2)) } else { Some((TokenKind::Percent, 1)) }
    } else if ch == '!' {
        if next == '=' { Some((TokenKind::BangEqual, 2)) } else { Some((TokenKind::Bang, 1)) }
    } else if ch == '=' {
        if next == '=' { Some((TokenKind::EqualEqual, 2)) }
        else if next == '>' { Some((TokenKind::Arrow, 2)) }
        else { Some((TokenKind::Equal, 1)) }
    } else if ch == '<' {
        if next == '=' { Some((TokenKind::LessEqual, 2)) } else { Some((TokenKind::Less, 1)) }
    } else if ch == '>' {
        if next == '=' { Some((TokenKind::GreaterEqual, 2)) } else { Some((TokenKind::Greater, 1)) }
    } else if ch == '&' && next == '&' {
        Some((TokenKind::And, 2))
    } else if ch == '|' && next == '|' {
        Some((TokenKind::Or, 2))
    } else {
        None
    }
}

/// Splits source text into tokens.
pub struct MewLexer {
    source: Vec<char>,
}

impl MewLexer {
    pub closed spec fn source(self) -> Seq<char> {
        self.source@
    }

    pub fn new(source: &str) -> (r: MewLexer)
        ensures
            r.source() == source@,
    {
        MewLexer { source: crate::text::chars_of(source) }
    }

    /// The tokens of the whole source, ending with the end-of-stream token, or
    /// the first Syntax error: an unexpected character, an unterminated string
    /// or block comment, or an unknown escape.
    pub fn scan_tokens(&mut self) -> (r: MewResult<Vec<Token>>)
        requires
            old(self).source().len() < usize::MAX,
        ensures
            final(self).source() == old(self).source(),
            r matches Ok(ts) ==> stream_ok(ts@),
            r matches Err(e) ==> e.spec_kind() is Syntax,
            (forall|i: int| 0 <= i < old(self).source().len() ==> is_plain_char(#[trigger] old(self).source()[i]))
                ==> r is Ok,
            r is Ok <==> lexable(old(self).source(), 0),
            r matches Ok(ts) ==> lexed(old(self).source(), ts@),
            r matches Err(e) ==> lex_error(old(self).source(), e),
    {
        scan(&self.source)
    }
}

fn scan(src: &Vec<char>) -> (r: MewResult<Vec<Token>>)
    requires
        src@.len() < usize::MAX,
    ensures
        r matches Ok(ts) ==> stream_ok(ts@),
        r matches Err(e) ==> e.spec_kind() is Syntax,
        (forall|i: int| 0 <= i < src@.len() ==> is_plain_char(#[trigger] src@[i])) ==> r is Ok,
        r is Ok <==> lexable(src@, 0),
        r matches Ok(ts) ==> lexed(src@, ts@),
        r matches Err(e) ==> lex_error(src@, e),
{
    let mut tokens: Vec<Token> = Vec::new();
    let mut cur = Cursor { pos: 0, line: 1, column: 1 };
    let ghost mut ds: Seq<Lexeme> = Seq::empty();
    while cur.pos < src.len()
        invariant
            src@.len() < usize::MAX,
            cursor_in(src@, cur),
            forall|i: int| 0 <= i < tokens@.len() ==> token_ok(#[trigger] tokens@[i]),
            lex_from(src@, 0) == prefixed(ds, lex_from(src@, cur.pos as int)),
            tokens@.len() == ds.len(),
            forall|k: int| 0 <= k < ds.len() ==> token_matches(src@, #[trigger] tokens@[k], ds[k]),
        decreases src@.len() - cur.pos,
    {
        let start = cur;
        let ch = src[cur.pos];
        let next = char_at(src, cur.pos + 1);
        if ch == ' ' || ch == '\r' || ch == '\t' || ch == '\n' || ch == '\x0C' {
            cur = step(src, cur);
        } else if ch == '/' && next == '/' {
            cur = step(src, cur);
            while cur.pos < src.len() && src[cur.pos] != '\n'
                invariant
                    src@.len() < usize::MAX,
                    cursor_in(src@, cur),
                    start.pos < cur.pos,
                    newline_from(src@, start.pos + 1) == newline_from(src@, cur.pos as int),
                decreases src@.len() - cur.pos,
            {
                cur = step(src, cur);
            }
        } else if ch == '/' && next == '*' {
            cur = skip_block_comment(src, cur)?;
        } else if ch == '"' || ch == '\'' {
            let (value, end) = scan_string(src, cur)?;
            cur = end;
            let tok = Token::new(
                TokenKind::String(value),
                string_of(src, start.pos, cur.pos),
                start.line,
                start.column,
            );
            assert(tok.lexeme@[0] == src@[start.pos as int]);
            assert(tok.lexeme@[tok.lexeme@.len() - 1] == src@[cur.pos - 1]);
            assert(token_ok(tok));
            proof {
                let d: Lexeme = (start.pos as int, cur.pos as int, Tag::String, value@);
                lemma_prefixed_step(ds, d, lex_from(src@, cur.pos as int));
                ds = ds.push(d);
            }
            tokens.push(tok);
        } else if is_digit_char(ch) {
            cur = scan_number(src, cur);
            let tok = Token::new(
                TokenKind::Number(string_of(src, start.pos, cur.pos)),
                string_of(src, start.pos, cur.pos),
                start.line,
                start.column,
            );
            proof {
                let d: Lexeme = (start.pos as int, cur.pos as int, Tag::Number, Seq::empty());
                lemma_prefixed_step(ds, d, lex_from(src@, cur.pos as int));
                ds = ds.push(d);
            }
            tokens.push(tok);
        } else if is_ident_start_char(ch) {
            cur = scan_word(src, cur);
            let kind = match keyword(src, start.pos, cur.pos) {
                Some(k) => k,
                None => TokenKind::Identifier(string_of(src, start.pos, cur.pos)),
            };
            let tok = Token::new(kind, string_of(src, start.pos, cur.pos), start.line, start.column);
            assert(token_ok(tok));
            proof {
                let d: Lexeme = (start.pos as int, cur.pos as int, word_tag(src@.subrange(start.pos as int, cur.pos as int)), Seq::empty());
                lemma_prefixed_step(ds, d, lex_from(src@, cur.pos as int));
                ds = ds.push(d);
            }
            tokens.push(tok);
        } else {
            match operator(ch, next) {
                Some((kind, n)) => {
                    cur = step(src, cur);
                    if n == 2 {
                        cur = step(src, cur);
                    }
                    let lexeme = string_of(src, start.pos, cur.pos);
                    let tok = Token::new(kind, lexeme, start.line, start.column);
                    assert(token_ok(tok));
                    proof {
                        let d: Lexeme = (start.pos as int, cur.pos as int, operator_tag(ch, next), Seq::empty());
                        lemma_prefixed_step(ds, d, lex_from(src@, cur.pos as int));
                        ds = ds.push(d);
                    }
                    tokens.push(tok);
                },
                None => {
                    let mut msg = String::from_str("Unexpected character '");
                    push_char(&mut msg, ch);
                    msg.append("'.");
                    return Err(syntax_error(msg.as_str(), start));
                },
            }
        }
    }
    assert(ds + Seq::<Lexeme>::empty() =~= ds);
    tokens.push(Token::new(TokenKind::Eof, String::new(), cur.line, cur.column));
    Ok(tokens)
}

proof fn lemma_prefixed_step(ds: Seq<Lexeme>, d: Lexeme, rest: Result<Seq<Lexeme>, int>)
    ensures
        prefixed(ds, prefixed(seq![d], rest)) == prefixed(ds.push(d), rest),
{
    match rest {
        Ok(s) => {
            assert(ds + (seq![d] + s) =~= ds.push(d) + s);
        },
        Err(_) => {},
    }
}

/// The kind of a token without its payload.
#[derive(Debug, Clone, Copy, PartialEq, Eq, Structural)]
pub enum Tag {
    Const,
    Let,
    Var,
    If,
    ElseIf,
    Else,
    For,
    While,
    Do,
    Break,
    Continue,
    Switch,
    Case,
    Default,
    Function,
    In,
    Of,
    Return,
    Print,
    Public,
    Import,
    From,
    Number,
    Boolean,
    String,
    Null,
    Undefined,
    NaN,
    Infinity,
    Identifier,
    Plus,
    Minus,
    Star,
    Slash,
    Percent,
    EqualEqual,
    BangEqual,
    Less,
    LessEqual,
    Greater,
    GreaterEqual,
    And,
    Or,
    Bang,
    Equal,
    PlusEqual,
    MinusEqual,
    StarEqual,
    SlashEqual,
    PercentEqual,
    Increment,
    Decrement,
    LeftParen,
    RightParen,
    LeftBrace,
    RightBrace,
    LeftBracket,
    RightBracket,
    Comma,
    Dot,
    Semicolon,
    Colon,
    Arrow,
    Eof,
}

pub open spec fn tag_of(k: TokenKind) -> Tag {
    match k {
        TokenKind::Const => Tag::Const,
        TokenKind::Let => Tag::Let,
        TokenKind::Var => Tag::Var,
        TokenKind::If => Tag::If,
        TokenKind::ElseIf => Tag::ElseIf,
        TokenKind::Else => Tag::Else,
        TokenKind::For => Tag::For,
        TokenKind::While => Tag::While,
        TokenKind::Do => Tag::Do,
        TokenKind::Break => Tag::Break,
        TokenKind::Continue => Tag::Continue,
        TokenKind::Switch => Tag::Switch,
        TokenKind::Case => Tag::Case,
        TokenKind::Default => Tag::Default,
        TokenKind::Function => Tag::Function,
        TokenKind::In => Tag::In,
        TokenKind::Of => Tag::Of,
        TokenKind::Return => Tag::Return,
        TokenKind::Print => Tag::Print,
        TokenKind::Public => Tag::Public,
        TokenKind::Import => Tag::Import,
        TokenKind::From => Tag::From,
        TokenKind::Number(_) => Tag::Number,
        TokenKind::Boolean(_) => Tag::Boolean,
        TokenKind::String(_) => Tag::String,
        TokenKind::Null => Tag::Null,
        TokenKind::Undefined => Tag::Undefined,
        TokenKind::NaN => Tag::NaN,
        TokenKind::Infinity => Tag::Infinity,
        TokenKind::Identifier(_) => Tag::Identifier,
        TokenKind::Plus => Tag::Plus,
        TokenKind::Minus => Tag::Minus,
        TokenKind::Star => Tag::Star,
        TokenKind::Slash => Tag::Slash,
        TokenKind::Percent => Tag::Percent,
        TokenKind::EqualEqual => Tag::EqualEqual,
        TokenKind::BangEqual => Tag::BangEqual,
        TokenKind::Less => Tag::Less,
        TokenKind::LessEqual => Tag::LessEqual,
        TokenKind::Greater => Tag::Greater,
        TokenKind::GreaterEqual => Tag::GreaterEqual,
        TokenKind::And => Tag::And,
        TokenKind::Or => Tag::Or,
        TokenKind::Bang => Tag::Bang,
        TokenKind::Equal => Tag::Equal,
        TokenKind::PlusEqual => Tag::PlusEqual,
        TokenKind::MinusEqual => Tag::MinusEqual,
        TokenKind::StarEqual => Tag::StarEqual,
        TokenKind::SlashEqual => Tag::SlashEqual,
        TokenKind::PercentEqual => Tag::PercentEqual,
        TokenKind::Increment => Tag::Increment,
        TokenKind::Decrement => Tag::Decrement,
        TokenKind::LeftParen => Tag::LeftParen,
        TokenKind::RightParen => Tag::RightParen,
        TokenKind::LeftBrace => Tag::LeftBrace,
        TokenKind::RightBrace => Tag::RightBrace,
        TokenKind::LeftBracket => Tag::LeftBracket,
        TokenKind::RightBracket => Tag::RightBracket,
        TokenKind::Comma => Tag::Comma,
        TokenKind::Dot => Tag::Dot,
        TokenKind::Semicolon => Tag::Semicolon,
        TokenKind::Colon => Tag::Colon,
        TokenKind::Arrow => Tag::Arrow,
        TokenKind::Eof => Tag::Eof,
    }
}

/// The kind of `k`, payload aside.
pub fn tag(k: &TokenKind) -> (r: Tag)
    ensures
        r == tag_of(*k),
{
    match k {
        TokenKind::Const => Tag::Const,
        TokenKind::Let => Tag::Let,
        TokenKind::Var => Tag::Var,
        TokenKind::If => Tag::If,
        TokenKind::ElseIf => Tag::ElseIf,
        TokenKind::Else => Tag::Else,
        TokenKind::For => Tag::For,
        TokenKind::While => Tag::While,
        TokenKind::Do => Tag::Do,
        TokenKind::Break => Tag::Break,
        TokenKind::Continue => Tag::Continue,
        TokenKind::Switch => Tag::Switch,
        TokenKind::Case => Tag::Case,
        TokenKind::Default => Tag::Default,
        TokenKind::Function => Tag::Function,
        TokenKind::In => Tag::In,
        TokenKind::Of => Tag::Of,
        TokenKind::Return => Tag::Return,
        TokenKind::Print => Tag::Print,
        TokenKind::Public => Tag::Public,
        TokenKind::Import => Tag::Import,
        TokenKind::From => Tag::From,
        TokenKind::Number(_) => Tag::Number,
        TokenKind::Boolean(_) => Tag::Boolean,
        TokenKind::String(_) => Tag::String,
        TokenKind::Null => Tag::Null,
        TokenKind::Undefined => Tag::Undefined,
        TokenKind::NaN => Tag::NaN,
        TokenKind::Infinity => Tag::Infinity,
        TokenKind::Identifier(_) => Tag::Identifier,
        TokenKind::Plus => Tag::Plus,
        TokenKind::Minus => Tag::Minus,
        TokenKind::Star => Tag::Star,
        TokenKind::Slash => Tag::Slash,
        TokenKind::Percent => Tag::Percent,
        TokenKind::EqualEqual => Tag::EqualEqual,
        TokenKind::BangEqual => Tag::BangEqual,
        TokenKind::Less => Tag::Less,
        TokenKind::LessEqual => Tag::LessEqual,
        TokenKind::Greater => Tag::Greater,
        TokenKind::GreaterEqual => Tag::GreaterEqual,
        TokenKind::And => Tag::And,
        TokenKind::Or => Tag::Or,
        TokenKind::Bang => Tag::Bang,
        TokenKind::Equal => Tag::Equal,
        TokenKind::PlusEqual => Tag::PlusEqual,
        TokenKind::MinusEqual => Tag::MinusEqual,
        TokenKind::StarEqual => Tag::StarEqual,
        TokenKind::SlashEqual => Tag::SlashEqual,
        TokenKind::PercentEqual => Tag::PercentEqual,
        TokenKind::Increment => Tag::Increment,
        TokenKind::Decrement => Tag::Decrement,
        TokenKind::LeftParen => Tag::LeftParen,
        TokenKind::RightParen => Tag::RightParen,
        TokenKind::LeftBrace => Tag::LeftBrace,
        TokenKind::RightBrace => Tag::RightBrace,
        TokenKind::LeftBracket => Tag::LeftBracket,
        TokenKind::RightBracket => Tag::RightBracket,
        TokenKind::Comma => Tag::Comma,
        TokenKind::Dot => Tag::Dot,
        TokenKind::Semicolon => Tag::Semicolon,
        TokenKind::Colon => Tag::Colon,
        TokenKind::Arrow => Tag::Arrow,
        TokenKind::Eof => Tag::Eof,
    }
}

} // verus!
