//! Tokens, and the scanner that reads them from a source text.

use crate::number::{Number, NumberView};
use crate::text::{chars_of, decimal, join_lines, join_text, text_of, texts, usize_text};
use vstd::prelude::*;

verus! {

/// The lexical vocabulary.
#[derive(Debug, Clone, Copy, PartialEq, Eq, Structural)]
pub enum TokenType {
    // Single-character tokens
    LeftParen,
    RightParen,
    LeftBrace,
    RightBrace,
    Comma,
    Dot,
    Minus,
    Plus,
    Semicolon,
    Slash,
    Star,
    // One or two characters
    Bang,
    BangEqual,
    Equal,
    EqualEqual,
    Greater,
    GreaterEqual,
    Less,
    LessEqual,
    // Literals
    Identifier,
    String,
    Number,
    // Keywords
    And,
    Class,
    Else,
    False,
    True,
    Fn,
    For,
    If,
    Nil,
    Or,
    Print,
    Return,
    Super,
    This,
    Var,
    While,
    Eof,
}

/// The payload of a literal token.
#[derive(Debug, Clone, PartialEq)]
pub enum LiteralValue {
    IntValue(i64),
    FloatValue(Number),
    StringValue(String),
    IdentifierValue(String),
}

/// What a literal payload stands for in contracts.
pub enum LiteralView {
    IntValue(i64),
    FloatValue(NumberView),
    StringValue(Seq<char>),
    IdentifierValue(Seq<char>),
}

impl View for LiteralValue {
    type V = LiteralView;

    open spec fn view(&self) -> LiteralView {
        match self {
            LiteralValue::IntValue(i) => LiteralView::IntValue(*i),
            LiteralValue::FloatValue(n) => LiteralView::FloatValue(n@),
            LiteralValue::StringValue(s) => LiteralView::StringValue(s@),
            LiteralValue::IdentifierValue(s) => LiteralView::IdentifierValue(s@),
        }
    }
}

/// One token: its kind, the exact source text it was read from, the payload
/// of a literal, and the line on which its text starts.
#[derive(Debug, Clone, PartialEq)]
pub struct Token {
    pub token_t: TokenType,
    pub lexme: String,
    pub literal: Option<LiteralValue>,
    pub line_number: usize,
}

/// What a token stands for in contracts.
pub struct TokenView {
    pub token_t: TokenType,
    pub lexme: Seq<char>,
    pub literal: Option<LiteralView>,
    pub line_number: usize,
}

impl View for Token {
    type V = TokenView;

    open spec fn view(&self) -> TokenView {
        TokenView {
            token_t: self.token_t,
            lexme: self.lexme@,
            literal: match self.literal {
                Some(l) => Some(l@),
                None => None,
            },
            line_number: self.line_number,
        }
    }
}

/// The views of a sequence of tokens.
pub open spec fn token_views(tokens: Seq<Token>) -> Seq<TokenView> {
    Seq::new(tokens.len(), |i: int| tokens[i]@)
}

/// Whether a token has the payload that its kind calls for: a number token
/// its number, a string token its text.
pub open spec fn carries_value(t: TokenView) -> bool {
    match t.token_t {
        TokenType::Number => t.literal matches Some(LiteralView::FloatValue(_)),
        TokenType::String => (t.literal matches Some(LiteralView::StringValue(_))) || (
        t.literal matches Some(LiteralView::IdentifierValue(_))),
        _ => true,
    }
}

/// Whether every token has the payload that its kind calls for.
pub open spec fn all_carry_values(tokens: Seq<TokenView>) -> bool {
    forall|i: int| 0 <= i < tokens.len() ==> carries_value(#[trigger] tokens[i])
}

/// Whether no token is the one that ends a token sequence.
pub open spec fn none_is_eof(tokens: Seq<TokenView>) -> bool {
    forall|i: int| 0 <= i < tokens.len() ==> (#[trigger] tokens[i]).token_t != TokenType::Eof
}

/// The name a token kind is reported under.
pub open spec fn kind_name(kind: TokenType) -> Seq<char> {
    match kind {
        TokenType::LeftParen => "LeftParen"@,
        TokenType::RightParen => "RightParen"@,
        TokenType::LeftBrace => "LeftBrace"@,
        TokenType::RightBrace => "RightBrace"@,
        TokenType::Comma => "Comma"@,
        TokenType::Dot => "Dot"@,
        TokenType::Minus => "Minus"@,
        TokenType::Plus => "Plus"@,
        TokenType::Semicolon => "Semicolon"@,
        TokenType::Slash => "Slash"@,
        TokenType::Star => "Star"@,
        TokenType::Bang => "Bang"@,
        TokenType::BangEqual => "BangEqual"@,
        TokenType::Equal => "Equal"@,
        TokenType::EqualEqual => "EqualEqual"@,
        TokenType::Greater => "Greater"@,
        TokenType::GreaterEqual => "GreaterEqual"@,
        TokenType::Less => "Less"@,
        TokenType::LessEqual => "LessEqual"@,
        TokenType::Identifier => "Identifier"@,
        TokenType::String => "String"@,
        TokenType::Number => "Number"@,
        TokenType::And => "And"@,
        TokenType::Class => "Class"@,
        TokenType::Else => "Else"@,
        TokenType::False => "False"@,
        TokenType::True => "True"@,
        TokenType::Fn => "Fn"@,
        TokenType::For => "For"@,
        TokenType::If => "If"@,
        TokenType::Nil => "Nil"@,
        TokenType::Or => "Or"@,
        TokenType::Print => "Print"@,
        TokenType::Return => "Return"@,
        TokenType::Super => "Super"@,
        TokenType::This => "This"@,
        TokenType::Var => "Var"@,
        TokenType::While => "While"@,
        TokenType::Eof => "Eof"@,
    }
}

/// The kind of a reserved word, if `text` is one.
pub open spec fn keyword_kind(text: Seq<char>) -> Option<TokenType> {
    if text == "and"@ {
        Some(TokenType::And)
    } else if text == "class"@ {
        Some(TokenType::Class)
    } else if text == "while"@ {
        Some(TokenType::While)
    } else if text == "else"@ {
        Some(TokenType::Else)
    } else if text == "false"@ {
        Some(TokenType::False)
    } else if text == "for"@ {
        Some(TokenType::For)
    } else if text == "fn"@ {
        Some(TokenType::Fn)
    } else if text == "if"@ {
        Some(TokenType::If)
    } else if text == "nil"@ {
        Some(TokenType::Nil)
    } else if text == "or"@ {
        Some(TokenType::Or)
    } else if text == "print"@ {
        Some(TokenType::Print)
    } else if text == "return"@ {
        Some(TokenType::Return)
    } else if text == "super"@ {
        Some(TokenType::Super)
    } else if text == "this"@ {
        Some(TokenType::This)
    } else if text == "true"@ {
        Some(TokenType::True)
    } else if text == "var"@ {
        Some(TokenType::Var)
    } else {
        None
    }
}

/// A decimal digit.
pub open spec fn digit(c: char) -> bool {
    '0' <= c <= '9'
}

/// A character that may start an identifier: an ASCII letter or an
/// underscore.
pub open spec fn alpha(c: char) -> bool {
    ('a' <= c <= 'z') || ('A' <= c <= 'Z') || c == '_'
}

/// A character that may continue an identifier.
pub open spec fn alphanum(c: char) -> bool {
    alpha(c) || digit(c)
}

/// The character at `pos`, or NUL past the end of the source.
pub open spec fn peek_at(src: Seq<char>, pos: int) -> char {
    if 0 <= pos < src.len() {
        src[pos]
    } else {
        '\0'
    }
}

/// Where the run of digits that starts at `pos` ends.
pub open spec fn digits_end(src: Seq<char>, pos: int) -> int
    decreases src.len() - pos,
{
    if 0 <= pos < src.len() && digit(src[pos]) {
        digits_end(src, pos + 1)
    } else {
        pos
    }
}

/// Where the run of letters, digits and underscores that starts at `pos` ends.
pub open spec fn word_end(src: Seq<char>, pos: int) -> int
    decreases src.len() - pos,
{
    if 0 <= pos < src.len() && alphanum(src[pos]) {
        word_end(src, pos + 1)
    } else {
        pos
    }
}

/// The position of the first newline at or after `pos`, or the end of the
/// source.
pub open spec fn line_end(src: Seq<char>, pos: int) -> int
    decreases src.len() - pos,
{
    if 0 <= pos < src.len() && src[pos] != '\n' {
        line_end(src, pos + 1)
    } else {
        pos
    }
}

/// The line counter after one more newline. It stops at the largest value
/// the machine can hold.
pub open spec fn line_after(line: usize) -> usize {
    if line < usize::MAX {
        (line + 1) as usize
    } else {
        line
    }
}

/// Scanning the body of a string literal from `pos`: the position of the
/// closing quote (or the end of the source) and the line counter there.
pub open spec fn string_end(src: Seq<char>, pos: int, line: usize) -> (int, usize)
    decreases src.len() - pos,
{
    if 0 <= pos < src.len() && src[pos] != '"' {
        string_end(
            src,
            pos + 1,
            if src[pos] == '\n' {
                line_after(line)
            } else {
                line
            },
        )
    } else {
        (pos, line)
    }
}

/// Where the number literal that starts at `pos` ends: digits, then
/// optionally a dot that a digit follows and more digits.
pub open spec fn number_end(src: Seq<char>, pos: int) -> int {
    let whole = digits_end(src, pos);
    if peek_at(src, whole) == '.' && digit(peek_at(src, whole + 1)) {
        digits_end(src, whole + 1)
    } else {
        whole
    }
}

/// What one scanning step found.
pub enum Scanned {
    /// A complete token.
    Token(TokenView),
    /// The text of a number literal, whose value the caller owes.
    Number(Seq<char>),
    /// Whitespace or a comment.
    Nothing,
    /// A lexical error, with its message.
    Error(Seq<char>),
}

/// The outcome of one scanning step, with the position and line after it.
pub struct ScanResult {
    pub outcome: Scanned,
    pub next: int,
    pub line: usize,
}

/// A token without payload made of the `len` characters at `pos`.
pub open spec fn plain_token(src: Seq<char>, pos: int, len: int, line: usize, kind: TokenType)
    -> ScanResult {
    ScanResult {
        outcome: Scanned::Token(
            TokenView {
                token_t: kind,
                lexme: src.subrange(pos, pos + len),
                literal: None,
                line_number: line,
            },
        ),
        next: pos + len,
        line,
    }
}

/// An operator of one character that a following `=` extends to `long`.
pub open spec fn operator_token(
    src: Seq<char>,
    pos: int,
    line: usize,
    short: TokenType,
    long: TokenType,
) -> ScanResult {
    if peek_at(src, pos + 1) == '=' {
        plain_token(src, pos, 2, line, long)
    } else {
        plain_token(src, pos, 1, line, short)
    }
}

/// The message for a character that starts no token.
pub open spec fn unrecognized_message(line: usize, c: char) -> Seq<char> {
    "Unrecognized char at line "@ + decimal(line as nat) + ": '"@ + seq![c] + "'"@
}

/// The string literal whose opening quote is at `pos`.
pub open spec fn string_token(src: Seq<char>, pos: int, line: usize) -> ScanResult {
    let (close, line_then) = string_end(src, pos + 1, line);
    if close >= src.len() {
        ScanResult {
            outcome: Scanned::Error("Unterminated string"@),
            next: src.len() as int,
            line: line_then,
        }
    } else {
        ScanResult {
            outcome: Scanned::Token(
                TokenView {
                    token_t: TokenType::String,
                    lexme: src.subrange(pos, close + 1),
                    literal: Some(LiteralView::StringValue(src.subrange(pos + 1, close))),
                    line_number: line,
                },
            ),
            next: close + 1,
            line: line_then,
        }
    }
}

/// The identifier or reserved word that starts at `pos`.
pub open spec fn word_token(src: Seq<char>, pos: int, line: usize) -> ScanResult {
    let end = word_end(src, pos + 1);
    let text = src.subrange(pos, end);
    ScanResult {
        outcome: Scanned::Token(
            match keyword_kind(text) {
                Some(kind) => TokenView {
                    token_t: kind,
                    lexme: text,
                    literal: None,
                    line_number: line,
                },
                None => TokenView {
                    token_t: TokenType::Identifier,
                    lexme: text,
                    literal: Some(LiteralView::IdentifierValue(text)),
                    line_number: line,
                },
            },
        ),
        next: end,
        line,
    }
}

/// One scanning step at `pos`, a position inside the source: the longest
/// token that starts there, or what is skipped or wrong there.
pub open spec fn scan_at(src: Seq<char>, pos: int, line: usize) -> ScanResult {
    let c = src[pos];
    if c == '(' {
        plain_token(src, pos, 1, line, TokenType::LeftParen)
    } else if c == ')' {
        plain_token(src, pos, 1, line, TokenType::RightParen)
    } else if c == '{' {
        plain_token(src, pos, 1, line, TokenType::LeftBrace)
    } else if c == '}' {
        plain_token(src, pos, 1, line, TokenType::RightBrace)
    } else if c == ',' {
        plain_token(src, pos, 1, line, TokenType::Comma)
    } else if c == '.' {
        plain_token(src, pos, 1, line, TokenType::Dot)
    } else if c == '-' {
        plain_token(src, pos, 1, line, TokenType::Minus)
    } else if c == '+' {
        plain_token(src, pos, 1, line, TokenType::Plus)
    } else if c == '*' {
        plain_token(src, pos, 1, line, TokenType::Star)
    } else if c == ';' {
        plain_token(src, pos, 1, line, TokenType::Semicolon)
    } else if c == '/' {
        if peek_at(src, pos + 1) == '/' {
            ScanResult { outcome: Scanned::Nothing, next: line_end(src, pos + 2), line }
        } else {
            plain_token(src, pos, 1, line, TokenType::Slash)
        }
    } else if c == '!' {
        operator_token(src, pos, line, TokenType::Bang, TokenType::BangEqual)
    } else if c == '=' {
        operator_token(src, pos, line, TokenType::Equal, TokenType::EqualEqual)
    } else if c == '<' {
        operator_token(src, pos, line, TokenType::Less, TokenType::LessEqual)
    } else if c == '>' {
        operator_token(src, pos, line, TokenType::Greater, TokenType::GreaterEqual)
    } else if c == ' ' || c == '\r' || c == '\t' {
        ScanResult { outcome: Scanned::Nothing, next: pos + 1, line }
    } else if c == '\n' {
        ScanResult { outcome: Scanned::Nothing, next: pos + 1, line: line_after(line) }
    } else if c == '"' {
        string_token(src, pos, line)
    } else if digit(c) {
        ScanResult {
            outcome: Scanned::Number(src.subrange(pos, number_end(src, pos))),
            next: number_end(src, pos),
            line,
        }
    } else if alpha(c) {
        word_token(src, pos, line)
    } else {
        ScanResult { outcome: Scanned::Error(unrecognized_message(line, c)), next: pos + 1, line }
    }
}

proof fn lemma_digits_end_bounds(src: Seq<char>, pos: int)
    requires
        0 <= pos <= src.len(),
    ensures
        pos <= digits_end(src, pos) <= src.len(),
    decreases src.len() - pos,
{
    if pos < src.len() && digit(src[pos]) {
        lemma_digits_end_bounds(src, pos + 1);
    }
}

proof fn lemma_word_end_bounds(src: Seq<char>, pos: int)
    requires
        0 <= pos <= src.len(),
    ensures
        pos <= word_end(src, pos) <= src.len(),
    decreases src.len() - pos,
{
    if pos < src.len() && alphanum(src[pos]) {
        lemma_word_end_bounds(src, pos + 1);
    }
}

proof fn lemma_line_end_bounds(src: Seq<char>, pos: int)
    requires
        0 <= pos <= src.len(),
    ensures
        pos <= line_end(src, pos) <= src.len(),
    decreases src.len() - pos,
{
    if pos < src.len() && src[pos] != '\n' {
        lemma_line_end_bounds(src, pos + 1);
    }
}

proof fn lemma_string_end_bounds(src: Seq<char>, pos: int, line: usize)
    requires
        0 <= pos <= src.len(),
    ensures
        pos <= string_end(src, pos, line).0 <= src.len(),
    decreases src.len() - pos,
{
    if pos < src.len() && src[pos] != '"' {
        lemma_string_end_bounds(
            src,
            pos + 1,
            if src[pos] == '\n' {
                line_after(line)
            } else {
                line
            },
        );
    }
}

proof fn lemma_number_end_bounds(src: Seq<char>, pos: int)
    requires
        0 <= pos < src.len(),
        digit(src[pos]),
    ensures
        pos < number_end(src, pos) <= src.len(),
{
    lemma_digits_end_bounds(src, pos + 1);
    let whole = digits_end(src, pos);
    if peek_at(src, whole) == '.' && digit(peek_at(src, whole + 1)) {
        lemma_digits_end_bounds(src, whole + 1);
    }
}

/// Every scanning step inside the source moves forward and stays inside it.
proof fn lemma_scan_advances(src: Seq<char>, pos: int, line: usize)
    requires
        0 <= pos < src.len(),
    ensures
        pos < scan_at(src, pos, line).next <= src.len(),
{
    let c = src[pos];
    if c == '/' {
        if peek_at(src, pos + 1) == '/' {
            lemma_line_end_bounds(src, pos + 2);
        }
    } else if c == '"' {
        lemma_string_end_bounds(src, pos + 1, line);
    } else if digit(c) {
        lemma_number_end_bounds(src, pos);
    } else if alpha(c) {
        lemma_word_end_bounds(src, pos + 1);
    }
}


/// What a lexer holds, as contracts see it: the source, how far it has been
/// read, the line reached, the tokens and error messages so far, and the
/// text of a number literal whose value the caller owes.
pub struct LexerView {
    pub source: Seq<char>,
    pub tokens: Seq<TokenView>,
    pub errors: Seq<Seq<char>>,
    pub pending: Option<Seq<char>>,
    pub current: int,
    pub line: usize,
}

/// A lexer at the start of `source`.
pub open spec fn lexer_start(source: Seq<char>) -> LexerView {
    LexerView {
        source,
        tokens: Seq::empty(),
        errors: Seq::empty(),
        pending: None,
        current: 0,
        line: 1,
    }
}

/// The lexer after one scanning step with result `r`.
pub open spec fn lexer_apply(l: LexerView, r: ScanResult) -> LexerView {
    LexerView {
        source: l.source,
        tokens: match r.outcome {
            Scanned::Token(t) => l.tokens.push(t),
            _ => l.tokens,
        },
        errors: match r.outcome {
            Scanned::Error(e) => l.errors.push(e),
            _ => l.errors,
        },
        pending: match r.outcome {
            Scanned::Number(text) => Some(text),
            _ => None,
        },
        current: r.next,
        line: r.line,
    }
}

/// Whether the lexer has to stop: a number is owed, or the source is read.
pub open spec fn lexer_rests(l: LexerView) -> bool {
    l.pending is Some || l.current < 0 || l.current >= l.source.len()
}

/// The lexer after scanning on until it has to stop.
pub open spec fn scan_on(l: LexerView) -> LexerView
    decreases l.source.len() - l.current,
    via scan_on_decreases
{
    if lexer_rests(l) {
        l
    } else {
        scan_on(lexer_apply(l, scan_at(l.source, l.current, l.line)))
    }
}

#[via_fn]
proof fn scan_on_decreases(l: LexerView) {
    if !lexer_rests(l) {
        lemma_scan_advances(l.source, l.current, l.line);
    }
}

/// The token that ends every token sequence.
pub open spec fn eof_token(line: usize) -> TokenView {
    TokenView { token_t: TokenType::Eof, lexme: Seq::empty(), literal: None, line_number: line }
}

/// The token of a number literal with text `text` and value `value`.
pub open spec fn number_token(text: Seq<char>, value: NumberView, line: usize) -> TokenView {
    TokenView {
        token_t: TokenType::Number,
        lexme: text,
        literal: Some(LiteralView::FloatValue(value)),
        line_number: line,
    }
}

/// The lexer after the caller has supplied `value` for the number it owes.
/// Where no number is owed nothing changes.
pub open spec fn with_number(l: LexerView, value: NumberView) -> LexerView {
    match l.pending {
        Some(text) => LexerView {
            tokens: l.tokens.push(number_token(text, value, l.line)),
            pending: None,
            ..l
        },
        None => l,
    }
}

/// What a call of `scan_tokens` hands back.
#[derive(Debug)]
pub enum LexStep {
    /// The text of a number literal. The caller supplies its value with
    /// `supply_number` and scans on.
    NeedNumber(String),
    /// The source is read: its tokens, ended by `Eof`, or the messages of
    /// all lexical errors, joined by newlines.
    Done(Result<Vec<Token>, String>),
}

/// What a `LexStep` stands for in contracts.
pub enum LexStepView {
    NeedNumber(Seq<char>),
    Done(Result<Seq<TokenView>, Seq<char>>),
}

impl View for LexStep {
    type V = LexStepView;

    open spec fn view(&self) -> LexStepView {
        match self {
            LexStep::NeedNumber(text) => LexStepView::NeedNumber(text@),
            LexStep::Done(Ok(tokens)) => LexStepView::Done(Ok(token_views(tokens@))),
            LexStep::Done(Err(message)) => LexStepView::Done(Err(message@)),
        }
    }
}

/// What the lexer reports once it rests, and the lexer after the report: a
/// finished lexer hands its tokens and errors out and keeps none.
pub open spec fn lexer_report(l: LexerView) -> (LexerView, LexStepView) {
    match l.pending {
        Some(text) => (l, LexStepView::NeedNumber(text)),
        None => (
            LexerView { tokens: Seq::empty(), errors: Seq::empty(), ..l },
            LexStepView::Done(
                if l.errors.len() > 0 {
                    Err(join_lines(l.errors))
                } else {
                    Ok(l.tokens.push(eof_token(l.line)))
                },
            ),
        ),
    }
}

/// Whether `ch` is a decimal digit.
pub fn is_digit(ch: char) -> (r: bool)
    ensures
        r == digit(ch),
{
    ch >= '0' && ch <= '9'
}

/// Whether `ch` may start an identifier: an ASCII letter or an underscore.
pub fn is_alpha(ch: char) -> (r: bool)
    ensures
        r == alpha(ch),
{
    (ch >= 'a' && ch <= 'z') || (ch >= 'A' && ch <= 'Z') || (ch == '_')
}

/// Whether `ch` may continue an identifier.
pub fn is_alphanum(ch: char) -> (r: bool)
    ensures
        r == alphanum(ch),
{
    is_alpha(ch) || is_digit(ch)
}

fn same_text(a: &String, b: &str) -> (r: bool)
    ensures
        r == (a@ == b@),
{
    let other = String::from_str(b);
    *a == other
}

fn keyword(text: &String) -> (r: Option<TokenType>)
    ensures
        r == keyword_kind(text@),
{
    if same_text(text, "and") {
        Some(TokenType::And)
    } else if same_text(text, "class") {
        Some(TokenType::Class)
    } else if same_text(text, "while") {
        Some(TokenType::While)
    } else if same_text(text, "else") {
        Some(TokenType::Else)
    } else if same_text(text, "false") {
        Some(TokenType::False)
    } else if same_text(text, "for") {
        Some(TokenType::For)
    } else if same_text(text, "fn") {
        Some(TokenType::Fn)
    } else if same_text(text, "if") {
        Some(TokenType::If)
    } else if same_text(text, "nil") {
        Some(TokenType::Nil)
    } else if same_text(text, "or") {
        Some(TokenType::Or)
    } else if same_text(text, "print") {
        Some(TokenType::Print)
    } else if same_text(text, "return") {
        Some(TokenType::Return)
    } else if same_text(text, "super") {
        Some(TokenType::Super)
    } else if same_text(text, "this") {
        Some(TokenType::This)
    } else if same_text(text, "true") {
        Some(TokenType::True)
    } else if same_text(text, "var") {
        Some(TokenType::Var)
    } else {
        None
    }
}

impl TokenType {
    /// The name this kind is reported under.
    pub fn name(&self) -> (r: String)
        ensures
            r@ == kind_name(*self),
    {
        match self {
            TokenType::LeftParen => String::from_str("LeftParen"),
            TokenType::RightParen => String::from_str("RightParen"),
            TokenType::LeftBrace => String::from_str("LeftBrace"),
            TokenType::RightBrace => String::from_str("RightBrace"),
            TokenType::Comma => String::from_str("Comma"),
            TokenType::Dot => String::from_str("Dot"),
            TokenType::Minus => String::from_str("Minus"),
            TokenType::Plus => String::from_str("Plus"),
            TokenType::Semicolon => String::from_str("Semicolon"),
            TokenType::Slash => String::from_str("Slash"),
            TokenType::Star => String::from_str("Star"),
            TokenType::Bang => String::from_str("Bang"),
            TokenType::BangEqual => String::from_str("BangEqual"),
            TokenType::Equal => String::from_str("Equal"),
            TokenType::EqualEqual => String::from_str("EqualEqual"),
            TokenType::Greater => String::from_str("Greater"),
            TokenType::GreaterEqual => String::from_str("GreaterEqual"),
            TokenType::Less => String::from_str("Less"),
            TokenType::LessEqual => String::from_str("LessEqual"),
            TokenType::Identifier => String::from_str("Identifier"),
            TokenType::String => String::from_str("String"),
            TokenType::Number => String::from_str("Number"),
            TokenType::And => String::from_str("And"),
            TokenType::Class => String::from_str("Class"),
            TokenType::Else => String::from_str("Else"),
            TokenType::False => String::from_str("False"),
            TokenType::True => String::from_str("True"),
            TokenType::Fn => String::from_str("Fn"),
            TokenType::For => String::from_str("For"),
            TokenType::If => String::from_str("If"),
            TokenType::Nil => String::from_str("Nil"),
            TokenType::Or => String::from_str("Or"),
            TokenType::Print => String::from_str("Print"),
            TokenType::Return => String::from_str("Return"),
            TokenType::Super => String::from_str("Super"),
            TokenType::This => String::from_str("This"),
            TokenType::Var => String::from_str("Var"),
            TokenType::While => String::from_str("While"),
            TokenType::Eof => String::from_str("Eof"),
        }
    }
}

impl LiteralValue {
    /// A copy with the same view.
    pub fn duplicate(&self) -> (r: LiteralValue)
        ensures
            r@ == self@,
    {
        match self {
            LiteralValue::IntValue(i) => LiteralValue::IntValue(*i),
            LiteralValue::FloatValue(n) => LiteralValue::FloatValue(n.duplicate()),
            LiteralValue::StringValue(s) => LiteralValue::StringValue(s.clone()),
            LiteralValue::IdentifierValue(s) => LiteralValue::IdentifierValue(s.clone()),
        }
    }
}

impl Token {
    /// A token of the given parts.
    pub fn new(
        token_type: TokenType,
        lexme: String,
        literal: Option<LiteralValue>,
        line_number: usize,
    ) -> (r: Token)
        ensures
            r == (Token { token_t: token_type, lexme, literal, line_number }),
    {
        Token { token_t: token_type, lexme, line_number, literal }
    }

    /// Whether the token has the payload that its kind calls for.
    pub fn has_value(&self) -> (r: bool)
        ensures
            r == carries_value(self@),
    {
        match self.token_t {
            TokenType::Number => match &self.literal {
                Some(LiteralValue::FloatValue(_)) => true,
                _ => false,
            },
            TokenType::String => match &self.literal {
                Some(LiteralValue::StringValue(_)) => true,
                Some(LiteralValue::IdentifierValue(_)) => true,
                _ => false,
            },
            _ => true,
        }
    }

    /// A copy with the same view.
    pub fn duplicate(&self) -> (r: Token)
        ensures
            r@ == self@,
    {
        Token {
            token_t: self.token_t,
            lexme: self.lexme.clone(),
            literal: match &self.literal {
                Some(l) => Some(l.duplicate()),
                None => None,
            },
            line_number: self.line_number,
        }
    }
}

/// A scanner over one source text. It reads characters, not bytes. Reading a
/// number literal it stops and names the literal's text; the caller supplies
/// the value and the scanner goes on.
pub struct Lexer {
    source: Vec<char>,
    tokens: Vec<Token>,
    errors: Vec<String>,
    pending: Option<String>,
    start: usize,
    current: usize,
    line: usize,
}

impl View for Lexer {
    type V = LexerView;

    closed spec fn view(&self) -> LexerView {
        LexerView {
            source: self.source@,
            tokens: token_views(self.tokens@),
            errors: texts(self.errors@),
            pending: match self.pending {
                Some(text) => Some(text@),
                None => None,
            },
            current: self.current as int,
            line: self.line,
        }
    }
}

impl Lexer {
    /// The lexer has not read past the end of its source.
    pub closed spec fn wf(&self) -> bool {
        &&& self.start <= self.current <= self.source.len()
        &&& all_carry_values(self@.tokens)
        &&& none_is_eof(self@.tokens)
    }

    /// A lexer at the start of `source`, on line 1.
    pub fn new(source: &str) -> (r: Lexer)
        ensures
            r.wf(),
            r@ == lexer_start(source@),
    {
        let r = Lexer {
            source: chars_of(source),
            tokens: Vec::new(),
            errors: Vec::new(),
            pending: None,
            start: 0,
            current: 0,
            line: 1,
        };
        assert(r@.tokens =~= Seq::empty());
        assert(r@.errors =~= Seq::empty());
        r
    }

    /// Scans on from where the lexer stands until a number literal needs its
    /// value or the source is read, and reports which.
    pub fn scan_tokens(&mut self) -> (r: LexStep)
        requires
            old(self).wf(),
        ensures
            final(self).wf(),
            (final(self)@, r@) == lexer_report(scan_on(old(self)@)),
            match r {
                LexStep::Done(Ok(tokens)) => tokens.len() > 0 && tokens@.last().token_t
                    == TokenType::Eof && none_is_eof(token_views(tokens@).drop_last())
                    && all_carry_values(token_views(tokens@)),
                _ => true,
            },
    {
        while self.pending.is_none() && !self.is_end()
            invariant
                self.wf(),
                scan_on(self@) == scan_on(old(self)@),
            decreases self.source.len() - self.current,
        {
            proof {
                lemma_scan_advances(self.source@, self.current as int, self.line);
            }
            self.start = self.current;
            self.scan_token();
        }
        match &self.pending {
            Some(text) => LexStep::NeedNumber(text.clone()),
            None => {
                let mut tokens: Vec<Token> = Vec::new();
                let mut errors: Vec<String> = Vec::new();
                core::mem::swap(&mut tokens, &mut self.tokens);
                core::mem::swap(&mut errors, &mut self.errors);
                assert(token_views(self.tokens@) =~= Seq::empty());
                assert(texts(self.errors@) =~= Seq::empty());
                if errors.len() > 0 {
                    LexStep::Done(Err(join_text(&errors)))
                } else {
                    let ghost before = tokens@;
                    let eof = Token {
                        token_t: TokenType::Eof,
                        lexme: String::new(),
                        literal: None,
                        line_number: self.line,
                    };
                    tokens.push(eof);
                    assert(token_views(tokens@) =~= token_views(before).push(
                        eof_token(self.line),
                    ));
                    LexStep::Done(Ok(tokens))
                }
            },
        }
    }

    /// Supplies the value of the number literal that `scan_tokens` named.
    pub fn supply_number(&mut self, value: Number)
        requires
            old(self).wf(),
        ensures
            final(self).wf(),
            final(self)@ == with_number(old(self)@, value@),
    {
        let mut pending: Option<String> = None;
        core::mem::swap(&mut pending, &mut self.pending);
        match pending {
            Some(text) => {
                let ghost before = self.tokens@;
                let token = Token {
                    token_t: TokenType::Number,
                    lexme: text,
                    literal: Some(LiteralValue::FloatValue(value)),
                    line_number: self.line,
                };
                self.tokens.push(token);
                assert(token_views(self.tokens@) =~= token_views(before).push(token@));
            },
            None => {},
        }
    }

    fn scan_token(&mut self)
        requires
            old(self).wf(),
            old(self).start == old(self).current,
            old(self).current < old(self).source.len(),
            old(self).pending is None,
        ensures
            final(self).wf(),
            final(self)@ == lexer_apply(
                old(self)@,
                scan_at(old(self).source@, old(self).current as int, old(self).line),
            ),
    {
        let c = self.advance();
        if c == '(' {
            self.add_token(TokenType::LeftParen);
        } else if c == ')' {
            self.add_token(TokenType::RightParen);
        } else if c == '{' {
            self.add_token(TokenType::LeftBrace);
        } else if c == '}' {
            self.add_token(TokenType::RightBrace);
        } else if c == ',' {
            self.add_token(TokenType::Comma);
        } else if c == '.' {
            self.add_token(TokenType::Dot);
        } else if c == '-' {
            self.add_token(TokenType::Minus);
        } else if c == '+' {
            self.add_token(TokenType::Plus);
        } else if c == '*' {
            self.add_token(TokenType::Star);
        } else if c == ';' {
            self.add_token(TokenType::Semicolon);
        } else if c == '/' {
            if self.char_match('/') {
                self.comment();
            } else {
                self.add_token(TokenType::Slash);
            }
        } else if c == '!' {
            let token = if self.char_match('=') {
                TokenType::BangEqual
            } else {
                TokenType::Bang
            };
            self.add_token(token);
        } else if c == '=' {
            let token = if self.char_match('=') {
                TokenType::EqualEqual
            } else {
                TokenType::Equal
            };
            self.add_token(token);
        } else if c == '<' {
            let token = if self.char_match('=') {
                TokenType::LessEqual
            } else {
                TokenType::Less
            };
            self.add_token(token);
        } else if c == '>' {
            let token = if self.char_match('=') {
                TokenType::GreaterEqual
            } else {
                TokenType::Greater
            };
            self.add_token(token);
        } else if c == ' ' || c == '\r' || c == '\t' {
        } else if c == '\n' {
            self.line = if self.line < usize::MAX {
                self.line + 1
            } else {
                self.line
            };
        } else if c == '"' {
            self.string();
        } else if is_digit(c) {
            self.number();
        } else if is_alpha(c) {
            self.identifier();
        } else {
            let mut message = String::from_str("Unrecognized char at line ");
            message.append(usize_text(self.line).as_str());
            message.append(": '");
            message.push(c);
            message.append("'");
            assert(message@ =~= unrecognized_message(self.line, c));
            self.push_error(message);
        }
    }

    fn push_error(&mut self, message: String)
        requires
            old(self).wf(),
        ensures
            final(self).wf(),
            final(self).start == old(self).start,
            final(self)@ == (LexerView { errors: old(self)@.errors.push(message@), ..old(self)@ }),
    {
        let ghost before = self.errors@;
        self.errors.push(message);
        assert(texts(self.errors@) =~= texts(before).push(message@));
    }

    fn comment(&mut self)
        requires
            old(self).wf(),
        ensures
            final(self).wf(),
            final(self).start == old(self).start,
            final(self)@ == (LexerView {
                current: line_end(old(self).source@, old(self).current as int),
                ..old(self)@
            }),
    {
        let mut pos: usize = self.current;
        while pos < self.source.len() && self.source[pos] != '\n'
            invariant
                self.current <= pos <= self.source.len(),
                line_end(self.source@, pos as int) == line_end(
                    self.source@,
                    self.current as int,
                ),
            decreases self.source.len() - pos,
        {
            pos = pos + 1;
        }
        self.current = pos;
    }

    fn identifier(&mut self)
        requires
            old(self).wf(),
        ensures
            final(self).wf(),
            final(self)@ == ({
                let end = word_end(old(self).source@, old(self).current as int);
                let text = old(self).source@.subrange(old(self).start as int, end);
                LexerView {
                    current: end,
                    tokens: old(self)@.tokens.push(
                        match keyword_kind(text) {
                            Some(kind) => TokenView {
                                token_t: kind,
                                lexme: text,
                                literal: None,
                                line_number: old(self).line,
                            },
                            None => TokenView {
                                token_t: TokenType::Identifier,
                                lexme: text,
                                literal: Some(LiteralView::IdentifierValue(text)),
                                line_number: old(self).line,
                            },
                        },
                    ),
                    ..old(self)@
                }
            }),
    {
        let mut pos: usize = self.current;
        while pos < self.source.len() && is_alphanum(self.source[pos])
            invariant
                self.current <= pos <= self.source.len(),
                word_end(self.source@, pos as int) == word_end(
                    self.source@,
                    self.current as int,
                ),
            decreases self.source.len() - pos,
        {
            pos = pos + 1;
        }
        self.current = pos;
        let text = text_of(&self.source, self.start, self.current);
        match keyword(&text) {
            Some(kind) => self.add_token(kind),
            None => {
                let spelling = text.clone();
                self.push_token(TokenType::Identifier, Some(LiteralValue::IdentifierValue(spelling)));
            },
        }
    }

    fn is_end(&self) -> (r: bool)
        ensures
            r == (self.current >= self.source.len()),
    {
        self.current >= self.source.len()
    }

    fn advance(&mut self) -> (c: char)
        requires
            old(self).wf(),
            old(self).current < old(self).source.len(),
        ensures
            final(self).wf(),
            final(self).start == old(self).start,
            c == old(self).source@[old(self).current as int],
            final(self)@ == (LexerView { current: old(self).current + 1, ..old(self)@ }),
    {
        let c = self.source[self.current];
        self.current += 1;
        c
    }

    fn add_token(&mut self, token_t: TokenType)
        requires
            old(self).wf(),
            token_t != TokenType::String,
            token_t != TokenType::Number,
            token_t != TokenType::Eof,
        ensures
            final(self).wf(),
            final(self).start == old(self).start,
            final(self)@ == (LexerView {
                tokens: old(self)@.tokens.push(
                    TokenView {
                        token_t,
                        lexme: old(self).source@.subrange(
                            old(self).start as int,
                            old(self).current as int,
                        ),
                        literal: None,
                        line_number: old(self).line,
                    },
                ),
                ..old(self)@
            }),
    {
        self.push_token(token_t, None);
    }

    fn push_token(&mut self, token_t: TokenType, literal: Option<LiteralValue>)
        requires
            old(self).wf(),
            token_t == TokenType::String ==> literal matches Some(LiteralValue::StringValue(_)),
            token_t != TokenType::Number,
            token_t != TokenType::Eof,
        ensures
            final(self).wf(),
            final(self).start == old(self).start,
            final(self)@ == (LexerView {
                tokens: old(self)@.tokens.push(
                    TokenView {
                        token_t,
                        lexme: old(self).source@.subrange(
                            old(self).start as int,
                            old(self).current as int,
                        ),
                        literal: match literal {
                            Some(l) => Some(l@),
                            None => None,
                        },
                        line_number: old(self).line,
                    },
                ),
                ..old(self)@
            }),
    {
        let text = text_of(&self.source, self.start, self.current);
        let ghost before = self.tokens@;
        let token = Token { token_t, lexme: text, literal, line_number: self.line };
        self.tokens.push(token);
        assert(token_views(self.tokens@) =~= token_views(before).push(token@));
    }

    fn char_match(&mut self, ch: char) -> (r: bool)
        requires
            old(self).wf(),
            ch != '\0',
        ensures
            final(self).wf(),
            final(self).start == old(self).start,
            r == (peek_at(old(self).source@, old(self).current as int) == ch),
            final(self)@ == (LexerView {
                current: if r {
                    old(self).current + 1
                } else {
                    old(self).current as int
                },
                ..old(self)@
            }),
    {
        if self.is_end() {
            return false;
        }
        if self.source[self.current] != ch {
            false
        } else {
            self.current += 1;
            true
        }
    }

    fn peek(&self) -> (c: char)
        ensures
            c == peek_at(self.source@, self.current as int),
    {
        if self.is_end() {
            return '\0';
        }
        self.source[self.current]
    }

    fn number(&mut self)
        requires
            old(self).wf(),
            old(self).start < old(self).current,
            digit(old(self).source@[old(self).start as int]),
            old(self).current == old(self).start + 1,
        ensures
            final(self).wf(),
            final(self)@ == ({
                let end = number_end(old(self).source@, old(self).start as int);
                LexerView {
                    current: end,
                    pending: Some(old(self).source@.subrange(old(self).start as int, end)),
                    ..old(self)@
                }
            }),
    {
        self.digits();
        if self.peek() == '.' && is_digit(self.peek_next()) {
            let c = self.advance();
            self.digits();
        }
        let text = text_of(&self.source, self.start, self.current);
        self.pending = Some(text);
    }

    fn digits(&mut self)
        requires
            old(self).wf(),
        ensures
            final(self).wf(),
            final(self).start == old(self).start,
            final(self)@ == (LexerView {
                current: digits_end(old(self).source@, old(self).current as int),
                ..old(self)@
            }),
    {
        let mut pos: usize = self.current;
        while pos < self.source.len() && is_digit(self.source[pos])
            invariant
                self.current <= pos <= self.source.len(),
                digits_end(self.source@, pos as int) == digits_end(
                    self.source@,
                    self.current as int,
                ),
            decreases self.source.len() - pos,
        {
            pos = pos + 1;
        }
        self.current = pos;
    }

    fn peek_next(&self) -> (c: char)
        requires
            self.wf(),
        ensures
            c == peek_at(self.source@, self.current + 1),
    {
        if self.current >= self.source.len() || self.current + 1 >= self.source.len() {
            return '\0';
        }
        self.source[self.current + 1]
    }

    fn string(&mut self)
        requires
            old(self).wf(),
            old(self).current == old(self).start + 1,
            old(self).pending is None,
        ensures
            final(self).wf(),
            final(self)@ == lexer_apply(
                LexerView { current: old(self).start as int, ..old(self)@ },
                string_token(old(self).source@, old(self).start as int, old(self).line),
            ),
    {
        let mut pos: usize = self.current;
        let mut line: usize = self.line;
        while pos < self.source.len() && self.source[pos] != '"'
            invariant
                self.current <= pos <= self.source.len(),
                string_end(self.source@, pos as int, line) == string_end(
                    self.source@,
                    self.current as int,
                    self.line,
                ),
            decreases self.source.len() - pos,
        {
            if self.source[pos] == '\n' {
                line = if line < usize::MAX {
                    line + 1
                } else {
                    line
                };
            }
            pos = pos + 1;
        }
        if pos >= self.source.len() {
            self.current = pos;
            self.line = line;
            self.push_error(String::from_str("Unterminated string"));
            return ;
        }
        self.current = pos + 1;
        let value = text_of(&self.source, self.start + 1, pos);
        self.push_token(TokenType::String, Some(LiteralValue::StringValue(value)));
        self.line = line;
    }
}

} // verus!
