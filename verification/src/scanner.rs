//! Tokens and the scanner: the finite-state pass from source text to an
//! end-of-input-terminated token sequence.

use crate::numfmt::{dec_i64, i64_to_string, usize_to_string, dec_u64};
use vstd::prelude::*;

verus! {

/// The kind of a token.
#[derive(Clone, Copy, PartialEq, Eq, Structural, Debug)]
pub enum TokenType {
    // Single-character tokens
    LeftParen,
    RightParen,
    LeftBrace,
    RightBrace,
    Comma,
    Dot,
    Minus,
    Plus,
    Semicolon,
    Slash,
    Star,
    // One or two characters
    Bang,
    BangEqual,
    Equal,
    EqualEqual,
    Greater,
    GreaterEqual,
    Less,
    LessEqual,
    // Literals
    Identifier,
    StringLit,
    Number,
    // Keywords
    And,
    Class,
    Else,
    False,
    Fun,
    For,
    If,
    Nil,
    Or,
    Print,
    Return,
    Super,
    This,
    True,
    Var,
    While,
    Eof,
}

/// The display name of a token kind.
pub open spec fn token_type_name(t: TokenType) -> Seq<char> {
    match t {
        TokenType::LeftParen => "LeftParen"@,
        TokenType::RightParen => "RightParen"@,
        TokenType::LeftBrace => "LeftBrace"@,
        TokenType::RightBrace => "RightBrace"@,
        TokenType::Comma => "Comma"@,
        TokenType::Dot => "Dot"@,
        TokenType::Minus => "Minus"@,
        TokenType::Plus => "Plus"@,
        TokenType::Semicolon => "Semicolon"@,
        TokenType::Slash => "Slash"@,
        TokenType::Star => "Star"@,
        TokenType::Bang => "Bang"@,
        TokenType::BangEqual => "BangEqual"@,
        TokenType::Equal => "Equal"@,
        TokenType::EqualEqual => "EqualEqual"@,
        TokenType::Greater => "Greater"@,
        TokenType::GreaterEqual => "GreaterEqual"@,
        TokenType::Less => "Less"@,
        TokenType::LessEqual => "LessEqual"@,
        TokenType::Identifier => "Identifier"@,
        TokenType::StringLit => "StringLit"@,
        TokenType::Number => "Number"@,
        TokenType::And => "And"@,
        TokenType::Class => "Class"@,
        TokenType::Else => "Else"@,
        TokenType::False => "False"@,
        TokenType::Fun => "Fun"@,
        TokenType::For => "For"@,
        TokenType::If => "If"@,
        TokenType::Nil => "Nil"@,
        TokenType::Or => "Or"@,
        TokenType::Print => "Print"@,
        TokenType::Return => "Return"@,
        TokenType::Super => "Super"@,
        TokenType::This => "This"@,
        TokenType::True => "True"@,
        TokenType::Var => "Var"@,
        TokenType::While => "While"@,
        TokenType::Eof => "Eof"@,
    }
}

impl TokenType {
    /// The display name of this token kind, as text.
    pub fn name(&self) -> (r: &'static str)
        ensures
            r@ == token_type_name(*self),
    {
        match self {
            TokenType::LeftParen => "LeftParen",
            TokenType::RightParen => "RightParen",
            TokenType::LeftBrace => "LeftBrace",
            TokenType::RightBrace => "RightBrace",
            TokenType::Comma => "Comma",
            TokenType::Dot => "Dot",
            TokenType::Minus => "Minus",
            TokenType::Plus => "Plus",
            TokenType::Semicolon => "Semicolon",
            TokenType::Slash => "Slash",
            TokenType::Star => "Star",
            TokenType::Bang => "Bang",
            TokenType::BangEqual => "BangEqual",
            TokenType::Equal => "Equal",
            TokenType::EqualEqual => "EqualEqual",
            TokenType::Greater => "Greater",
            TokenType::GreaterEqual => "GreaterEqual",
            TokenType::Less => "Less",
            TokenType::LessEqual => "LessEqual",
            TokenType::Identifier => "Identifier",
            TokenType::StringLit => "StringLit",
            TokenType::Number => "Number",
            TokenType::And => "And",
            TokenType::Class => "Class",
            TokenType::Else => "Else",
            TokenType::False => "False",
            TokenType::Fun => "Fun",
            TokenType::For => "For",
            TokenType::If => "If",
            TokenType::Nil => "Nil",
            TokenType::Or => "Or",
            TokenType::Print => "Print",
            TokenType::Return => "Return",
            TokenType::Super => "Super",
            TokenType::This => "This",
            TokenType::True => "True",
            TokenType::Var => "Var",
            TokenType::While => "While",
            TokenType::Eof => "Eof",
        }
    }
}

/// A literal value attached to a `Number` or `StringLit` token.
#[derive(Debug)]
pub enum LiteralValue {
    IntValue(i64),
    StringValue(String),
    IdentifierValue(String),
}

impl Clone for LiteralValue {
    fn clone(&self) -> (res: Self)
        ensures
            res == *self,
    {
        match self {
            LiteralValue::IntValue(n) => LiteralValue::IntValue(*n),
            LiteralValue::StringValue(s) => LiteralValue::StringValue(s.clone()),
            LiteralValue::IdentifierValue(s) => LiteralValue::IdentifierValue(s.clone()),
        }
    }
}

/// One token of source text.
#[derive(Debug)]
pub struct Token {
    pub token_type: TokenType,
    pub lexeme: String,
    pub literal: Option<LiteralValue>,
    pub line_number: usize,
}

impl Clone for Token {
    fn clone(&self) -> (res: Self)
        ensures
            res == *self,
    {
        Token {
            token_type: self.token_type,
            lexeme: self.lexeme.clone(),
            literal: match &self.literal {
                Option::Some(l) => Option::Some(l.clone()),
                Option::None => Option::None,
            },
            line_number: self.line_number,
        }
    }
}

/// The display form of a token's literal payload.
pub open spec fn literal_str(l: Option<LiteralValue>) -> Seq<char> {
    match l {
        Option::None => "None"@,
        Option::Some(LiteralValue::IntValue(n)) => "IntValue("@ + dec_i64(n as int) + ")"@,
        Option::Some(LiteralValue::StringValue(s)) => "StringValue("@ + s@ + ")"@,
        Option::Some(LiteralValue::IdentifierValue(s)) => "IdentifierValue("@ + s@ + ")"@,
    }
}

/// The display form of a token: kind, lexeme and literal payload.
pub open spec fn token_str(t: Token) -> Seq<char> {
    " "@ + token_type_name(t.token_type) + " "@ + t.lexeme@ + " "@ + literal_str(t.literal)
}

impl Token {
    /// Builds a token from its parts.
    pub fn new(
        token_type: TokenType,
        lexeme: String,
        literal: Option<LiteralValue>,
        line_number: usize,
    ) -> (t: Self)
        ensures
            t == (Token { token_type, lexeme, literal, line_number }),
    {
        Self { token_type, lexeme, literal, line_number }
    }

    /// The display form of this token.
    pub fn to_string(&self) -> (r: String)
        ensures
            r@ == token_str(*self),
    {
        let mut r = " ".to_owned();
        r.append(self.token_type.name());
        r.append(" ");
        r.append(self.lexeme.as_str());
        r.append(" ");
        match &self.literal {
            Option::None => {
                r.append("None");
            },
            Option::Some(LiteralValue::IntValue(n)) => {
                r.append("IntValue(");
                r.append(i64_to_string(*n).as_str());
                r.append(")");
            },
            Option::Some(LiteralValue::StringValue(s)) => {
                r.append("StringValue(");
                r.append(s.as_str());
                r.append(")");
            },
            Option::Some(LiteralValue::IdentifierValue(s)) => {
                r.append("IdentifierValue(");
                r.append(s.as_str());
                r.append(")");
            },
        }
        proof {
            assert(r@ =~= token_str(*self));
        }
        r
    }
}

/// Whether a character is a decimal digit.
pub fn is_digit(ch: char) -> (r: bool)
    ensures
        r == ('0' <= ch && ch <= '9'),
{
    ch >= '0' && ch <= '9'
}


/// The mathematical model of a token literal.
pub enum LitM {
    Int(i64),
    Str(Seq<char>),
    Ident(Seq<char>),
}

impl View for LiteralValue {
    type V = LitM;

    open spec fn view(&self) -> LitM {
        match self {
            LiteralValue::IntValue(n) => LitM::Int(*n),
            LiteralValue::StringValue(s) => LitM::Str(s@),
            LiteralValue::IdentifierValue(s) => LitM::Ident(s@),
        }
    }
}

/// The mathematical model of a token.
pub struct TokenM {
    pub token_type: TokenType,
    pub lexeme: Seq<char>,
    pub literal: Option<LitM>,
    pub line: nat,
}

impl View for Token {
    type V = TokenM;

    open spec fn view(&self) -> TokenM {
        TokenM {
            token_type: self.token_type,
            lexeme: self.lexeme@,
            literal: match self.literal {
                Option::Some(l) => Option::Some(l@),
                Option::None => Option::None,
            },
            line: self.line_number as nat,
        }
    }
}

/// The views of a token sequence.
pub open spec fn tokens_view(ts: Seq<Token>) -> Seq<TokenM> {
    ts.map_values(|t: Token| t@)
}

/// The views of a string sequence.
pub open spec fn strs_view(ss: Seq<String>) -> Seq<Seq<char>> {
    ss.map_values(|s: String| s@)
}

/// Whether `c` is a decimal digit, as the scanner classifies it.
pub open spec fn is_digit_spec(c: char) -> bool {
    '0' <= c && c <= '9'
}

/// Whether `c` can start an identifier.
pub open spec fn is_alpha_spec(c: char) -> bool {
    ('a' <= c && c <= 'z') || ('A' <= c && c <= 'Z') || c == '_'
}

/// Whether `c` can continue an identifier.
pub open spec fn is_alnum_spec(c: char) -> bool {
    is_alpha_spec(c) || is_digit_spec(c)
}

/// The index of the newline that ends the comment starting search at
/// `p`, or the end of the text.
pub open spec fn line_end(src: Seq<char>, p: int) -> int
    decreases src.len() - p,
{
    if p < 0 || p >= src.len() {
        src.len() as int
    } else if src[p] == '\n' {
        p
    } else {
        line_end(src, p + 1)
    }
}

/// The index of the next `"` at or after `p`, or the end of the text.
pub open spec fn next_quote(src: Seq<char>, p: int) -> int
    decreases src.len() - p,
{
    if p < 0 || p >= src.len() {
        src.len() as int
    } else if src[p] == '"' {
        p
    } else {
        next_quote(src, p + 1)
    }
}

/// The index of the first non-digit at or after `p`.
pub open spec fn digits_end(src: Seq<char>, p: int) -> int
    decreases src.len() - p,
{
    if p < 0 || p >= src.len() || !is_digit_spec(src[p]) {
        p
    } else {
        digits_end(src, p + 1)
    }
}

/// The index of the first character at or after `p` that cannot
/// continue an identifier.
pub open spec fn ident_end(src: Seq<char>, p: int) -> int
    decreases src.len() - p,
{
    if p < 0 || p >= src.len() || !is_alnum_spec(src[p]) {
        p
    } else {
        ident_end(src, p + 1)
    }
}

/// One more line, saturating at the machine word.
pub open spec fn bump_line(line: nat) -> nat {
    if line < usize::MAX {
        line + 1
    } else {
        line
    }
}

/// The line number after passing the newlines `src` holds in `[a, b)`.
pub open spec fn bump_lines(line: nat, src: Seq<char>, a: int, b: int) -> nat
    decreases b - a,
{
    if a >= b || b < 0 || b > src.len() {
        line
    } else {
        let l = bump_lines(line, src, a, b - 1);
        if src[b - 1] == '\n' {
            bump_line(l)
        } else {
            l
        }
    }
}

/// The numeric value of a digit string.
pub open spec fn digits_val(s: Seq<char>) -> int
    decreases s.len(),
{
    if s.len() == 0 {
        0
    } else {
        digits_val(s.drop_last()) * 10 + (s.last() as int - 48)
    }
}

/// The token kind of an identifier word: a keyword where it is one.
pub open spec fn keyword_type(w: Seq<char>) -> TokenType {
    if w == "and"@ {
        TokenType::And
    } else if w == "class"@ {
        TokenType::Class
    } else if w == "else"@ {
        TokenType::Else
    } else if w == "false"@ {
        TokenType::False
    } else if w == "fun"@ {
        TokenType::Fun
    } else if w == "for"@ {
        TokenType::For
    } else if w == "if"@ {
        TokenType::If
    } else if w == "nil"@ {
        TokenType::Nil
    } else if w == "or"@ {
        TokenType::Or
    } else if w == "print"@ {
        TokenType::Print
    } else if w == "return"@ {
        TokenType::Return
    } else if w == "super"@ {
        TokenType::Super
    } else if w == "this"@ {
        TokenType::This
    } else if w == "true"@ {
        TokenType::True
    } else if w == "var"@ {
        TokenType::Var
    } else if w == "while"@ {
        TokenType::While
    } else {
        TokenType::Identifier
    }
}

/// What one scan step produces: a token, nothing (space or comment),
/// or a lexical error.
pub enum ScanStep {
    Tok(TokenM),
    Skip,
    Error(Seq<char>),
}

/// A token model with no literal payload.
pub open spec fn plain_token(t: TokenType, lexeme: Seq<char>, line: nat) -> TokenM {
    TokenM { token_type: t, lexeme, literal: Option::None, line }
}

/// One step of the scanner at position `pos` on line `line`: where it
/// stops next, the line it is then on, and what it produced.
pub open spec fn scan_token_spec(src: Seq<char>, pos: int, line: nat) -> (int, nat, ScanStep)
    recommends
        0 <= pos < src.len(),
{
    let c = src[pos];
    if c == '(' {
        (pos + 1, line, ScanStep::Tok(plain_token(TokenType::LeftParen, src.subrange(pos, pos + 1), line)))
    } else if c == ')' {
        (pos + 1, line, ScanStep::Tok(plain_token(TokenType::RightParen, src.subrange(pos, pos + 1), line)))
    } else if c == '{' {
        (pos + 1, line, ScanStep::Tok(plain_token(TokenType::LeftBrace, src.subrange(pos, pos + 1), line)))
    } else if c == '}' {
        (pos + 1, line, ScanStep::Tok(plain_token(TokenType::RightBrace, src.subrange(pos, pos + 1), line)))
    } else if c == ',' {
        (pos + 1, line, ScanStep::Tok(plain_token(TokenType::Comma, src.subrange(pos, pos + 1), line)))
    } else if c == '.' {
        (pos + 1, line, ScanStep::Tok(plain_token(TokenType::Dot, src.subrange(pos, pos + 1), line)))
    } else if c == '-' {
        (pos + 1, line, ScanStep::Tok(plain_token(TokenType::Minus, src.subrange(pos, pos + 1), line)))
    } else if c == '+' {
        (pos + 1, line, ScanStep::Tok(plain_token(TokenType::Plus, src.subrange(pos, pos + 1), line)))
    } else if c == ';' {
        (pos + 1, line, ScanStep::Tok(plain_token(TokenType::Semicolon, src.subrange(pos, pos + 1), line)))
    } else if c == '*' {
        (pos + 1, line, ScanStep::Tok(plain_token(TokenType::Star, src.subrange(pos, pos + 1), line)))
    } else if c == '!' {
        if pos + 1 < src.len() && src[pos + 1] == '=' {
            (pos + 2, line, ScanStep::Tok(plain_token(TokenType::BangEqual, src.subrange(pos, pos + 2), line)))
        } else {
            (pos + 1, line, ScanStep::Tok(plain_token(TokenType::Bang, src.subrange(pos, pos + 1), line)))
        }
    } else if c == '=' {
        if pos + 1 < src.len() && src[pos + 1] == '=' {
            (pos + 2, line, ScanStep::Tok(plain_token(TokenType::EqualEqual, src.subrange(pos, pos + 2), line)))
        } else {
            (pos + 1, line, ScanStep::Tok(plain_token(TokenType::Equal, src.subrange(pos, pos + 1), line)))
        }
    } else if c == '<' {
        if pos + 1 < src.len() && src[pos + 1] == '=' {
            (pos + 2, line, ScanStep::Tok(plain_token(TokenType::LessEqual, src.subrange(pos, pos + 2), line)))
        } else {
            (pos + 1, line, ScanStep::Tok(plain_token(TokenType::Less, src.subrange(pos, pos + 1), line)))
        }
    } else if c == '>' {
        if pos + 1 < src.len() && src[pos + 1] == '=' {
            (pos + 2, line, ScanStep::Tok(plain_token(TokenType::GreaterEqual, src.subrange(pos, pos + 2), line)))
        } else {
            (pos + 1, line, ScanStep::Tok(plain_token(TokenType::Greater, src.subrange(pos, pos + 1), line)))
        }
    } else if c == '/' {
        if pos + 1 < src.len() && src[pos + 1] == '/' {
            (line_end(src, pos + 2), line, ScanStep::Skip)
        } else {
            (pos + 1, line, ScanStep::Tok(plain_token(TokenType::Slash, src.subrange(pos, pos + 1), line)))
        }
    } else if c == ' ' || c == '\r' || c == '\t' {
        (pos + 1, line, ScanStep::Skip)
    } else if c == '\n' {
        (pos + 1, bump_line(line), ScanStep::Skip)
    } else if c == '"' {
        let q = next_quote(src, pos + 1);
        if q >= src.len() {
            (
                src.len() as int,
                bump_lines(line, src, pos + 1, src.len() as int),
                ScanStep::Error("Unterminated string at line: "@ + dec_u64(line)),
            )
        } else {
            let l2 = bump_lines(line, src, pos + 1, q);
            (
                q + 1,
                l2,
                ScanStep::Tok(
                    TokenM {
                        token_type: TokenType::StringLit,
                        lexeme: src.subrange(pos, q + 1),
                        literal: Option::Some(LitM::Str(src.subrange(pos + 1, q))),
                        line: l2,
                    },
                ),
            )
        }
    } else if is_digit_spec(c) {
        let e = digits_end(src, pos + 1);
        let v = digits_val(src.subrange(pos, e));
        if v > i64::MAX {
            (e, line, ScanStep::Error("Could not parse number: "@ + src.subrange(pos, e)))
        } else {
            (
                e,
                line,
                ScanStep::Tok(
                    TokenM {
                        token_type: TokenType::Number,
                        lexeme: src.subrange(pos, e),
                        literal: Option::Some(LitM::Int(v as i64)),
                        line,
                    },
                ),
            )
        }
    } else if is_alpha_spec(c) {
        let e = ident_end(src, pos + 1);
        let w = src.subrange(pos, e);
        (e, line, ScanStep::Tok(plain_token(keyword_type(w), w, line)))
    } else {
        (
            pos + 1,
            line,
            ScanStep::Error(
                "Unrecognized char at line: "@ + dec_u64(line) + ": "@ + seq![c],
            ),
        )
    }
}

/// Scans everything from `pos` on: the tokens, ending in the
/// end-of-input token, and every lexical error met on the way.
pub open spec fn scan_all_spec(src: Seq<char>, pos: int, line: nat) -> (Seq<TokenM>, Seq<Seq<char>>)
    decreases src.len() - pos,
{
    if pos < 0 || pos >= src.len() {
        (seq![plain_token(TokenType::Eof, Seq::empty(), line)], Seq::empty())
    } else {
        let (p2, l2, step) = scan_token_spec(src, pos, line);
        let p3 = if p2 <= pos {
            pos + 1
        } else if p2 > src.len() {
            src.len() as int
        } else {
            p2
        };
        let (toks, errs) = scan_all_spec(src, p3, l2);
        match step {
            ScanStep::Tok(t) => (seq![t] + toks, errs),
            ScanStep::Skip => (toks, errs),
            ScanStep::Error(m) => (toks, seq![m] + errs),
        }
    }
}

/// The collected lexical errors, one per line.
pub open spec fn join_errs(errs: Seq<Seq<char>>) -> Seq<char>
    decreases errs.len(),
{
    if errs.len() == 0 {
        Seq::empty()
    } else {
        errs[0] + seq!['\n'] + join_errs(errs.drop_first())
    }
}


proof fn lemma_next_quote_bounds(src: Seq<char>, p: int)
    requires
        0 <= p <= src.len(),
    ensures
        p <= next_quote(src, p) <= src.len(),
    decreases src.len() - p,
{
    if p < src.len() && src[p] != '"' {
        lemma_next_quote_bounds(src, p + 1);
    }
}

proof fn lemma_digits_end_bounds(src: Seq<char>, p: int)
    requires
        0 <= p <= src.len(),
    ensures
        p <= digits_end(src, p) <= src.len(),
    decreases src.len() - p,
{
    if p < src.len() && is_digit_spec(src[p]) {
        lemma_digits_end_bounds(src, p + 1);
    }
}

proof fn lemma_ident_end_bounds(src: Seq<char>, p: int)
    requires
        0 <= p <= src.len(),
    ensures
        p <= ident_end(src, p) <= src.len(),
    decreases src.len() - p,
{
    if p < src.len() && is_alnum_spec(src[p]) {
        lemma_ident_end_bounds(src, p + 1);
    }
}

/// The scanner: one pass over the source text, producing a token
/// sequence that always ends in the end-of-input token, and collecting
/// every lexical error before reporting. Numeric literals are
/// integers; a literal too large for the machine word is a lexical
/// error; line numbers saturate at the machine word.
pub struct Scanner {
    pub source: String,
    pub tokens: Vec<Token>,
    pub start: usize,
    pub current: usize,
    pub line: usize,
}

impl Scanner {
    /// A fresh scanner over `source`, positioned at its start.
    pub fn new(source: &str) -> (s: Scanner)
        ensures
            s.source@ == source@,
            s.tokens@.len() == 0,
            s.start == 0,
            s.current == 0,
            s.line == 1,
    {
        Scanner {
            source: source.to_owned(),
            tokens: Vec::new(),
            start: 0,
            current: 0,
            line: 1,
        }
    }

    fn is_at_end(&self) -> (r: bool)
        ensures
            r == (self.current as int >= self.source@.len()),
    {
        self.current >= self.source.as_str().unicode_len()
    }

    fn peek(&self) -> (c: char)
        requires
            self.current <= self.source@.len(),
        ensures
            c == (if self.current < self.source@.len() {
                self.source@[self.current as int]
            } else {
                '\0'
            }),
    {
        if self.is_at_end() {
            '\0'
        } else {
            self.source.as_str().get_char(self.current)
        }
    }

    fn advance(&mut self) -> (c: char)
        requires
            old(self).current < old(self).source@.len(),
        ensures
            c == old(self).source@[old(self).current as int],
            final(self).current == old(self).current + 1,
            final(self).source == old(self).source,
            final(self).start == old(self).start,
            final(self).line == old(self).line,
            final(self).tokens == old(self).tokens,
    {
        let _n = self.source.as_str().unicode_len();
        let c = self.source.as_str().get_char(self.current);
        self.current = self.current + 1;
        c
    }

    fn char_match(&mut self, ch: char) -> (r: bool)
        requires
            old(self).current <= old(self).source@.len(),
        ensures
            r == (old(self).current < old(self).source@.len()
                && old(self).source@[old(self).current as int] == ch),
            r ==> final(self).current == old(self).current + 1,
            !r ==> final(self).current == old(self).current,
            final(self).source == old(self).source,
            final(self).start == old(self).start,
            final(self).line == old(self).line,
            final(self).tokens == old(self).tokens,
    {
        if self.is_at_end() {
            return false;
        }
        let _n = self.source.as_str().unicode_len();
        if self.source.as_str().get_char(self.current) != ch {
            false
        } else {
            self.current = self.current + 1;
            true
        }
    }

    fn add_token_lit(&mut self, token_type: TokenType, literal: Option<LiteralValue>)
        requires
            old(self).start <= old(self).current,
            old(self).current <= old(self).source@.len(),
        ensures
            final(self).source == old(self).source,
            final(self).start == old(self).start,
            final(self).current == old(self).current,
            final(self).line == old(self).line,
            tokens_view(final(self).tokens@) =~= tokens_view(old(self).tokens@).push(
                TokenM {
                    token_type,
                    lexeme: old(self).source@.subrange(
                        old(self).start as int,
                        old(self).current as int,
                    ),
                    literal: match literal {
                        Option::Some(l) => Option::Some(l@),
                        Option::None => Option::None,
                    },
                    line: old(self).line as nat,
                },
            ),
    {
        let lexeme = self.source.as_str().substring_char(self.start, self.current).to_owned();
        let t = Token { token_type, lexeme, literal, line_number: self.line };
        self.tokens.push(t);
    }

    fn add_token(&mut self, token_type: TokenType)
        requires
            old(self).start <= old(self).current,
            old(self).current <= old(self).source@.len(),
        ensures
            final(self).source == old(self).source,
            final(self).start == old(self).start,
            final(self).current == old(self).current,
            final(self).line == old(self).line,
            tokens_view(final(self).tokens@) =~= tokens_view(old(self).tokens@).push(
                plain_token(
                    token_type,
                    old(self).source@.subrange(old(self).start as int, old(self).current as int),
                    old(self).line as nat,
                ),
            ),
    {
        self.add_token_lit(token_type, Option::None);
    }

    fn bump(&mut self)
        ensures
            final(self).line as nat == bump_line(old(self).line as nat),
            final(self).source == old(self).source,
            final(self).start == old(self).start,
            final(self).current == old(self).current,
            final(self).tokens == old(self).tokens,
    {
        if self.line < usize::MAX {
            self.line = self.line + 1;
        }
    }

    fn peek_digit(&self) -> (r: bool)
        requires
            self.current <= self.source@.len(),
        ensures
            r == (self.current < self.source@.len() && is_digit_spec(
                self.source@[self.current as int],
            )),
    {
        let c = self.peek();
        c >= '0' && c <= '9'
    }

    fn peek_alnum(&self) -> (r: bool)
        requires
            self.current <= self.source@.len(),
        ensures
            r == (self.current < self.source@.len() && is_alnum_spec(
                self.source@[self.current as int],
            )),
    {
        let c = self.peek();
        (c >= 'a' && c <= 'z') || (c >= 'A' && c <= 'Z') || c == '_' || (c >= '0' && c <= '9')
    }

    fn string(&mut self) -> (r: Result<(), String>)
        requires
            old(self).current >= 1,
            old(self).start == old(self).current - 1,
            old(self).current <= old(self).source@.len(),
        ensures
            final(self).source == old(self).source,
            final(self).start == old(self).start,
            ({
                let src = old(self).source@;
                let q = next_quote(src, old(self).current as int);
                if q >= src.len() {
                    &&& final(self).current as int == src.len()
                    &&& final(self).line as nat == bump_lines(
                        old(self).line as nat,
                        src,
                        old(self).current as int,
                        src.len() as int,
                    )
                    &&& final(self).tokens@ == old(self).tokens@
                    &&& (r matches Result::Err(m) && m@ == "Unterminated string at line: "@
                        + dec_u64(old(self).line as nat))
                } else {
                    let l2 = bump_lines(old(self).line as nat, src, old(self).current as int, q);
                    &&& final(self).current as int == q + 1
                    &&& final(self).line as nat == l2
                    &&& r is Ok
                    &&& tokens_view(final(self).tokens@) =~= tokens_view(old(self).tokens@).push(
                        TokenM {
                            token_type: TokenType::StringLit,
                            lexeme: src.subrange(old(self).start as int, q + 1),
                            literal: Option::Some(
                                LitM::Str(src.subrange(old(self).current as int, q)),
                            ),
                            line: l2,
                        },
                    )
                }
            }),
    {
        let ghost src = self.source@;
        let ghost p0 = self.current as int;
        let start_line = self.line;
        while self.peek() != '"' && !self.is_at_end()
            invariant
                self.source == old(self).source,
                src == self.source@,
                self.start == old(self).start,
                self.tokens@ == old(self).tokens@,
                p0 <= self.current as int <= src.len(),
                start_line == old(self).line,
                next_quote(src, p0) == next_quote(src, self.current as int),
                self.line as nat == bump_lines(old(self).line as nat, src, p0, self.current as int),
            decreases src.len() - self.current,
        {
            if self.peek() == '\n' {
                self.bump();
            }
            self.advance();
        }
        if self.is_at_end() {
            let mut m = "Unterminated string at line: ".to_owned();
            m.append(usize_to_string(start_line).as_str());
            return Result::Err(m);
        }
        let ghost q = next_quote(src, p0);
        proof {
            assert(q == self.current as int);
        }
        self.advance();
        let value = self.source.as_str().substring_char(self.start + 1, self.current - 1).to_owned();
        self.add_token_lit(TokenType::StringLit, Option::Some(LiteralValue::StringValue(value)));
        Result::Ok(())
    }

    fn number(&mut self) -> (r: Result<(), String>)
        requires
            old(self).current >= 1,
            old(self).start == old(self).current - 1,
            old(self).current <= old(self).source@.len(),
            is_digit_spec(old(self).source@[old(self).start as int]),
        ensures
            final(self).source == old(self).source,
            final(self).start == old(self).start,
            final(self).line == old(self).line,
            ({
                let src = old(self).source@;
                let e = digits_end(src, old(self).current as int);
                let v = digits_val(src.subrange(old(self).start as int, e));
                &&& final(self).current as int == e
                &&& if v > i64::MAX {
                    &&& final(self).tokens@ == old(self).tokens@
                    &&& (r matches Result::Err(m) && m@ == "Could not parse number: "@
                        + src.subrange(old(self).start as int, e))
                } else {
                    &&& r is Ok
                    &&& tokens_view(final(self).tokens@) =~= tokens_view(old(self).tokens@).push(
                        TokenM {
                            token_type: TokenType::Number,
                            lexeme: src.subrange(old(self).start as int, e),
                            literal: Option::Some(LitM::Int(v as i64)),
                            line: old(self).line as nat,
                        },
                    )
                }
            }),
    {
        let ghost src = self.source@;
        let ghost p0 = self.current as int;
        let c0 = self.source.as_str().get_char(self.start);
        proof {
            reveal_with_fuel(digits_val, 2);
            assert(src.subrange(self.start as int, p0).drop_last() =~= Seq::<char>::empty());
            assert(src.subrange(self.start as int, p0).last() == c0);
        }
        let mut acc: Option<i64> = Option::Some(((c0 as u32) - 48) as i64);
        while self.peek_digit()
            invariant
                self.source == old(self).source,
                src == self.source@,
                self.start == old(self).start,
                self.start + 1 == p0,
                self.tokens@ == old(self).tokens@,
                self.line == old(self).line,
                p0 <= self.current as int <= src.len(),
                digits_end(src, p0) == digits_end(src, self.current as int),
                match acc {
                    Option::Some(v) => 0 <= v && v as int == digits_val(
                        src.subrange(self.start as int, self.current as int),
                    ),
                    Option::None => digits_val(
                        src.subrange(self.start as int, self.current as int),
                    ) > i64::MAX,
                },
            decreases src.len() - self.current,
        {
            let c = self.peek();
            let d: u32 = (c as u32) - 48;
            let ghost pre = src.subrange(self.start as int, self.current as int);
            self.advance();
            proof {
                assert(src.subrange(self.start as int, self.current as int).drop_last() =~= pre);
                assert(src.subrange(self.start as int, self.current as int).last() == c);
            }
            acc = match acc {
                Option::Some(v) => match v.checked_mul(10) {
                    Option::Some(v10) => v10.checked_add(d as i64),
                    Option::None => Option::None,
                },
                Option::None => Option::None,
            };
        }
        match acc {
            Option::Some(v) => {
                self.add_token_lit(TokenType::Number, Option::Some(LiteralValue::IntValue(v)));
                Result::Ok(())
            },
            Option::None => {
                let mut m = "Could not parse number: ".to_owned();
                m.append(self.source.as_str().substring_char(self.start, self.current));
                Result::Err(m)
            },
        }
    }

    fn identifier(&mut self)
        requires
            old(self).current >= 1,
            old(self).start == old(self).current - 1,
            old(self).current <= old(self).source@.len(),
        ensures
            final(self).source == old(self).source,
            final(self).start == old(self).start,
            final(self).line == old(self).line,
            ({
                let src = old(self).source@;
                let e = ident_end(src, old(self).current as int);
                let w = src.subrange(old(self).start as int, e);
                &&& final(self).current as int == e
                &&& tokens_view(final(self).tokens@) =~= tokens_view(old(self).tokens@).push(
                    plain_token(keyword_type(w), w, old(self).line as nat),
                )
            }),
    {
        let ghost src = self.source@;
        let ghost p0 = self.current as int;
        while self.peek_alnum()
            invariant
                self.source == old(self).source,
                src == self.source@,
                self.start == old(self).start,
                self.start + 1 == p0,
                self.tokens@ == old(self).tokens@,
                self.line == old(self).line,
                p0 <= self.current as int <= src.len(),
                ident_end(src, p0) == ident_end(src, self.current as int),
            decreases src.len() - self.current,
        {
            self.advance();
        }
        let word = self.source.as_str().substring_char(self.start, self.current).to_owned();
        let t = keyword_of(&word);
        self.add_token(t);
    }
}

/// The token kind of an identifier word: a keyword where it is one.
fn keyword_of(w: &String) -> (t: TokenType)
    ensures
        t == keyword_type(w@),
{
    if *w == "and".to_owned() {
        TokenType::And
    } else if *w == "class".to_owned() {
        TokenType::Class
    } else if *w == "else".to_owned() {
        TokenType::Else
    } else if *w == "false".to_owned() {
        TokenType::False
    } else if *w == "fun".to_owned() {
        TokenType::Fun
    } else if *w == "for".to_owned() {
        TokenType::For
    } else if *w == "if".to_owned() {
        TokenType::If
    } else if *w == "nil".to_owned() {
        TokenType::Nil
    } else if *w == "or".to_owned() {
        TokenType::Or
    } else if *w == "print".to_owned() {
        TokenType::Print
    } else if *w == "return".to_owned() {
        TokenType::Return
    } else if *w == "super".to_owned() {
        TokenType::Super
    } else if *w == "this".to_owned() {
        TokenType::This
    } else if *w == "true".to_owned() {
        TokenType::True
    } else if *w == "var".to_owned() {
        TokenType::Var
    } else if *w == "while".to_owned() {
        TokenType::While
    } else {
        TokenType::Identifier
    }
}

impl Scanner {
    /// Scans one token starting at the current position: exactly the
    /// step [`scan_token_spec`] describes.
    #[verifier::rlimit(100)]
    fn scan_token(&mut self) -> (r: Result<(), String>)
        requires
            old(self).current < old(self).source@.len(),
            old(self).start == old(self).current,
        ensures
            final(self).source == old(self).source,
            final(self).start == old(self).start,
            final(self).current <= final(self).source@.len(),
            final(self).current > old(self).current,
            ({
                let (p2, l2, step) = scan_token_spec(
                    old(self).source@,
                    old(self).current as int,
                    old(self).line as nat,
                );
                &&& final(self).current as int == p2
                &&& final(self).line as nat == l2
                &&& match step {
                    ScanStep::Tok(t) => r is Ok && tokens_view(final(self).tokens@)
                        == tokens_view(old(self).tokens@).push(t),
                    ScanStep::Skip => r is Ok && final(self).tokens@ == old(self).tokens@,
                    ScanStep::Error(m) => (r matches Result::Err(e) && e@ == m) && final(self).tokens@
                        == old(self).tokens@,
                }
            }),
    {
        let ghost src = self.source@;
        let ghost pos = self.current as int;
        let c = self.advance();
        match c {
            '(' => {
                self.add_token(TokenType::LeftParen);
                Result::Ok(())
            },
            ')' => {
                self.add_token(TokenType::RightParen);
                Result::Ok(())
            },
            '{' => {
                self.add_token(TokenType::LeftBrace);
                Result::Ok(())
            },
            '}' => {
                self.add_token(TokenType::RightBrace);
                Result::Ok(())
            },
            ',' => {
                self.add_token(TokenType::Comma);
                Result::Ok(())
            },
            '.' => {
                self.add_token(TokenType::Dot);
                Result::Ok(())
            },
            '-' => {
                self.add_token(TokenType::Minus);
                Result::Ok(())
            },
            '+' => {
                self.add_token(TokenType::Plus);
                Result::Ok(())
            },
            ';' => {
                self.add_token(TokenType::Semicolon);
                Result::Ok(())
            },
            '*' => {
                self.add_token(TokenType::Star);
                Result::Ok(())
            },
            '!' => {
                let t = if self.char_match('=') {
                    TokenType::BangEqual
                } else {
                    TokenType::Bang
                };
                self.add_token(t);
                Result::Ok(())
            },
            '=' => {
                let t = if self.char_match('=') {
                    TokenType::EqualEqual
                } else {
                    TokenType::Equal
                };
                self.add_token(t);
                Result::Ok(())
            },
            '<' => {
                let t = if self.char_match('=') {
                    TokenType::LessEqual
                } else {
                    TokenType::Less
                };
                self.add_token(t);
                Result::Ok(())
            },
            '>' => {
                let t = if self.char_match('=') {
                    TokenType::GreaterEqual
                } else {
                    TokenType::Greater
                };
                self.add_token(t);
                Result::Ok(())
            },
            '/' => {
                if self.char_match('/') {
                    let ghost p2 = self.current as int;
                    while !(self.is_at_end() || self.peek() == '\n')
                        invariant
                            self.source == old(self).source,
                            src == self.source@,
                            self.start == old(self).start,
                            self.tokens@ == old(self).tokens@,
                            self.line == old(self).line,
                            p2 <= self.current as int <= src.len(),
                            line_end(src, p2) == line_end(src, self.current as int),
                        decreases src.len() - self.current,
                    {
                        self.advance();
                    }
                    Result::Ok(())
                } else {
                    self.add_token(TokenType::Slash);
                    Result::Ok(())
                }
            },
            ' ' => Result::Ok(()),
            '\r' => Result::Ok(()),
            '\t' => Result::Ok(()),
            '\n' => {
                self.bump();
                Result::Ok(())
            },
            '"' => {
                proof {
                    lemma_next_quote_bounds(src, pos + 1);
                }
                self.string()
            },
            c => {
                if c >= '0' && c <= '9' {
                    proof {
                        lemma_digits_end_bounds(src, pos + 1);
                    }
                    self.number()
                } else if (c >= 'a' && c <= 'z') || (c >= 'A' && c <= 'Z') || c == '_' {
                    proof {
                        lemma_ident_end_bounds(src, pos + 1);
                    }
                    self.identifier();
                    Result::Ok(())
                } else {
                    let mut m = "Unrecognized char at line: ".to_owned();
                    m.append(usize_to_string(self.line).as_str());
                    m.append(": ");
                    let cs = self.source.as_str().substring_char(self.start, self.current);
                    m.append(cs);
                    proof {
                        assert(src.subrange(pos, pos + 1) =~= seq![c]);
                    }
                    Result::Err(m)
                }
            },
        }
    }

    /// Scans the whole source: the token sequence, ending in the
    /// end-of-input token, or all the lexical errors joined one per
    /// line — exactly what [`scan_all_spec`] gives on the text.
    pub fn scan_tokens(&mut self) -> (r: Result<Vec<Token>, String>)
        requires
            old(self).current == 0,
            old(self).start == 0,
            old(self).line == 1,
            old(self).tokens@.len() == 0,
        ensures
            ({
                let (toks, errs) = scan_all_spec(old(self).source@, 0, 1);
                match r {
                    Result::Ok(ts) => errs.len() == 0 && tokens_view(ts@) == toks,
                    Result::Err(m) => errs.len() > 0 && m@ == join_errs(errs),
                }
            }),
    {
        let ghost src = self.source@;
        let mut errors: Vec<String> = Vec::new();
        proof {
            assert(tokens_view(self.tokens@) =~= Seq::<TokenM>::empty());
            assert(strs_view(errors@) =~= Seq::<Seq<char>>::empty());
        }
        while !self.is_at_end()
            invariant
                self.source == old(self).source,
                src == self.source@,
                self.current <= src.len(),
                self.line <= usize::MAX,
                ({
                    let (rt, re) = scan_all_spec(src, self.current as int, self.line as nat);
                    let (ft, fe) = scan_all_spec(src, 0, 1);
                    &&& ft =~= tokens_view(self.tokens@) + rt
                    &&& fe =~= strs_view(errors@) + re
                }),
            decreases src.len() - self.current,
        {
            self.start = self.current;
            let ghost toks0 = self.tokens@;
            let ghost errs0 = errors@;
            let r1 = self.scan_token();
            match r1 {
                Result::Ok(()) => {},
                Result::Err(m) => {
                    errors.push(m);
                    proof {
                        assert(strs_view(errors@) =~= strs_view(errs0).push(m@));
                    }
                },
            }
            proof {
                let (rt, re) = scan_all_spec(src, self.current as int, self.line as nat);
                let (ft, fe) = scan_all_spec(src, 0, 1);
                assert(ft =~= tokens_view(self.tokens@) + rt);
                assert(fe =~= strs_view(errors@) + re);
            }
        }
        self.start = self.current;
        let eof = Token {
            token_type: TokenType::Eof,
            lexeme: String::new(),
            literal: Option::None,
            line_number: self.line,
        };
        self.tokens.push(eof);
        proof {
            let (ft, fe) = scan_all_spec(src, 0, 1);
            assert(tokens_view(self.tokens@) =~= ft);
            assert(strs_view(errors@) =~= fe);
        }
        if errors.len() > 0 {
            let mut joined = String::new();
            proof {
                assert(strs_view(errors@).skip(0) =~= strs_view(errors@));
                assert(joined@ + join_errs(strs_view(errors@).skip(0)) =~= join_errs(
                    strs_view(errors@),
                ));
            }
            let mut i: usize = 0;
            while i < errors.len()
                invariant
                    i <= errors@.len(),
                    join_errs(strs_view(errors@)) =~= joined@ + join_errs(
                        strs_view(errors@).skip(i as int),
                    ),
                decreases errors@.len() - i,
            {
                proof {
                    assert(strs_view(errors@).skip(i as int).drop_first() =~= strs_view(
                        errors@,
                    ).skip(i + 1));
                    assert(strs_view(errors@).skip(i as int)[0] == errors@[i as int]@);
                }
                joined.append(errors[i].as_str());
                joined.append("\n");
                proof {
                    reveal_strlit("\n");
                    assert("\n"@ =~= seq!['\n']);
                    assert(join_errs(strs_view(errors@)) =~= joined@ + join_errs(
                        strs_view(errors@).skip(i + 1),
                    ));
                }
                i = i + 1;
            }
            proof {
                assert(strs_view(errors@).skip(errors@.len() as int) =~= Seq::<Seq<char>>::empty());
                assert(join_errs(strs_view(errors@)) =~= joined@);
            }
            return Result::Err(joined);
        }
        let out = self.tokens.clone();
        proof {
            assert(tokens_view(out@) =~= tokens_view(self.tokens@));
        }
        Result::Ok(out)
    }
}


/// The scanned token sequence is never empty and always ends in the
/// end-of-input token.
pub proof fn lemma_scan_all_ends_eof(src: Seq<char>, pos: int, line: nat)
    ensures
        ({
            let (toks, errs) = scan_all_spec(src, pos, line);
            toks.len() >= 1 && toks.last().token_type == TokenType::Eof
        }),
    decreases src.len() - pos,
{
    if pos < 0 || pos >= src.len() {
    } else {
        let (p2, l2, step) = scan_token_spec(src, pos, line);
        let p3 = if p2 <= pos {
            pos + 1
        } else if p2 > src.len() {
            src.len() as int
        } else {
            p2
        };
        lemma_scan_all_ends_eof(src, p3, l2);
    }
}

} // verus!
