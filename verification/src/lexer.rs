//! The lexer: turns raw source text into a finite, ordered sequence of typed
//! tokens with source positions. Longest-match rules apply to the two-symbol
//! punctuation (`==`, `!=`, `<=`, `>=`, `&&`, `||`).
//!
//! Tokenisation is defined by the pure function [`next_token_model`]; the
//! executable lexer's contract states that it computes exactly that
//! function. One `EOF` token is produced when the end of the text is
//! reached; after it, `next_token` yields `None`, so the token sequence is
//! finite. A character the language does not know also lexes as an `EOF`
//! token (spanning just that character), as does a lone `&` or `|`.
use vstd::prelude::*;

use crate::code::push_char;

verus! {

/// The kind of one token.
#[derive(Debug, Clone, PartialEq)]
pub enum TokenKind {
    /// An integer literal; values beyond the token type's range saturate.
    Integer(i16),
    /// A name.
    Identifier(String),
    // keywords
    Def,
    Fun,
    Ret,
    If,
    Else,
    While,
    For,
    // punctuation
    Plus,
    Minus,
    Asterisk,
    Slash,
    Percent,
    LParen,
    RParen,
    LBrace,
    RBrace,
    LBracket,
    RBracket,
    Semicolon,
    Colon,
    Comma,
    Equal,
    EqualEqual,
    Bang,
    BangEqual,
    Less,
    LessEqual,
    Greater,
    GreaterEqual,
    And,
    Or,
    /// End of input, or a character the language does not know.
    EOF,
}

/// The mathematical value of a [`TokenKind`].
pub ghost enum TokenKindModel {
    Integer(i16),
    Identifier(Seq<char>),
    Def,
    Fun,
    Ret,
    If,
    Else,
    While,
    For,
    Plus,
    Minus,
    Asterisk,
    Slash,
    Percent,
    LParen,
    RParen,
    LBrace,
    RBrace,
    LBracket,
    RBracket,
    Semicolon,
    Colon,
    Comma,
    Equal,
    EqualEqual,
    Bang,
    BangEqual,
    Less,
    LessEqual,
    Greater,
    GreaterEqual,
    And,
    Or,
    EOF,
}

impl View for TokenKind {
    type V = TokenKindModel;

    open spec fn view(&self) -> TokenKindModel {
        match self {
            TokenKind::Integer(v) => TokenKindModel::Integer(*v),
            TokenKind::Identifier(s) => TokenKindModel::Identifier(s@),
            TokenKind::Def => TokenKindModel::Def,
            TokenKind::Fun => TokenKindModel::Fun,
            TokenKind::Ret => TokenKindModel::Ret,
            TokenKind::If => TokenKindModel::If,
            TokenKind::Else => TokenKindModel::Else,
            TokenKind::While => TokenKindModel::While,
            TokenKind::For => TokenKindModel::For,
            TokenKind::Plus => TokenKindModel::Plus,
            TokenKind::Minus => TokenKindModel::Minus,
            TokenKind::Asterisk => TokenKindModel::Asterisk,
            TokenKind::Slash => TokenKindModel::Slash,
            TokenKind::Percent => TokenKindModel::Percent,
            TokenKind::LParen => TokenKindModel::LParen,
            TokenKind::RParen => TokenKindModel::RParen,
            TokenKind::LBrace => TokenKindModel::LBrace,
            TokenKind::RBrace => TokenKindModel::RBrace,
            TokenKind::LBracket => TokenKindModel::LBracket,
            TokenKind::RBracket => TokenKindModel::RBracket,
            TokenKind::Semicolon => TokenKindModel::Semicolon,
            TokenKind::Colon => TokenKindModel::Colon,
            TokenKind::Comma => TokenKindModel::Comma,
            TokenKind::Equal => TokenKindModel::Equal,
            TokenKind::EqualEqual => TokenKindModel::EqualEqual,
            TokenKind::Bang => TokenKindModel::Bang,
            TokenKind::BangEqual => TokenKindModel::BangEqual,
            TokenKind::Less => TokenKindModel::Less,
            TokenKind::LessEqual => TokenKindModel::LessEqual,
            TokenKind::Greater => TokenKindModel::Greater,
            TokenKind::GreaterEqual => TokenKindModel::GreaterEqual,
            TokenKind::And => TokenKindModel::And,
            TokenKind::Or => TokenKindModel::Or,
            TokenKind::EOF => TokenKindModel::EOF,
        }
    }
}

/// Where a token sits in the source: character positions, and the token's
/// text.
#[derive(Debug, Clone, PartialEq)]
pub struct TextSpan {
    pub start: usize,
    pub end: usize,
    pub literal: String,
}

/// The mathematical value of a [`TextSpan`].
pub ghost struct TextSpanModel {
    pub start: nat,
    pub end: nat,
    pub literal: Seq<char>,
}

impl View for TextSpan {
    type V = TextSpanModel;

    open spec fn view(&self) -> TextSpanModel {
        TextSpanModel { start: self.start as nat, end: self.end as nat, literal: self.literal@ }
    }
}

impl TextSpan {
    /// A span from its parts.
    pub fn new(start: usize, end: usize, literal: String) -> (s: TextSpan)
        ensures
            s@ == (TextSpanModel { start: start as nat, end: end as nat, literal: literal@ }),
    {
        TextSpan { start, end, literal }
    }

    /// How many characters the span covers.
    pub fn length(&self) -> (n: usize)
        requires
            self@.start <= self@.end,
        ensures
            n == self@.end - self@.start,
    {
        self.end - self.start
    }

    /// Whether a character position falls inside the span.
    pub fn contains(&self, pos: usize) -> (r: bool)
        ensures
            r == (self@.start <= pos as nat && (pos as nat) < self@.end),
    {
        pos >= self.start && pos < self.end
    }
}

/// One token: its kind and where it came from.
#[derive(Debug, Clone, PartialEq)]
pub struct Token {
    pub kind: TokenKind,
    pub span: TextSpan,
}

/// The mathematical value of a [`Token`].
pub ghost struct TokenModel {
    pub kind: TokenKindModel,
    pub span: TextSpanModel,
}

impl View for Token {
    type V = TokenModel;

    open spec fn view(&self) -> TokenModel {
        TokenModel { kind: self.kind@, span: self.span@ }
    }
}

impl Token {
    /// A token from its parts.
    pub fn new(kind: TokenKind, span: TextSpan) -> (t: Token)
        ensures
            t@.kind == kind@,
            t@.span == span@,
    {
        Token { kind, span }
    }
}

/// Whitespace, as the lexer skips it.
pub open spec fn is_ws(c: char) -> bool {
    c == ' ' || c == '\t' || c == '\n' || c == '\r'
}

/// An ASCII decimal digit.
pub open spec fn is_digit(c: char) -> bool {
    48 <= (c as u32) <= 57
}

/// A character that may appear in an identifier: an ASCII letter or `_`.
pub open spec fn is_ident_char(c: char) -> bool {
    (65 <= (c as u32) <= 90) || (97 <= (c as u32) <= 122) || c == '_'
}

/// The first position at or after `pos` that holds no whitespace (or the end
/// of the text).
pub open spec fn skip_ws_model(text: Seq<char>, pos: nat) -> nat
    decreases text.len() - pos,
{
    if pos >= text.len() {
        pos
    } else if is_ws(text[pos as int]) {
        skip_ws_model(text, pos + 1)
    } else {
        pos
    }
}

/// The first position at or after `pos` that holds no digit.
pub open spec fn digits_end(text: Seq<char>, pos: nat) -> nat
    decreases text.len() - pos,
{
    if pos >= text.len() {
        pos
    } else if is_digit(text[pos as int]) {
        digits_end(text, pos + 1)
    } else {
        pos
    }
}

/// The first position at or after `pos` that holds no identifier character.
pub open spec fn ident_end(text: Seq<char>, pos: nat) -> nat
    decreases text.len() - pos,
{
    if pos >= text.len() {
        pos
    } else if is_ident_char(text[pos as int]) {
        ident_end(text, pos + 1)
    } else {
        pos
    }
}

/// The value of a digit string, saturating at the token type's maximum.
pub open spec fn digits_value(digits: Seq<char>) -> int
    decreases digits,
{
    if digits.len() == 0 {
        0
    } else {
        let hi = digits_value(digits.drop_last());
        let d = (digits.last() as u32) - 48;
        if hi * 10 + d > 32767 {
            32767
        } else {
            hi * 10 + d
        }
    }
}

/// What an identifier-shaped word means: a keyword, or a name.
pub open spec fn keyword_model(word: Seq<char>) -> TokenKindModel {
    if word == seq!['d', 'e', 'f'] {
        TokenKindModel::Def
    } else if word == seq!['f', 'u', 'n'] {
        TokenKindModel::Fun
    } else if word == seq!['r', 'e', 't'] {
        TokenKindModel::Ret
    } else if word == seq!['i', 'f'] {
        TokenKindModel::If
    } else if word == seq!['e', 'l', 's', 'e'] {
        TokenKindModel::Else
    } else if word == seq!['w', 'h', 'i', 'l', 'e'] {
        TokenKindModel::While
    } else if word == seq!['f', 'o', 'r'] {
        TokenKindModel::For
    } else {
        TokenKindModel::Identifier(word)
    }
}

/// The kind of a punctuation token starting at `pos`, and how many
/// characters it takes. Two-symbol punctuation wins over its one-symbol
/// prefix (longest match); a character outside the language — including a
/// lone `&` or `|` — lexes as a one-character `EOF` token.
pub open spec fn punct_model(text: Seq<char>, pos: nat) -> (TokenKindModel, nat)
    recommends
        pos < text.len(),
{
    let c = text[pos as int];
    let two = pos + 1 < text.len();
    if c == '+' {
        (TokenKindModel::Plus, 1)
    } else if c == '-' {
        (TokenKindModel::Minus, 1)
    } else if c == '*' {
        (TokenKindModel::Asterisk, 1)
    } else if c == '/' {
        (TokenKindModel::Slash, 1)
    } else if c == '%' {
        (TokenKindModel::Percent, 1)
    } else if c == '(' {
        (TokenKindModel::LParen, 1)
    } else if c == ')' {
        (TokenKindModel::RParen, 1)
    } else if c == '{' {
        (TokenKindModel::LBrace, 1)
    } else if c == '}' {
        (TokenKindModel::RBrace, 1)
    } else if c == '[' {
        (TokenKindModel::LBracket, 1)
    } else if c == ']' {
        (TokenKindModel::RBracket, 1)
    } else if c == ';' {
        (TokenKindModel::Semicolon, 1)
    } else if c == ':' {
        (TokenKindModel::Colon, 1)
    } else if c == ',' {
        (TokenKindModel::Comma, 1)
    } else if c == '=' {
        if two && text[pos + 1 as int] == '=' {
            (TokenKindModel::EqualEqual, 2)
        } else {
            (TokenKindModel::Equal, 1)
        }
    } else if c == '!' {
        if two && text[pos + 1 as int] == '=' {
            (TokenKindModel::BangEqual, 2)
        } else {
            (TokenKindModel::Bang, 1)
        }
    } else if c == '<' {
        if two && text[pos + 1 as int] == '=' {
            (TokenKindModel::LessEqual, 2)
        } else {
            (TokenKindModel::Less, 1)
        }
    } else if c == '>' {
        if two && text[pos + 1 as int] == '=' {
            (TokenKindModel::GreaterEqual, 2)
        } else {
            (TokenKindModel::Greater, 1)
        }
    } else if c == '&' {
        if two && text[pos + 1 as int] == '&' {
            (TokenKindModel::And, 2)
        } else {
            (TokenKindModel::EOF, 1)
        }
    } else if c == '|' {
        if two && text[pos + 1 as int] == '|' {
            (TokenKindModel::Or, 2)
        } else {
            (TokenKindModel::EOF, 1)
        }
    } else {
        (TokenKindModel::EOF, 1)
    }
}

/// The next token of `text` from position `pos`, the position to resume
/// from, and whether the end-of-input token has now been handed out (after
/// which there are no more tokens).
pub open spec fn next_token_model(text: Seq<char>, pos: nat, done: bool) -> (
    Option<TokenModel>,
    nat,
    bool,
) {
    if done {
        (None, pos, true)
    } else {
        let p = skip_ws_model(text, pos);
        if p >= text.len() {
            (
                Some(
                    TokenModel {
                        kind: TokenKindModel::EOF,
                        span: TextSpanModel {
                            start: text.len(),
                            end: text.len(),
                            literal: Seq::empty(),
                        },
                    },
                ),
                text.len(),
                true,
            )
        } else if is_digit(text[p as int]) {
            let q = digits_end(text, p);
            let word = text.subrange(p as int, q as int);
            (
                Some(
                    TokenModel {
                        kind: TokenKindModel::Integer(digits_value(word) as i16),
                        span: TextSpanModel { start: p, end: q, literal: word },
                    },
                ),
                q,
                false,
            )
        } else if is_ident_char(text[p as int]) {
            let q = ident_end(text, p);
            let word = text.subrange(p as int, q as int);
            (
                Some(
                    TokenModel {
                        kind: keyword_model(word),
                        span: TextSpanModel { start: p, end: q, literal: word },
                    },
                ),
                q,
                false,
            )
        } else {
            let (kind, width) = punct_model(text, p);
            let q = p + width;
            (
                Some(
                    TokenModel {
                        kind,
                        span: TextSpanModel {
                            start: p,
                            end: q as nat,
                            literal: text.subrange(p as int, q as int),
                        },
                    },
                ),
                q as nat,
                false,
            )
        }
    }
}

/// The lexer: the source as characters, and the position the next token
/// starts scanning from.
pub struct Lexer {
    pub input: Vec<char>,
    pub position: usize,
    pub done: bool,
}

/// The mathematical state of a [`Lexer`].
pub ghost struct LexModel {
    pub text: Seq<char>,
    pub pos: nat,
    pub done: bool,
}

impl View for Lexer {
    type V = LexModel;

    open spec fn view(&self) -> LexModel {
        LexModel { text: self.input@, pos: self.position as nat, done: self.done }
    }
}

/// Relies on `str::chars` via `StrSliceExecFns::unicode_len` and `get_char`
/// of vstd: the characters of a string slice, in order.
fn str_chars(s: &str) -> (out: Vec<char>)
    ensures
        out@ == s@,
{
    let n = s.unicode_len();
    let mut out: Vec<char> = Vec::new();
    let mut i: usize = 0;
    while i < n
        invariant
            i <= n,
            n == s@.len(),
            out@ =~= s@.take(i as int),
        decreases n - i,
    {
        let c = s.get_char(i);
        out.push(c);
        i = i + 1;
    }
    proof {
        assert(out@ =~= s@);
    }
    out
}

/// A `String` holding exactly the given characters.
fn chars_to_string(buf: &Vec<char>, from: usize, to: usize) -> (s: String)
    requires
        from <= to <= buf@.len(),
    ensures
        s@ == buf@.subrange(from as int, to as int),
{
    let mut s = String::new();
    let mut i: usize = from;
    while i < to
        invariant
            from <= i <= to <= buf@.len(),
            s@ =~= buf@.subrange(from as int, i as int),
        decreases to - i,
    {
        push_char(&mut s, buf[i]);
        i = i + 1;
        proof {
            assert(s@ =~= buf@.subrange(from as int, i as int));
        }
    }
    s
}

/// Whitespace test on one character.
fn ws_char(c: char) -> (r: bool)
    ensures
        r == is_ws(c),
{
    c == ' ' || c == '\t' || c == '\n' || c == '\r'
}

/// Digit test on one character.
fn digit_char(c: char) -> (r: bool)
    ensures
        r == is_digit(c),
{
    48 <= (c as u32) && (c as u32) <= 57
}

/// Identifier-character test.
fn ident_char(c: char) -> (r: bool)
    ensures
        r == is_ident_char(c),
{
    (65 <= (c as u32) && (c as u32) <= 90) || (97 <= (c as u32) && (c as u32) <= 122) || c == '_'
}

impl Lexer {
    /// A lexer over `input`, positioned at its start.
    pub fn new(input: &str) -> (lx: Lexer)
        ensures
            lx@.text == input@,
            lx@.pos == 0,
            !lx@.done,
    {
        Lexer { input: str_chars(input), position: 0, done: false }
    }

    /// The character the lexer would scan next, if any.
    pub fn peek(&mut self) -> (c: Option<&char>)
        ensures
            final(self)@ == old(self)@,
            match c {
                Some(ch) => old(self)@.pos < old(self)@.text.len() && *ch == old(
                    self,
                )@.text[old(self)@.pos as int],
                None => old(self)@.pos >= old(self)@.text.len(),
            },
    {
        if self.position < self.input.len() {
            Some(&self.input[self.position])
        } else {
            None
        }
    }

    /// Skip one character, if any is left.
    pub fn consume_char(&mut self)
        ensures
            final(self)@.text == old(self)@.text,
            final(self)@.pos == if old(self)@.pos < old(self)@.text.len() {
                old(self)@.pos + 1
            } else {
                old(self)@.pos
            },
    {
        if self.position < self.input.len() {
            self.position = self.position + 1;
        }
    }

    /// The next token, or `None` once the end-of-input token has been handed
    /// out: exactly what `next_token_model` says.
    #[verifier::rlimit(100)]
    #[verifier::spinoff_prover]
    pub fn next_token(&mut self) -> (t: Option<Token>)
        ensures
            final(self)@.text == old(self)@.text,
            ({
                let (mt, mpos, mdone) = next_token_model(
                    old(self)@.text,
                    old(self)@.pos,
                    old(self)@.done,
                );
                &&& final(self)@.pos == mpos
                &&& final(self)@.done == mdone
                &&& match (t, mt) {
                    (Some(tok), Some(m)) => tok@ == m,
                    (None, None) => true,
                    _ => false,
                }
            }),
    {
        let n = self.input.len();
        if self.done {
            return None;
        }
        if self.position >= n {
            self.position = n;
            self.done = true;
            let span = TextSpan { start: n, end: n, literal: String::new() };
            proof {
                assert(span@.literal =~= Seq::<char>::empty());
            }
            return Some(Token { kind: TokenKind::EOF, span });
        }
        // skip whitespace
        while self.position < n && ws_char(self.input[self.position])
            invariant
                self.position <= n,
                n == self.input@.len(),
                self.input@ == old(self)@.text,
                self.done == old(self)@.done,
                skip_ws_model(self.input@, old(self)@.pos) == skip_ws_model(
                    self.input@,
                    self.position as nat,
                ),
            decreases n - self.position,
        {
            self.position = self.position + 1;
        }
        let p = self.position;
        proof {
            assert(skip_ws_model(self.input@, old(self)@.pos) == p as nat);
        }
        if p >= n {
            self.position = n;
            self.done = true;
            let span = TextSpan { start: n, end: n, literal: String::new() };
            proof {
                assert(span@.literal =~= Seq::<char>::empty());
            }
            return Some(Token { kind: TokenKind::EOF, span });
        }
        let c = self.input[p];
        if 48 <= (c as u32) && (c as u32) <= 57 {
            // an integer literal
            let mut value: i32 = 0;
            while self.position < n && digit_char(self.input[self.position])
                invariant
                    p <= self.position <= n,
                    n == self.input@.len(),
                    self.input@ == old(self)@.text,
                    self.done == old(self)@.done,
                    digits_end(self.input@, p as nat) == digits_end(
                        self.input@,
                        self.position as nat,
                    ),
                    0 <= value <= 32767,
                    value as int == digits_value(
                        self.input@.subrange(p as int, self.position as int),
                    ),
                decreases n - self.position,
            {
                let ghost before = self.input@.subrange(p as int, self.position as int);
                let d: u32 = self.input[self.position] as u32;
                let add: i32 = value * 10 + ((d - 48) as i32);
                value = if add > 32767 {
                    32767
                } else {
                    add
                };
                self.position = self.position + 1;
                proof {
                    let now = self.input@.subrange(p as int, self.position as int);
                    assert(now.drop_last() =~= before);
                }
            }
            let q = self.position;
            proof {
                assert(digits_end(self.input@, p as nat) == q as nat);
            }
            let word = chars_to_string(&self.input, p, q);
            proof {
                assert(value as int == digits_value(self.input@.subrange(p as int, q as int)));
            }
            return Some(
                Token {
                    kind: TokenKind::Integer(value as i16),
                    span: TextSpan { start: p, end: q, literal: word },
                },
            );
        }
        if (65 <= (c as u32) && (c as u32) <= 90) || (97 <= (c as u32) && (c as u32) <= 122) || c
            == '_' {
            // an identifier or keyword
            while self.position < n && ident_char(self.input[self.position])
                invariant
                    p <= self.position <= n,
                    n == self.input@.len(),
                    self.input@ == old(self)@.text,
                    self.done == old(self)@.done,
                    ident_end(self.input@, p as nat) == ident_end(
                        self.input@,
                        self.position as nat,
                    ),
                decreases n - self.position,
            {
                self.position = self.position + 1;
            }
            let q = self.position;
            proof {
                assert(ident_end(self.input@, p as nat) == q as nat);
            }
            let word = chars_to_string(&self.input, p, q);
            let kind = Self::keyword_or_identifier(word);
            let literal = chars_to_string(&self.input, p, q);
            return Some(Token { kind, span: TextSpan { start: p, end: q, literal } });
        }
        // punctuation
        let (kind, width) = self.punct_kind(p);
        let q = p + width;
        self.position = q;
        let literal = chars_to_string(&self.input, p, q);
        Some(Token { kind, span: TextSpan { start: p, end: q, literal } })
    }

    /// The keyword a word denotes, or the word as a name.
    fn keyword_or_identifier(word: String) -> (kind: TokenKind)
        ensures
            kind@ == keyword_model(word@),
    {
        let buf = str_chars(word.as_str());
        let k = buf.len();
        proof {
            assert(buf@ == word@);
        }
        if k == 3 && buf[0] == 'd' && buf[1] == 'e' && buf[2] == 'f' {
            proof {
                assert(word@ =~= seq!['d', 'e', 'f']);
            }
            TokenKind::Def
        } else if k == 3 && buf[0] == 'f' && buf[1] == 'u' && buf[2] == 'n' {
            proof {
                assert(word@ =~= seq!['f', 'u', 'n']);
            }
            TokenKind::Fun
        } else if k == 3 && buf[0] == 'r' && buf[1] == 'e' && buf[2] == 't' {
            proof {
                assert(word@ =~= seq!['r', 'e', 't']);
            }
            TokenKind::Ret
        } else if k == 2 && buf[0] == 'i' && buf[1] == 'f' {
            proof {
                assert(word@ =~= seq!['i', 'f']);
            }
            TokenKind::If
        } else if k == 4 && buf[0] == 'e' && buf[1] == 'l' && buf[2] == 's' && buf[3] == 'e' {
            proof {
                assert(word@ =~= seq!['e', 'l', 's', 'e']);
            }
            TokenKind::Else
        } else if k == 5 && buf[0] == 'w' && buf[1] == 'h' && buf[2] == 'i' && buf[3] == 'l'
            && buf[4] == 'e' {
            proof {
                assert(word@ =~= seq!['w', 'h', 'i', 'l', 'e']);
            }
            TokenKind::While
        } else if k == 3 && buf[0] == 'f' && buf[1] == 'o' && buf[2] == 'r' {
            proof {
                assert(word@ =~= seq!['f', 'o', 'r']);
            }
            TokenKind::For
        } else {
            proof {
                assert(word@ != seq!['d', 'e', 'f']);
                assert(word@ != seq!['f', 'u', 'n']);
                assert(word@ != seq!['r', 'e', 't']);
                assert(word@ != seq!['i', 'f']);
                assert(word@ != seq!['e', 'l', 's', 'e']);
                assert(word@ != seq!['w', 'h', 'i', 'l', 'e']);
                assert(word@ != seq!['f', 'o', 'r']);
            }
            TokenKind::Identifier(word)
        }
    }

    /// The punctuation token starting at `p`, and its width in characters.
    fn punct_kind(&self, p: usize) -> (r: (TokenKind, usize))
        requires
            p < self@.text.len(),
        ensures
            ({
                let (mk, mw) = punct_model(self@.text, p as nat);
                r.0@ == mk && r.1 as nat == mw && p + r.1 <= self@.text.len()
            }),
    {
        let n = self.input.len();
        let c = self.input[p];
        let two = p < n - 1;
        match c {
            '+' => (TokenKind::Plus, 1),
            '-' => (TokenKind::Minus, 1),
            '*' => (TokenKind::Asterisk, 1),
            '/' => (TokenKind::Slash, 1),
            '%' => (TokenKind::Percent, 1),
            '(' => (TokenKind::LParen, 1),
            ')' => (TokenKind::RParen, 1),
            '{' => (TokenKind::LBrace, 1),
            '}' => (TokenKind::RBrace, 1),
            '[' => (TokenKind::LBracket, 1),
            ']' => (TokenKind::RBracket, 1),
            ';' => (TokenKind::Semicolon, 1),
            ':' => (TokenKind::Colon, 1),
            ',' => (TokenKind::Comma, 1),
            '=' => if two && self.input[p + 1] == '=' {
                (TokenKind::EqualEqual, 2)
            } else {
                (TokenKind::Equal, 1)
            },
            '!' => if two && self.input[p + 1] == '=' {
                (TokenKind::BangEqual, 2)
            } else {
                (TokenKind::Bang, 1)
            },
            '<' => if two && self.input[p + 1] == '=' {
                (TokenKind::LessEqual, 2)
            } else {
                (TokenKind::Less, 1)
            },
            '>' => if two && self.input[p + 1] == '=' {
                (TokenKind::GreaterEqual, 2)
            } else {
                (TokenKind::Greater, 1)
            },
            '&' => if two && self.input[p + 1] == '&' {
                (TokenKind::And, 2)
            } else {
                (TokenKind::EOF, 1)
            },
            '|' => if two && self.input[p + 1] == '|' {
                (TokenKind::Or, 2)
            } else {
                (TokenKind::EOF, 1)
            },
            _ => (TokenKind::EOF, 1),
        }
    }
}

} // verus!
