//! Source text to tokens. Lines are lexed one at a time: no token spans a
//! line break.
use vstd::prelude::*;
use crate::text::{alphabetic, is_alphabetic, is_numeric, is_whitespace, numeric, white_space};

verus! {

/// The class of a token. Keywords share one class; the parser tells them
/// apart by their text.
#[derive(Debug, Clone, Copy, PartialEq, Eq, Structural)]
pub enum TokenKind {
    Arrow,
    And,
    Assign,
    Asterisk,
    Caret,
    Colon,
    Comma,
    Decrement,
    /// `..`, the default label of a `match`.
    DotDot,
    Division,
    Dot,
    Eof,
    Eq,
    Float,
    Gt,
    Gte,
    Identifier,
    Increment,
    Integer,
    Keyword,
    LBrace,
    LBracket,
    LParen,
    Lt,
    Lte,
    Modulus,
    Minus,
    Ne,
    Negate,
    Or,
    Plus,
    RBrace,
    RBracket,
    RParen,
    Semi,
    Str,
}

#[derive(Debug)]
pub struct Token {
    pub kind: TokenKind,
    pub text: Vec<char>,
}

/// The mathematical form of [`Token`].
pub struct TokenModel {
    pub kind: TokenKind,
    pub text: Seq<char>,
}

impl Token {
    pub open spec fn view(&self) -> TokenModel {
        TokenModel { kind: self.kind, text: self.text@ }
    }
}

pub open spec fn tokens_view(s: Seq<Token>) -> Seq<TokenModel> {
    s.map_values(|t: Token| t@)
}

/// A character that no token starts with, and the line it stands on.
#[derive(Debug)]
pub struct LexError {
    pub line: Vec<char>,
    pub ch: char,
}

pub struct LexErrorModel {
    pub line: Seq<char>,
    pub ch: char,
}

impl LexError {
    pub open spec fn view(&self) -> LexErrorModel {
        LexErrorModel { line: self.line@, ch: self.ch }
    }
}

pub open spec fn keywords() -> Seq<Seq<char>> {
    seq![
        seq!['l', 'e', 't'],
        seq!['f', 'n'],
        seq!['f', 'o', 'r'],
        seq!['w', 'h', 'i', 'l', 'e'],
        seq!['i', 'f'],
        seq!['e', 'l', 's', 'e'],
        seq!['m', 'a', 't', 'c', 'h'],
        seq!['T', 'r', 'u', 'e'],
        seq!['F', 'a', 'l', 's', 'e'],
        seq!['N', 'o', 'n', 'e'],
        seq!['c', 'l', 'a', 's', 's'],
        seq!['p', 'a', 'r', 'e', 'n', 't'],
        seq!['r', 'n'],
        seq!['b', 'r', 'e', 'a', 'k'],
        seq!['c', 'o', 'n', 't', 'i', 'n', 'u', 'e'],
        seq!['u', 's', 'e'],
        seq!['a', 's'],
    ]
}

pub open spec fn is_keyword(w: Seq<char>) -> bool {
    keywords().contains(w)
}

pub open spec fn word_char(c: char) -> bool {
    alphabetic(c) || numeric(c) || c == '_'
}

/// Where a word that starts at `p` ends.
pub open spec fn word_end(l: Seq<char>, p: int) -> int
    decreases l.len() - p,
{
    if 0 <= p < l.len() && word_char(l[p]) {
        word_end(l, p + 1)
    } else {
        p
    }
}

/// Where a number that starts at `p` ends, and whether it holds a `.`:
/// digits and at most one dot; a second dot ends it.
pub open spec fn number_end(l: Seq<char>, p: int, dotted: bool) -> (int, bool)
    decreases l.len() - p,
{
    if 0 <= p < l.len() && (numeric(l[p]) || l[p] == '.') {
        if l[p] == '.' {
            if dotted {
                (p, true)
            } else {
                number_end(l, p + 1, true)
            }
        } else {
            number_end(l, p + 1, dotted)
        }
    } else {
        (p, dotted)
    }
}

pub open spec fn unescape(c: char) -> char {
    if c == 'n' {
        '\n'
    } else if c == 't' {
        '\t'
    } else {
        c
    }
}

/// The body of a string literal from `p` on, closed by `quote`, and the
/// position after the closing quote (or the end of the line).
pub open spec fn string_scan(l: Seq<char>, p: int, quote: char, escaped: bool, acc: Seq<char>) -> (
    Seq<char>,
    int,
)
    decreases l.len() - p,
{
    if p < 0 || p >= l.len() {
        (acc, p)
    } else if escaped {
        string_scan(l, p + 1, quote, false, acc.push(unescape(l[p])))
    } else if l[p] == quote {
        (acc, p + 1)
    } else if l[p] == '\\' {
        string_scan(l, p + 1, quote, true, acc)
    } else {
        string_scan(l, p + 1, quote, false, acc.push(l[p]))
    }
}

/// The operator or punctuation token at `p`, with its width: two-character
/// operators are taken greedily.
pub open spec fn punct(l: Seq<char>, p: int) -> Option<(TokenKind, int)> {
    let c = l[p];
    let next = if p + 1 < l.len() { Some(l[p + 1]) } else { None };
    if c == '(' {
        Some((TokenKind::LParen, 1))
    } else if c == ')' {
        Some((TokenKind::RParen, 1))
    } else if c == ',' {
        Some((TokenKind::Comma, 1))
    } else if c == ':' {
        Some((TokenKind::Colon, 1))
    } else if c == ';' {
        Some((TokenKind::Semi, 1))
    } else if c == '>' {
        if next == Some('=') { Some((TokenKind::Gte, 2)) } else { Some((TokenKind::Gt, 1)) }
    } else if c == '<' {
        if next == Some('=') { Some((TokenKind::Lte, 2)) } else { Some((TokenKind::Lt, 1)) }
    } else if c == '[' {
        Some((TokenKind::LBracket, 1))
    } else if c == ']' {
        Some((TokenKind::RBracket, 1))
    } else if c == '{' {
        Some((TokenKind::LBrace, 1))
    } else if c == '}' {
        Some((TokenKind::RBrace, 1))
    } else if c == '.' {
        if next == Some('.') { Some((TokenKind::DotDot, 2)) } else { Some((TokenKind::Dot, 1)) }
    } else if c == '+' {
        if next == Some('+') { Some((TokenKind::Increment, 2)) } else { Some((TokenKind::Plus, 1)) }
    } else if c == '-' {
        if next == Some('-') { Some((TokenKind::Decrement, 2)) } else { Some((TokenKind::Minus, 1)) }
    } else if c == '*' {
        Some((TokenKind::Asterisk, 1))
    } else if c == '^' {
        Some((TokenKind::Caret, 1))
    } else if c == '/' {
        Some((TokenKind::Division, 1))
    } else if c == '%' {
        Some((TokenKind::Modulus, 1))
    } else if c == '=' {
        if next == Some('=') {
            Some((TokenKind::Eq, 2))
        } else if next == Some('>') {
            Some((TokenKind::Arrow, 2))
        } else {
            Some((TokenKind::Assign, 1))
        }
    } else if c == '!' {
        if next == Some('=') { Some((TokenKind::Ne, 2)) } else { Some((TokenKind::Negate, 1)) }
    } else if c == '&' {
        Some((TokenKind::And, 1))
    } else if c == '|' {
        Some((TokenKind::Or, 1))
    } else {
        None
    }
}

pub open spec fn prepend<E>(a: Seq<TokenModel>, r: Result<Seq<TokenModel>, E>) -> Result<
    Seq<TokenModel>,
    E,
> {
    match r {
        Ok(rest) => Ok(a + rest),
        Err(e) => Err(e),
    }
}

pub open spec fn tok(kind: TokenKind, text: Seq<char>) -> TokenModel {
    TokenModel { kind, text }
}

/// Where the white space that starts at `p` ends.
pub open spec fn space_end(l: Seq<char>, p: int) -> int
    decreases l.len() - p,
{
    if 0 <= p < l.len() && white_space(l[p]) {
        space_end(l, p + 1)
    } else {
        p
    }
}

/// The tokens of one line, from position `p` on. Every scan moves past at
/// least one character, so the position checks before each recursive step
/// always hold; they show that the recursion ends.
pub open spec fn lex_line(l: Seq<char>, p: int) -> Result<Seq<TokenModel>, LexErrorModel>
    decreases l.len() - p,
{
    if p < 0 || p >= l.len() {
        Ok(Seq::empty())
    } else {
        let c = l[p];
        if alphabetic(c) || c == '_' {
            let e = word_end(l, p + 1);
            let w = l.subrange(p, e);
            let kind = if is_keyword(w) { TokenKind::Keyword } else { TokenKind::Identifier };
            if p < e <= l.len() {
                prepend(seq![tok(kind, w)], lex_line(l, e))
            } else {
                Ok(Seq::empty())
            }
        } else if numeric(c) {
            let (e, dotted) = number_end(l, p + 1, false);
            let kind = if dotted { TokenKind::Float } else { TokenKind::Integer };
            if p < e <= l.len() {
                prepend(seq![tok(kind, l.subrange(p, e))], lex_line(l, e))
            } else {
                Ok(Seq::empty())
            }
        } else if c == '#' {
            Ok(Seq::empty())
        } else if c == '\'' || c == '"' {
            let (body, e) = string_scan(l, p + 1, c, false, Seq::empty());
            if p < e <= l.len() {
                prepend(seq![tok(TokenKind::Str, body)], lex_line(l, e))
            } else {
                Ok(Seq::empty())
            }
        } else if white_space(c) {
            let e = space_end(l, p);
            if p < e <= l.len() {
                lex_line(l, e)
            } else {
                Ok(Seq::empty())
            }
        } else {
            match punct(l, p) {
                Some((kind, w)) => if p + w <= l.len() {
                    prepend(seq![tok(kind, l.subrange(p, p + w))], lex_line(l, p + w))
                } else {
                    Ok(Seq::empty())
                },
                None => Err(LexErrorModel { line: l, ch: c }),
            }
        }
    }
}

/// Where the line that starts at `i` ends: at the next line feed or at the
/// end of the text.
pub open spec fn line_end(s: Seq<char>, i: int) -> int
    decreases s.len() - i,
{
    if 0 <= i < s.len() && s[i] != '\n' {
        line_end(s, i + 1)
    } else {
        i
    }
}

/// The line that starts at `i`, without its line feed and without a
/// carriage return before it.
pub open spec fn line_at(s: Seq<char>, i: int) -> Seq<char> {
    let l = s.subrange(i, line_end(s, i));
    if l.len() > 0 && l.last() == '\r' {
        l.drop_last()
    } else {
        l
    }
}

/// The tokens of the lines from position `i` on.
pub open spec fn lex_lines(s: Seq<char>, i: int) -> Result<Seq<TokenModel>, LexErrorModel>
    decreases s.len() - i,
{
    if i < 0 || i >= s.len() {
        Ok(Seq::empty())
    } else {
        let e = line_end(s, i);
        match lex_line(line_at(s, i), 0) {
            Err(err) => Err(err),
            Ok(ts) => if i <= e < s.len() {
                prepend(ts, lex_lines(s, e + 1))
            } else {
                Ok(ts)
            },
        }
    }
}

pub open spec fn eof_token() -> TokenModel {
    tok(TokenKind::Eof, seq!['E', 'O', 'F'])
}

/// The tokens of a whole text, closed by an end-of-input token.
pub open spec fn lex_spec(s: Seq<char>) -> Result<Seq<TokenModel>, LexErrorModel> {
    match lex_lines(s, 0) {
        Ok(ts) => Ok(ts.push(eof_token())),
        Err(e) => Err(e),
    }
}

proof fn lemma_prepend_push<E>(ts: Seq<TokenModel>, t: TokenModel, r: Result<Seq<TokenModel>, E>)
    ensures
        prepend(ts, prepend(seq![t], r)) == prepend(ts.push(t), r),
{
    match r {
        Ok(rest) => {
            assert(ts + (seq![t] + rest) =~= ts.push(t) + rest);
        },
        Err(_) => {},
    }
}

proof fn lemma_prepend_concat<E>(a: Seq<TokenModel>, b: Seq<TokenModel>, r: Result<Seq<TokenModel>, E>)
    ensures
        prepend(a, prepend(b, r)) == prepend(a + b, r),
{
    match r {
        Ok(rest) => {
            assert(a + (b + rest) =~= (a + b) + rest);
        },
        Err(_) => {},
    }
}

proof fn lemma_tokens_view_push(s: Seq<Token>, t: Token)
    ensures
        tokens_view(s.push(t)) == tokens_view(s).push(t@),
{
    assert(tokens_view(s.push(t)) =~= tokens_view(s).push(t@));
}

fn is_word_char(c: char) -> (r: bool)
    ensures
        r == word_char(c),
{
    is_alphabetic(c) || is_numeric(c) || c == '_'
}

proof fn lemma_space_end(l: Seq<char>, p: int)
    requires
        0 <= p <= l.len(),
    ensures
        p <= space_end(l, p) <= l.len(),
        p < l.len() && white_space(l[p]) ==> p < space_end(l, p),
    decreases l.len() - p,
{
    if p < l.len() && white_space(l[p]) {
        lemma_space_end(l, p + 1);
    }
}

/// A cursor over the lines of a source text.
pub struct Lexer {
    /// The whole source text.
    pub code: Vec<char>,
    /// The line being lexed, without its line break.
    pub line: Vec<char>,
    /// The position of the current character in `line`.
    pub position: usize,
}

impl Lexer {
    pub fn new(code: Vec<char>) -> (r: Lexer)
        ensures
            r.code@ == code@,
            r.line@ == Seq::<char>::empty(),
            r.position == 0,
    {
        Lexer { code, line: Vec::new(), position: 0 }
    }

    /// Moves to the next character of the line.
    pub fn advance(&mut self)
        requires
            old(self).position < old(self).line.len(),
        ensures
            final(self).position == old(self).position + 1,
            final(self).line@ == old(self).line@,
            final(self).code@ == old(self).code@,
    {
        self.position = self.position + 1;
    }

    /// The character after the current one, if any.
    pub fn peek(&self) -> (r: Option<char>)
        ensures
            r == (if self.position + 1 < self.line.len() {
                Some(self.line@[self.position + 1])
            } else {
                None
            }),
    {
        if self.position < self.line.len() && self.position + 1 < self.line.len() {
            Some(self.line[self.position + 1])
        } else {
            None
        }
    }

    /// Reads a word from the current character on: a keyword or an identifier.
    pub fn get_identifier(&mut self) -> (t: Token)
        requires
            old(self).position < old(self).line.len(),
        ensures
            final(self).line@ == old(self).line@,
            final(self).code@ == old(self).code@,
            final(self).position == word_end(old(self).line@, old(self).position + 1),
            old(self).position < final(self).position <= old(self).line.len(),
            t@ == tok(
                if is_keyword(old(self).line@.subrange(old(self).position as int, final(self).position as int)) {
                    TokenKind::Keyword
                } else {
                    TokenKind::Identifier
                },
                old(self).line@.subrange(old(self).position as int, final(self).position as int),
            ),
    {
        let start = self.position;
        self.advance();
        while self.position < self.line.len() && is_word_char(self.line[self.position])
            invariant
                start < self.position <= self.line.len(),
                self.line@ == old(self).line@,
                self.code@ == old(self).code@,
                start == old(self).position,
                word_end(self.line@, self.position as int) == word_end(self.line@, start + 1),
            decreases self.line.len() - self.position,
        {
            self.advance();
        }
        let w = copy_range(&self.line, start, self.position);
        let kind = if keyword(&w) { TokenKind::Keyword } else { TokenKind::Identifier };
        Token { kind, text: w }
    }

    /// Reads a number from the current character on: digits and at most one
    /// dot; a second dot is left for the next token.
    pub fn get_number(&mut self) -> (t: Token)
        requires
            old(self).position < old(self).line.len(),
        ensures
            final(self).line@ == old(self).line@,
            final(self).code@ == old(self).code@,
            (final(self).position as int, t.kind == TokenKind::Float) == number_end(
                old(self).line@,
                old(self).position + 1,
                false,
            ),
            t.kind == TokenKind::Float || t.kind == TokenKind::Integer,
            old(self).position < final(self).position <= old(self).line.len(),
            t.text@ == old(self).line@.subrange(old(self).position as int, final(self).position as int),
    {
        let start = self.position;
        let mut dotted = false;
        let mut done = false;
        self.advance();
        while !done && self.position < self.line.len()
            invariant
                start < self.position <= self.line.len(),
                self.line@ == old(self).line@,
                self.code@ == old(self).code@,
                start == old(self).position,
                number_end(self.line@, start + 1, false) == (if done {
                    (self.position as int, dotted)
                } else {
                    number_end(self.line@, self.position as int, dotted)
                }),
            decreases self.line.len() - self.position + (if done { 0int } else { 1int }),
        {
            let c = self.line[self.position];
            if c == '.' {
                if dotted {
                    done = true;
                } else {
                    dotted = true;
                    self.advance();
                }
            } else if is_numeric(c) {
                self.advance();
            } else {
                done = true;
            }
        }
        let text = copy_range(&self.line, start, self.position);
        let kind = if dotted { TokenKind::Float } else { TokenKind::Integer };
        Token { kind, text }
    }

    /// Reads a string literal whose opening quote is the current character.
    pub fn get_string(&mut self) -> (t: Token)
        requires
            old(self).position < old(self).line.len(),
        ensures
            final(self).line@ == old(self).line@,
            final(self).code@ == old(self).code@,
            t.kind == TokenKind::Str,
            (t.text@, final(self).position as int) == string_scan(
                old(self).line@,
                old(self).position + 1,
                old(self).line@[old(self).position as int],
                false,
                Seq::empty(),
            ),
            old(self).position < final(self).position <= old(self).line.len(),
    {
        let quote = self.line[self.position];
        let mut body: Vec<char> = Vec::new();
        let mut escaped = false;
        self.advance();
        let ghost start = self.position;
        while self.position < self.line.len()
            invariant
                start <= self.position <= self.line.len(),
                start == old(self).position + 1,
                self.line@ == old(self).line@,
                self.code@ == old(self).code@,
                quote == old(self).line@[old(self).position as int],
                string_scan(self.line@, self.position as int, quote, escaped, body@) == string_scan(
                    self.line@,
                    start as int,
                    quote,
                    false,
                    Seq::empty(),
                ),
            decreases self.line.len() - self.position,
        {
            let c = self.line[self.position];
            if escaped {
                let u = if c == 'n' {
                    '\n'
                } else if c == 't' {
                    '\t'
                } else {
                    c
                };
                body.push(u);
                escaped = false;
            } else if c == quote {
                self.advance();
                return Token { kind: TokenKind::Str, text: body };
            } else if c == '\\' {
                escaped = true;
            } else {
                body.push(c);
            }
            self.advance();
        }
        Token { kind: TokenKind::Str, text: body }
    }

    /// Drops the rest of the line.
    pub fn skip_comment(&mut self)
        ensures
            final(self).line@ == old(self).line@,
            final(self).code@ == old(self).code@,
            final(self).position == old(self).line.len(),
    {
        self.position = self.line.len();
    }

    /// Moves past the white space at the current position.
    pub fn skip_whitespace(&mut self)
        requires
            old(self).position <= old(self).line.len(),
        ensures
            final(self).line@ == old(self).line@,
            final(self).code@ == old(self).code@,
            final(self).position == space_end(old(self).line@, old(self).position as int),
    {
        while self.position < self.line.len() && is_whitespace(self.line[self.position])
            invariant
                old(self).position <= self.position <= self.line.len(),
                self.line@ == old(self).line@,
                self.code@ == old(self).code@,
                space_end(self.line@, self.position as int) == space_end(
                    self.line@,
                    old(self).position as int,
                ),
            decreases self.line.len() - self.position,
        {
            self.advance();
        }
    }

    /// The operator or punctuation token at the current position.
    fn operator(&self) -> (r: Option<(TokenKind, usize)>)
        requires
            self.position < self.line.len(),
        ensures
            match r {
                Some((k, w)) => punct(self.line@, self.position as int) == Some((k, w as int)),
                None => punct(self.line@, self.position as int) is None,
            },
    {
        punct_at(&self.line, self.position, self.peek())
    }

    /// The tokens of the current line.
    pub fn lex_line(&mut self) -> (r: Result<Vec<Token>, LexError>)
        requires
            old(self).position == 0,
        ensures
            final(self).code@ == old(self).code@,
            match r {
                Ok(ts) => lex_line(old(self).line@, 0) == Ok::<Seq<TokenModel>, LexErrorModel>(
                    tokens_view(ts@),
                ),
                Err(e) => lex_line(old(self).line@, 0) == Err::<Seq<TokenModel>, LexErrorModel>(e@),
            },
    {
        let ghost l = self.line@;
        let mut ts: Vec<Token> = Vec::new();
        assert(tokens_view(ts@) =~= Seq::<TokenModel>::empty());
        assert(Seq::<TokenModel>::empty() + Seq::<TokenModel>::empty() =~= Seq::<TokenModel>::empty());
        while self.position < self.line.len()
            invariant
                self.position <= self.line.len(),
                self.line@ == l,
                l == old(self).line@,
                self.code@ == old(self).code@,
                lex_line(l, 0) == prepend(tokens_view(ts@), lex_line(l, self.position as int)),
            decreases self.line.len() - self.position,
        {
            let c = self.line[self.position];
            if is_alphabetic(c) || c == '_' {
                let t = self.get_identifier();
                proof {
                    lemma_prepend_push(tokens_view(ts@), t@, lex_line(l, self.position as int));
                    lemma_tokens_view_push(ts@, t);
                }
                ts.push(t);
            } else if is_numeric(c) {
                let t = self.get_number();
                proof {
                    lemma_prepend_push(tokens_view(ts@), t@, lex_line(l, self.position as int));
                    lemma_tokens_view_push(ts@, t);
                }
                ts.push(t);
            } else if c == '#' {
                self.skip_comment();
                assert(tokens_view(ts@) + Seq::<TokenModel>::empty() =~= tokens_view(ts@));
                return Ok(ts);
            } else if c == '\'' || c == '"' {
                let t = self.get_string();
                proof {
                    lemma_prepend_push(tokens_view(ts@), t@, lex_line(l, self.position as int));
                    lemma_tokens_view_push(ts@, t);
                }
                ts.push(t);
            } else if is_whitespace(c) {
                proof {
                    lemma_space_end(l, self.position as int);
                }
                self.skip_whitespace();
            } else {
                match self.operator() {
                    Some((kind, w)) => {
                        let start = self.position;
                        assert(start + w <= self.line.len()) by {
                            if w == 2 {
                                assert(start + 1 < self.line.len());
                            }
                        }
                        let text = copy_range(&self.line, start, start + w);
                        let t = Token { kind, text };
                        proof {
                            lemma_prepend_push(tokens_view(ts@), t@, lex_line(l, (start + w) as int));
                            lemma_tokens_view_push(ts@, t);
                        }
                        ts.push(t);
                        self.advance();
                        if w == 2 {
                            self.advance();
                        }
                    },
                    None => {
                        let line = copy_range(&self.line, 0, self.line.len());
                        assert(line@ =~= l);
                        return Err(LexError { line, ch: c });
                    },
                }
            }
        }
        assert(tokens_view(ts@) + Seq::<TokenModel>::empty() =~= tokens_view(ts@));
        Ok(ts)
    }

    /// The tokens of the whole source text, line by line, closed by an
    /// end-of-input token.
    pub fn lex(&mut self) -> (r: Result<Vec<Token>, LexError>)
        ensures
            match r {
                Ok(ts) => lex_spec(old(self).code@) == Ok::<Seq<TokenModel>, LexErrorModel>(
                    tokens_view(ts@),
                ),
                Err(e) => lex_spec(old(self).code@) == Err::<Seq<TokenModel>, LexErrorModel>(e@),
            },
    {
        let ghost src = self.code@;
        let mut out: Vec<Token> = Vec::new();
        let mut i: usize = 0;
        assert(tokens_view(out@) =~= Seq::<TokenModel>::empty());
        assert(Seq::<TokenModel>::empty() + Seq::<TokenModel>::empty() =~= Seq::<TokenModel>::empty());
        while i < self.code.len()
            invariant
                0 <= i <= self.code.len(),
                self.code@ == src,
                src == old(self).code@,
                lex_lines(src, 0) == prepend(tokens_view(out@), lex_lines(src, i as int)),
            decreases self.code.len() - i,
        {
            let mut e = i;
            while e < self.code.len() && self.code[e] != '\n'
                invariant
                    i <= e <= self.code.len(),
                    self.code@ == src,
                    line_end(src, e as int) == line_end(src, i as int),
                decreases self.code.len() - e,
            {
                e = e + 1;
            }
            let stop = if e > i && self.code[e - 1] == '\r' { e - 1 } else { e };
            self.line = copy_range(&self.code, i, stop);
            self.position = 0;
            assert(self.line@ =~= line_at(src, i as int));
            let mut ts = match self.lex_line() {
                Ok(ts) => ts,
                Err(err) => {
                    return Err(err);
                },
            };
            proof {
                lemma_prepend_concat(tokens_view(out@), tokens_view(ts@), lex_lines(src, e as int + 1));
                assert(tokens_view(out@ + ts@) =~= tokens_view(out@) + tokens_view(ts@));
            }
            out.append(&mut ts);
            if e >= self.code.len() {
                assert(lex_lines(src, e as int) == Ok::<Seq<TokenModel>, LexErrorModel>(Seq::empty()));
                i = e;
            } else {
                i = e + 1;
            }
        }
        assert(tokens_view(out@) + Seq::<TokenModel>::empty() =~= tokens_view(out@));
        let eof = Token { kind: TokenKind::Eof, text: vec!['E', 'O', 'F'] };
        assert(eof@ == eof_token()) by {
            assert(eof.text@ =~= seq!['E', 'O', 'F']);
        }
        proof {
            lemma_tokens_view_push(out@, eof);
        }
        out.push(eof);
        Ok(out)
    }
}

/// Splits a text into tokens, closed by an end-of-input token.
pub fn tokenize(src: &Vec<char>) -> (r: Result<Vec<Token>, LexError>)
    ensures
        match r {
            Ok(ts) => lex_spec(src@) == Ok::<Seq<TokenModel>, LexErrorModel>(tokens_view(ts@)),
            Err(e) => lex_spec(src@) == Err::<Seq<TokenModel>, LexErrorModel>(e@),
        },
{
    let mut lexer = Lexer::new(copy_range(src, 0, src.len()));
    assert(src@.subrange(0, src.len() as int) =~= src@);
    lexer.lex()
}

fn punct_at(l: &Vec<char>, p: usize, next: Option<char>) -> (r: Option<(TokenKind, usize)>)
    requires
        p < l.len(),
        next == (if p + 1 < l.len() { Some(l@[p + 1]) } else { None }),
    ensures
        match r {
            Some((k, w)) => punct(l@, p as int) == Some((k, w as int)),
            None => punct(l@, p as int) is None,
        },
{
    let c = l[p];
    if c == '(' {
        Some((TokenKind::LParen, 1))
    } else if c == ')' {
        Some((TokenKind::RParen, 1))
    } else if c == ',' {
        Some((TokenKind::Comma, 1))
    } else if c == ':' {
        Some((TokenKind::Colon, 1))
    } else if c == ';' {
        Some((TokenKind::Semi, 1))
    } else if c == '>' {
        if next == Some('=') { Some((TokenKind::Gte, 2)) } else { Some((TokenKind::Gt, 1)) }
    } else if c == '<' {
        if next == Some('=') { Some((TokenKind::Lte, 2)) } else { Some((TokenKind::Lt, 1)) }
    } else if c == '[' {
        Some((TokenKind::LBracket, 1))
    } else if c == ']' {
        Some((TokenKind::RBracket, 1))
    } else if c == '{' {
        Some((TokenKind::LBrace, 1))
    } else if c == '}' {
        Some((TokenKind::RBrace, 1))
    } else if c == '.' {
        if next == Some('.') { Some((TokenKind::DotDot, 2)) } else { Some((TokenKind::Dot, 1)) }
    } else if c == '+' {
        if next == Some('+') { Some((TokenKind::Increment, 2)) } else { Some((TokenKind::Plus, 1)) }
    } else if c == '-' {
        if next == Some('-') { Some((TokenKind::Decrement, 2)) } else { Some((TokenKind::Minus, 1)) }
    } else if c == '*' {
        Some((TokenKind::Asterisk, 1))
    } else if c == '^' {
        Some((TokenKind::Caret, 1))
    } else if c == '/' {
        Some((TokenKind::Division, 1))
    } else if c == '%' {
        Some((TokenKind::Modulus, 1))
    } else if c == '=' {
        if next == Some('=') {
            Some((TokenKind::Eq, 2))
        } else if next == Some('>') {
            Some((TokenKind::Arrow, 2))
        } else {
            Some((TokenKind::Assign, 1))
        }
    } else if c == '!' {
        if next == Some('=') { Some((TokenKind::Ne, 2)) } else { Some((TokenKind::Negate, 1)) }
    } else if c == '&' {
        Some((TokenKind::And, 1))
    } else if c == '|' {
        Some((TokenKind::Or, 1))
    } else {
        None
    }
}

/// A copy of `l[from..to]`.
fn copy_range(l: &Vec<char>, from: usize, to: usize) -> (r: Vec<char>)
    requires
        from <= to <= l.len(),
    ensures
        r@ == l@.subrange(from as int, to as int),
{
    let mut out: Vec<char> = Vec::new();
    let mut i = from;
    while i < to
        invariant
            from <= i <= to <= l.len(),
            out@ == l@.subrange(from as int, i as int),
        decreases to - i,
    {
        out.push(l[i]);
        i = i + 1;
        assert(out@ =~= l@.subrange(from as int, i as int));
    }
    out
}

pub(crate) fn text_is(w: &Vec<char>, k: &[char]) -> (r: bool)
    ensures
        r == (w@ == k@),
{
    if w.len() != k.len() {
        return false;
    }
    let mut i: usize = 0;
    while i < w.len()
        invariant
            0 <= i <= w.len(),
            w.len() == k@.len(),
            forall|j: int| 0 <= j < i ==> w@[j] == k@[j],
        decreases w.len() - i,
    {
        if w[i] != k[i] {
            return false;
        }
        i = i + 1;
    }
    assert(w@ =~= k@);
    true
}

/// Whether a word is one of the language's keywords.
pub fn keyword(w: &Vec<char>) -> (r: bool)
    ensures
        r == is_keyword(w@),
{
    let ghost ks = keywords();
    let found = text_is(w, &['l', 'e', 't']) || text_is(w, &['f', 'n']) || text_is(w, &['f', 'o', 'r'])
        || text_is(w, &['w', 'h', 'i', 'l', 'e']) || text_is(w, &['i', 'f'])
        || text_is(w, &['e', 'l', 's', 'e']) || text_is(w, &['m', 'a', 't', 'c', 'h'])
        || text_is(w, &['T', 'r', 'u', 'e']) || text_is(w, &['F', 'a', 'l', 's', 'e'])
        || text_is(w, &['N', 'o', 'n', 'e']) || text_is(w, &['c', 'l', 'a', 's', 's'])
        || text_is(w, &['p', 'a', 'r', 'e', 'n', 't']) || text_is(w, &['r', 'n'])
        || text_is(w, &['b', 'r', 'e', 'a', 'k'])
        || text_is(w, &['c', 'o', 'n', 't', 'i', 'n', 'u', 'e']) || text_is(w, &['u', 's', 'e'])
        || text_is(w, &['a', 's']);
    proof {
        if found {
            assert(is_keyword(w@)) by {
                assert(exists|j: int| 0 <= j < ks.len() && ks[j] == w@) by {
                    if w@ == ks[0] {} else if w@ == ks[1] {} else if w@ == ks[2] {} else if w@ == ks[3] {}
                    else if w@ == ks[4] {} else if w@ == ks[5] {} else if w@ == ks[6] {} else if w@ == ks[7] {}
                    else if w@ == ks[8] {} else if w@ == ks[9] {} else if w@ == ks[10] {} else if w@ == ks[11] {}
                    else if w@ == ks[12] {} else if w@ == ks[13] {} else if w@ == ks[14] {} else if w@ == ks[15] {}
                    else { assert(w@ =~= ks[16]); }
                }
            }
        } else {
            assert(forall|j: int| 0 <= j < ks.len() ==> ks[j] != w@);
        }
    }
    found
}

} // verus!
