//! A tokenizer for the textual dump of a syntax tree (`Module(body=[...])`):
//! brackets, `=`, `,`, quoted strings, numbers and the identifiers of node
//! kinds and fields.
use vstd::prelude::*;

use crate::text::text_of;

verus! {

/// The kinds of tokens.
#[derive(Clone, Copy, Debug, PartialEq, Eq, Structural)]
pub enum TokenType {
    LeftParen,
    RightParen,
    LeftBracket,
    RightBracket,
    Equal,
    String,
    Comma,
    Identifier,
    Argument,
    EOF,
    Body,
    Name,
    Id,
    Func,
    Attr,
    Value,
    Number,
    Left,
    Right,
    Op,
    Args,
    Module,
    FunctionDef,
    Call,
    Assign,
    BinOp,
    Constant,
    Return,
    Add,
    Unknown,
}

/// A token: its kind, its text, the line it ends on and, for strings and
/// numbers, its value.
#[allow(non_snake_case)]
pub struct Token {
    pub tType: TokenType,
    pub lexeme: String,
    pub line: usize,
    pub literal: Option<String>,
}

/// The mathematical value of a [`Token`].
pub ghost struct TokenV {
    pub kind: TokenType,
    pub lexeme: Seq<char>,
    pub line: nat,
    pub literal: Option<Seq<char>>,
}

pub open spec fn token_view(t: Token) -> TokenV {
    TokenV {
        kind: t.tType,
        lexeme: t.lexeme@,
        line: t.line as nat,
        literal: match t.literal {
            Some(l) => Some(l@),
            None => None,
        },
    }
}

pub open spec fn tokens_view(s: Seq<Token>) -> Seq<TokenV> {
    s.map_values(|t: Token| token_view(t))
}

/// The scanner's state: the source, the start of the token being read, the
/// position reached and the current line, all counted in characters, and the
/// tokens read so far.
pub struct Scanner {
    pub source: String,
    pub start: usize,
    pub current: usize,
    pub line: usize,
    pub tokens: Vec<Token>,
}

/// What `char::is_alphabetic` says of a character.
pub uninterp spec fn alphabetic(c: char) -> bool;

/// What `char::is_alphanumeric` says of a character.
pub uninterp spec fn alphanumeric(c: char) -> bool;

/// An ASCII letter.
pub open spec fn is_ascii_letter(c: char) -> bool {
    ('a' <= c && c <= 'z') || ('A' <= c && c <= 'Z')
}

/// Relies on `char::is_alphabetic`: whether the character has the Unicode
/// `Alphabetic` property, a function of the character alone. Among ASCII
/// characters exactly the letters have it.
#[verifier::external_body]
fn char_is_alphabetic(c: char) -> (r: bool)
    ensures
        r == alphabetic(c),
        (c as u32) < 128 ==> (r == is_ascii_letter(c)),
{
    c.is_alphabetic()
}

/// Relies on `char::is_alphanumeric`: whether the character is alphabetic or
/// numeric in Unicode, a function of the character alone. Among ASCII
/// characters exactly the letters and the digits are.
#[verifier::external_body]
fn char_is_alphanumeric(c: char) -> (r: bool)
    ensures
        r == alphanumeric(c),
        (c as u32) < 128 ==> (r == (is_ascii_letter(c) || is_ascii_digit(c))),
{
    c.is_alphanumeric()
}

/// An ASCII decimal digit.
pub open spec fn is_ascii_digit(c: char) -> bool {
    '0' <= c && c <= '9'
}

/// The kind of an identifier: a node kind or field name of the dump, or
/// `Unknown`.
pub open spec fn keyword(text: Seq<char>) -> TokenType {
    if text == "Module"@ {
        TokenType::Module
    } else if text == "FunctionDef"@ {
        TokenType::FunctionDef
    } else if text == "Call"@ {
        TokenType::Call
    } else if text == "Assign"@ {
        TokenType::Assign
    } else if text == "BinOp"@ {
        TokenType::BinOp
    } else if text == "Constant"@ {
        TokenType::Constant
    } else if text == "Return"@ {
        TokenType::Return
    } else if text == "Add"@ {
        TokenType::Add
    } else if text == "Name"@ {
        TokenType::Name
    } else if text == "body"@ {
        TokenType::Body
    } else if text == "name"@ {
        TokenType::Name
    } else if text == "id"@ {
        TokenType::Id
    } else if text == "func"@ {
        TokenType::Func
    } else if text == "attr"@ {
        TokenType::Attr
    } else if text == "value"@ {
        TokenType::Value
    } else if text == "left"@ {
        TokenType::Left
    } else if text == "right"@ {
        TokenType::Right
    } else if text == "op"@ {
        TokenType::Op
    } else if text == "args"@ {
        TokenType::Args
    } else {
        TokenType::Unknown
    }
}

/// The end of the run of alphanumeric characters from `i`.
pub open spec fn ident_end(src: Seq<char>, i: int) -> int
    decreases src.len() - i,
{
    if 0 <= i < src.len() && alphanumeric(src[i]) {
        ident_end(src, i + 1)
    } else {
        i
    }
}

/// The end of the run of ASCII digits from `i`.
pub open spec fn digits_end(src: Seq<char>, i: int) -> int
    decreases src.len() - i,
{
    if 0 <= i < src.len() && is_ascii_digit(src[i]) {
        digits_end(src, i + 1)
    } else {
        i
    }
}

/// The index of the first quote from `i`, or the end of the source.
pub open spec fn quote_end(src: Seq<char>, i: int) -> int
    decreases src.len() - i,
{
    if 0 <= i < src.len() && src[i] != '\'' {
        quote_end(src, i + 1)
    } else {
        i
    }
}

/// The end of a number that starts at `pos`: digits, then a fraction where a
/// `.` is followed by a digit.
pub open spec fn number_end(src: Seq<char>, pos: int) -> int {
    let e = digits_end(src, pos + 1);
    if e + 1 < src.len() && src[e] == '.' && is_ascii_digit(src[e + 1]) {
        digits_end(src, e + 1)
    } else {
        e
    }
}

/// The number of line breaks in `s`.
pub open spec fn newlines(s: Seq<char>) -> nat
    decreases s.len(),
{
    if s.len() == 0 {
        0
    } else {
        newlines(s.drop_last()) + if s.last() == '\n' {
            1nat
        } else {
            0nat
        }
    }
}

/// A token of one punctuation character at `pos`.
pub open spec fn punct(src: Seq<char>, pos: int, line: nat, kind: TokenType) -> TokenV {
    TokenV { kind, lexeme: src.subrange(pos, pos + 1), line, literal: None }
}

/// The token read at `pos` on line `line`, if any, the position after it and
/// the line reached.
pub open spec fn lex(src: Seq<char>, pos: int, line: nat) -> (Option<TokenV>, int, nat) {
    let c = src[pos];
    if c == '(' {
        (Some(punct(src, pos, line, TokenType::LeftParen)), pos + 1, line)
    } else if c == ')' {
        (Some(punct(src, pos, line, TokenType::RightParen)), pos + 1, line)
    } else if c == '[' {
        (Some(punct(src, pos, line, TokenType::LeftBracket)), pos + 1, line)
    } else if c == ']' {
        (Some(punct(src, pos, line, TokenType::RightBracket)), pos + 1, line)
    } else if c == '=' {
        (Some(punct(src, pos, line, TokenType::Equal)), pos + 1, line)
    } else if c == ',' {
        (Some(punct(src, pos, line, TokenType::Comma)), pos + 1, line)
    } else if c == '\n' {
        (None, pos + 1, line + 1)
    } else if c == '\'' {
        let e = quote_end(src, pos + 1);
        let l = line + newlines(src.subrange(pos + 1, e));
        let end = if e < src.len() {
            e + 1
        } else {
            e
        };
        (
            Some(
                TokenV {
                    kind: TokenType::String,
                    lexeme: src.subrange(pos, end),
                    line: l,
                    literal: Some(src.subrange(pos + 1, e)),
                },
            ),
            end,
            l,
        )
    } else if alphabetic(c) {
        let e = ident_end(src, pos + 1);
        (
            Some(
                TokenV {
                    kind: keyword(src.subrange(pos, e)),
                    lexeme: src.subrange(pos, e),
                    line,
                    literal: None,
                },
            ),
            e,
            line,
        )
    } else if is_ascii_digit(c) {
        let e = number_end(src, pos);
        (
            Some(
                TokenV {
                    kind: TokenType::Number,
                    lexeme: src.subrange(pos, e),
                    line,
                    literal: Some(src.subrange(pos, e)),
                },
            ),
            e,
            line,
        )
    } else {
        (None, pos + 1, line)
    }
}

pub proof fn lemma_ident_end(src: Seq<char>, i: int)
    requires
        0 <= i <= src.len(),
    ensures
        i <= ident_end(src, i) <= src.len(),
    decreases src.len() - i,
{
    if i < src.len() && alphanumeric(src[i]) {
        lemma_ident_end(src, i + 1);
    }
}

pub proof fn lemma_digits_end(src: Seq<char>, i: int)
    requires
        0 <= i <= src.len(),
    ensures
        i <= digits_end(src, i) <= src.len(),
    decreases src.len() - i,
{
    if i < src.len() && is_ascii_digit(src[i]) {
        lemma_digits_end(src, i + 1);
    }
}

pub proof fn lemma_quote_end(src: Seq<char>, i: int)
    requires
        0 <= i <= src.len(),
    ensures
        i <= quote_end(src, i) <= src.len(),
    decreases src.len() - i,
{
    if i < src.len() && src[i] != '\'' {
        lemma_quote_end(src, i + 1);
    }
}

pub proof fn lemma_newlines_append(a: Seq<char>, b: Seq<char>)
    ensures
        newlines(a + b) == newlines(a) + newlines(b),
    decreases b.len(),
{
    if b.len() == 0 {
        assert(a + b =~= a);
    } else {
        lemma_newlines_append(a, b.drop_last());
        assert((a + b).drop_last() =~= a + b.drop_last());
    }
}

/// The line breaks of `src[x..z]` are those of `src[x..y]` and `src[y..z]`.
pub proof fn lemma_newlines_split(src: Seq<char>, x: int, y: int, z: int)
    requires
        0 <= x <= y <= z <= src.len(),
    ensures
        newlines(src.subrange(x, z)) == newlines(src.subrange(x, y)) + newlines(
            src.subrange(y, z),
        ),
{
    assert(src.subrange(x, z) =~= src.subrange(x, y) + src.subrange(y, z));
    lemma_newlines_append(src.subrange(x, y), src.subrange(y, z));
}

/// The line breaks of the one character `src[k]`.
pub proof fn lemma_newlines_one(src: Seq<char>, k: int)
    requires
        0 <= k < src.len(),
    ensures
        newlines(src.subrange(k, k + 1)) == if src[k] == '\n' {
            1nat
        } else {
            0nat
        },
{
    let one = src.subrange(k, k + 1);
    assert(one.drop_last() =~= Seq::<char>::empty());
    assert(newlines(Seq::<char>::empty()) == 0);
    assert(one.last() == src[k]);
}

pub proof fn lemma_newlines_le(s: Seq<char>)
    ensures
        newlines(s) <= s.len(),
    decreases s.len(),
{
    if s.len() > 0 {
        lemma_newlines_le(s.drop_last());
    }
}

/// Reading a token moves forward, stays within the source, and passes at
/// most one line break per character.
pub proof fn lemma_lex_advances(src: Seq<char>, pos: int, line: nat)
    requires
        0 <= pos < src.len(),
    ensures
        pos < lex(src, pos, line).1 <= src.len(),
        lex(src, pos, line).2 <= line + (lex(src, pos, line).1 - pos),
{
    lemma_quote_end(src, pos + 1);
    lemma_newlines_le(src.subrange(pos + 1, quote_end(src, pos + 1)));
    lemma_ident_end(src, pos + 1);
    lemma_digits_end(src, pos + 1);
    lemma_quote_end(src, pos + 1);
    let e = digits_end(src, pos + 1);
    if e + 1 < src.len() {
        lemma_digits_end(src, e + 1);
    }
}

/// The tokens read from `pos` on line `line` to the end of the source,
/// closed by an end-of-input token with an empty lexeme.
pub open spec fn scan_from(src: Seq<char>, pos: int, line: nat) -> Seq<TokenV>
    decreases src.len() - pos,
{
    if pos < 0 || pos >= src.len() {
        seq![TokenV { kind: TokenType::EOF, lexeme: Seq::empty(), line, literal: None }]
    } else {
        let (t, end, l) = lex(src, pos, line);
        proof {
            lemma_lex_advances(src, pos, line);
        }
        match t {
            Some(x) => seq![x] + scan_from(src, end, l),
            None => scan_from(src, end, l),
        }
    }
}

impl Scanner {
    /// A scanner at the start of `source`, on line 1, with no tokens.
    pub fn new(source: String) -> (r: Scanner)
        ensures
            r.source == source,
            r.start == 0,
            r.current == 0,
            r.line == 1,
            r.tokens@.len() == 0,
    {
        Scanner { source, start: 0, current: 0, line: 1, tokens: Vec::new() }
    }

    /// Reads the rest of the source into tokens, closed by an end-of-input
    /// token.
    pub fn scan_tokens(&mut self)
        requires
            old(self).current <= old(self).source@.len(),
            old(self).source@.len() + old(self).line < usize::MAX,
        ensures
            final(self).source == old(self).source,
            tokens_view(final(self).tokens@) == tokens_view(old(self).tokens@) + scan_from(
                old(self).source@,
                old(self).current as int,
                old(self).line as nat,
            ),
            final(self).current == old(self).source@.len(),
            final(self).line == old(self).line + newlines(
                old(self).source@.subrange(old(self).current as int, old(self).source@.len() as int),
            ),
    {
        let len = self.source.as_str().unicode_len();
        let ghost src = self.source@;
        assert(src.subrange(self.current as int, self.current as int) =~= Seq::<char>::empty());
        let ghost tokens0 = tokens_view(self.tokens@);
        let ghost want = scan_from(src, self.current as int, self.line as nat);
        while !self.is_at_end(len)
            invariant
                self.source == old(self).source,
                self.source@ == src,
                len == src.len(),
                self.current <= len,
                self.line as int <= self.current as int + old(self).line as int,
                old(self).source@.len() + old(self).line < usize::MAX,
                old(self).current <= self.current,
                self.line >= old(self).line,
                self.line == old(self).line + newlines(
                    src.subrange(old(self).current as int, self.current as int),
                ),
                tokens_view(self.tokens@) + scan_from(src, self.current as int, self.line as nat)
                    == tokens0 + want,
            decreases len - self.current,
        {
            let ghost pos = self.current as int;
            let ghost line = self.line as nat;
            let ghost ts = tokens_view(self.tokens@);
            proof {
                lemma_lex_advances(src, pos, line);
            }
            self.start = self.current;
            assert(self.line as int + len - self.current < usize::MAX);
            self.scan_token(len);
            proof {
                lemma_newlines_split(src, old(self).current as int, pos, self.current as int);
                let (t, end, l) = lex(src, pos, line);
                match t {
                    Some(x) => {
                        assert(ts + scan_from(src, pos, line) =~= ts + seq![x] + scan_from(src, end, l));
                    },
                    None => {
                        assert(ts + Seq::<TokenV>::empty() =~= ts);
                    },
                }
            }
        }
        self.start = self.current;
        let ghost before = self.tokens@;
        assert(src.subrange(self.current as int, self.current as int) =~= Seq::<char>::empty());
        self.add_token(TokenType::EOF, None);
        assert(tokens_view(self.tokens@) =~= tokens_view(before) + seq![
            TokenV { kind: TokenType::EOF, lexeme: Seq::empty(), line: self.line as nat, literal: None },
        ]);
        assert(tokens_view(self.tokens@) =~= tokens0 + want);
    }

    /// Reads one token, or skips one character, from `current`.
    fn scan_token(&mut self, len: usize)
        requires
            len == old(self).source@.len(),
            old(self).start == old(self).current,
            old(self).current < len,
            old(self).line as int + len - old(self).current < usize::MAX,
        ensures
            final(self).source == old(self).source,
            ({
                let (t, end, l) = lex(old(self).source@, old(self).current as int, old(self).line as nat);
                &&& final(self).current == end
                &&& final(self).line == l
                &&& l == old(self).line + newlines(
                    old(self).source@.subrange(old(self).current as int, end),
                )
                &&& tokens_view(final(self).tokens@) == tokens_view(old(self).tokens@) + match t {
                    Some(x) => seq![x],
                    None => Seq::empty(),
                }
            }),
    {
        let ghost src = self.source@;
        let ghost pos = self.current as int;
        let ghost before = self.tokens@;
        proof {
            lemma_lex_advances(src, pos, self.line as nat);
            lemma_newlines_one(src, pos);
        }
        let c = self.advance(len);
        if c == '(' {
            self.add_token(TokenType::LeftParen, None);
        } else if c == ')' {
            self.add_token(TokenType::RightParen, None);
        } else if c == '[' {
            self.add_token(TokenType::LeftBracket, None);
        } else if c == ']' {
            self.add_token(TokenType::RightBracket, None);
        } else if c == '=' {
            self.add_token(TokenType::Equal, None);
        } else if c == ',' {
            self.add_token(TokenType::Comma, None);
        } else if c == '\n' {
            self.line = self.line + 1;
            assert(tokens_view(self.tokens@) =~= tokens_view(before) + Seq::empty());
            return;
        } else if c == '\'' {
            self.string(len);
            return;
        } else if char_is_alphabetic(c) {
            self.identifier(len);
            return;
        } else if self.is_digit(c) {
            self.number(len);
            return;
        } else {
            assert(tokens_view(self.tokens@) =~= tokens_view(before) + Seq::empty());
            return;
        }
    }

    fn is_at_end(&self, len: usize) -> (r: bool)
        ensures
            r == (self.current >= len),
    {
        self.current >= len
    }

    /// Reads a quoted string; the opening quote is read.
    fn string(&mut self, len: usize)
        requires
            len == old(self).source@.len(),
            old(self).current == old(self).start + 1,
            old(self).start < len,
            old(self).source@[old(self).start as int] == '\'',
            old(self).line as int + len - old(self).start < usize::MAX,
        ensures
            final(self).source == old(self).source,
            ({
                let (t, end, l) = lex(old(self).source@, old(self).start as int, old(self).line as nat);
                &&& final(self).current == end
                &&& final(self).line == l
                &&& l == old(self).line + newlines(
                    old(self).source@.subrange(old(self).start as int, end),
                )
                &&& tokens_view(final(self).tokens@) == tokens_view(old(self).tokens@) + seq![t->0]
            }),
    {
        let ghost src = self.source@;
        let ghost line0 = self.line;
        proof {
            lemma_quote_end(src, self.start + 1);
        }
        while self.peek(len) != '\'' && !self.is_at_end(len)
            invariant
                self.source == old(self).source,
                self.source@ == src,
                len == src.len(),
                old(self).start < self.current <= len,
                self.start == old(self).start,
                self.tokens == old(self).tokens,
                quote_end(src, self.start + 1) == quote_end(src, self.current as int),
                self.current <= quote_end(src, self.start + 1),
                self.line == line0 + newlines(src.subrange(self.start + 1, self.current as int)),
                newlines(src.subrange(self.start + 1, self.current as int)) <= self.current - (self.start + 1),
                line0 as int + len - self.start < usize::MAX,
            decreases len - self.current,
        {
            proof {
                let a = src.subrange(self.start + 1, self.current as int);
                assert(src.subrange(self.start + 1, self.current + 1) =~= a.push(src[self.current as int]));
                assert(a.push(src[self.current as int]).drop_last() =~= a);
            }
            proof {
                lemma_quote_end(src, self.current + 1);
            }
            if self.peek(len) == '\n' {
                self.line = self.line + 1;
            }
            self.advance(len);
        }
        let e = self.current;
        if !self.is_at_end(len) {
            self.advance(len);
        }
        proof {
            lemma_newlines_split(src, self.start as int, self.start + 1, self.current as int);
            lemma_newlines_one(src, self.start as int);
            lemma_newlines_split(src, self.start + 1, e as int, self.current as int);
            if e < self.current {
                lemma_newlines_one(src, e as int);
            } else {
                assert(src.subrange(e as int, e as int) =~= Seq::<char>::empty());
            }
        }
        let value = text_of(self.source.as_str().substring_char(self.start + 1, e));
        self.add_token(TokenType::String, Some(value));
    }

    /// Reads an identifier; its first letter is read.
    fn identifier(&mut self, len: usize)
        requires
            len == old(self).source@.len(),
            old(self).current == old(self).start + 1,
            old(self).start < len,
            alphabetic(old(self).source@[old(self).start as int]),
            old(self).source@[old(self).start as int] != '\n',
        ensures
            final(self).source == old(self).source,
            final(self).line == old(self).line,
            final(self).current == ident_end(old(self).source@, old(self).start + 1),
            newlines(old(self).source@.subrange(old(self).start as int, final(self).current as int))
                == 0,
            tokens_view(final(self).tokens@) == tokens_view(old(self).tokens@) + seq![
                TokenV {
                    kind: keyword(old(self).source@.subrange(old(self).start as int, final(self).current as int)),
                    lexeme: old(self).source@.subrange(old(self).start as int, final(self).current as int),
                    line: old(self).line as nat,
                    literal: None,
                },
            ],
    {
        let ghost src = self.source@;
        proof {
            lemma_ident_end(src, self.start + 1);
            lemma_newlines_one(src, self.start as int);
        }
        while self.is_alphanurmeric(self.peek(len)) && !self.is_at_end(len)
            invariant
                self.source == old(self).source,
                self.source@ == src,
                len == src.len(),
                old(self).start < self.current <= len,
                self.start == old(self).start,
                self.line == old(self).line,
                self.tokens == old(self).tokens,
                ident_end(src, self.start + 1) == ident_end(src, self.current as int),
                newlines(src.subrange(self.start as int, self.current as int)) == 0,
            decreases len - self.current,
        {
            proof {
                lemma_newlines_split(src, self.start as int, self.current as int, self.current + 1);
                lemma_newlines_one(src, self.current as int);
            }
            self.advance(len);
        }
        let text = text_of(self.source.as_str().substring_char(self.start, self.current));
        let t_type = Self::keyword_type(&text);
        self.add_token(t_type, None);
    }

    /// The kind of an identifier.
    fn keyword_type(text: &String) -> (r: TokenType)
        ensures
            r == keyword(text@),
    {
        if *text == text_of("Module") {
            TokenType::Module
        } else if *text == text_of("FunctionDef") {
            TokenType::FunctionDef
        } else if *text == text_of("Call") {
            TokenType::Call
        } else if *text == text_of("Assign") {
            TokenType::Assign
        } else if *text == text_of("BinOp") {
            TokenType::BinOp
        } else if *text == text_of("Constant") {
            TokenType::Constant
        } else if *text == text_of("Return") {
            TokenType::Return
        } else if *text == text_of("Add") {
            TokenType::Add
        } else if *text == text_of("Name") {
            TokenType::Name
        } else if *text == text_of("body") {
            TokenType::Body
        } else if *text == text_of("name") {
            TokenType::Name
        } else if *text == text_of("id") {
            TokenType::Id
        } else if *text == text_of("func") {
            TokenType::Func
        } else if *text == text_of("attr") {
            TokenType::Attr
        } else if *text == text_of("value") {
            TokenType::Value
        } else if *text == text_of("left") {
            TokenType::Left
        } else if *text == text_of("right") {
            TokenType::Right
        } else if *text == text_of("op") {
            TokenType::Op
        } else if *text == text_of("args") {
            TokenType::Args
        } else {
            TokenType::Unknown
        }
    }

    /// Reads a number; its first digit is read.
    fn number(&mut self, len: usize)
        requires
            len == old(self).source@.len(),
            old(self).current == old(self).start + 1,
            old(self).start < len,
            is_ascii_digit(old(self).source@[old(self).start as int]),
        ensures
            final(self).source == old(self).source,
            final(self).line == old(self).line,
            final(self).current == number_end(old(self).source@, old(self).start as int),
            newlines(old(self).source@.subrange(old(self).start as int, final(self).current as int))
                == 0,
            tokens_view(final(self).tokens@) == tokens_view(old(self).tokens@) + seq![
                TokenV {
                    kind: TokenType::Number,
                    lexeme: old(self).source@.subrange(old(self).start as int, final(self).current as int),
                    line: old(self).line as nat,
                    literal: Some(old(self).source@.subrange(old(self).start as int, final(self).current as int)),
                },
            ],
    {
        let ghost src = self.source@;
        proof {
            lemma_digits_end(src, self.start + 1);
            lemma_newlines_one(src, self.start as int);
        }
        while self.is_digit(self.peek(len)) && !self.is_at_end(len)
            invariant
                self.source == old(self).source,
                self.source@ == src,
                len == src.len(),
                old(self).start < self.current <= len,
                self.start == old(self).start,
                self.line == old(self).line,
                self.tokens == old(self).tokens,
                digits_end(src, self.start + 1) == digits_end(src, self.current as int),
                newlines(src.subrange(self.start as int, self.current as int)) == 0,
            decreases len - self.current,
        {
            proof {
                lemma_newlines_split(src, self.start as int, self.current as int, self.current + 1);
                lemma_newlines_one(src, self.current as int);
            }
            self.advance(len);
        }
        if self.peek(len) == '.' && self.is_digit(self.peek_next(len)) {
            let ghost e = self.current as int;
            proof {
                lemma_digits_end(src, e + 1);
                lemma_newlines_split(src, self.start as int, self.current as int, self.current + 1);
                lemma_newlines_one(src, self.current as int);
            }
            self.advance(len);
            while self.is_digit(self.peek(len)) && !self.is_at_end(len)
                invariant
                    self.source == old(self).source,
                    self.source@ == src,
                    len == src.len(),
                    e < self.current <= len,
                    self.start == old(self).start,
                    self.line == old(self).line,
                    self.tokens == old(self).tokens,
                    digits_end(src, e + 1) == digits_end(src, self.current as int),
                    old(self).start < self.current,
                    newlines(src.subrange(self.start as int, self.current as int)) == 0,
                decreases len - self.current,
            {
                proof {
                    lemma_newlines_split(src, self.start as int, self.current as int, self.current + 1);
                    lemma_newlines_one(src, self.current as int);
                }
                self.advance(len);
            }
        }
        let literal = text_of(self.source.as_str().substring_char(self.start, self.current));
        self.add_token(TokenType::Number, Some(literal));
    }

    fn is_alphanurmeric(&self, c: char) -> (r: bool)
        ensures
            r == alphanumeric(c),
            c == '\n' ==> !r,
    {
        char_is_alphanumeric(c)
    }

    fn is_digit(&self, c: char) -> (r: bool)
        ensures
            r == is_ascii_digit(c),
    {
        '0' <= c && c <= '9'
    }

    /// Appends a token whose lexeme is the source from `start` to `current`.
    fn add_token(&mut self, t_type: TokenType, literal: Option<String>)
        requires
            old(self).start <= old(self).current <= old(self).source@.len(),
        ensures
            final(self).source == old(self).source,
            final(self).start == old(self).start,
            final(self).current == old(self).current,
            final(self).line == old(self).line,
            tokens_view(final(self).tokens@) == tokens_view(old(self).tokens@) + seq![
                TokenV {
                    kind: t_type,
                    lexeme: old(self).source@.subrange(old(self).start as int, old(self).current as int),
                    line: old(self).line as nat,
                    literal: match literal {
                        Some(l) => Some(l@),
                        None => None,
                    },
                },
            ],
    {
        let text = text_of(self.source.as_str().substring_char(self.start, self.current));
        let token = Token { tType: t_type, lexeme: text, literal, line: self.line };
        let ghost before = self.tokens@;
        self.tokens.push(token);
        assert(tokens_view(self.tokens@) =~= tokens_view(before) + seq![token_view(token)]);
    }

    /// Reads the character at `current` and moves past it.
    fn advance(&mut self, len: usize) -> (c: char)
        requires
            len == old(self).source@.len(),
            old(self).current < len,
        ensures
            c == old(self).source@[old(self).current as int],
            final(self).current == old(self).current + 1,
            final(self).source == old(self).source,
            final(self).start == old(self).start,
            final(self).line == old(self).line,
            final(self).tokens == old(self).tokens,
    {
        let c = self.source.as_str().get_char(self.current);
        self.current = self.current + 1;
        c
    }

    /// The character at `current`, or `'\0'` at the end.
    fn peek(&self, len: usize) -> (c: char)
        requires
            len == self.source@.len(),
        ensures
            self.current < len ==> c == self.source@[self.current as int],
            self.current >= len ==> c == '\0',
    {
        if self.current >= len {
            '\0'
        } else {
            self.source.as_str().get_char(self.current)
        }
    }

    /// The character after `current`, or `'\0'` past the end.
    fn peek_next(&self, len: usize) -> (c: char)
        requires
            len == self.source@.len(),
        ensures
            self.current + 1 < len ==> c == self.source@[self.current + 1],
            self.current + 1 >= len ==> c == '\0',
    {
        if self.current >= len || self.current + 1 >= len {
            '\0'
        } else {
            self.source.as_str().get_char(self.current + 1)
        }
    }
}

} // verus!
