use vstd::prelude::*;
use vstd::string::*;

verus! {

/// The kind of a scanned token.
#[allow(non_camel_case_types)]
#[derive(Debug, Clone, Copy, PartialEq, Eq, Structural)]
pub enum TokenKind {
    TOKEN_DEL,
    TOKEN_EOC,
    TOKEN_ERROR,
    TOKEN_EX,
    TOKEN_EXAT,
    TOKEN_GET,
    TOKEN_HGET,
    TOKEN_HSET,
    TOKEN_IDENTIFIER,
    TOKEN_KEEPTTL,
    TOKEN_LPOP,
    TOKEN_LPUSH,
    TOKEN_LRANGE,
    TOKEN_NUMBER,
    TOKEN_NX,
    TOKEN_PIPE,
    TOKEN_PX,
    TOKEN_PXAT,
    TOKEN_SET,
    TOKEN_STRING,
    TOKEN_XX,
}

/// A token: its kind, the positions `start..end` of its text in the source
/// (in characters), the line it ends on, and a message: what went wrong for
/// an error token, `EOF` for the end token, empty for the others.
#[derive(Debug, Clone, Copy, PartialEq, Eq)]
pub struct Token {
    pub kind: TokenKind,
    pub start: usize,
    pub end: usize,
    pub line: u8,
    pub message: &'static str,
}

impl Token {
    pub fn new(kind: TokenKind, start: usize, end: usize, line: u8, message: &'static str) -> (r: Token)
        ensures
            r.kind == kind,
            r.start == start,
            r.end == end,
            r.line == line,
            r.message@ == message@,
    {
        Token { kind, start, end, line, message }
    }
}

/// Skipping never moves backwards.
pub proof fn lemma_gap_from_grows(s: Seq<char>, i: int, in_comment: bool)
    ensures
        i <= gap_from(s, i, in_comment),
    decreases s.len() - i,
{
    if 0 <= i < s.len() {
        if in_comment {
            lemma_gap_from_grows(s, i + 1, s[i] != '\n');
        } else if is_blank(s[i]) {
            lemma_gap_from_grows(s, i + 1, false);
        } else if s[i] == '/' && i + 1 < s.len() && s[i + 1] == '/' {
            lemma_gap_from_grows(s, i + 2, true);
        }
    }
}

/// The number of line breaks among the positions `from..to` of `s`.
pub open spec fn newlines(s: Seq<char>, from: int, to: int) -> nat
    decreases to - from,
{
    if to <= from {
        0
    } else {
        newlines(s, from, to - 1) + if 0 <= to - 1 < s.len() && s[to - 1] == '\n' {
            1nat
        } else {
            0nat
        }
    }
}

/// A line number moved on by `n` lines, stopping at `u8::MAX`.
pub open spec fn lines_on(line: u8, n: nat) -> u8 {
    if line + n > u8::MAX {
        u8::MAX
    } else {
        (line + n) as u8
    }
}

/// Line breaks counted over `a..c` are those over `a..b` and over `b..c`.
pub proof fn lemma_newlines_split(s: Seq<char>, a: int, b: int, c: int)
    requires
        a <= b <= c,
    ensures
        newlines(s, a, c) == newlines(s, a, b) + newlines(s, b, c),
    decreases c - b,
{
    if c > b {
        lemma_newlines_split(s, a, b, c - 1);
    }
}

pub open spec fn is_alpha(c: char) -> bool {
    ('a' <= c && c <= 'z') || ('A' <= c && c <= 'Z') || c == '_'
}

pub open spec fn is_digit(c: char) -> bool {
    '0' <= c && c <= '9'
}

/// Characters that separate tokens.
pub open spec fn is_blank(c: char) -> bool {
    c == ' ' || c == '\r' || c == '\t' || c == '\n'
}

/// Where the blanks and `//` comments from `i` end; `in_comment` says that
/// `i` lies inside a comment, which runs to the end of its line.
pub open spec fn gap_from(s: Seq<char>, i: int, in_comment: bool) -> int
    decreases s.len() - i,
{
    if i < 0 || i >= s.len() {
        i
    } else if in_comment {
        gap_from(s, i + 1, s[i] != '\n')
    } else if is_blank(s[i]) {
        gap_from(s, i + 1, false)
    } else if s[i] == '/' && i + 1 < s.len() && s[i + 1] == '/' {
        gap_from(s, i + 2, true)
    } else {
        i
    }
}

/// Where the blanks and `//` comments that start at `i` end.
pub open spec fn gap_end(s: Seq<char>, i: int) -> int {
    gap_from(s, i, false)
}

/// Where the run of letters, digits and underscores from `i` ends.
pub open spec fn word_end(s: Seq<char>, i: int) -> int
    decreases s.len() - i,
{
    if 0 <= i < s.len() && is_word_char(s[i]) {
        word_end(s, i + 1)
    } else {
        i
    }
}

/// Where the run of digits from `i` ends.
pub open spec fn digits_end(s: Seq<char>, i: int) -> int
    decreases s.len() - i,
{
    if 0 <= i < s.len() && is_digit(s[i]) {
        digits_end(s, i + 1)
    } else {
        i
    }
}

/// The first `"` at or after `i`, or the end of `s`.
pub open spec fn quote_at_or_after(s: Seq<char>, i: int) -> int
    decreases s.len() - i,
{
    if 0 <= i < s.len() && s[i] != '"' {
        quote_at_or_after(s, i + 1)
    } else {
        i
    }
}

pub open spec fn is_word_char(c: char) -> bool {
    is_alpha(c) || is_digit(c)
}

/// Where a number that starts at `i` ends: digits, then a fractional part
/// if a `.` and a digit follow.
pub open spec fn number_end(s: Seq<char>, i: int) -> int {
    let a = digits_end(s, i);
    if a + 1 < s.len() && s[a] == '.' && is_digit(s[a + 1]) {
        digits_end(s, a + 1)
    } else {
        a
    }
}

/// The kind of the token that starts at `g` (past any blanks), where it
/// ends, and its message. An unterminated string runs to the end as an
/// error; any other unexpected character is an error that consumes nothing.
pub open spec fn scanned(s: Seq<char>, g: int) -> (TokenKind, int, Seq<char>) {
    if g >= s.len() {
        (TokenKind::TOKEN_EOC, g, "EOF"@)
    } else if is_alpha(s[g]) {
        (keyword_kind(s.subrange(g, word_end(s, g))), word_end(s, g), ""@)
    } else if is_digit(s[g]) {
        (TokenKind::TOKEN_NUMBER, number_end(s, g), ""@)
    } else if s[g] == '|' {
        (TokenKind::TOKEN_PIPE, g + 1, ""@)
    } else if s[g] == '"' {
        if quote_at_or_after(s, g + 1) >= s.len() {
            (TokenKind::TOKEN_ERROR, s.len() as int, "Unterminated string."@)
        } else {
            (TokenKind::TOKEN_STRING, quote_at_or_after(s, g + 1) + 1, ""@)
        }
    } else {
        (TokenKind::TOKEN_ERROR, g, "Unexpected character."@)
    }
}

/// The kind of an identifier's text: the keyword it spells, if any.
pub open spec fn keyword_kind(w: Seq<char>) -> TokenKind {
    if w == "SET"@ {
        TokenKind::TOKEN_SET
    } else if w == "GET"@ {
        TokenKind::TOKEN_GET
    } else if w == "DEL"@ {
        TokenKind::TOKEN_DEL
    } else if w == "LPUSH"@ {
        TokenKind::TOKEN_LPUSH
    } else if w == "LPOP"@ {
        TokenKind::TOKEN_LPOP
    } else if w == "LRANGE"@ {
        TokenKind::TOKEN_LRANGE
    } else if w == "HSET"@ {
        TokenKind::TOKEN_HSET
    } else if w == "HGET"@ {
        TokenKind::TOKEN_HGET
    } else if w == "EX"@ {
        TokenKind::TOKEN_EX
    } else if w == "PX"@ {
        TokenKind::TOKEN_PX
    } else if w == "EXAT"@ {
        TokenKind::TOKEN_EXAT
    } else if w == "PXAT"@ {
        TokenKind::TOKEN_PXAT
    } else if w == "NX"@ {
        TokenKind::TOKEN_NX
    } else if w == "XX"@ {
        TokenKind::TOKEN_XX
    } else if w == "KEEPTTL"@ {
        TokenKind::TOKEN_KEEPTTL
    } else {
        TokenKind::TOKEN_IDENTIFIER
    }
}

/// Scans a command line one token at a time. `start` is where the token
/// being scanned begins and `current` the next character to read.
pub struct Scanner {
    pub source: Vec<char>,
    pub start: usize,
    pub current: usize,
    pub line: u8,
}

impl Scanner {
    /// `start..current` is a span of the source, as reading the text of
    /// the token being scanned needs.
    pub open spec fn wf(&self) -> bool {
        self.start <= self.current <= self.source@.len()
    }

    /// A scanner at the beginning of `source`, on line 1.
    pub fn new(source: &String) -> (r: Scanner)
        ensures
            r.wf(),
            r.source@ == source@,
            r.start == 0,
            r.current == 0,
            r.line == 1,
    {
        let text = source.as_str();
        let n = text.unicode_len();
        let mut chars: Vec<char> = Vec::new();
        let mut i: usize = 0;
        while i < n
            invariant
                n == text@.len(),
                text@ == source@,
                i <= n,
                chars@ =~= text@.subrange(0, i as int),
            decreases n - i,
        {
            chars.push(text.get_char(i));
            i = i + 1;
        }
        Scanner { source: chars, start: 0, current: 0, line: 1 }
    }

    /// Whether every character has been read.
    pub fn is_at_end(&self) -> (r: bool)
        ensures
            r == (self.current >= self.source@.len()),
    {
        self.current >= self.source.len()
    }

    /// Whether no character follows the current one.
    pub fn is_at_peek_next_end(&self) -> (r: bool)
        ensures
            r == (self.current + 1 >= self.source@.len()),
    {
        self.current >= self.source.len() || self.current + 1 >= self.source.len()
    }

    /// Moves on by one character (past the end too).
    pub fn advance(&mut self)
        requires
            old(self).current < usize::MAX,
        ensures
            final(self).source == old(self).source,
            final(self).start == old(self).start,
            final(self).line == old(self).line,
            final(self).current == old(self).current + 1,
    {
        self.current = self.current + 1;
    }

    /// The current character, if any.
    pub fn peek(&self) -> (r: Option<char>)
        ensures
            r == if self.current < self.source@.len() {
                Some(self.source@[self.current as int])
            } else {
                None
            },
    {
        if self.is_at_end() {
            None
        } else {
            Some(self.source[self.current])
        }
    }

    /// The character after the current one, if any.
    pub fn peek_next(&self) -> (r: Option<char>)
        ensures
            r == if self.current + 1 < self.source@.len() {
                Some(self.source@[self.current + 1])
            } else {
                None
            },
    {
        let n: usize = self.source.len();
        if self.current < n && self.current + 1 < n {
            Some(self.source[self.current + 1])
        } else {
            None
        }
    }

    /// Whether the character after the current one is `expected`; also true
    /// when no character follows.
    pub fn expect(&self, expected: char) -> (r: bool)
        ensures
            r == (self.current + 1 >= self.source@.len() || self.source@[self.current + 1] == expected),
    {
        match self.peek_next() {
            Some(c) => c == expected,
            None => true,
        }
    }

    /// One more line, stopping at `u8::MAX`.
    fn next_line(&mut self)
        ensures
            final(self).source == old(self).source,
            final(self).start == old(self).start,
            final(self).current == old(self).current,
            final(self).line == lines_on(old(self).line, 1),
    {
        if self.line < u8::MAX {
            self.line = self.line + 1;
        }
    }

    /// Skips blanks and `//` comments, counting the line breaks passed.
    pub fn skip_whitespace(&mut self)
        ensures
            final(self).source == old(self).source,
            final(self).start == old(self).start,
            final(self).current == gap_end(old(self).source@, old(self).current as int),
            final(self).line == lines_on(
                old(self).line,
                newlines(old(self).source@, old(self).current as int, final(self).current as int),
            ),
    {
        let ghost g = gap_end(self.source@, self.current as int);
        let ghost c0 = self.current as int;
        let mut in_comment = false;
        let n: usize = self.source.len();
        while self.current < n
            invariant
                n == self.source@.len(),
                self.source == old(self).source,
                self.start == old(self).start,
                c0 == old(self).current,
                c0 <= self.current,
                gap_from(self.source@, self.current as int, in_comment) == g,
                g == gap_end(old(self).source@, old(self).current as int),
                self.line == lines_on(old(self).line, newlines(self.source@, c0, self.current as int)),
            decreases n - self.current,
        {
            let c = self.source[self.current];
            let ghost here = self.current as int;
            if in_comment {
                if c == '\n' {
                    self.next_line();
                    in_comment = false;
                }
                self.current = self.current + 1;
            } else if c == ' ' || c == '\r' || c == '\t' {
                self.current = self.current + 1;
            } else if c == '\n' {
                self.next_line();
                self.current = self.current + 1;
            } else if c == '/' && self.current + 1 < n && self.source[self.current + 1] == '/' {
                self.current = self.current + 2;
                in_comment = true;
                assert(newlines(self.source@, c0, here + 1) == newlines(self.source@, c0, here));
            } else {
                assert(gap_from(self.source@, self.current as int, false) == self.current);
                return;
            }
        }
        assert(gap_from(self.source@, self.current as int, in_comment) == self.current);
    }

    /// A token of `kind` over `start..current`; the end token has the
    /// message `EOF`, the others none.
    fn make_token(&self, kind: TokenKind) -> (r: Token)
        ensures
            r.kind == kind,
            r.start == self.start,
            r.end == self.current,
            r.line == self.line,
            r.message@ == if kind == TokenKind::TOKEN_EOC { "EOF"@ } else { ""@ },
    {
        if kind == TokenKind::TOKEN_EOC {
            Token::new(kind, self.start, self.current, self.line, "EOF")
        } else {
            Token::new(kind, self.start, self.current, self.line, "")
        }
    }

    /// An error token over `start..current` that says what went wrong.
    fn error_token(&self, message: &'static str) -> (r: Token)
        ensures
            r.kind == TokenKind::TOKEN_ERROR,
            r.start == self.start,
            r.end == self.current,
            r.line == self.line,
            r.message@ == message@,
    {
        Token::new(TokenKind::TOKEN_ERROR, self.start, self.current, self.line, message)
    }

    /// `kind` when the text `start..current` is `start` characters of
    /// anything followed by exactly `rest`, else `TOKEN_IDENTIFIER`.
    pub fn check_keyword(&self, start: usize, length: usize, rest: &str, kind: TokenKind) -> (r: TokenKind)
        requires
            self.wf(),
        ensures
            r == if self.current - self.start == start + length && rest@.len() == length
                && self.source@.subrange(self.start + start, self.start + start + length) == rest@ {
                kind
            } else {
                TokenKind::TOKEN_IDENTIFIER
            },
    {
        let span: usize = self.current - self.start;
        if length > span || start != span - length {
            return TokenKind::TOKEN_IDENTIFIER;
        }
        if rest.unicode_len() != length {
            return TokenKind::TOKEN_IDENTIFIER;
        }
        let base: usize = self.start + start;
        let ghost word = self.source@.subrange(base as int, base + length);
        let mut k: usize = 0;
        while k < length
            invariant
                self.wf(),
                base + length == self.current,
                rest@.len() == length,
                word == self.source@.subrange(base as int, base + length),
                k <= length,
                forall|j: int| 0 <= j < k ==> self.source@[base + j] == rest@[j],
            decreases length - k,
        {
            if self.source[base + k] != rest.get_char(k) {
                assert(word[k as int] != rest@[k as int]);
                return TokenKind::TOKEN_IDENTIFIER;
            }
            k = k + 1;
        }
        assert(word =~= rest@);
        kind
    }

    /// `kind` when the text `start..current` is exactly `name`.
    fn keyword(&self, name: &str, kind: TokenKind) -> (r: TokenKind)
        requires
            self.wf(),
        ensures
            r == if self.source@.subrange(self.start as int, self.current as int) == name@ {
                kind
            } else {
                TokenKind::TOKEN_IDENTIFIER
            },
    {
        let r = self.check_keyword(0, name.unicode_len(), name, kind);
        proof {
            let w = self.source@.subrange(self.start as int, self.current as int);
            if w == name@ {
                assert(self.source@.subrange(self.start + 0, self.start + 0 + name@.len()) =~= w);
            }
        }
        r
    }

    /// The kind of the identifier `start..current`: the keyword it spells,
    /// or `TOKEN_IDENTIFIER`.
    pub fn identifier_type(&self) -> (r: TokenKind)
        requires
            self.wf(),
        ensures
            r == keyword_kind(self.source@.subrange(self.start as int, self.current as int)),
    {
        let k = self.keyword("SET", TokenKind::TOKEN_SET);
        if k != TokenKind::TOKEN_IDENTIFIER {
            return k;
        }
        let k = self.keyword("GET", TokenKind::TOKEN_GET);
        if k != TokenKind::TOKEN_IDENTIFIER {
            return k;
        }
        let k = self.keyword("DEL", TokenKind::TOKEN_DEL);
        if k != TokenKind::TOKEN_IDENTIFIER {
            return k;
        }
        let k = self.keyword("LPUSH", TokenKind::TOKEN_LPUSH);
        if k != TokenKind::TOKEN_IDENTIFIER {
            return k;
        }
        let k = self.keyword("LPOP", TokenKind::TOKEN_LPOP);
        if k != TokenKind::TOKEN_IDENTIFIER {
            return k;
        }
        let k = self.keyword("LRANGE", TokenKind::TOKEN_LRANGE);
        if k != TokenKind::TOKEN_IDENTIFIER {
            return k;
        }
        let k = self.keyword("HSET", TokenKind::TOKEN_HSET);
        if k != TokenKind::TOKEN_IDENTIFIER {
            return k;
        }
        let k = self.keyword("HGET", TokenKind::TOKEN_HGET);
        if k != TokenKind::TOKEN_IDENTIFIER {
            return k;
        }
        let k = self.keyword("EX", TokenKind::TOKEN_EX);
        if k != TokenKind::TOKEN_IDENTIFIER {
            return k;
        }
        let k = self.keyword("PX", TokenKind::TOKEN_PX);
        if k != TokenKind::TOKEN_IDENTIFIER {
            return k;
        }
        let k = self.keyword("EXAT", TokenKind::TOKEN_EXAT);
        if k != TokenKind::TOKEN_IDENTIFIER {
            return k;
        }
        let k = self.keyword("PXAT", TokenKind::TOKEN_PXAT);
        if k != TokenKind::TOKEN_IDENTIFIER {
            return k;
        }
        let k = self.keyword("NX", TokenKind::TOKEN_NX);
        if k != TokenKind::TOKEN_IDENTIFIER {
            return k;
        }
        let k = self.keyword("XX", TokenKind::TOKEN_XX);
        if k != TokenKind::TOKEN_IDENTIFIER {
            return k;
        }
        let k = self.keyword("KEEPTTL", TokenKind::TOKEN_KEEPTTL);
        if k != TokenKind::TOKEN_IDENTIFIER {
            return k;
        }
        TokenKind::TOKEN_IDENTIFIER
    }
    /// Reads letters, digits and underscores, and makes the identifier or
    /// keyword token that spans them from `start`.
    pub fn tokenize_identifier(&mut self) -> (r: Token)
        requires
            old(self).wf(),
        ensures
            final(self).wf(),
            final(self).source == old(self).source,
            final(self).start == old(self).start,
            final(self).line == old(self).line,
            final(self).current == word_end(old(self).source@, old(self).current as int),
            newlines(old(self).source@, old(self).current as int, final(self).current as int) == 0,
            r.kind == keyword_kind(final(self).source@.subrange(final(self).start as int, final(self).current as int)),
            r.start == final(self).start,
            r.end == final(self).current,
            r.line == final(self).line,
            r.message@ == ""@,
    {
        let n: usize = self.source.len();
        while self.current < n && (is_alpha_char(self.source[self.current]) || is_digit_char(self.source[self.current]))
            invariant
                self.wf(),
                n == self.source@.len(),
                self.source == old(self).source,
                self.start == old(self).start,
                self.line == old(self).line,
                old(self).current <= self.current,
                word_end(self.source@, self.current as int) == word_end(old(self).source@, old(self).current as int),
                newlines(self.source@, old(self).current as int, self.current as int) == 0,
            decreases n - self.current,
        {
            self.current = self.current + 1;
        }
        let kind = self.identifier_type();
        self.make_token(kind)
    }

    /// Reads digits, then a `.` and more digits if a digit follows the `.`,
    /// and makes the number token that spans them from `start`.
    pub fn tokenize_number(&mut self) -> (r: Token)
        requires
            old(self).wf(),
        ensures
            final(self).wf(),
            final(self).source == old(self).source,
            final(self).start == old(self).start,
            final(self).line == old(self).line,
            final(self).current == number_end(old(self).source@, old(self).current as int),
            newlines(old(self).source@, old(self).current as int, final(self).current as int) == 0,
            r.kind == TokenKind::TOKEN_NUMBER,
            r.start == final(self).start,
            r.end == final(self).current,
            r.line == final(self).line,
            r.message@ == ""@,
    {
        let n: usize = self.source.len();
        let ghost a = digits_end(self.source@, self.current as int);
        while self.current < n && is_digit_char(self.source[self.current])
            invariant
                self.wf(),
                n == self.source@.len(),
                self.source == old(self).source,
                self.start == old(self).start,
                self.line == old(self).line,
                old(self).current <= self.current,
                a == digits_end(old(self).source@, old(self).current as int),
                digits_end(self.source@, self.current as int) == a,
                newlines(self.source@, old(self).current as int, self.current as int) == 0,
            decreases n - self.current,
        {
            self.current = self.current + 1;
        }
        if self.current < n && self.current + 1 < n && self.source[self.current] == '.' && is_digit_char(self.source[self.current + 1]) {
            self.current = self.current + 1;
            let ghost b = digits_end(self.source@, self.current as int);
            while self.current < n && is_digit_char(self.source[self.current])
                invariant
                    self.wf(),
                    n == self.source@.len(),
                    self.source == old(self).source,
                    self.start == old(self).start,
                    self.line == old(self).line,
                    old(self).current <= self.current,
                    b == number_end(old(self).source@, old(self).current as int),
                    digits_end(self.source@, self.current as int) == b,
                    newlines(self.source@, old(self).current as int, self.current as int) == 0,
                decreases n - self.current,
            {
                self.current = self.current + 1;
            }
        }
        self.make_token(TokenKind::TOKEN_NUMBER)
    }

    /// Reads up to the closing `"` (the opening one has been read) and makes
    /// the string token that spans both quotes; without a closing quote, an
    /// error token that runs to the end. Counts the line breaks passed.
    pub fn tokenize_string(&mut self) -> (r: Token)
        requires
            old(self).wf(),
        ensures
            final(self).wf(),
            final(self).source == old(self).source,
            final(self).start == old(self).start,
            ({
                let q = quote_at_or_after(old(self).source@, old(self).current as int);
                if q >= old(self).source@.len() {
                    &&& final(self).current == old(self).source@.len()
                    &&& r.kind == TokenKind::TOKEN_ERROR
                    &&& r.message@ == "Unterminated string."@
                } else {
                    &&& final(self).current == q + 1
                    &&& r.kind == TokenKind::TOKEN_STRING
                    &&& r.message@ == ""@
                }
            }),
            final(self).line == lines_on(
                old(self).line,
                newlines(old(self).source@, old(self).current as int, final(self).current as int),
            ),
            old(self).current <= final(self).current,
            r.start == final(self).start,
            r.end == final(self).current,
            r.line == final(self).line,
    {
        let n: usize = self.source.len();
        while self.current < n && self.source[self.current] != '"'
            invariant
                self.wf(),
                n == self.source@.len(),
                self.source == old(self).source,
                self.start == old(self).start,
                old(self).current <= self.current,
                quote_at_or_after(self.source@, self.current as int) == quote_at_or_after(
                    old(self).source@,
                    old(self).current as int,
                ),
                self.line == lines_on(old(self).line, newlines(self.source@, old(self).current as int, self.current as int)),
            decreases n - self.current,
        {
            if self.source[self.current] == '\n' {
                self.next_line();
            }
            self.current = self.current + 1;
        }
        if self.current >= n {
            return self.error_token("Unterminated string.");
        }
        self.current = self.current + 1;
        self.make_token(TokenKind::TOKEN_STRING)
    }

    /// Skips blanks and comments, then scans the next token: an identifier
    /// or keyword, a number, a `|`, or a quoted string. At the end of the
    /// source it gives `TOKEN_EOC`; on any other character, an error token
    /// that consumes nothing, so the caller moves on.
    pub fn scan_token(&mut self) -> (r: Token)
        ensures
            final(self).source == old(self).source,
            ({
                let g = gap_end(old(self).source@, old(self).current as int);
                let sc = scanned(old(self).source@, g);
                &&& final(self).start == g
                &&& r.kind == sc.0
                &&& final(self).current == sc.1
                &&& r.message@ == sc.2
            }),
            final(self).line == lines_on(
                old(self).line,
                newlines(old(self).source@, old(self).current as int, final(self).current as int),
            ),
            r.start == final(self).start,
            r.end == final(self).current,
            r.line == final(self).line,
    {
        let ghost s = self.source@;
        let ghost c0 = self.current as int;
        let ghost l0 = self.line;
        self.skip_whitespace();
        self.start = self.current;
        let ghost g = self.current as int;
        let ghost l1 = self.line;
        proof {
            assert(c0 <= g) by {
                lemma_gap_from_grows(s, c0, false);
            }
        }
        let n: usize = self.source.len();
        if self.current >= n {
            return self.make_token(TokenKind::TOKEN_EOC);
        }
        let c = self.source[self.start];
        let r = if ('a' <= c && c <= 'z') || ('A' <= c && c <= 'Z') || c == '_' {
            self.tokenize_identifier()
        } else if '0' <= c && c <= '9' {
            self.tokenize_number()
        } else if c == '|' {
            self.advance();
            assert(newlines(s, g, g + 1) == newlines(s, g, g));
            self.make_token(TokenKind::TOKEN_PIPE)
        } else if c == '"' {
            self.advance();
            let r = self.tokenize_string();
            proof {
                lemma_newlines_split(s, g, g + 1, self.current as int);
                assert(newlines(s, g, g + 1) == newlines(s, g, g));
            }
            r
        } else {
            assert(newlines(s, g, g) == 0);
            self.error_token("Unexpected character.")
        };
        proof {
            lemma_newlines_split(s, c0, g, self.current as int);
            assert(self.line == lines_on(l1, newlines(s, g, self.current as int)));
            assert(l1 == lines_on(l0, newlines(s, c0, g)));
        }
        r
    }
} // impl Scanner

/// Whether `c` is a decimal digit.
pub fn is_digit_char(c: char) -> (r: bool)
    ensures
        r == is_digit(c),
{
    '0' <= c && c <= '9'
}

/// Whether `c` is a letter or an underscore.
pub fn is_alpha_char(c: char) -> (r: bool)
    ensures
        r == is_alpha(c),
{
    ('a' <= c && c <= 'z') || ('A' <= c && c <= 'Z') || c == '_'
}

} // verus!
