use vstd::prelude::*;
use vstd::string::*;
use crate::value::strings_view;

verus! {

/// The words of a line as a POSIX shell would split it (quotes grouping and
/// escapes applied), or `None` where the line cannot be split: a quote left
/// open, or a backslash at the very end.
pub uninterp spec fn shell_words(line: Seq<char>) -> Option<Seq<Seq<char>>>;

/// Relies on `shlex::split`: the words of the line, or `None` where it
/// cannot split it. It depends on the line alone.
#[verifier::external_body]
fn split_words(line: &str) -> (r: Option<Vec<String>>)
    ensures
        match r {
            Some(v) => shell_words(line@) == Some(strings_view(v@)),
            None => shell_words(line@) is None,
        },
{
    shlex::split(line)
}

/// The words of a command line, split as a shell would; `None` where it
/// cannot be split (see `shell_words`).
pub fn split_line(line: &String) -> (r: Option<Vec<String>>)
    ensures
        match r {
            Some(v) => shell_words(line@) == Some(strings_view(v@)),
            None => shell_words(line@) is None,
        },
{
    split_words(line.as_str())
}

/// A word of a command line: a command or modifier name, or any other text.
#[allow(non_camel_case_types)]
#[derive(Debug, PartialEq, Eq)]
pub enum RedisToken {
    SET,
    GET,
    DEL,
    LPUSH,
    LPOP,
    LRANGE,
    HSET,
    HGET,
    EX,
    PX,
    EXAT,
    PXAT,
    NX,
    XX,
    KEEPTTL,
    LITERAL(String),
    EOC,
}

/// The names that stand for a command or a modifier (upper case only).
pub open spec fn is_keyword(w: Seq<char>) -> bool {
    w == "SET"@ || w == "GET"@ || w == "DEL"@ || w == "LPUSH"@ || w == "LPOP"@ || w == "LRANGE"@
        || w == "HSET"@ || w == "HGET"@ || w == "EX"@ || w == "PX"@ || w == "EXAT"@ || w == "PXAT"@
        || w == "NX"@ || w == "XX"@ || w == "KEEPTTL"@
}

/// `t` is the token of the word `w`: the keyword it names, or a literal
/// holding it.
pub open spec fn token_of(t: RedisToken, w: Seq<char>) -> bool {
    match t {
        RedisToken::SET => w == "SET"@,
        RedisToken::GET => w == "GET"@,
        RedisToken::DEL => w == "DEL"@,
        RedisToken::LPUSH => w == "LPUSH"@,
        RedisToken::LPOP => w == "LPOP"@,
        RedisToken::LRANGE => w == "LRANGE"@,
        RedisToken::HSET => w == "HSET"@,
        RedisToken::HGET => w == "HGET"@,
        RedisToken::EX => w == "EX"@,
        RedisToken::PX => w == "PX"@,
        RedisToken::EXAT => w == "EXAT"@,
        RedisToken::PXAT => w == "PXAT"@,
        RedisToken::NX => w == "NX"@,
        RedisToken::XX => w == "XX"@,
        RedisToken::KEEPTTL => w == "KEEPTTL"@,
        RedisToken::LITERAL(s) => s@ == w && !is_keyword(w),
        RedisToken::EOC => false,
    }
}

/// `ts` holds the token of each word of `ws`, in order.
pub open spec fn tokens_of(ts: Seq<RedisToken>, ws: Seq<Seq<char>>) -> bool {
    ts.len() == ws.len() && forall|i: int| 0 <= i < ts.len() ==> token_of(#[trigger] ts[i], ws[i])
}

/// Whether `w` spells `name`.
pub(crate) fn spells(w: &String, name: &str) -> (r: bool)
    ensures
        r == (w@ == name@),
{
    *w == String::from_str(name)
}

/// The token of one word.
pub fn classify_word(w: &String) -> (r: RedisToken)
    ensures
        token_of(r, w@),
{
    if spells(w, "SET") {
        RedisToken::SET
    } else if spells(w, "GET") {
        RedisToken::GET
    } else if spells(w, "DEL") {
        RedisToken::DEL
    } else if spells(w, "LPUSH") {
        RedisToken::LPUSH
    } else if spells(w, "LPOP") {
        RedisToken::LPOP
    } else if spells(w, "LRANGE") {
        RedisToken::LRANGE
    } else if spells(w, "HSET") {
        RedisToken::HSET
    } else if spells(w, "HGET") {
        RedisToken::HGET
    } else if spells(w, "EX") {
        RedisToken::EX
    } else if spells(w, "PX") {
        RedisToken::PX
    } else if spells(w, "EXAT") {
        RedisToken::EXAT
    } else if spells(w, "PXAT") {
        RedisToken::PXAT
    } else if spells(w, "NX") {
        RedisToken::NX
    } else if spells(w, "XX") {
        RedisToken::XX
    } else if spells(w, "KEEPTTL") {
        RedisToken::KEEPTTL
    } else {
        RedisToken::LITERAL(w.clone())
    }
}

/// The tokens of already split words, one for each.
pub fn classify_words(words: &Vec<String>) -> (r: Vec<RedisToken>)
    ensures
        tokens_of(r@, strings_view(words@)),
{
    let mut out: Vec<RedisToken> = Vec::new();
    let mut i: usize = 0;
    while i < words.len()
        invariant
            i <= words@.len(),
            out@.len() == i,
            forall|j: int| 0 <= j < i ==> token_of(#[trigger] out@[j], words@[j]@),
        decreases words@.len() - i,
    {
        out.push(classify_word(&words[i]));
        i = i + 1;
    }
    out
}

/// Splits a command line into tokens.
pub struct Tokenizer {
    source: String,
    tokens: Vec<RedisToken>,
}

impl Tokenizer {
    /// The line being tokenized.
    pub closed spec fn source_view(&self) -> Seq<char> {
        self.source@
    }

    /// The tokens found so far.
    pub closed spec fn tokens_view(&self) -> Seq<RedisToken> {
        self.tokens@
    }

    /// A tokenizer over `source`.
    pub fn new(source: String) -> (r: Tokenizer)
        ensures
            r.source_view() == source@,
            r.tokens_view().len() == 0,
    {
        Tokenizer { source, tokens: Vec::new() }
    }

    /// Splits the line into words and turns each into a token. Returns
    /// `false`, with no tokens, where the line cannot be split.
    pub fn tokenize(&mut self) -> (r: bool)
        ensures
            final(self).source_view() == old(self).source_view(),
            r == shell_words(old(self).source_view()) is Some,
            r ==> tokens_of(final(self).tokens_view(), shell_words(old(self).source_view())->Some_0),
            !r ==> final(self).tokens_view().len() == 0,
    {
        match split_words(self.source.as_str()) {
            Some(words) => {
                self.tokens = classify_words(&words);
                true
            },
            None => {
                self.tokens = Vec::new();
                false
            },
        }
    }

    /// The tokens found.
    pub fn tokens(&self) -> (r: &Vec<RedisToken>)
        ensures
            r@ == self.tokens_view(),
    {
        &self.tokens
    }
}

} // verus!
