use vstd::prelude::*;
use vstd::string::*;
use crate::command::{Command, CommandV, SetModifier, evaluate, step};
use crate::expire::{Expire, timers};
use crate::reply::{Reply, rendered, replies_view};
use crate::store::Store;
use crate::tokenizer::{RedisToken, spells};
use crate::value::strings_view;

verus! {

/// The value of a string of decimal digits.
pub open spec fn decimal_value(s: Seq<char>) -> nat
    decreases s.len(),
{
    if s.len() == 0 {
        0
    } else {
        decimal_value(s.drop_last()) * 10 + ((s.last() as nat) - ('0' as nat)) as nat
    }
}

/// `s` is a non-empty string of decimal digits.
pub open spec fn all_digits(s: Seq<char>) -> bool {
    s.len() > 0 && forall|i: int| 0 <= i < s.len() ==> '0' <= #[trigger] s[i] && s[i] <= '9'
}

/// The number that `s` spells, if it is a string of decimal digits whose
/// value is at most `max`.
pub open spec fn number_at_most(s: Seq<char>, max: nat) -> Option<nat> {
    if all_digits(s) && decimal_value(s) <= max {
        Some(decimal_value(s))
    } else {
        None
    }
}

proof fn lemma_decimal_value_grows(s: Seq<char>, i: int)
    requires
        0 <= i <= s.len(),
        forall|j: int| 0 <= j < s.len() ==> '0' <= #[trigger] s[j] && s[j] <= '9',
    ensures
        decimal_value(s.subrange(0, i)) <= decimal_value(s),
    decreases s.len() - i,
{
    if i < s.len() {
        lemma_decimal_value_grows(s, i + 1);
        assert(s.subrange(0, i + 1).drop_last() =~= s.subrange(0, i));
        assert(s.subrange(0, i + 1)[i] == s[i]);
    } else {
        assert(s.subrange(0, i) =~= s);
    }
}

/// The number that `s` spells in decimal, if it fits in a `u64`.
pub fn parse_u64(s: &String) -> (r: Option<u64>)
    ensures
        r == match number_at_most(s@, u64::MAX as nat) {
            Some(v) => Some(v as u64),
            None => None::<u64>,
        },
{
    let text = s.as_str();
    let n = text.unicode_len();
    if n == 0 {
        return None;
    }
    let mut value: u64 = 0;
    let mut i: usize = 0;
    while i < n
        invariant
            n == s@.len(),
            text@ == s@,
            i <= n,
            value as nat == decimal_value(s@.subrange(0, i as int)),
            forall|j: int| 0 <= j < i ==> '0' <= #[trigger] s@[j] && s@[j] <= '9',
        decreases n - i,
    {
        let c = text.get_char(i);
        if !('0' <= c && c <= '9') {
            assert(!all_digits(s@));
            return None;
        }
        let d: u64 = (c as u64) - ('0' as u64);
        assert(s@.subrange(0, i + 1).drop_last() =~= s@.subrange(0, i as int));
        assert(s@.subrange(0, i + 1).last() == c);
        if value > (u64::MAX - d) / 10 {
            proof {
                assert(value * 10 + d > u64::MAX) by (nonlinear_arith)
                    requires
                        value > (u64::MAX - d) / 10,
                        d <= 9,
                ;
                if all_digits(s@) {
                    lemma_decimal_value_grows(s@, i + 1);
                }
            }
            return None;
        }
        proof {
            assert(value * 10 + d <= u64::MAX) by (nonlinear_arith)
                requires
                    value <= (u64::MAX - d) / 10,
                    d <= 9,
            ;
        }
        value = value * 10 + d;
        i = i + 1;
    }
    assert(s@.subrange(0, n as int) =~= s@);
    Some(value)
}

/// The number that `s` spells in decimal, if it fits in a `usize`.
pub fn parse_usize(s: &String) -> (r: Option<usize>)
    ensures
        r == match number_at_most(s@, usize::MAX as nat) {
            Some(v) => Some(v as usize),
            None => None::<usize>,
        },
{
    match parse_u64(s) {
        Some(v) => {
            if v <= usize::MAX as u64 {
                Some(v as usize)
            } else {
                None
            }
        },
        None => None,
    }
}

/// The text of a token: the name of a keyword, or a literal's text. The
/// end-of-command marker has none.
pub open spec fn token_text(t: RedisToken) -> Option<Seq<char>> {
    match t {
        RedisToken::SET => Some("SET"@),
        RedisToken::GET => Some("GET"@),
        RedisToken::DEL => Some("DEL"@),
        RedisToken::LPUSH => Some("LPUSH"@),
        RedisToken::LPOP => Some("LPOP"@),
        RedisToken::LRANGE => Some("LRANGE"@),
        RedisToken::HSET => Some("HSET"@),
        RedisToken::HGET => Some("HGET"@),
        RedisToken::EX => Some("EX"@),
        RedisToken::PX => Some("PX"@),
        RedisToken::EXAT => Some("EXAT"@),
        RedisToken::PXAT => Some("PXAT"@),
        RedisToken::NX => Some("NX"@),
        RedisToken::XX => Some("XX"@),
        RedisToken::KEEPTTL => Some("KEEPTTL"@),
        RedisToken::LITERAL(s) => Some(s@),
        RedisToken::EOC => None,
    }
}

/// The words of a token sequence, if each token has a text.
pub open spec fn words_of(ts: Seq<RedisToken>) -> Option<Seq<Seq<char>>> {
    if forall|i: int| 0 <= i < ts.len() ==> #[trigger] token_text(ts[i]) is Some {
        Some(Seq::new(ts.len(), |i: int| token_text(ts[i])->Some_0))
    } else {
        None
    }
}

/// A SET modifier written as one word.
pub open spec fn flag_modifier(w: Seq<char>) -> Option<SetModifier> {
    if w == "NX"@ {
        Some(SetModifier::Nx)
    } else if w == "XX"@ {
        Some(SetModifier::Xx)
    } else if w == "KEEPTTL"@ {
        Some(SetModifier::KeepTtl)
    } else if w == "GET"@ {
        Some(SetModifier::Get)
    } else {
        None
    }
}

/// A SET modifier written as a word and a number.
pub open spec fn timed_modifier(w: Seq<char>, v: u64) -> Option<SetModifier> {
    if w == "EX"@ {
        Some(SetModifier::Ex(v))
    } else if w == "PX"@ {
        Some(SetModifier::Px(v))
    } else if w == "EXAT"@ {
        Some(SetModifier::ExAt(v))
    } else if w == "PXAT"@ {
        Some(SetModifier::PxAt(v))
    } else {
        None
    }
}

/// The command that a line's words spell:
/// `SET key value [NX|XX|KEEPTTL|GET|EX n|PX n|EXAT n|PXAT n]`,
/// `DEL key...`, `GET key`, `LPUSH key element...`, `LPOP key [count]`,
/// `LRANGE key start stop`; command and modifier names in upper case,
/// numbers in decimal.
pub open spec fn command_of(ws: Seq<Seq<char>>) -> Option<CommandV> {
    let n = ws.len();
    if n == 0 {
        None
    } else if ws[0] == "SET"@ {
        if n == 3 {
            Some(CommandV::SetKey { key: ws[1], value: ws[2], modifier: SetModifier::NoModifier })
        } else if n == 4 {
            match flag_modifier(ws[3]) {
                Some(m) => Some(CommandV::SetKey { key: ws[1], value: ws[2], modifier: m }),
                None => None,
            }
        } else if n == 5 {
            match number_at_most(ws[4], u64::MAX as nat) {
                Some(v) => match timed_modifier(ws[3], v as u64) {
                    Some(m) => Some(CommandV::SetKey { key: ws[1], value: ws[2], modifier: m }),
                    None => None,
                },
                None => None,
            }
        } else {
            None
        }
    } else if ws[0] == "DEL"@ {
        Some(CommandV::Del { keys: ws.subrange(1, n as int) })
    } else if ws[0] == "GET"@ {
        if n == 2 {
            Some(CommandV::Get { key: ws[1] })
        } else {
            None
        }
    } else if ws[0] == "LPUSH"@ {
        if n >= 2 {
            Some(CommandV::LPush { key: ws[1], elements: ws.subrange(2, n as int) })
        } else {
            None
        }
    } else if ws[0] == "LPOP"@ {
        if n == 2 {
            Some(CommandV::LPop { key: ws[1], count: None })
        } else if n == 3 {
            match number_at_most(ws[2], usize::MAX as nat) {
                Some(c) => Some(CommandV::LPop { key: ws[1], count: Some(c as usize) }),
                None => None,
            }
        } else {
            None
        }
    } else if ws[0] == "LRANGE"@ {
        if n == 4 {
            match (number_at_most(ws[2], usize::MAX as nat), number_at_most(ws[3], usize::MAX as nat)) {
                (Some(a), Some(b)) => Some(CommandV::LRange { key: ws[1], start: a as usize, stop: b as usize }),
                _ => None,
            }
        } else {
            None
        }
    } else {
        None
    }
}

/// The command that a token sequence spells.
pub open spec fn parsed(ts: Seq<RedisToken>) -> Option<CommandV> {
    match words_of(ts) {
        Some(ws) => command_of(ws),
        None => None,
    }
}

/// The text of a token.
fn token_word(t: &RedisToken) -> (r: Option<String>)
    ensures
        match r {
            Some(w) => token_text(*t) == Some(w@),
            None => token_text(*t) is None,
        },
{
    match t {
        RedisToken::SET => Some(String::from_str("SET")),
        RedisToken::GET => Some(String::from_str("GET")),
        RedisToken::DEL => Some(String::from_str("DEL")),
        RedisToken::LPUSH => Some(String::from_str("LPUSH")),
        RedisToken::LPOP => Some(String::from_str("LPOP")),
        RedisToken::LRANGE => Some(String::from_str("LRANGE")),
        RedisToken::HSET => Some(String::from_str("HSET")),
        RedisToken::HGET => Some(String::from_str("HGET")),
        RedisToken::EX => Some(String::from_str("EX")),
        RedisToken::PX => Some(String::from_str("PX")),
        RedisToken::EXAT => Some(String::from_str("EXAT")),
        RedisToken::PXAT => Some(String::from_str("PXAT")),
        RedisToken::NX => Some(String::from_str("NX")),
        RedisToken::XX => Some(String::from_str("XX")),
        RedisToken::KEEPTTL => Some(String::from_str("KEEPTTL")),
        RedisToken::LITERAL(s) => Some(s.clone()),
        RedisToken::EOC => None,
    }
}

/// The words of the tokens, if each has a text.
pub fn token_words(tokens: &Vec<RedisToken>) -> (r: Option<Vec<String>>)
    ensures
        match r {
            Some(v) => words_of(tokens@) == Some(strings_view(v@)),
            None => words_of(tokens@) is None,
        },
{
    let mut out: Vec<String> = Vec::new();
    let mut i: usize = 0;
    while i < tokens.len()
        invariant
            i <= tokens@.len(),
            out@.len() == i,
            forall|j: int| 0 <= j < i ==> token_text(#[trigger] tokens@[j]) == Some(out@[j]@),
        decreases tokens@.len() - i,
    {
        match token_word(&tokens[i]) {
            Some(w) => out.push(w),
            None => {
                assert(!(token_text(tokens@[i as int]) is Some));
                return None;
            },
        }
        i = i + 1;
    }
    assert(Seq::new(tokens@.len(), |i: int| token_text(tokens@[i])->Some_0) =~= strings_view(out@));
    Some(out)
}

/// The words of `words` from position `k` on.
fn words_from(words: &Vec<String>, k: usize) -> (r: Vec<String>)
    requires
        k <= words@.len(),
    ensures
        strings_view(r@) == strings_view(words@).subrange(k as int, words@.len() as int),
{
    let mut out: Vec<String> = Vec::new();
    let mut i: usize = k;
    while i < words.len()
        invariant
            k <= i <= words@.len(),
            out@ =~= words@.subrange(k as int, i as int),
        decreases words@.len() - i,
    {
        out.push(words[i].clone());
        i = i + 1;
    }
    assert(strings_view(out@) =~= strings_view(words@).subrange(k as int, words@.len() as int));
    out
}

/// The command that split words spell.
pub fn parse_words(words: &Vec<String>) -> (r: Option<Command>)
    ensures
        match r {
            Some(c) => command_of(strings_view(words@)) == Some(c@),
            None => command_of(strings_view(words@)) is None,
        },
{
    let ghost ws = strings_view(words@);
    let n = words.len();
    if n == 0 {
        return None;
    }
    assert(ws[0] == words@[0]@);
    if spells(&words[0], "SET") {
        if n == 3 {
            return Some(Command::SetKey { key: words[1].clone(), value: words[2].clone(), modifier: SetModifier::NoModifier });
        } else if n == 4 {
            let m = &words[3];
            let modifier = if spells(m, "NX") {
                SetModifier::Nx
            } else if spells(m, "XX") {
                SetModifier::Xx
            } else if spells(m, "KEEPTTL") {
                SetModifier::KeepTtl
            } else if spells(m, "GET") {
                SetModifier::Get
            } else {
                return None;
            };
            return Some(Command::SetKey { key: words[1].clone(), value: words[2].clone(), modifier });
        } else if n == 5 {
            let v = match parse_u64(&words[4]) {
                Some(v) => v,
                None => return None,
            };
            let m = &words[3];
            let modifier = if spells(m, "EX") {
                SetModifier::Ex(v)
            } else if spells(m, "PX") {
                SetModifier::Px(v)
            } else if spells(m, "EXAT") {
                SetModifier::ExAt(v)
            } else if spells(m, "PXAT") {
                SetModifier::PxAt(v)
            } else {
                return None;
            };
            return Some(Command::SetKey { key: words[1].clone(), value: words[2].clone(), modifier });
        } else {
            return None;
        }
    }
    if spells(&words[0], "DEL") {
        return Some(Command::Del { keys: words_from(words, 1) });
    }
    if spells(&words[0], "GET") {
        if n == 2 {
            return Some(Command::Get { key: words[1].clone() });
        }
        return None;
    }
    if spells(&words[0], "LPUSH") {
        if n >= 2 {
            return Some(Command::LPush { key: words[1].clone(), elements: words_from(words, 2) });
        }
        return None;
    }
    if spells(&words[0], "LPOP") {
        if n == 2 {
            return Some(Command::LPop { key: words[1].clone(), count: None });
        } else if n == 3 {
            return match parse_usize(&words[2]) {
                Some(c) => Some(Command::LPop { key: words[1].clone(), count: Some(c) }),
                None => None,
            };
        }
        return None;
    }
    if spells(&words[0], "LRANGE") {
        if n == 4 {
            let start = match parse_usize(&words[2]) {
                Some(a) => a,
                None => return None,
            };
            let stop = match parse_usize(&words[3]) {
                Some(b) => b,
                None => return None,
            };
            return Some(Command::LRange { key: words[1].clone(), start, stop });
        }
        return None;
    }
    None
}

/// The command that a token sequence spells, if any.
pub fn parse(tokens: &Vec<RedisToken>) -> (r: Option<Command>)
    ensures
        match r {
            Some(c) => parsed(tokens@) == Some(c@),
            None => parsed(tokens@) is None,
        },
{
    match token_words(tokens) {
        Some(words) => parse_words(&words),
        None => None,
    }
}

/// The text of each reply line.
pub fn render_all(replies: &Vec<Reply>) -> (r: Vec<String>)
    ensures
        strings_view(r@) == replies_view(replies@).map_values(|x| rendered(x)),
{
    let mut out: Vec<String> = Vec::new();
    let mut i: usize = 0;
    while i < replies.len()
        invariant
            i <= replies@.len(),
            out@.len() == i,
            forall|j: int| 0 <= j < i ==> #[trigger] out@[j]@ == rendered(replies@[j]@),
        decreases replies@.len() - i,
    {
        out.push(replies[i].render());
        i = i + 1;
    }
    assert(strings_view(out@) =~= replies_view(replies@).map_values(|x| rendered(x)));
    out
}

/// Parses the tokens of one line and evaluates the command at time `now`,
/// returning the text of its reply lines; `None`, with nothing changed,
/// where the tokens spell no command.
pub fn eval(tokens: &Vec<RedisToken>, db: &mut Store, expiring: &mut Vec<Expire>, now: u64) -> (r: Option<
    Vec<String>,
>)
    requires
        old(db).wf(),
    ensures
        final(db).wf(),
        match parsed(tokens@) {
            None => r is None && final(db)@ == old(db)@ && final(expiring)@ == old(expiring)@,
            Some(c) => {
                let o = step(old(db)@, timers(old(expiring)@), c, now);
                &&& r is Some
                &&& final(db)@ == o.0
                &&& timers(final(expiring)@) == o.1
                &&& strings_view(r->Some_0@) == o.2.map_values(|x| rendered(x))
            },
        },
{
    match parse(tokens) {
        Some(cmd) => {
            let replies = evaluate(&cmd, db, expiring, now);
            Some(render_all(&replies))
        },
        None => None,
    }
}

} // verus!
