use vstd::prelude::*;
use vstd::string::*;
use crate::value::{Val, Value, strings_view};

verus! {

/// The mathematical content of one output line.
pub enum ReplyV {
    Ack,
    Nil,
    Integer(int),
    Bulk(Seq<char>),
    Item(int, Seq<char>),
    WrongType,
}

/// One output line of a command: a write acknowledgement, the nil marker,
/// an integer, a raw string, a numbered list element (numbered from 1), or
/// the type-mismatch failure.
#[derive(Debug, PartialEq, Eq)]
pub enum Reply {
    Ack,
    Nil,
    Integer(usize),
    Bulk(String),
    Item(usize, String),
    WrongType,
}

impl View for Reply {
    type V = ReplyV;

    open spec fn view(&self) -> ReplyV {
        match self {
            Reply::Ack => ReplyV::Ack,
            Reply::Nil => ReplyV::Nil,
            Reply::Integer(n) => ReplyV::Integer(*n as int),
            Reply::Bulk(s) => ReplyV::Bulk(s@),
            Reply::Item(i, s) => ReplyV::Item(*i as int, s@),
            Reply::WrongType => ReplyV::WrongType,
        }
    }
}

/// The contents of a sequence of replies.
pub open spec fn replies_view(rs: Seq<Reply>) -> Seq<ReplyV> {
    rs.map_values(|r: Reply| r@)
}

/// The elements of `l`, each as a numbered line counted from 1.
pub open spec fn numbered(l: Seq<Seq<char>>) -> Seq<ReplyV> {
    Seq::new(l.len(), |i: int| ReplyV::Item(i + 1, l[i]))
}

/// How a stored value is shown: a string verbatim, a list as numbered lines.
pub open spec fn value_replies(v: Val) -> Seq<ReplyV> {
    match v {
        Val::Str(s) => seq![ReplyV::Bulk(s)],
        Val::List(l) => numbered(l),
    }
}

/// The digits of `n` in base ten, most significant first.
pub open spec fn decimal(n: nat) -> Seq<char>
    decreases n,
{
    if n < 10 {
        seq![digit_char(n)]
    } else {
        decimal(n / 10).push(digit_char(n % 10))
    }
}

/// The character of a decimal digit.
pub open spec fn digit_char(d: nat) -> char {
    if d < 10 { (('0' as nat) + d) as char } else { '?' }
}

/// The text of an output line.
pub open spec fn rendered(r: ReplyV) -> Seq<char> {
    match r {
        ReplyV::Ack => "OK"@,
        ReplyV::Nil => "(nil)"@,
        ReplyV::Integer(n) => "(integer) "@ + decimal(n as nat),
        ReplyV::Bulk(s) => s,
        ReplyV::Item(i, s) => decimal(i as nat) + ") "@ + s,
        ReplyV::WrongType => "(error) WRONGTYPE Operation against a key holding the wrong kind of value"@,
    }
}

/// Relies on `usize::to_string` (through `Display`): the decimal digits of
/// `n`, without sign or padding.
#[verifier::external_body]
fn decimal_string(n: usize) -> (r: String)
    ensures
        r@ == decimal(n as nat),
{
    n.to_string()
}

impl Reply {
    /// The text of this line as a console shows it.
    pub fn render(&self) -> (r: String)
        ensures
            r@ == rendered(self@),
    {
        match self {
            Reply::Ack => String::from_str("OK"),
            Reply::Nil => String::from_str("(nil)"),
            Reply::Integer(n) => {
                let d = decimal_string(*n);
                String::from_str("(integer) ").concat(d.as_str())
            },
            Reply::Bulk(s) => s.clone(),
            Reply::Item(i, s) => {
                let d = decimal_string(*i);
                d.concat(") ").concat(s.as_str())
            },
            Reply::WrongType => String::from_str(
                "(error) WRONGTYPE Operation against a key holding the wrong kind of value",
            ),
        }
    }
}

/// The elements of `l` from `start` up to `end` (exclusive), each as a line
/// numbered from 1.
pub fn number_items(l: &Vec<String>, start: usize, end: usize) -> (r: Vec<Reply>)
    requires
        start <= end <= l@.len(),
    ensures
        replies_view(r@) == numbered(strings_view(l@).subrange(start as int, end as int)),
{
    let mut out: Vec<Reply> = Vec::new();
    let mut i: usize = start;
    while i < end
        invariant
            start <= i <= end <= l@.len(),
            out@.len() == i - start,
            forall|j: int| 0 <= j < out@.len() ==> #[trigger] out@[j]@ == ReplyV::Item(j + 1, l@[start + j]@),
        decreases end - i,
    {
        let s = l[i].clone();
        out.push(Reply::Item(i - start + 1, s));
        i = i + 1;
    }
    assert(replies_view(out@) =~= numbered(strings_view(l@).subrange(start as int, end as int)));
    out
}

/// How `v` is shown, line by line.
pub fn show_value(v: &Value) -> (r: Vec<Reply>)
    ensures
        replies_view(r@) == value_replies(v@),
{
    match v {
        Value::Str(s) => {
            let out = vec![Reply::Bulk(s.clone())];
            assert(replies_view(out@) =~= seq![ReplyV::Bulk(s@)]);
            out
        },
        Value::LL(l) => {
            let out = number_items(l, 0, l.len());
            assert(strings_view(l@).subrange(0, l@.len() as int) =~= strings_view(l@));
            out
        },
    }
}

} // verus!
