use vstd::prelude::*;
use crate::expire::{
    Timer, timers, without_key, without_keys, live_at, expired_keys, secs_to_millis, Expire,
    kill_all_expired, kill_single_expired, kill_listed_expired, register,
};
use crate::reply::{Reply, ReplyV, replies_view, numbered, value_replies, number_items, show_value};
use crate::store::Store;
use crate::value::{Val, Value, strings_view};

verus! {

/// The modifier of a SET command.
///
/// `Ex` and `Px` give a duration in seconds and in milliseconds; `ExAt` and
/// `PxAt` give an absolute Unix time in seconds and in milliseconds.
#[derive(Debug, Clone, Copy, PartialEq, Eq, Structural)]
pub enum SetModifier {
    NoModifier,
    Ex(u64),
    Px(u64),
    ExAt(u64),
    PxAt(u64),
    Nx,
    Xx,
    KeepTtl,
    Get,
}

/// The mathematical content of a command.
pub enum CommandV {
    SetKey { key: Seq<char>, value: Seq<char>, modifier: SetModifier },
    Del { keys: Seq<Seq<char>> },
    Get { key: Seq<char> },
    LPush { key: Seq<char>, elements: Seq<Seq<char>> },
    LPop { key: Seq<char>, count: Option<usize> },
    LRange { key: Seq<char>, start: usize, stop: usize },
}

/// A parsed command.
#[derive(Debug)]
pub enum Command {
    SetKey { key: String, value: String, modifier: SetModifier },
    Del { keys: Vec<String> },
    Get { key: String },
    LPush { key: String, elements: Vec<String> },
    LPop { key: String, count: Option<usize> },
    LRange { key: String, start: usize, stop: usize },
}

impl View for Command {
    type V = CommandV;

    open spec fn view(&self) -> CommandV {
        match self {
            Command::SetKey { key, value, modifier } => CommandV::SetKey {
                key: key@,
                value: value@,
                modifier: *modifier,
            },
            Command::Del { keys } => CommandV::Del { keys: strings_view(keys@) },
            Command::Get { key } => CommandV::Get { key: key@ },
            Command::LPush { key, elements } => CommandV::LPush {
                key: key@,
                elements: strings_view(elements@),
            },
            Command::LPop { key, count } => CommandV::LPop { key: key@, count: *count },
            Command::LRange { key, start, stop } => CommandV::LRange {
                key: key@,
                start: *start,
                stop: *stop,
            },
        }
    }
}

/// The store, the expiry timers, and the lines that a command emits.
pub type Outcome = (Map<Seq<char>, Val>, Seq<Timer>, Seq<ReplyV>);

/// The store and the lines emitted, for a command that leaves the timers alone.
pub type Effect = (Map<Seq<char>, Val>, Seq<ReplyV>);

/// What a read of `key` shows: its value, or nil when it is absent.
pub open spec fn read_replies(db: Map<Seq<char>, Val>, key: Seq<char>) -> Seq<ReplyV> {
    if db.contains_key(key) {
        value_replies(db[key])
    } else {
        seq![ReplyV::Nil]
    }
}

/// The duration, in milliseconds, of the expiry that a modifier asks for at
/// `now`, if it asks for one. An absolute time already past gives zero.
pub open spec fn expiry_millis(m: SetModifier, now: u64) -> Option<u64> {
    match m {
        SetModifier::Ex(s) => Some(secs_to_millis(s)),
        SetModifier::Px(ms) => Some(ms),
        SetModifier::ExAt(s) => Some(
            if secs_to_millis(s) > now { (secs_to_millis(s) - now) as u64 } else { 0 },
        ),
        SetModifier::PxAt(ms) => Some(if ms > now { (ms - now) as u64 } else { 0 }),
        _ => None,
    }
}

/// SET: NX on a present key and XX on an absent one change nothing and emit
/// nil; KEEPTTL writes and keeps the key's timer; GET writes and emits the
/// old value (or nil); the others write, replace the key's timer by the one
/// the modifier asks for (or by none), and acknowledge.
pub open spec fn set_outcome(
    db: Map<Seq<char>, Val>,
    ts: Seq<Timer>,
    key: Seq<char>,
    value: Seq<char>,
    m: SetModifier,
    now: u64,
) -> Outcome {
    let written = db.insert(key, Val::Str(value));
    if (m == SetModifier::Nx && db.contains_key(key)) || (m == SetModifier::Xx && !db.contains_key(
        key,
    )) {
        (db, ts, seq![ReplyV::Nil])
    } else if m == SetModifier::KeepTtl {
        (written, ts, seq![ReplyV::Ack])
    } else {
        let ts2 = match expiry_millis(m, now) {
            Some(d) => without_key(ts, key).push(Timer { key, birth: now as int, time: d as int }),
            None => without_key(ts, key),
        };
        let out = if m == SetModifier::Get {
            read_replies(db, key)
        } else {
            seq![ReplyV::Ack]
        };
        (written, ts2, out)
    }
}

/// DEL: removes the listed keys and their timers, and counts the distinct
/// listed keys that were present.
pub open spec fn del_outcome(db: Map<Seq<char>, Val>, ts: Seq<Timer>, keys: Seq<Seq<char>>) -> Outcome {
    (
        db.remove_keys(keys.to_set()),
        without_keys(ts, keys),
        seq![ReplyV::Integer(db.dom().intersect(keys.to_set()).len() as int)],
    )
}

/// `elements` pushed one after the other at the front of `l`.
pub open spec fn pushed_front(l: Seq<Seq<char>>, elements: Seq<Seq<char>>) -> Seq<Seq<char>> {
    elements.reverse() + l
}

/// LPUSH: fails on a string; otherwise pushes onto the list (a new one if
/// the key is absent) and emits its new length.
pub open spec fn lpush_outcome(
    db: Map<Seq<char>, Val>,
    key: Seq<char>,
    elements: Seq<Seq<char>>,
) -> Effect {
    if db.contains_key(key) && db[key] is Str {
        (db, seq![ReplyV::WrongType])
    } else {
        let l = if db.contains_key(key) { db[key]->List_0 } else { Seq::empty() };
        let nl = pushed_front(l, elements);
        (db.insert(key, Val::List(nl)), seq![ReplyV::Integer(nl.len() as int)])
    }
}

/// LPOP: nil on an absent key, a failure on a string; otherwise removes up
/// to `count` (one by default) elements from the front and emits them.
pub open spec fn lpop_outcome(
    db: Map<Seq<char>, Val>,
    key: Seq<char>,
    count: Option<usize>,
) -> Effect {
    if !db.contains_key(key) {
        (db, seq![ReplyV::Nil])
    } else if db[key] is Str {
        (db, seq![ReplyV::WrongType])
    } else {
        let l = db[key]->List_0;
        let c: int = match count {
            Some(c) => c as int,
            None => 1,
        };
        let n = if c < l.len() { c } else { l.len() as int };
        (db.insert(key, Val::List(l.subrange(n, l.len() as int))), numbered(l.subrange(0, n)))
    }
}

/// The elements of `l` at positions `start` through `stop` inclusive, cut to
/// the list's end; empty when `start` lies past `stop` or past the end.
pub open spec fn range_of(l: Seq<Seq<char>>, start: int, stop: int) -> Seq<Seq<char>> {
    let end = if stop + 1 < l.len() { stop + 1 } else { l.len() as int };
    if start < end {
        l.subrange(start, end)
    } else {
        Seq::empty()
    }
}

/// LRANGE: nothing on an absent key, a failure on a string; otherwise the
/// elements in range, numbered from 1. Changes nothing.
pub open spec fn lrange_replies(
    db: Map<Seq<char>, Val>,
    key: Seq<char>,
    start: usize,
    stop: usize,
) -> Seq<ReplyV> {
    if !db.contains_key(key) {
        Seq::empty()
    } else if db[key] is Str {
        seq![ReplyV::WrongType]
    } else {
        numbered(range_of(db[key]->List_0, start as int, stop as int))
    }
}

/// What a command does to a store and its timers, once they are swept.
pub open spec fn dispatch(db: Map<Seq<char>, Val>, ts: Seq<Timer>, c: CommandV, now: u64) -> Outcome {
    match c {
        CommandV::SetKey { key, value, modifier } => set_outcome(db, ts, key, value, modifier, now),
        CommandV::Del { keys } => del_outcome(db, ts, keys),
        CommandV::Get { key } => (db, ts, read_replies(db, key)),
        CommandV::LPush { key, elements } => {
            let e = lpush_outcome(db, key, elements);
            (e.0, ts, e.1)
        },
        CommandV::LPop { key, count } => {
            let e = lpop_outcome(db, key, count);
            (e.0, ts, e.1)
        },
        CommandV::LRange { key, start, stop } => (db, ts, lrange_replies(db, key, start, stop)),
    }
}

/// A full evaluation at `now`: the sweep of what has expired, then the command.
pub open spec fn step(db: Map<Seq<char>, Val>, ts: Seq<Timer>, c: CommandV, now: u64) -> Outcome {
    dispatch(db.remove_keys(expired_keys(ts, now as int)), live_at(ts, now as int), c, now)
}

/// A single reply line.
fn one(r: Reply) -> (v: Vec<Reply>)
    ensures
        replies_view(v@) == seq![r@],
{
    let v = vec![r];
    assert(replies_view(v@) =~= seq![r@]);
    v
}

/// The expiry duration that `m` asks for at `now`.
fn expiry_for(m: SetModifier, now: u64) -> (r: Option<u64>)
    ensures
        r == expiry_millis(m, now),
{
    match m {
        SetModifier::Ex(s) => Some(if s > u64::MAX / 1000 { u64::MAX } else { s * 1000 }),
        SetModifier::Px(ms) => Some(ms),
        SetModifier::ExAt(s) => {
            let at: u64 = if s > u64::MAX / 1000 { u64::MAX } else { s * 1000 };
            Some(if at > now { at - now } else { 0 })
        },
        SetModifier::PxAt(ms) => Some(if ms > now { ms - now } else { 0 }),
        _ => None,
    }
}

/// SET `key` `value` with modifier `m`, at time `now`.
pub fn set_command(
    db: &mut Store,
    expiring: &mut Vec<Expire>,
    key: &String,
    value: &String,
    m: SetModifier,
    now: u64,
) -> (r: Vec<Reply>)
    requires
        old(db).wf(),
    ensures
        final(db).wf(),
        (final(db)@, timers(final(expiring)@), replies_view(r@)) == set_outcome(
            old(db)@,
            timers(old(expiring)@),
            key@,
            value@,
            m,
            now,
        ),
{
    let present = db.contains_key(key);
    if (m == SetModifier::Nx && present) || (m == SetModifier::Xx && !present) {
        return one(Reply::Nil);
    }
    if m == SetModifier::KeepTtl {
        db.insert(key.clone(), Value::Str(value.clone()));
        return one(Reply::Ack);
    }
    let out = if m == SetModifier::Get {
        match db.get(key) {
            Some(v) => show_value(v),
            None => one(Reply::Nil),
        }
    } else {
        one(Reply::Ack)
    };
    match expiry_for(m, now) {
        Some(d) => register(expiring, key, d, now),
        None => kill_single_expired(expiring, key),
    }
    db.insert(key.clone(), Value::Str(value.clone()));
    out
}

/// DEL `keys`: removes each listed key that is present, with its timer, and
/// counts the removals.
pub fn del_command(db: &mut Store, expiring: &mut Vec<Expire>, keys: &Vec<String>) -> (r: Vec<Reply>)
    requires
        old(db).wf(),
    ensures
        final(db).wf(),
        (final(db)@, timers(final(expiring)@), replies_view(r@)) == del_outcome(
            old(db)@,
            timers(old(expiring)@),
            strings_view(keys@),
        ),
{
    let ghost db0 = db@;
    let ghost ks = strings_view(keys@);
    let mut count: usize = 0;
    let mut i: usize = 0;
    proof {
        db.lemma_dom_finite();
        assert(ks.subrange(0, 0).to_set() =~= Set::<Seq<char>>::empty());
        assert(db0.remove_keys(Set::<Seq<char>>::empty()) =~= db0);
        assert(db0.dom().intersect(Set::<Seq<char>>::empty()) =~= Set::<Seq<char>>::empty());
    }
    while i < keys.len()
        invariant
            db.wf(),
            i <= keys@.len(),
            count <= i,
            ks == strings_view(keys@),
            db0.dom().finite(),
            db@ == db0.remove_keys(ks.subrange(0, i as int).to_set()),
            count == db0.dom().intersect(ks.subrange(0, i as int).to_set()).len(),
        decreases keys@.len() - i,
    {
        let ghost pre = ks.subrange(0, i as int).to_set();
        let ghost k = ks[i as int];
        let ghost inter = db0.dom().intersect(pre);
        proof {
            assert(ks.subrange(0, i + 1).to_set() =~= pre.insert(k)) by {
                assert forall|x: Seq<char>| pre.insert(k).contains(x)
                    implies ks.subrange(0, i + 1).contains(x) by {
                    if x == k {
                        assert(ks.subrange(0, i + 1)[i as int] == x);
                    } else {
                        let j = choose|j: int| 0 <= j < i && #[trigger] ks.subrange(0, i as int)[j] == x;
                        assert(ks.subrange(0, i + 1)[j] == x);
                    }
                }
                assert forall|x: Seq<char>| ks.subrange(0, i + 1).contains(x)
                    implies pre.insert(k).contains(x) by {
                    let j = choose|j: int| 0 <= j < i + 1 && #[trigger] ks.subrange(0, i + 1)[j] == x;
                    if j < i {
                        assert(ks.subrange(0, i as int)[j] == x);
                    }
                }
            }
            assert(keys@[i as int]@ == k);
        }
        let removed = db.remove(&keys[i]);
        proof {
            assert(db@ =~= db0.remove_keys(pre.insert(k)));
        }
        if removed.is_some() {
            proof {
                assert(!inter.contains(k));
                assert(db0.dom().intersect(pre.insert(k)) =~= inter.insert(k));
            }
            count = count + 1;
        } else {
            assert(db0.dom().intersect(pre.insert(k)) =~= inter);
        }
        i = i + 1;
    }
    assert(ks.subrange(0, i as int) =~= ks);
    kill_listed_expired(expiring, keys);
    one(Reply::Integer(count))
}

/// GET `key`: its value, or nil when it is absent.
pub fn get_command(db: &Store, key: &String) -> (r: Vec<Reply>)
    requires
        db.wf(),
    ensures
        replies_view(r@) == read_replies(db@, key@),
{
    match db.get(key) {
        Some(v) => show_value(v),
        None => one(Reply::Nil),
    }
}

/// LPUSH `key` `elements`: each element in turn goes to the front of the list.
pub fn lpush_command(db: &mut Store, key: &String, elements: &Vec<String>) -> (r: Vec<Reply>)
    requires
        old(db).wf(),
    ensures
        final(db).wf(),
        (final(db)@, replies_view(r@)) == lpush_outcome(
            old(db)@,
            key@,
            strings_view(elements@),
        ),
{
    let ghost db0 = db@;
    if let Some(Value::Str(_)) = db.get(key) {
        return one(Reply::WrongType);
    }
    let old_list: Vec<String> = match db.remove(key) {
        Some(Value::LL(l)) => l,
        _ => Vec::new(),
    };
    let ghost l = strings_view(old_list@);
    let ghost es = strings_view(elements@);
    let mut list: Vec<String> = Vec::new();
    let mut j: usize = elements.len();
    while j > 0
        invariant
            j <= elements@.len(),
            list@.len() == elements@.len() - j,
            forall|x: int| 0 <= x < list@.len() ==> #[trigger] list@[x]@ == elements@[elements@.len() - 1 - x]@,
        decreases j,
    {
        j = j - 1;
        list.push(elements[j].clone());
    }
    let mut i: usize = 0;
    while i < old_list.len()
        invariant
            i <= old_list@.len(),
            list@.len() == elements@.len() + i,
            forall|x: int| 0 <= x < elements@.len() ==> #[trigger] list@[x]@ == elements@[elements@.len() - 1 - x]@,
            forall|x: int| elements@.len() <= x < list@.len() ==> #[trigger] list@[x]@ == old_list@[x - elements@.len()]@,
        decreases old_list@.len() - i,
    {
        list.push(old_list[i].clone());
        i = i + 1;
    }
    let n = list.len();
    assert(strings_view(list@) =~= pushed_front(l, es));
    db.insert(key.clone(), Value::LL(list));
    assert(db@ =~= db0.insert(key@, Val::List(pushed_front(l, es))));
    one(Reply::Integer(n))
}

/// LPOP `key` `count`: takes up to `count` elements (one by default) from
/// the front of the list.
pub fn lpop_command(db: &mut Store, key: &String, count: Option<usize>) -> (r: Vec<Reply>)
    requires
        old(db).wf(),
    ensures
        final(db).wf(),
        (final(db)@, replies_view(r@)) == lpop_outcome(
            old(db)@,
            key@,
            count,
        ),
{
    let ghost db0 = db@;
    match db.get(key) {
        None => return one(Reply::Nil),
        Some(Value::Str(_)) => return one(Reply::WrongType),
        Some(Value::LL(_)) => {},
    }
    let list: Vec<String> = match db.remove(key) {
        Some(Value::LL(l)) => l,
        _ => Vec::new(),
    };
    let c: usize = match count {
        Some(c) => c,
        None => 1,
    };
    let n: usize = if c < list.len() { c } else { list.len() };
    let out = number_items(&list, 0, n);
    let mut rest: Vec<String> = Vec::new();
    let mut i: usize = n;
    while i < list.len()
        invariant
            n <= i <= list@.len(),
            rest@ =~= list@.subrange(n as int, i as int),
        decreases list@.len() - i,
    {
        rest.push(list[i].clone());
        i = i + 1;
    }
    assert(strings_view(rest@) =~= strings_view(list@).subrange(n as int, list@.len() as int));
    let ghost l = strings_view(list@);
    db.insert(key.clone(), Value::LL(rest));
    assert(db@ =~= db0.insert(key@, Val::List(l.subrange(n as int, l.len() as int))));
    out
}

/// LRANGE `key` `start` `stop`: the elements at positions `start` through
/// `stop` inclusive.
pub fn lrange_command(db: &Store, key: &String, start: usize, stop: usize) -> (r: Vec<Reply>)
    requires
        db.wf(),
    ensures
        replies_view(r@) == lrange_replies(db@, key@, start, stop),
{
    match db.get(key) {
        None => {
            let v: Vec<Reply> = Vec::new();
            assert(replies_view(v@) =~= Seq::<ReplyV>::empty());
            v
        },
        Some(Value::Str(_)) => one(Reply::WrongType),
        Some(Value::LL(l)) => {
            let end: usize = if stop < l.len() { stop + 1 } else { l.len() };
            if start < end {
                number_items(l, start, end)
            } else {
                let v: Vec<Reply> = Vec::new();
                assert(replies_view(v@) =~= Seq::<ReplyV>::empty());
                v
            }
        },
    }
}

/// Evaluates one command at time `now` (milliseconds since the Unix epoch):
/// first sweeps what has expired, then carries out the command, and returns
/// the lines it emits.
pub fn evaluate(cmd: &Command, db: &mut Store, expiring: &mut Vec<Expire>, now: u64) -> (r: Vec<Reply>)
    requires
        old(db).wf(),
    ensures
        final(db).wf(),
        (final(db)@, timers(final(expiring)@), replies_view(r@)) == step(
            old(db)@,
            timers(old(expiring)@),
            cmd@,
            now,
        ),
{
    kill_all_expired(expiring, db, now);
    match cmd {
        Command::SetKey { key, value, modifier } => set_command(db, expiring, key, value, *modifier, now),
        Command::Del { keys } => del_command(db, expiring, keys),
        Command::Get { key } => get_command(db, key),
        Command::LPush { key, elements } => lpush_command(db, key, elements),
        Command::LPop { key, count } => lpop_command(db, key, *count),
        Command::LRange { key, start, stop } => lrange_command(db, key, *start, *stop),
    }
}

} // verus!
