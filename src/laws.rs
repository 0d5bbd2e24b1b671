use vstd::prelude::*;
use crate::command::{CommandV, SetModifier, step, expiry_millis, range_of};
use crate::expire::{
    Timer, expired_keys, live_at, unwatched, lemma_without_key_unwatched,
    lemma_live_at_unwatched,
};
use crate::reply::{ReplyV, value_replies, numbered};
use crate::value::Val;

verus! {

/// A value never shows as the nil marker alone.
proof fn lemma_value_not_nil(v: Val)
    ensures
        value_replies(v) != seq![ReplyV::Nil],
{
    match v {
        Val::Str(s) => {
            assert(value_replies(v)[0] == ReplyV::Bulk(s));
        },
        Val::List(l) => {
            if l.len() == 1 {
                assert(value_replies(v)[0] == ReplyV::Item(1, l[0]));
            } else {
                assert(value_replies(v).len() != 1);
            }
        },
    }
}

/// A plain SET of `key` to `value`, followed at any time by a GET of `key`,
/// reads back `value`.
pub proof fn lemma_set_then_get(
    db: Map<Seq<char>, Val>,
    ts: Seq<Timer>,
    key: Seq<char>,
    value: Seq<char>,
    now: u64,
    later: u64,
)
    ensures
        ({
            let a = step(db, ts, CommandV::SetKey { key, value, modifier: SetModifier::NoModifier }, now);
            step(a.0, a.1, CommandV::Get { key }, later).2 == seq![ReplyV::Bulk(value)]
        }),
{
    let a = step(db, ts, CommandV::SetKey { key, value, modifier: SetModifier::NoModifier }, now);
    lemma_without_key_unwatched(live_at(ts, now as int), key);
    assert(!expired_keys(a.1, later as int).contains(key));
}

/// Where no timer watches `key`, a SET of it without expiry (plain, KEEPTTL,
/// GET or NX) followed at any time by a GET of `key` never reads nil.
pub proof fn lemma_set_then_get_not_nil(
    db: Map<Seq<char>, Val>,
    ts: Seq<Timer>,
    key: Seq<char>,
    value: Seq<char>,
    m: SetModifier,
    now: u64,
    later: u64,
)
    requires
        unwatched(ts, key),
        m == SetModifier::NoModifier || m == SetModifier::KeepTtl || m == SetModifier::Get || m
            == SetModifier::Nx,
    ensures
        ({
            let a = step(db, ts, CommandV::SetKey { key, value, modifier: m }, now);
            step(a.0, a.1, CommandV::Get { key }, later).2 != seq![ReplyV::Nil]
        }),
{
    let a = step(db, ts, CommandV::SetKey { key, value, modifier: m }, now);
    lemma_live_at_unwatched(ts, key, now as int);
    lemma_without_key_unwatched(live_at(ts, now as int), key);
    assert(unwatched(a.1, key));
    assert(!expired_keys(a.1, later as int).contains(key));
    assert(a.0.contains_key(key));
    lemma_value_not_nil(a.0[key]);
}

/// A SET with an expiry of `d` milliseconds, followed by a GET once `d`
/// milliseconds have passed, reads nil.
pub proof fn lemma_set_with_expiry_then_get(
    db: Map<Seq<char>, Val>,
    ts: Seq<Timer>,
    key: Seq<char>,
    value: Seq<char>,
    m: SetModifier,
    now: u64,
    later: u64,
)
    requires
        expiry_millis(m, now) is Some,
        later >= now + expiry_millis(m, now)->Some_0,
    ensures
        ({
            let a = step(db, ts, CommandV::SetKey { key, value, modifier: m }, now);
            step(a.0, a.1, CommandV::Get { key }, later).2 == seq![ReplyV::Nil]
        }),
{
    let a = step(db, ts, CommandV::SetKey { key, value, modifier: m }, now);
    let last = a.1.len() - 1;
    assert(a.1[last].key == key && a.1[last].expired(later as int));
    assert(expired_keys(a.1, later as int).contains(key));
}

/// A SET with NX of a key that is present (and not expired) leaves the store
/// as the sweep left it, the key's value included.
pub proof fn lemma_set_nx_keeps_value(
    db: Map<Seq<char>, Val>,
    ts: Seq<Timer>,
    key: Seq<char>,
    value: Seq<char>,
    now: u64,
)
    requires
        db.contains_key(key),
        !expired_keys(ts, now as int).contains(key),
    ensures
        ({
            let a = step(db, ts, CommandV::SetKey { key, value, modifier: SetModifier::Nx }, now);
            &&& a.0 == db.remove_keys(expired_keys(ts, now as int))
            &&& a.0.contains_key(key)
            &&& a.0[key] == db[key]
        }),
{
}

/// A SET with XX of an absent key leaves the store without it.
pub proof fn lemma_set_xx_absent(
    db: Map<Seq<char>, Val>,
    ts: Seq<Timer>,
    key: Seq<char>,
    value: Seq<char>,
    now: u64,
)
    requires
        !db.contains_key(key),
    ensures
        !step(db, ts, CommandV::SetKey { key, value, modifier: SetModifier::Xx }, now).0.contains_key(key),
{
}

/// Among keys listed once each, the present ones are as many as the listed
/// keys that are present.
proof fn lemma_present_count(dom: Set<Seq<char>>, keys: Seq<Seq<char>>)
    requires
        dom.finite(),
        keys.no_duplicates(),
    ensures
        dom.intersect(keys.to_set()).len() == keys.filter(|k: Seq<char>| dom.contains(k)).len(),
    decreases keys.len(),
{
    let p = |k: Seq<char>| dom.contains(k);
    if keys.len() == 0 {
        assert(dom.intersect(keys.to_set()) =~= Set::<Seq<char>>::empty());
        reveal(Seq::filter);
    } else {
        let pre = keys.drop_last();
        let k = keys.last();
        assert(pre.no_duplicates());
        lemma_present_count(dom, pre);
        assert(pre.push(k) =~= keys);
        pre.lemma_filter_push(k, p);
        assert(keys.to_set() =~= pre.to_set().insert(k));
        assert(!pre.to_set().contains(k));
        if dom.contains(k) {
            assert(dom.intersect(keys.to_set()) =~= dom.intersect(pre.to_set()).insert(k));
        } else {
            assert(dom.intersect(keys.to_set()) =~= dom.intersect(pre.to_set()));
        }
    }
}

/// DEL of distinct keys emits the number of them that are present once the
/// sweep is done.
pub proof fn lemma_del_counts_present(
    db: Map<Seq<char>, Val>,
    ts: Seq<Timer>,
    keys: Seq<Seq<char>>,
    now: u64,
)
    requires
        db.dom().finite(),
        keys.no_duplicates(),
    ensures
        ({
            let swept = db.remove_keys(expired_keys(ts, now as int));
            step(db, ts, CommandV::Del { keys }, now).2 == seq![
                ReplyV::Integer(keys.filter(|k: Seq<char>| swept.contains_key(k)).len() as int),
            ]
        }),
{
    let swept = db.remove_keys(expired_keys(ts, now as int));
    assert(swept.dom() =~= db.dom().difference(expired_keys(ts, now as int)));
    lemma_present_count(swept.dom(), keys);
    assert(keys.filter(|k: Seq<char>| swept.dom().contains(k)) == keys.filter(
        |k: Seq<char>| swept.contains_key(k),
    ));
}

/// DEL of an absent key emits zero, and so does the same DEL repeated.
pub proof fn lemma_del_absent_twice(
    db: Map<Seq<char>, Val>,
    ts: Seq<Timer>,
    key: Seq<char>,
    now: u64,
    later: u64,
)
    requires
        !db.remove_keys(expired_keys(ts, now as int)).contains_key(key),
    ensures
        ({
            let a = step(db, ts, CommandV::Del { keys: seq![key] }, now);
            &&& a.2 == seq![ReplyV::Integer(0)]
            &&& step(a.0, a.1, CommandV::Del { keys: seq![key] }, later).2 == seq![ReplyV::Integer(0)]
        }),
{
    let swept = db.remove_keys(expired_keys(ts, now as int));
    let a = step(db, ts, CommandV::Del { keys: seq![key] }, now);
    assert(seq![key].to_set() =~= set![key]) by {
        assert(seq![key][0] == key);
    }
    assert(swept.dom().intersect(set![key]) =~= Set::<Seq<char>>::empty());
    let swept2 = a.0.remove_keys(expired_keys(a.1, later as int));
    assert(!swept2.contains_key(key));
    assert(swept2.dom().intersect(set![key]) =~= Set::<Seq<char>>::empty());
}

/// LPUSH of `elements` onto an absent, unwatched key, followed at any time by
/// an LRANGE over as many positions from 0, emits the elements in reverse
/// order.
pub proof fn lemma_lpush_then_lrange(
    db: Map<Seq<char>, Val>,
    ts: Seq<Timer>,
    key: Seq<char>,
    elements: Seq<Seq<char>>,
    now: u64,
    later: u64,
)
    requires
        !db.contains_key(key),
        unwatched(ts, key),
        1 <= elements.len() <= usize::MAX,
    ensures
        ({
            let a = step(db, ts, CommandV::LPush { key, elements }, now);
            step(
                a.0,
                a.1,
                CommandV::LRange { key, start: 0, stop: (elements.len() - 1) as usize },
                later,
            ).2 == numbered(elements.reverse())
        }),
{
    let a = step(db, ts, CommandV::LPush { key, elements }, now);
    lemma_live_at_unwatched(ts, key, now as int);
    assert(!expired_keys(a.1, later as int).contains(key));
    let l = elements.reverse() + Seq::<Seq<char>>::empty();
    assert(l =~= elements.reverse());
    assert(range_of(l, 0, elements.len() - 1) =~= l);
}

/// LPOP of `count` elements from a list of `l.len()` elements emits
/// exactly `min(count, l.len())` of them, from the front.
pub proof fn lemma_lpop_partial(
    db: Map<Seq<char>, Val>,
    ts: Seq<Timer>,
    key: Seq<char>,
    l: Seq<Seq<char>>,
    count: usize,
    now: u64,
)
    requires
        db.contains_key(key),
        db[key] == Val::List(l),
        !expired_keys(ts, now as int).contains(key),
    ensures
        ({
            let out = step(db, ts, CommandV::LPop { key, count: Some(count) }, now).2;
            let n = if count < l.len() { count as int } else { l.len() as int };
            &&& out.len() == n
            &&& out == numbered(l.subrange(0, n))
        }),
{
}

/// LRANGE that starts at or past the end of a list emits nothing.
pub proof fn lemma_lrange_past_end(
    db: Map<Seq<char>, Val>,
    ts: Seq<Timer>,
    key: Seq<char>,
    l: Seq<Seq<char>>,
    start: usize,
    stop: usize,
    now: u64,
)
    requires
        db.contains_key(key),
        db[key] == Val::List(l),
        !expired_keys(ts, now as int).contains(key),
        start >= l.len(),
    ensures
        step(db, ts, CommandV::LRange { key, start, stop }, now).2.len() == 0,
{
}

} // verus!
