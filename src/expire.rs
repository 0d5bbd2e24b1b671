use vstd::prelude::*;
use crate::store::Store;
use crate::value::strings_view;

verus! {

/// The mathematical content of an expiry entry: the key it watches, the
/// time it was made and how long it lasts, both in milliseconds.
pub struct Timer {
    pub key: Seq<char>,
    pub birth: int,
    pub time: int,
}

impl Timer {
    /// The deadline has been reached at `now`.
    pub open spec fn expired(self, now: int) -> bool {
        self.birth + self.time <= now
    }
}

/// Associates a key with an expiration timer. `birth` is the time, in
/// milliseconds, at which the entry was made and `time` its duration in
/// milliseconds; the key expires once `birth + time` is reached.
#[derive(Debug)]
pub struct Expire {
    pub key: String,
    pub time: u64,
    pub birth: u64,
}

impl View for Expire {
    type V = Timer;

    open spec fn view(&self) -> Timer {
        Timer { key: self.key@, birth: self.birth as int, time: self.time as int }
    }
}

/// The timers of a list of expiry entries, in order.
pub open spec fn timers(v: Seq<Expire>) -> Seq<Timer> {
    v.map_values(|e: Expire| e@)
}

/// The timers that do not watch `key`.
pub open spec fn without_key(ts: Seq<Timer>, key: Seq<char>) -> Seq<Timer> {
    ts.filter(|t: Timer| t.key != key)
}

/// The timers that watch none of `keys`.
pub open spec fn without_keys(ts: Seq<Timer>, keys: Seq<Seq<char>>) -> Seq<Timer> {
    ts.filter(|t: Timer| !keys.contains(t.key))
}

/// The timers that are still running at `now`.
pub open spec fn live_at(ts: Seq<Timer>, now: int) -> Seq<Timer> {
    ts.filter(|t: Timer| !t.expired(now))
}

/// The keys watched by a timer that has run out at `now`.
pub open spec fn expired_keys(ts: Seq<Timer>, now: int) -> Set<Seq<char>> {
    Set::new(|k: Seq<char>| exists|i: int| 0 <= i < ts.len() && ts[i].key == k && ts[i].expired(now))
}

/// No two timers watch the same key.
pub open spec fn keys_unique(ts: Seq<Timer>) -> bool {
    forall|i: int, j: int| 0 <= i < j < ts.len() ==> ts[i].key != ts[j].key
}

/// No timer watches `key`.
pub open spec fn unwatched(ts: Seq<Timer>, key: Seq<char>) -> bool {
    forall|i: int| 0 <= i < ts.len() ==> #[trigger] ts[i].key != key
}

/// Once the timers of `key` are dropped, none watches it.
pub proof fn lemma_without_key_unwatched(ts: Seq<Timer>, key: Seq<char>)
    ensures
        unwatched(without_key(ts, key), key),
{
    assert forall|i: int| 0 <= i < without_key(ts, key).len() implies #[trigger] without_key(ts, key)[i].key
        != key by {
        ts.lemma_filter_pred(|t: Timer| t.key != key, i);
    }
}

/// Dropping the timers that have run out keeps a key unwatched.
pub proof fn lemma_live_at_unwatched(ts: Seq<Timer>, key: Seq<char>, now: int)
    requires
        unwatched(ts, key),
    ensures
        unwatched(live_at(ts, now), key),
{
    let lv = live_at(ts, now);
    assert forall|i: int| 0 <= i < lv.len() implies #[trigger] lv[i].key != key by {
        assert(lv.contains(lv[i]));
        ts.lemma_filter_contains_rev(|t: Timer| !t.expired(now), lv[i]);
    }
}

/// A duration of `secs` seconds in milliseconds, saturated at `u64::MAX`.
pub open spec fn secs_to_millis(secs: u64) -> u64 {
    if secs as int * 1000 > u64::MAX as int {
        u64::MAX
    } else {
        (secs * 1000) as u64
    }
}

/// Staged construction of an [`Expire`].
#[derive(Debug)]
pub struct ExpireBuilder {
    pub key: Option<String>,
    pub time: Option<u64>,
}

impl Expire {
    /// An expiry entry for `key`, made at `now`, lasting `time` milliseconds.
    pub fn new(key: &String, time: u64, now: u64) -> (r: Expire)
        ensures
            r@ == (Timer { key: key@, birth: now as int, time: time as int }),
    {
        Expire { key: key.clone(), time, birth: now }
    }

    /// A builder with nothing set.
    pub fn builder() -> (r: ExpireBuilder)
        ensures
            r.key.is_none(),
            r.time.is_none(),
    {
        ExpireBuilder { key: None, time: None }
    }

    /// Whether the entry has run out at `now`.
    pub fn is_expired(&self, now: u64) -> (r: bool)
        ensures
            r == self@.expired(now as int),
    {
        now >= self.birth && now - self.birth >= self.time
    }
}

impl ExpireBuilder {
    /// Sets the key to watch.
    pub fn key(self, key: &String) -> (r: ExpireBuilder)
        ensures
            r.key.is_some() && r.key.unwrap()@ == key@,
            r.time == self.time,
    {
        ExpireBuilder { key: Some(key.clone()), time: self.time }
    }

    /// Sets the duration in whole seconds (saturating on overflow).
    pub fn seconds(self, sec: &u64) -> (r: ExpireBuilder)
        ensures
            r.time == Some(secs_to_millis(*sec)),
            r.key == self.key,
    {
        let ms: u64 = if *sec > u64::MAX / 1000 {
            u64::MAX
        } else {
            *sec * 1000
        };
        ExpireBuilder { key: self.key, time: Some(ms) }
    }

    /// Sets the duration in milliseconds.
    pub fn milliseconds(self, millis: &u64) -> (r: ExpireBuilder)
        ensures
            r.time == Some(*millis),
            r.key == self.key,
    {
        ExpireBuilder { key: self.key, time: Some(*millis) }
    }

    /// The built entry, made at `now`; a key and a time must have been set.
    pub fn finish(self, now: u64) -> (r: Expire)
        requires
            self.key.is_some(),
            self.time.is_some(),
        ensures
            r@ == (Timer { key: self.key.unwrap()@, birth: now as int, time: self.time.unwrap() as int }),
    {
        let key = self.key.unwrap();
        let time = self.time.unwrap();
        Expire { key, time, birth: now }
    }
}

proof fn lemma_without_key_push(ts: Seq<Timer>, t: Timer, key: Seq<char>)
    ensures
        without_key(ts.push(t), key) == if t.key != key {
            without_key(ts, key).push(t)
        } else {
            without_key(ts, key)
        },
{
    ts.lemma_filter_push(t, |t: Timer| t.key != key);
}

proof fn lemma_without_keys_push(ts: Seq<Timer>, t: Timer, keys: Seq<Seq<char>>)
    ensures
        without_keys(ts.push(t), keys) == if !keys.contains(t.key) {
            without_keys(ts, keys).push(t)
        } else {
            without_keys(ts, keys)
        },
{
    ts.lemma_filter_push(t, |t: Timer| !keys.contains(t.key));
}

proof fn lemma_live_at_push(ts: Seq<Timer>, t: Timer, now: int)
    ensures
        live_at(ts.push(t), now) == if !t.expired(now) {
            live_at(ts, now).push(t)
        } else {
            live_at(ts, now)
        },
{
    ts.lemma_filter_push(t, |t: Timer| !t.expired(now));
}

/// Removes every expiry entry that watches `key`; a no-op if there is none.
pub fn kill_single_expired(expiring: &mut Vec<Expire>, key: &String)
    ensures
        timers(final(expiring)@) == without_key(timers(old(expiring)@), key@),
{
    let ghost all = old(expiring)@;
    let mut kept: Vec<Expire> = Vec::new();
    let ghost mut k: int = 0;
    while expiring.len() > 0
        invariant
            0 <= k <= all.len(),
            expiring@ == all.subrange(k, all.len() as int),
            timers(kept@) == without_key(timers(all.subrange(0, k)), key@),
        decreases expiring.len(),
    {
        let e = expiring.remove(0);
        proof {
            assert(e == all[k]);
            assert(timers(all.subrange(0, k + 1)) =~= timers(all.subrange(0, k)).push(e@));
            lemma_without_key_push(timers(all.subrange(0, k)), e@, key@);
            k = k + 1;
            assert(expiring@ =~= all.subrange(k, all.len() as int));
        }
        if e.key != *key {
            let ghost before = kept@;
            kept.push(e);
            assert(timers(kept@) =~= timers(before).push(e@));
        }
    }
    assert(all.subrange(0, k) =~= all);
    *expiring = kept;
}

/// Whether `key` is one of `keys`.
fn holds_key(keys: &Vec<String>, key: &String) -> (r: bool)
    ensures
        r == strings_view(keys@).contains(key@),
{
    let mut i: usize = 0;
    while i < keys.len()
        invariant
            i <= keys@.len(),
            forall|j: int| 0 <= j < i ==> keys@[j]@ != key@,
        decreases keys@.len() - i,
    {
        if keys[i] == *key {
            assert(strings_view(keys@)[i as int] == key@);
            return true;
        }
        i = i + 1;
    }
    proof {
        if strings_view(keys@).contains(key@) {
            let j = choose|j: int| 0 <= j < keys@.len() && strings_view(keys@)[j] == key@;
            assert(keys@[j]@ == key@);
        }
    }
    false
}

/// Removes every expiry entry that watches one of `keys`.
pub fn kill_listed_expired(expiring: &mut Vec<Expire>, keys: &Vec<String>)
    ensures
        timers(final(expiring)@) == without_keys(timers(old(expiring)@), strings_view(keys@)),
{
    let ghost all = old(expiring)@;
    let mut kept: Vec<Expire> = Vec::new();
    let ghost mut k: int = 0;
    while expiring.len() > 0
        invariant
            0 <= k <= all.len(),
            expiring@ == all.subrange(k, all.len() as int),
            timers(kept@) == without_keys(timers(all.subrange(0, k)), strings_view(keys@)),
        decreases expiring.len(),
    {
        let e = expiring.remove(0);
        proof {
            assert(e == all[k]);
            assert(timers(all.subrange(0, k + 1)) =~= timers(all.subrange(0, k)).push(e@));
            lemma_without_keys_push(timers(all.subrange(0, k)), e@, strings_view(keys@));
            k = k + 1;
            assert(expiring@ =~= all.subrange(k, all.len() as int));
        }
        if !holds_key(keys, &e.key) {
            let ghost before = kept@;
            kept.push(e);
            assert(timers(kept@) =~= timers(before).push(e@));
        }
    }
    assert(all.subrange(0, k) =~= all);
    *expiring = kept;
}

/// Registers an expiry entry for `key`, made at `now` and lasting `time`
/// milliseconds, in place of any earlier entry for `key`.
pub fn register(expiring: &mut Vec<Expire>, key: &String, time: u64, now: u64)
    ensures
        timers(final(expiring)@) == without_key(timers(old(expiring)@), key@).push(
            Timer { key: key@, birth: now as int, time: time as int },
        ),
{
    kill_single_expired(expiring, key);
    let ghost before = expiring@;
    expiring.push(Expire::new(key, time, now));
    assert(timers(expiring@) =~= timers(before).push(Timer { key: key@, birth: now as int, time: time as int }));
}

/// Sweeps the entries that have run out at `now`: each one's key leaves the
/// store, and the entry leaves the list.
pub fn kill_all_expired(expiring: &mut Vec<Expire>, db: &mut Store, now: u64)
    requires
        old(db).wf(),
    ensures
        final(db).wf(),
        final(db)@ == old(db)@.remove_keys(expired_keys(timers(old(expiring)@), now as int)),
        timers(final(expiring)@) == live_at(timers(old(expiring)@), now as int),
{
    let ghost all = old(expiring)@;
    let ghost db0 = old(db)@;
    let mut kept: Vec<Expire> = Vec::new();
    let ghost mut k: int = 0;
    while expiring.len() > 0
        invariant
            0 <= k <= all.len(),
            expiring@ == all.subrange(k, all.len() as int),
            timers(kept@) == live_at(timers(all.subrange(0, k)), now as int),
            db.wf(),
            db@ == db0.remove_keys(expired_keys(timers(all.subrange(0, k)), now as int)),
        decreases expiring.len(),
    {
        let e = expiring.remove(0);
        let ghost pre = timers(all.subrange(0, k));
        proof {
            assert(e == all[k]);
            assert(timers(all.subrange(0, k + 1)) =~= pre.push(e@));
            lemma_live_at_push(pre, e@, now as int);
        }
        if e.is_expired(now) {
            db.remove(&e.key);
            assert(expired_keys(pre.push(e@), now as int) =~= expired_keys(pre, now as int).insert(e@.key)) by {
                assert forall|x: Seq<char>| expired_keys(pre, now as int).insert(e@.key).contains(x)
                    implies expired_keys(pre.push(e@), now as int).contains(x) by {
                    if x == e@.key {
                        assert(pre.push(e@)[pre.len() as int] == e@);
                    } else {
                        let i = choose|i: int| 0 <= i < pre.len() && pre[i].key == x && pre[i].expired(now as int);
                        assert(pre.push(e@)[i] == pre[i]);
                    }
                }
                assert forall|x: Seq<char>| expired_keys(pre.push(e@), now as int).contains(x)
                    implies expired_keys(pre, now as int).insert(e@.key).contains(x) by {
                    let i = choose|i: int| 0 <= i < pre.len() + 1 && pre.push(e@)[i].key == x && pre.push(e@)[i].expired(now as int);
                    if i < pre.len() {
                        assert(pre[i] == pre.push(e@)[i]);
                    }
                }
            }
            assert(db@ =~= db0.remove_keys(expired_keys(pre.push(e@), now as int)));
        } else {
            assert(expired_keys(pre.push(e@), now as int) =~= expired_keys(pre, now as int)) by {
                assert forall|x: Seq<char>| expired_keys(pre, now as int).contains(x)
                    implies expired_keys(pre.push(e@), now as int).contains(x) by {
                    let i = choose|i: int| 0 <= i < pre.len() && pre[i].key == x && pre[i].expired(now as int);
                    assert(pre.push(e@)[i] == pre[i]);
                }
                assert forall|x: Seq<char>| expired_keys(pre.push(e@), now as int).contains(x)
                    implies expired_keys(pre, now as int).contains(x) by {
                    let i = choose|i: int| 0 <= i < pre.len() + 1 && pre.push(e@)[i].key == x && pre.push(e@)[i].expired(now as int);
                    assert(i < pre.len());
                    assert(pre[i] == pre.push(e@)[i]);
                }
            }
            let ghost before = kept@;
            kept.push(e);
            assert(timers(kept@) =~= timers(before).push(e@));
        }
        proof {
            k = k + 1;
            assert(expiring@ =~= all.subrange(k, all.len() as int));
        }
    }
    assert(all.subrange(0, k) =~= all);
    *expiring = kept;
}

} // verus!
