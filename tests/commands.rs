use redislight::command::{evaluate, Command, SetModifier};
use redislight::expire::{
    kill_all_expired, kill_single_expired, Expire,
};
use redislight::reply::Reply;
use redislight::store::Store;
use redislight::value::Value;

fn s(x: &str) -> String {
    x.to_string()
}

struct Session {
    db: Store,
    expiring: Vec<Expire>,
}

impl Session {
    fn new() -> Self {
        Session { db: Store::new(), expiring: Vec::new() }
    }

    fn run(&mut self, cmd: Command, now: u64) -> Vec<String> {
        evaluate(&cmd, &mut self.db, &mut self.expiring, now)
            .iter()
            .map(|r| r.render())
            .collect()
    }
}

fn set(key: &str, value: &str, modifier: SetModifier) -> Command {
    Command::SetKey { key: s(key), value: s(value), modifier }
}

fn get(key: &str) -> Command {
    Command::Get { key: s(key) }
}

fn del(keys: &[&str]) -> Command {
    Command::Del { keys: keys.iter().map(|k| s(k)).collect() }
}

fn lpush(key: &str, elements: &[&str]) -> Command {
    Command::LPush { key: s(key), elements: elements.iter().map(|k| s(k)).collect() }
}

#[test]
fn set_then_get_round_trip() {
    let mut t = Session::new();
    assert_eq!(t.run(set("k", "v", SetModifier::NoModifier), 0), vec!["OK"]);
    assert_eq!(t.run(get("k"), 1_000_000), vec!["v"]);
}

#[test]
fn set_then_get_is_not_nil() {
    let mut t = Session::new();
    t.run(set("k", "first", SetModifier::NoModifier), 0);
    assert_eq!(t.run(set("k", "second", SetModifier::KeepTtl), 5), vec!["OK"]);
    assert_ne!(t.run(get("k"), 5), vec!["(nil)"]);
}

#[test]
fn set_ex_zero_then_get_is_nil() {
    let mut t = Session::new();
    assert_eq!(t.run(set("k", "v", SetModifier::Ex(0)), 100), vec!["OK"]);
    assert_eq!(t.run(get("k"), 100), vec!["(nil)"]);
}

#[test]
fn set_px_expires_after_duration() {
    let mut t = Session::new();
    t.run(set("k", "v", SetModifier::Px(50)), 1000);
    assert_eq!(t.run(get("k"), 1049), vec!["v"]);
    assert_eq!(t.run(get("k"), 1050), vec!["(nil)"]);
    assert!(t.expiring.is_empty());
}

#[test]
fn set_exat_uses_absolute_time() {
    let mut t = Session::new();
    t.run(set("k", "v", SetModifier::ExAt(10)), 4_000);
    assert_eq!(t.run(get("k"), 9_999), vec!["v"]);
    assert_eq!(t.run(get("k"), 10_000), vec!["(nil)"]);
}

#[test]
fn set_pxat_in_the_past_expires_at_once() {
    let mut t = Session::new();
    t.run(set("k", "v", SetModifier::PxAt(10)), 500);
    assert_eq!(t.run(get("k"), 500), vec!["(nil)"]);
}

#[test]
fn plain_set_clears_ttl() {
    let mut t = Session::new();
    t.run(set("k", "v", SetModifier::Px(10)), 0);
    t.run(set("k", "w", SetModifier::NoModifier), 1);
    assert_eq!(t.run(get("k"), 1_000), vec!["w"]);
}

#[test]
fn keepttl_keeps_ttl() {
    let mut t = Session::new();
    t.run(set("k", "v", SetModifier::Px(10)), 0);
    t.run(set("k", "w", SetModifier::KeepTtl), 1);
    assert_eq!(t.run(get("k"), 5), vec!["w"]);
    assert_eq!(t.run(get("k"), 10), vec!["(nil)"]);
}

#[test]
fn set_nx_on_existing_key_keeps_value() {
    let mut t = Session::new();
    t.run(set("k", "old", SetModifier::NoModifier), 0);
    assert_eq!(t.run(set("k", "new", SetModifier::Nx), 0), vec!["(nil)"]);
    assert_eq!(t.run(get("k"), 0), vec!["old"]);
}

#[test]
fn set_nx_on_absent_key_writes() {
    let mut t = Session::new();
    assert_eq!(t.run(set("k", "new", SetModifier::Nx), 0), vec!["OK"]);
    assert_eq!(t.run(get("k"), 0), vec!["new"]);
}

#[test]
fn set_xx_on_absent_key_leaves_it_absent() {
    let mut t = Session::new();
    assert_eq!(t.run(set("k", "v", SetModifier::Xx), 0), vec!["(nil)"]);
    assert_eq!(t.run(get("k"), 0), vec!["(nil)"]);
}

#[test]
fn set_xx_on_existing_key_writes() {
    let mut t = Session::new();
    t.run(set("k", "a", SetModifier::NoModifier), 0);
    assert_eq!(t.run(set("k", "b", SetModifier::Xx), 0), vec!["OK"]);
    assert_eq!(t.run(get("k"), 0), vec!["b"]);
}

#[test]
fn set_get_returns_old_value_and_writes() {
    let mut t = Session::new();
    assert_eq!(t.run(set("k", "a", SetModifier::Get), 0), vec!["(nil)"]);
    assert_eq!(t.run(set("k", "b", SetModifier::Get), 0), vec!["a"]);
    assert_eq!(t.run(get("k"), 0), vec!["b"]);
}

#[test]
fn del_counts_existing_keys() {
    let mut t = Session::new();
    t.run(set("a", "1", SetModifier::NoModifier), 0);
    t.run(set("b", "2", SetModifier::NoModifier), 0);
    assert_eq!(t.run(del(&["a", "x", "b", "y"]), 0), vec!["(integer) 2"]);
    assert_eq!(t.run(get("a"), 0), vec!["(nil)"]);
}

#[test]
fn del_duplicate_key_counts_once() {
    let mut t = Session::new();
    t.run(set("a", "1", SetModifier::NoModifier), 0);
    assert_eq!(t.run(del(&["a", "a"]), 0), vec!["(integer) 1"]);
}

#[test]
fn del_absent_key_twice_gives_zero() {
    let mut t = Session::new();
    assert_eq!(t.run(del(&["k"]), 0), vec!["(integer) 0"]);
    assert_eq!(t.run(del(&["k"]), 0), vec!["(integer) 0"]);
}

#[test]
fn del_clears_ttl() {
    let mut t = Session::new();
    t.run(set("k", "v", SetModifier::Px(10)), 0);
    t.run(del(&["k"]), 1);
    assert!(t.expiring.is_empty());
    t.run(lpush("k", &["x"]), 2);
    assert_eq!(t.run(get("k"), 100), vec!["1) x"]);
}

#[test]
fn lpush_then_lrange_reverses() {
    let mut t = Session::new();
    assert_eq!(t.run(lpush("k", &["a", "b", "c"]), 0), vec!["(integer) 3"]);
    assert_eq!(
        t.run(Command::LRange { key: s("k"), start: 0, stop: 2 }, 0),
        vec!["1) c", "2) b", "3) a"]
    );
}

#[test]
fn lpush_onto_existing_list() {
    let mut t = Session::new();
    t.run(lpush("k", &["a"]), 0);
    assert_eq!(t.run(lpush("k", &["b", "c"]), 0), vec!["(integer) 3"]);
    assert_eq!(t.run(get("k"), 0), vec!["1) c", "2) b", "3) a"]);
}

#[test]
fn lpush_on_string_is_wrong_type() {
    let mut t = Session::new();
    t.run(set("k", "v", SetModifier::NoModifier), 0);
    assert_eq!(
        t.run(lpush("k", &["a"]), 0),
        vec!["(error) WRONGTYPE Operation against a key holding the wrong kind of value"]
    );
    assert_eq!(t.run(get("k"), 0), vec!["v"]);
}

#[test]
fn lpop_more_than_length() {
    let mut t = Session::new();
    t.run(lpush("k", &["a"]), 0);
    assert_eq!(t.run(Command::LPop { key: s("k"), count: Some(2) }, 0), vec!["1) a"]);
    assert_eq!(t.run(Command::LPop { key: s("k"), count: None }, 0), Vec::<String>::new());
}

#[test]
fn lpop_default_count_is_one() {
    let mut t = Session::new();
    t.run(lpush("k", &["a", "b"]), 0);
    assert_eq!(t.run(Command::LPop { key: s("k"), count: None }, 0), vec!["1) b"]);
    assert_eq!(t.run(get("k"), 0), vec!["1) a"]);
}

#[test]
fn lpop_absent_and_wrong_type() {
    let mut t = Session::new();
    assert_eq!(t.run(Command::LPop { key: s("k"), count: None }, 0), vec!["(nil)"]);
    t.run(set("k", "v", SetModifier::NoModifier), 0);
    assert_eq!(
        t.run(Command::LPop { key: s("k"), count: Some(1) }, 0),
        vec!["(error) WRONGTYPE Operation against a key holding the wrong kind of value"]
    );
}

#[test]
fn lrange_past_end_is_empty() {
    let mut t = Session::new();
    t.run(lpush("k", &["a", "b", "c"]), 0);
    assert_eq!(t.run(Command::LRange { key: s("k"), start: 5, stop: 10 }, 0), Vec::<String>::new());
}

#[test]
fn lrange_truncates_and_handles_reversed_bounds() {
    let mut t = Session::new();
    t.run(lpush("k", &["a", "b", "c"]), 0);
    assert_eq!(
        t.run(Command::LRange { key: s("k"), start: 1, stop: 99 }, 0),
        vec!["1) b", "2) a"]
    );
    assert_eq!(t.run(Command::LRange { key: s("k"), start: 2, stop: 1 }, 0), Vec::<String>::new());
    assert_eq!(t.run(Command::LRange { key: s("x"), start: 0, stop: 1 }, 0), Vec::<String>::new());
    assert_eq!(
        t.run(Command::LRange { key: s("k"), start: 0, stop: usize::MAX }, 0),
        vec!["1) c", "2) b", "3) a"]
    );
}

#[test]
fn end_to_end_example() {
    let mut t = Session::new();
    assert_eq!(t.run(set("a", "hello", SetModifier::NoModifier), 0), vec!["OK"]);
    assert_eq!(t.run(get("a"), 0), vec!["hello"]);
    assert_eq!(t.run(del(&["a"]), 0), vec!["(integer) 1"]);
    assert_eq!(t.run(get("a"), 0), vec!["(nil)"]);
}

#[test]
fn render_formats() {
    assert_eq!(Reply::Ack.render(), "OK");
    assert_eq!(Reply::Nil.render(), "(nil)");
    assert_eq!(Reply::Integer(42).render(), "(integer) 42");
    assert_eq!(Reply::Integer(0).render(), "(integer) 0");
    assert_eq!(Reply::Bulk(s("x y")).render(), "x y");
    assert_eq!(Reply::Item(12, s("e")).render(), "12) e");
}

#[test]
fn expire_builder_and_single_kill() {
    let e = Expire::builder().key(&s("k")).milliseconds(&250).finish(1000);
    assert_eq!(e.key, "k");
    assert_eq!(e.time, 250);
    assert_eq!(e.birth, 1000);
    assert!(!e.is_expired(1249));
    assert!(e.is_expired(1250));
    let e2 = Expire::builder().seconds(&3).key(&s("j")).finish(0);
    assert_eq!(e2.time, 3000);
    let mut list = vec![e, e2];
    kill_single_expired(&mut list, &s("k"));
    assert_eq!(list.len(), 1);
    assert_eq!(list[0].key, "j");
    kill_single_expired(&mut list, &s("absent"));
    assert_eq!(list.len(), 1);
}

#[test]
fn kill_all_expired_sweeps_store() {
    let mut db = Store::new();
    db.insert(s("a"), Value::Str(s("1")));
    db.insert(s("b"), Value::Str(s("2")));
    let mut list = vec![Expire::new(&s("a"), 10, 0), Expire::new(&s("b"), 100, 0)];
    kill_all_expired(&mut list, &mut db, 50);
    assert!(!db.contains_key(&s("a")));
    assert!(db.contains_key(&s("b")));
    assert_eq!(list.len(), 1);
    assert_eq!(list[0].key, "b");
}
