use redislight::command::{Command, SetModifier};
use redislight::expire::Expire;
use redislight::parser::{eval, parse, parse_u64, parse_usize, parse_words};
use redislight::store::Store;
use redislight::tokenizer::RedisToken::{EOC, EX, GET, LITERAL, SET};
use redislight::tokenizer::Tokenizer;

fn words(ws: &[&str]) -> Vec<String> {
    ws.iter().map(|w| w.to_string()).collect()
}

fn run_line(db: &mut Store, expiring: &mut Vec<Expire>, line: &str, now: u64) -> Option<Vec<String>> {
    let mut t = Tokenizer::new(line.to_string());
    assert!(t.tokenize());
    eval(t.tokens(), db, expiring, now)
}

#[test]
fn parse_numbers() {
    assert_eq!(parse_u64(&"0".to_string()), Some(0));
    assert_eq!(parse_u64(&"1234".to_string()), Some(1234));
    assert_eq!(parse_u64(&"18446744073709551615".to_string()), Some(u64::MAX));
    assert_eq!(parse_u64(&"18446744073709551616".to_string()), None);
    assert_eq!(parse_u64(&"".to_string()), None);
    assert_eq!(parse_u64(&"12a".to_string()), None);
    assert_eq!(parse_u64(&"-1".to_string()), None);
    assert_eq!(parse_usize(&"7".to_string()), Some(7));
}

#[test]
fn parse_set_forms() {
    match parse_words(&words(&["SET", "k", "v"])) {
        Some(Command::SetKey { key, value, modifier }) => {
            assert_eq!(key, "k");
            assert_eq!(value, "v");
            assert_eq!(modifier, SetModifier::NoModifier);
        }
        other => panic!("unexpected {:?}", other),
    }
    match parse_words(&words(&["SET", "k", "v", "PXAT", "99"])) {
        Some(Command::SetKey { modifier, .. }) => assert_eq!(modifier, SetModifier::PxAt(99)),
        other => panic!("unexpected {:?}", other),
    }
    match parse_words(&words(&["SET", "k", "v", "KEEPTTL"])) {
        Some(Command::SetKey { modifier, .. }) => assert_eq!(modifier, SetModifier::KeepTtl),
        other => panic!("unexpected {:?}", other),
    }
    assert!(parse_words(&words(&["SET", "k"])).is_none());
    assert!(parse_words(&words(&["SET", "k", "v", "EX"])).is_none());
    assert!(parse_words(&words(&["SET", "k", "v", "EX", "x"])).is_none());
    assert!(parse_words(&words(&["SET", "k", "v", "NX", "1"])).is_none());
    assert!(parse_words(&words(&["set", "k", "v"])).is_none());
}

#[test]
fn parse_list_forms() {
    match parse_words(&words(&["LRANGE", "k", "0", "2"])) {
        Some(Command::LRange { key, start, stop }) => {
            assert_eq!(key, "k");
            assert_eq!((start, stop), (0, 2));
        }
        other => panic!("unexpected {:?}", other),
    }
    match parse_words(&words(&["LPUSH", "k", "a", "b"])) {
        Some(Command::LPush { key, elements }) => {
            assert_eq!(key, "k");
            assert_eq!(elements, words(&["a", "b"]));
        }
        other => panic!("unexpected {:?}", other),
    }
    match parse_words(&words(&["LPOP", "k", "3"])) {
        Some(Command::LPop { count, .. }) => assert_eq!(count, Some(3)),
        other => panic!("unexpected {:?}", other),
    }
    match parse_words(&words(&["DEL", "a", "b"])) {
        Some(Command::Del { keys }) => assert_eq!(keys, words(&["a", "b"])),
        other => panic!("unexpected {:?}", other),
    }
    assert!(parse_words(&words(&["LRANGE", "k", "0"])).is_none());
    assert!(parse_words(&words(&["GET"])).is_none());
    assert!(parse_words(&words(&["HSET", "k", "f", "v"])).is_none());
    assert!(parse_words(&words(&[])).is_none());
}

#[test]
fn parse_tokens_with_keyword_arguments() {
    let tokens = vec![SET, GET, LITERAL("v".to_string()), EX, LITERAL("5".to_string())];
    match parse(&tokens) {
        Some(Command::SetKey { key, value, modifier }) => {
            assert_eq!(key, "GET");
            assert_eq!(value, "v");
            assert_eq!(modifier, SetModifier::Ex(5));
        }
        other => panic!("unexpected {:?}", other),
    }
    assert!(parse(&vec![GET, LITERAL("k".to_string()), EOC]).is_none());
}

#[test]
fn eval_lines_end_to_end() {
    let mut db = Store::new();
    let mut expiring = Vec::new();
    assert_eq!(run_line(&mut db, &mut expiring, "SET a hello", 0), Some(words(&["OK"])));
    assert_eq!(run_line(&mut db, &mut expiring, "GET a", 0), Some(words(&["hello"])));
    assert_eq!(run_line(&mut db, &mut expiring, "DEL a", 0), Some(words(&["(integer) 1"])));
    assert_eq!(run_line(&mut db, &mut expiring, "GET a", 0), Some(words(&["(nil)"])));
    assert_eq!(run_line(&mut db, &mut expiring, "LPUSH l a b c", 0), Some(words(&["(integer) 3"])));
    assert_eq!(
        run_line(&mut db, &mut expiring, "LRANGE l 0 2", 0),
        Some(words(&["1) c", "2) b", "3) a"]))
    );
    assert_eq!(run_line(&mut db, &mut expiring, "FROB x", 0), None);
    assert_eq!(run_line(&mut db, &mut expiring, "SET t v EX 1", 0), Some(words(&["OK"])));
    assert_eq!(run_line(&mut db, &mut expiring, "GET t", 999), Some(words(&["v"])));
    assert_eq!(run_line(&mut db, &mut expiring, "GET t", 1000), Some(words(&["(nil)"])));
}
