use redislight::tokenizer::RedisToken::{DEL, EX, GET, LITERAL, SET};
use redislight::tokenizer::{classify_words, Tokenizer};

#[test]
fn tokenize_test() {
    let input = String::from("GET mykey");
    let mut tokenizer = Tokenizer::new(input);
    assert!(tokenizer.tokenize());
    assert_eq!(tokenizer.tokens(), &vec![GET, LITERAL("mykey".to_string())]);

    // Every word of the line is kept: `myname` is a literal of its own,
    // followed by the quoted words as one literal.
    let input = String::from("SET myname \"kristoff finley\"");
    let mut tokenizer = Tokenizer::new(input);
    assert!(tokenizer.tokenize());
    assert_eq!(
        tokenizer.tokens(),
        &vec![SET, LITERAL("myname".to_string()), LITERAL("kristoff finley".to_string())]
    );
}

#[test]
fn tokenize_rejects_unbalanced_quote() {
    let mut tokenizer = Tokenizer::new(String::from("SET a \"open"));
    assert!(!tokenizer.tokenize());
    assert!(tokenizer.tokens().is_empty());
}

#[test]
fn tokenize_single_quotes_and_keywords() {
    let mut tokenizer = Tokenizer::new(String::from("  DEL 'a b'   EX set "));
    assert!(tokenizer.tokenize());
    assert_eq!(
        tokenizer.tokens(),
        &vec![DEL, LITERAL("a b".to_string()), EX, LITERAL("set".to_string())]
    );
}

#[test]
fn classify_words_keeps_order() {
    let words = vec!["LPUSH".to_string(), "k".to_string(), "GET".to_string()];
    let tokens = classify_words(&words);
    assert_eq!(
        tokens,
        vec![
            redislight::tokenizer::RedisToken::LPUSH,
            LITERAL("k".to_string()),
            GET
        ]
    );
}
