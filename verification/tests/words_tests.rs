use invaders::words::{bedazzle, change, eat, is_plural};

#[test]
fn change_appends_an_s_once() {
    let mut word = String::from("invader");
    change(&mut word);
    assert_eq!(word, "invaders");
    change(&mut word);
    assert_eq!(word, "invaders");
    let mut empty = String::new();
    change(&mut empty);
    assert_eq!(empty, "s");
    let mut upper = String::from("SHOTS");
    change(&mut upper);
    assert_eq!(upper, "SHOTSs");
}

#[test]
fn plural_is_a_word_that_ends_in_s() {
    assert!(is_plural(&String::from("shots")));
    assert!(is_plural(&String::from("s")));
    assert!(!is_plural(&String::from("shot")));
    assert!(!is_plural(&String::from("")));
    assert!(!is_plural(&String::from("sa")));
}

#[test]
fn eat_wants_a_leading_b_and_an_a() {
    assert!(eat(String::from("banana")));
    assert!(eat(String::from("ba")));
    assert!(eat(String::from("bxxxa")));
    assert!(!eat(String::from("b")));
    assert!(!eat(String::from("brick")));
    assert!(!eat(String::from("apple")));
    assert!(!eat(String::from("abba")));
    assert!(!eat(String::from("")));
    assert!(!eat(String::from("Banana")));
}

#[test]
fn bedazzle_replaces_the_word() {
    let mut word = String::from("dull");
    bedazzle(&mut word);
    assert_eq!(word, "sparkly");
    let mut empty = String::new();
    bedazzle(&mut empty);
    assert_eq!(empty, "sparkly");
}
