use ennui::text::{article, Wrap};

const DESC: &'static str = "You are at the Temple Yard of Dragonia. Beautiful marble stairs lead \
    up to the Temple of Dragonia. You feel small as you stare up the huge pillars making the entrance \
    to the temple. This place serves as a sanctuary where the  people of the city can come and seek \
    refuge, and rest their tired bones. Just north of here is the common square, and the temple opens \
    to the south.";

#[test]
fn mod_test_line_wrap() {
    assert_eq!("abcd".wrap(7), "abcd");
    assert_eq!(
        "1 3 5 7 9 1 39234 290 290 5 7 9".wrap(10),
        "1 3 5 7 9\n1 39234\n290 290 5\n7 9"
    );

    assert_eq!(
        "1 3 5 7 9 1 39234 290 290 5 7 9".wrap(10),
        "1 3 5 7 9\n1 39234\n290 290 5\n7 9"
    );
}

#[test]
fn mod_test_line_wrap_idempotency() {
    let desc = DESC.wrap(80);
    let second = desc.wrap(80);
    assert_eq!(desc, second.wrap(80));
    assert_ne!(desc, second.wrap(75));
}

#[test]
fn test_line_wrap() {
    assert_eq!("abcd".wrap(7), "abcd");
    assert_eq!(
        "1 3 5 7 9 1 39234 290 290 5 7 9".wrap(10),
        "1 3 5 7 9\n1 39234\n290 290 5\n7 9"
    );

    assert_eq!(
        "1 3 5 7 9 1 39234 290 290 5 7 9".wrap(10),
        "1 3 5 7 9\n1 39234\n290 290 5\n7 9"
    );
}

#[test]
fn test_line_wrap_idempotency() {
    let desc = DESC.wrap(80);
    let second = desc.wrap(80);
    assert_eq!(desc, second.wrap(80));
    assert_ne!(desc, second.wrap(75));
}

#[test]
fn wrap_of_short_text_is_unchanged() {
    assert_eq!("a b".wrap(80), "a b");
    assert_eq!("".wrap(3), "");
}

#[test]
fn wrap_is_idempotent_on_a_sample() {
    let once = "the quick brown fox jumps over the lazy dog".wrap(12);
    assert_eq!(once, "the quick\nbrown fox\njumps over\nthe lazy dog");
    assert_eq!(once.wrap(12), once);
}

#[test]
fn article_picks_an_before_vowels() {
    assert_eq!(article("apple"), "an apple");
    assert_eq!(article("Egg"), "an Egg");
    assert_eq!(article("sword"), "a sword");
    assert_eq!(article(""), "a ");
}

#[test]
fn wrapped_lines_are_short() {
    let w = DESC.wrap(30);
    assert!(w.split('\n').all(|line| line.len() <= 30));
    assert_eq!(w.wrap(30), w);
}

#[test]
fn wrap_counts_bytes() {
    assert_eq!("éé éé".wrap(5), "éé\néé");
    assert_eq!("ab cd".wrap(5), "ab cd");
    let w = "héllo wörld and more".wrap(8);
    assert!(w.split('\n').all(|line| line.len() <= 8));
    assert_eq!(w.wrap(8), w);
}
