use nicky::fraction::Fraction;
use nicky::jitter::{jitter, jitter_with, position, DRAW_SCALE};
use nicky::jumble::{alternatives_of, jumble, jumble_draws, jumble_with};
use nicky::replace::replace;
use nicky::transform::{ErrorKind, Transform};

fn apply(transform: &Transform, name: &str) -> String {
    transform.rename(name).expect("a transform from a constructor can be applied")
}

#[test]
fn prepend_puts_the_text_first() {
    assert_eq!(apply(&Transform::prepend("[Mod] "), "Ada"), "[Mod] Ada");
    assert_eq!(apply(&Transform::prepend(""), "Ada"), "Ada");
    assert_eq!(apply(&Transform::prepend("x"), ""), "x");
}

#[test]
fn append_puts_the_text_last() {
    assert_eq!(apply(&Transform::append(" (away)"), "Ada"), "Ada (away)");
    assert_eq!(apply(&Transform::append(""), "Ada"), "Ada");
}

#[test]
fn set_ignores_the_name() {
    assert_eq!(apply(&Transform::set("Guest"), "Ada"), "Guest");
    assert_eq!(apply(&Transform::set("Guest"), ""), "Guest");
}

#[test]
fn reset_gives_the_empty_name() {
    assert_eq!(apply(&Transform::reset(), "Ada"), "");
}

#[test]
fn replace_swaps_every_occurrence() {
    assert_eq!(replace("banana", "an", "AN"), "bANANa");
    assert_eq!(replace("aaaa", "aa", "b"), "bb");
    assert_eq!(replace("aaa", "aa", "b"), "ba");
    assert_eq!(replace("hello", "xyz", "!"), "hello");
    assert_eq!(replace("", "a", "b"), "");
    assert_eq!(replace("abc", "abc", ""), "");
    assert_eq!(replace("abc", "abcd", "x"), "abc");
    assert_eq!(apply(&Transform::replace("o", "0"), "foo boo"), "f00 b00");
}

#[test]
fn replace_agrees_with_std_on_samples() {
    let texts = ["", "a", "abc", "banana", "aaaa", "ab ab ab", "\u{e9}t\u{e9}", "a.b.c"];
    let olds = ["", "a", "an", "aa", "ab", "\u{e9}", ".", "abc", "zz"];
    let news = ["", "-", "xy", "a", "aa"];
    for text in texts.iter() {
        for old in olds.iter() {
            for new in news.iter() {
                assert_eq!(replace(text, old, new), text.replace(old, new));
            }
        }
    }
}

#[test]
fn replace_with_an_empty_old_text_goes_between_all_characters() {
    assert_eq!(replace("abc", "", "-"), "-a-b-c-");
    assert_eq!(replace("", "", "-"), "-");
}

#[test]
fn replace_regex_replaces_every_match() {
    let transform = Transform::replace_regex("a+", "X").expect("a+ is a pattern");
    assert_eq!(apply(&transform, "banaaana"), "bXnXnX");
    assert_eq!(apply(&transform, "xyz"), "xyz");
}

#[test]
fn replace_regex_expands_groups() {
    let transform = Transform::replace_regex("(\\w+) (\\w+)", "$2 $1").expect("a pattern");
    assert_eq!(apply(&transform, "Ada Lovelace"), "Lovelace Ada");
}

#[test]
fn replace_regex_refuses_a_bad_pattern() {
    match Transform::replace_regex("foo(bar", "X") {
        Ok(_) => panic!("an unclosed group is no pattern"),
        Err(error) => {
            assert_eq!(error.kind(), ErrorKind::InvalidPattern);
            assert!(!error.message().is_empty());
        }
    }
}

#[test]
fn a_hand_made_transform_with_a_bad_pattern_is_not_applied() {
    let transform = Transform::ReplaceRegex { pattern: "foo(bar".to_string(), new: "X".to_string() };
    assert!(!transform.is_valid());
    assert!(transform.rename("foo").is_none());
}

#[test]
fn jumble_needs_two_characters() {
    for charset in ["", "a", "\u{e9}"].iter() {
        match Transform::jumble(charset) {
            Ok(_) => panic!("a set of fewer than two characters was accepted"),
            Err(error) => {
                assert_eq!(error.kind(), ErrorKind::CharsetTooShort);
                assert_eq!(error.message(), "You must have at least two characters!");
            }
        }
    }
    assert!(Transform::jumble("ab").is_ok());
    assert!(Transform::jumble("\u{e9}\u{e8}").is_ok());
    assert!(!Transform::Jumble("a".to_string()).is_valid());
    assert!(Transform::Jumble("a".to_string()).rename("banana").is_none());
}

#[test]
fn alternatives_are_the_other_characters() {
    let charset: Vec<char> = "abca".chars().collect();
    assert_eq!(alternatives_of(&charset, 'a'), vec!['b', 'c']);
    assert_eq!(alternatives_of(&charset, 'b'), vec!['a', 'c', 'a']);
    assert_eq!(alternatives_of(&charset, 'z'), vec!['a', 'b', 'c', 'a']);
    assert_eq!(alternatives_of(&Vec::new(), 'a'), Vec::<char>::new());
}

#[test]
fn jumble_with_follows_the_draws() {
    // 'a' becomes its alternative 1 ('c'), then 'b' its alternative 0 ('a'),
    // then 'c' (the former 'a' too) its alternative 1 ('b').
    assert_eq!(jumble_with("abcabc-d", "abc", &vec![1, 0, 1]), "babbab-d");
    // Only the first turn changes anything when the later characters do not occur.
    assert_eq!(jumble_with("aaa", "axy", &vec![0, 0, 0]), "aaa".replace('a', "x").replace('x', "a"));
    assert_eq!(jumble_with("", "ab", &vec![0, 0]), "");
}

#[test]
fn jumble_takes_each_character_of_the_set_once() {
    // The second 'a' of the set takes no turn: after 'a' -> 'b' and 'b' -> 'a'
    // the name is all 'a', and stays so.
    assert_eq!(jumble_with("ab", "aba", &vec![0, 0, 0]), "aa");
}

#[test]
fn jumble_with_a_set_of_one_repeated_character_changes_nothing() {
    assert_eq!(jumble_with("banana", "aa", &vec![0, 0]), "banana");
    assert_eq!(apply(&Transform::jumble("aa").expect("two characters"), "banana"), "banana");
}

#[test]
fn jumble_stays_within_the_set() {
    let mut rng = rand::thread_rng();
    for _ in 0..200 {
        let out = jumble("hello world", "lo", &mut rng);
        let before: Vec<char> = "hello world".chars().collect();
        let after: Vec<char> = out.chars().collect();
        assert_eq!(after.len(), before.len());
        for (b, a) in before.iter().zip(after.iter()) {
            if *b == 'l' || *b == 'o' {
                assert!(*a == 'l' || *a == 'o');
            } else {
                assert_eq!(a, b);
            }
        }
    }
}

#[test]
fn jumble_of_two_characters_swaps_then_merges() {
    // With two distinct characters every draw is forced: 'a' -> 'b', then
    // every 'b' -> 'a'.
    let transform = Transform::jumble("ab").expect("two characters");
    for _ in 0..50 {
        assert_eq!(apply(&transform, "abba cab"), "aaaa caa");
    }
}

#[test]
fn jumble_draws_fit_the_set() {
    let mut rng = rand::thread_rng();
    for _ in 0..200 {
        let draws = jumble_draws(&mut rng, "abca");
        assert_eq!(draws.len(), 4);
        assert!(draws[0] < 2 && draws[1] < 3 && draws[2] < 3 && draws[3] < 2);
    }
    assert_eq!(jumble_draws(&mut rng, "aa"), vec![0, 0]);
    assert_eq!(jumble_draws(&mut rng, ""), Vec::<usize>::new());
}

#[test]
fn position_follows_the_formula() {
    let half = Fraction::new(1, 2).expect("a half");
    let zero = Fraction::new(0, 1).expect("zero");
    let full = Fraction::new(1, 1).expect("one");
    // len 10, draw 1/4: offset 2.5; 2.5 + 0.5 * 7.5 = 6.25.
    assert_eq!(position(10, &half, DRAW_SCALE / 4), 6);
    // len 10, draw 1/2: offset 5; 5 + 0.5 * 5 = 7.5.
    assert_eq!(position(10, &half, DRAW_SCALE / 2), 7);
    assert_eq!(position(10, &zero, 0), 10);
    assert_eq!(position(10, &zero, DRAW_SCALE - 1), 10);
    assert_eq!(position(10, &full, 0), 0);
    assert_eq!(position(10, &full, DRAW_SCALE / 2), 5);
    assert_eq!(position(10, &full, DRAW_SCALE - 1), 9);
    assert_eq!(position(0, &half, 12345), 0);
    assert_eq!(position(usize::MAX, &zero, DRAW_SCALE - 1), usize::MAX);
}

#[test]
fn jitter_with_follows_the_draws() {
    let full = Fraction::new(1, 1).expect("one");
    // Every character goes to the front: the name is reversed.
    assert_eq!(jitter_with("abcd", &full, &vec![0, 0, 0, 0]), "dcba");
    // 'b' before 'a'; 'c' at floor(0.5 * 2) = 1; 'd' at floor(0.5 * 3) = 1.
    let mid = DRAW_SCALE / 2;
    assert_eq!(jitter_with("abcd", &full, &vec![0, 0, mid, mid]), "bdca");
    let zero = Fraction::new(0, 1).expect("zero");
    assert_eq!(jitter_with("abcd", &zero, &vec![0, 5, mid, DRAW_SCALE - 1]), "abcd");
}

#[test]
fn jitter_leaves_short_names_alone() {
    let full = Fraction::new(1, 1).expect("one");
    let mut rng = rand::thread_rng();
    assert_eq!(jitter("", &full, &mut rng), "");
    assert_eq!(jitter("a", &full, &mut rng), "a");
    assert_eq!(jitter("\u{e9}", &full, &mut rng), "\u{e9}");
    assert_eq!(jitter_with("a", &full, &Vec::new()), "a");
}

#[test]
fn jitter_at_zero_intensity_changes_nothing() {
    let transform = Transform::jitter("0%").expect("a percentage");
    for _ in 0..100 {
        assert_eq!(apply(&transform, "Ada Lovelace"), "Ada Lovelace");
    }
}

#[test]
fn jitter_at_full_intensity_puts_the_first_character_last() {
    let transform = Transform::jitter("100%").expect("a percentage");
    for _ in 0..100 {
        assert_eq!(apply(&transform, "ab"), "ba");
        let out = apply(&transform, "Ada Lovelace");
        assert!(out.ends_with('A'));
        assert_ne!(out, "Ada Lovelace");
    }
}

#[test]
fn jitter_of_one_repeated_character_changes_nothing() {
    let transform = Transform::jitter("100%").expect("a percentage");
    for _ in 0..50 {
        assert_eq!(apply(&transform, "aaaa"), "aaaa");
    }
}

#[test]
fn jitter_keeps_the_characters() {
    let transform = Transform::jitter("60%").expect("a percentage");
    for _ in 0..100 {
        let out = apply(&transform, "Ada Lovelace");
        let mut before: Vec<char> = "Ada Lovelace".chars().collect();
        let mut after: Vec<char> = out.chars().collect();
        before.sort();
        after.sort();
        assert_eq!(before, after);
    }
}

#[test]
fn percentages_are_read_exactly() {
    let cases: [(&str, u32, u32); 12] = [
        ("0%", 0, 100),
        ("75%", 75, 100),
        ("100%", 100, 100),
        ("100", 100, 100),
        ("12.5%", 125, 1000),
        ("050%", 50, 100),
        ("5.%", 5, 100),
        (".5%", 5, 1000),
        ("7%%", 7, 100),
        ("99.999999%", 99_999_999, 100_000_000),
        ("33.3333339%", 33_333_333, 100_000_000),
        ("100.0000001%", 100_000_000, 100_000_000),
    ];
    for (text, num, den) in cases.iter() {
        let fraction = Fraction::parse_percent(text).expect("a percentage");
        assert_eq!((fraction.num(), fraction.den()), (*num, *den));
    }
}

#[test]
fn malformed_percentages_are_refused() {
    let cases = [
        "", "%", ".", ".%", "abc", "12a%", "-5%", "+5%", "1e1%", "1.2.3%", "%5", "5 %", " 5%",
        "101%", "100.1%", "100.000001%", "1000%", "99999999999999999999999999%", "inf", "NaN",
    ];
    for text in cases.iter() {
        assert!(Fraction::parse_percent(text).is_none());
        match Transform::jitter(text) {
            Ok(_) => panic!("a malformed percentage was accepted"),
            Err(error) => {
                assert_eq!(error.kind(), ErrorKind::MalformedPercentage);
                assert_eq!(error.message(), "Percentage couldn't be parsed!");
            }
        }
    }
}

#[test]
fn fractions_lie_between_zero_and_one() {
    assert!(Fraction::new(0, 1).is_some());
    assert!(Fraction::new(7, 7).is_some());
    assert!(Fraction::new(8, 7).is_none());
    assert!(Fraction::new(0, 0).is_none());
}

#[test]
fn only_jitter_and_jumble_draw() {
    assert!(!Transform::prepend("x").is_random());
    assert!(!Transform::append("x").is_random());
    assert!(!Transform::set("x").is_random());
    assert!(!Transform::reset().is_random());
    assert!(!Transform::replace("a", "b").is_random());
    assert!(!Transform::replace_regex("a", "b").expect("a pattern").is_random());
    assert!(Transform::jitter("50%").expect("a percentage").is_random());
    assert!(Transform::jumble("ab").expect("two characters").is_random());
}

#[test]
fn transforms_that_do_not_draw_give_the_same_name_again() {
    let transforms = [
        Transform::prepend("p"),
        Transform::append("a"),
        Transform::set("s"),
        Transform::reset(),
        Transform::replace("a", "b"),
        Transform::replace_regex("a+", "b").expect("a pattern"),
    ];
    for transform in transforms.iter() {
        let first = apply(transform, "banana");
        assert_eq!(apply(transform, "banana"), first);
        assert_eq!(transform.apply_with("banana", &vec![3, 1, 4]), first);
    }
}
