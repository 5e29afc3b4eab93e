use wxmatch::numeral::{
    align_left, align_right, decimal, join, pad_zeros, parse_i32, signed_decimal,
};
use wxmatch::order::{group, pick, pick_groups, sort_order};
use wxmatch::reading::{greatest_of, least_of, Reading};
use wxmatch::text::{
    after, begins, byte_count, cut, ends, has_text, head, replace_char, spells, split_lines,
    split_words, to_chars, to_text, trimmed, uppered, without_ends,
};

fn text(chars: &[char]) -> String {
    to_text(chars)
}

fn reading(value: f64) -> Reading {
    Reading { bits: value.to_bits() }
}

#[test]
fn trims_unicode_white_space() {
    let chars = to_chars("\u{3000} a b\t\r\n\u{a0}");
    assert_eq!(text(trimmed(&chars)), "a b");
    let blank = to_chars(" \t ");
    assert_eq!(trimmed(&blank).len(), 0);
}

#[test]
fn raises_ascii_letters_only() {
    assert_eq!(text(&uppered(&to_chars("kdsm-\u{e4}9"))), "KDSM-\u{e4}9");
}

#[test]
fn splits_words_and_lines() {
    let words = split_words(&to_chars("  a\tbc \u{2003}d "));
    let words: Vec<String> = words.iter().map(|w| text(w)).collect();
    assert_eq!(words, vec!["a", "bc", "d"]);
    let lines = split_lines(&to_chars("one\r\ntwo\n\nthree\r"));
    let lines: Vec<String> = lines.iter().map(|l| text(l)).collect();
    assert_eq!(lines, "one\r\ntwo\n\nthree\r".lines().collect::<Vec<_>>());
}

#[test]
fn cuts_at_the_first_character() {
    let chars = to_chars("10G20G30");
    let (left, right) = cut(&chars, 'G').unwrap();
    assert_eq!(text(left), "10");
    assert_eq!(text(right), "20G30");
    assert!(cut(&to_chars("10"), 'G').is_none());
}

#[test]
fn strips_starts_and_ends() {
    let chars = to_chars("24003KTKT");
    assert_eq!(text(without_ends(&chars, "KT")), "24003");
    let chars = to_chars("VRB05");
    assert_eq!(text(after(&chars, "VRB").unwrap()), "05");
    assert!(after(&chars, "KT").is_none());
    assert!(begins(&chars, "VRB") && !begins(&chars, "VRC"));
    assert!(ends(&chars, "05") && !ends(&chars, "B"));
    assert!(has_text(&chars, "RB0") && !has_text(&chars, "RB1"));
    assert!(spells(&chars, "VRB05"));
}

#[test]
fn counts_bytes_and_takes_whole_characters() {
    let chars = to_chars("a\u{e4}\u{20ac}\u{1f600}");
    assert_eq!(byte_count(&chars), 10);
    assert_eq!(text(head(&chars, 3).unwrap()), "a\u{e4}");
    assert!(head(&chars, 2).is_none());
    assert!(head(&chars, 11).is_none());
    assert_eq!(head(&chars, 0).unwrap().len(), 0);
}

#[test]
fn replaces_characters_by_text() {
    assert_eq!(replace_char("America/North/Center", '/', "%2F"), "America%2FNorth%2FCenter");
}

#[test]
fn writes_and_reads_numerals() {
    assert_eq!(decimal(0), "0");
    assert_eq!(decimal(u128::MAX), u128::MAX.to_string());
    assert_eq!(signed_decimal(i64::MIN), i64::MIN.to_string());
    assert_eq!(signed_decimal(-7), "-7");
    for value in [0, 1, -1, 2026, i32::MAX, i32::MIN] {
        assert_eq!(parse_i32(&to_chars(&value.to_string())), Some(value));
    }
    for bad in ["", "-", "+", "12a", "2147483648", "-2147483649", " 1", "1.0"] {
        assert_eq!(parse_i32(&to_chars(bad)), bad.parse::<i32>().ok());
    }
    assert_eq!(parse_i32(&to_chars("+0012")), Some(12));
}

#[test]
fn pads_and_joins() {
    assert_eq!(pad_zeros("5", 2), "05");
    assert_eq!(pad_zeros("123", 2), "123");
    assert_eq!(align_left("ab", 4), format!("{:4}", "ab"));
    assert_eq!(align_right("ok", 10), format!("{:>10}", "ok"));
    assert_eq!(join(&vec!["a".to_string(), "b".to_string()], ","), "a,b");
    assert_eq!(join(&Vec::new(), ","), "");
}

#[test]
fn sorts_positions_stably() {
    let keys: Vec<(i64, i64)> = vec![(1, 5), (0, 9), (1, 2), (0, 9), (1, 5)];
    assert_eq!(sort_order(&keys), vec![1, 3, 2, 0, 4]);
}

#[test]
fn groups_positions_by_key() {
    let keys: Vec<Vec<char>> = ["b", "a", "b", "ab", "a"].iter().map(|k| to_chars(k)).collect();
    let groups = group(&keys);
    assert_eq!(groups, vec![vec![1, 4], vec![3], vec![0, 2]]);
    let items = vec![10, 11, 12, 13, 14];
    let parts = pick_groups(items, &groups, &keys);
    assert_eq!(parts, vec![vec![11, 14], vec![13], vec![10, 12]]);
}

#[test]
fn picks_items_in_a_new_order() {
    assert_eq!(pick(vec!["x", "y", "z"], &vec![2, 0]), vec!["z", "x"]);
}

#[test]
fn finds_the_greatest_and_the_least_reading() {
    let values = vec![reading(20.0), reading(-3.5), reading(f64::NAN), reading(24.0)];
    assert_eq!(greatest_of(&values), Some(reading(24.0)));
    assert_eq!(least_of(&values), Some(reading(-3.5)));
    assert_eq!(greatest_of(&Vec::new()), None);
}

#[test]
fn compares_readings_as_floats_compare() {
    let samples = [
        0.0,
        -0.0,
        1.0,
        -1.0,
        f64::MIN_POSITIVE,
        f64::INFINITY,
        f64::NEG_INFINITY,
        f64::NAN,
        77.5,
    ];
    for a in samples {
        for b in samples {
            assert_eq!(reading(a).reaches(reading(b)), a >= b);
            assert_eq!(
                reading(a).total_key() <= reading(b).total_key(),
                a.total_cmp(&b) != std::cmp::Ordering::Greater
            );
            if !a.is_nan() && !b.is_nan() && a != b {
                assert_eq!(reading(a).max(reading(b)), reading(a.max(b)));
                assert_eq!(reading(a).min(reading(b)), reading(a.min(b)));
            }
        }
        assert_eq!(reading(a).negate().bits, (-a).to_bits());
    }
}
