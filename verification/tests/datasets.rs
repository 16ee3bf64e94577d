// Dataset invariants of the built-in symbol pools.

use std::collections::HashSet;

use hanzi_cat::{multi_hanzi, single_hanzi};

fn pinyin_string(chars: &[char]) -> String {
    chars.iter().collect()
}

#[test]
fn single_hanzi_entries_are_unique_and_valid() {
    let mut seen = HashSet::new();
    for e in single_hanzi() {
        let h = e.hanzi.clone();
        assert!(seen.insert(h.clone()), "duplicate hanzi '{}' in SINGLE_HANZI", h);
        let s = pinyin_string(&e.pinyin);
        assert!(!s.is_empty(), "empty pinyin for hanzi '{}'", h);
        // pinyin should end with tone digit 1..5
        let last = s.chars().last().unwrap();
        assert!(
            ('1'..='5').contains(&last),
            "pinyin '{}' for '{}' does not end with tone digit",
            s,
            h
        );
        // ensure exactly one digit present in single-hanzi pinyin
        let digit_count = s.chars().filter(|c| ('1'..='5').contains(c)).count();
        assert_eq!(
            digit_count, 1,
            "single hanzi pinyin '{}' for '{}' should contain exactly one tone digit",
            s, h
        );
        for c in s.chars() {
            assert!(
                c.is_ascii_lowercase() || ('1'..='5').contains(&c),
                "invalid char '{}' in pinyin '{}' for '{}'",
                c,
                s,
                h
            );
        }
    }
}

#[test]
fn multi_hanzi_entries_are_unique_and_valid() {
    let mut seen_hanzi = HashSet::new();
    let mut seen_pinyin = HashSet::new();
    for e in multi_hanzi() {
        let h = e.hanzi.clone();
        assert!(seen_hanzi.insert(h.clone()), "duplicate hanzi '{}' in MULTI_HANZI", h);
        let s = pinyin_string(&e.pinyin);
        assert!(!s.is_empty(), "empty pinyin for '{}'", h);
        let last = s.chars().last().unwrap();
        assert!(
            ('1'..='5').contains(&last),
            "pinyin '{}' for '{}' does not end with tone digit",
            s,
            h
        );
        // ensure at least 1 digit present
        let digit_count = s.chars().filter(|c| ('1'..='5').contains(c)).count();
        assert!(
            digit_count >= 1,
            "multi hanzi pinyin '{}' for '{}' should contain at least one tone digit",
            s,
            h
        );
        for c in s.chars() {
            assert!(
                c.is_ascii_lowercase() || ('1'..='5').contains(&c),
                "invalid char '{}' in pinyin '{}' for '{}'",
                c,
                s,
                h
            );
        }
        assert!(
            seen_pinyin.insert(s.clone()),
            "duplicate pinyin '{}' in MULTI_HANZI for '{}'",
            s,
            h
        );
    }
}

#[test]
fn pinyin_sets_do_not_duplicate_exactly() {
    let single_p: HashSet<String> = single_hanzi()
        .iter()
        .map(|e| pinyin_string(&e.pinyin))
        .collect();
    for e in multi_hanzi().iter() {
        let p = pinyin_string(&e.pinyin);
        assert!(
            !single_p.contains(&p),
            "pinyin '{}' appears in both SINGLE_HANZI and MULTI_HANZI",
            p
        );
    }
}

#[test]
fn single_hanzi_dataset_nonempty() {
    assert!(!single_hanzi().is_empty());
}
