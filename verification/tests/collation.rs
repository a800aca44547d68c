use feruca::{Collator, Locale, Tailoring};
use std::cmp::Ordering;

#[test]
fn bytes_auto() {
    let a = "Hélène";
    let b = "Héloïse";

    let x = a.as_bytes();
    let y = b.as_bytes();

    let mut collator = Collator::default();
    let comp = collator.collate(x, y);
    assert_eq!(comp, Ordering::Less);
}

#[test]
fn bytes_literal() {
    let a = b"Theodore";
    let b = b"Th\xE9odore";

    let mut collator = Collator::default();
    let comp = collator.collate(a, b);
    assert_eq!(comp, Ordering::Less);
}

#[test]
fn arabic_interleaved() {
    let mut names = vec!["Bob", "Alice", "أحمد"];
    let expected = vec!["Alice", "أحمد", "Bob"];

    let mut collator = Collator::new(Tailoring::Cldr(Locale::ArabicInterleaved), true, true);
    names.sort_unstable_by(|a, b| collator.collate(a.as_bytes(), b.as_bytes()));

    assert_eq!(names, expected);
}

#[test]
fn arabic_script() {
    let persian = "ی";
    let latin = "a";

    let mut collator = Collator::new(Tailoring::Cldr(Locale::ArabicScript), true, true);
    let comp = collator.collate(persian.as_bytes(), latin.as_bytes());
    assert_eq!(comp, Ordering::Less);
}

#[test]
fn capitalization() {
    let a = "Američane";
    let b = "ameriške";

    let mut collator = Collator::default();
    let comp = collator.collate(a.as_bytes(), b.as_bytes());
    assert_eq!(comp, Ordering::Less);
}

#[test]
fn fdfa() {
    // This will panic if the CEA length is not doubled early enough.
    // U+FDFA has 18 sets of collation weights, more than any other code point.
    let a = "llllllllllllllllllllllllllllllllllllllllllllllﷺ";
    let b = "ā";

    let mut collator = Collator::default();
    let comp = collator.collate(a.as_bytes(), b.as_bytes());
    assert_eq!(comp, Ordering::Greater);
}

#[test]
fn sort_of_names() {
    let mut names = ["Peng", "Peña", "Ernie", "Émile"];
    let mut collator = Collator::default();
    names.sort_unstable_by(|a, b| collator.collate(a.as_bytes(), b.as_bytes()));

    let expected = ["Émile", "Ernie", "Peña", "Peng"];
    assert_eq!(names, expected);
}

#[test]
fn reflexivity_and_byte_equality() {
    let mut collator = Collator::default();
    for s in ["", "abc", "Hélène", "ﷺ", "\u{AC00}"] {
        assert_eq!(collator.collate(s.as_bytes(), s.as_bytes()), Ordering::Equal);
    }
    let mut ducet = Collator::new(Tailoring::Ducet, false, false);
    assert_eq!(ducet.collate("Hélène".as_bytes(), "Hélène".as_bytes()), Ordering::Equal);
}

#[test]
fn antisymmetry_on_samples() {
    let samples = ["Peng", "Peña", "Ernie", "Émile", "abc", "ABC", "ﷺ", "أحمد", "0l"];
    let mut collator = Collator::default();
    for a in samples {
        for b in samples {
            let ab = collator.collate(a.as_bytes(), b.as_bytes());
            let ba = collator.collate(b.as_bytes(), a.as_bytes());
            assert_eq!(ab, ba.reverse());
        }
    }
}

#[test]
fn transitivity_on_samples() {
    let samples = ["Peng", "Peña", "Ernie", "Émile", "abc", "ABC", "ﷺ", "أحمد", "0l"];
    let mut collator = Collator::default();
    for a in samples {
        for b in samples {
            for c in samples {
                let ab = collator.collate(a.as_bytes(), b.as_bytes());
                let bc = collator.collate(b.as_bytes(), c.as_bytes());
                let ac = collator.collate(a.as_bytes(), c.as_bytes());
                if ab != Ordering::Greater && bc != Ordering::Greater {
                    assert_ne!(ac, Ordering::Greater);
                }
            }
        }
    }
}

#[test]
fn ducet_order_differs_only_in_weights() {
    // The DUCET table set carries its own weight values; the relative order
    // of the dataset's Latin entries agrees with the CLDR one here.
    let mut ducet = Collator::new(Tailoring::Ducet, true, true);
    assert_eq!(
        ducet.collate("Hélène".as_bytes(), "Héloïse".as_bytes()),
        Ordering::Less,
    );
    assert_eq!(
        ducet.collate("Peña".as_bytes(), "Peng".as_bytes()),
        Ordering::Less,
    );
}

#[test]
fn hangul_syllable_equals_its_jamo() {
    // The syllable and its decomposed jamo produce identical sort keys, and
    // the trimmed shared prefix already decides equality before any tiebreak.
    let syllable = "\u{AC00}";
    let jamo = "\u{1100}\u{1161}";

    let mut no_tiebreak = Collator::new(Tailoring::default(), true, false);
    assert_eq!(no_tiebreak.collate(syllable.as_bytes(), jamo.as_bytes()), Ordering::Equal);
}

#[test]
fn tiebreak_falls_back_to_byte_order() {
    // A trailing NUL is completely ignorable at every weight level, so only
    // the byte-order tiebreak can separate the two strings.
    let a = "И\0";
    let b = "И";

    let mut with_tiebreak = Collator::new(Tailoring::default(), true, true);
    assert_eq!(with_tiebreak.collate(a.as_bytes(), b.as_bytes()), Ordering::Greater);
    assert_eq!(with_tiebreak.collate(b.as_bytes(), a.as_bytes()), Ordering::Less);

    let mut no_tiebreak = Collator::new(Tailoring::default(), true, false);
    assert_eq!(no_tiebreak.collate(a.as_bytes(), b.as_bytes()), Ordering::Equal);
}

#[test]
fn case_difference_decides_last() {
    // A pure case difference is remembered, reversed, and used only when
    // nothing else decides: lowercase sorts first.
    let mut collator = Collator::default();
    assert_eq!(collator.collate("aBc".as_bytes(), "abc".as_bytes()), Ordering::Greater);
    assert_eq!(collator.collate("abc".as_bytes(), "aBc".as_bytes()), Ordering::Less);
    assert_eq!(collator.collate("abc".as_bytes(), "abd".as_bytes()), Ordering::Less);
}

#[test]
fn ascii_length_rule_sees_only_the_walk() {
    // The fast path's "longer string wins" rule fires when both sides stay
    // alphanumeric until one ends; walked from the other side, the trailing
    // control byte stops the fast path, and the weights find it wholly
    // ignorable. The byte-order tiebreak restores the symmetric order.
    let a = b"0l";
    let b = b"0l\x07";

    let mut no_tiebreak = Collator::new(Tailoring::default(), true, false);
    assert_eq!(no_tiebreak.collate(a, b), Ordering::Less);
    assert_eq!(no_tiebreak.collate(b, a), Ordering::Equal);

    let mut with_tiebreak = Collator::new(Tailoring::default(), true, true);
    assert_eq!(with_tiebreak.collate(a, b), Ordering::Less);
    assert_eq!(with_tiebreak.collate(b, a), Ordering::Greater);
}
