use feruca::{
    compare_incremental, find_prefix, make_nfd, pack_code_points, pack_weights, Collator, Locale,
    Tables, Tailoring,
};
use feruca::data::tailored_tables;
use std::cmp::Ordering;

// a table set with one contraction starter (U+0418), a contiguous
// contraction, a discontiguous one, and a reference code point whose primary
// sits between the single's and the contractions'
fn contraction_tables() -> Tables {
    let mut t = Tables::new();
    // the single letter alone
    t.set_single(0x418, vec![pack_weights(false, 0x3000, 0x20, 2)]);
    // a contiguous two-code-point contraction
    t.set_multi(
        pack_code_points(&vec![0x418, 0x306]),
        vec![pack_weights(false, 0x5000, 0x20, 2)],
    );
    // a contraction reached discontiguously over one mark
    t.set_multi(
        pack_code_points(&vec![0x418, 0x301]),
        vec![pack_weights(false, 0x5100, 0x20, 2)],
    );
    // a contraction reached discontiguously over two marks (CLDR mode only)
    t.set_multi(
        pack_code_points(&vec![0x418, 0x321, 0x301]),
        vec![pack_weights(false, 0x5200, 0x20, 2)],
    );
    // a reference code point with a primary between the single's and the
    // contractions'
    t.set_single(0x1234, vec![pack_weights(false, 0x4000, 0x20, 2)]);
    t
}

fn collator_for(tailoring: Tailoring) -> Collator {
    Collator::with_tables(tailoring, false, false, contraction_tables(), contraction_tables())
}

const REFERENCE: &str = "\u{1234}";

#[test]
fn contiguous_contraction_matches() {
    let mut c = collator_for(Tailoring::Cldr(Locale::Root));
    // with the contraction: primary 0x5000 beats the reference 0x4000
    let comp = c.collate("\u{418}\u{306}".as_bytes(), REFERENCE.as_bytes());
    assert_eq!(comp, Ordering::Greater);
    // without a following mark the single letter's 0x3000 loses
    let comp = c.collate("\u{418}".as_bytes(), REFERENCE.as_bytes());
    assert_eq!(comp, Ordering::Less);
}

#[test]
fn discontiguous_contraction_over_one_mark() {
    let mut c = collator_for(Tailoring::Cldr(Locale::Root));
    // U+0335 (combining class 1) stands between the starter and U+0301
    // (combining class 230): the contraction is matched across it
    let comp = c.collate("\u{418}\u{335}\u{301}".as_bytes(), REFERENCE.as_bytes());
    assert_eq!(comp, Ordering::Greater);
    // without strictly increasing combining classes (U+0335 and U+0334 are
    // both class 1) no discontiguous match is allowed, and the single
    // letter's weight decides
    let comp = c.collate("\u{418}\u{335}\u{334}".as_bytes(), REFERENCE.as_bytes());
    assert_eq!(comp, Ordering::Less);
}

#[test]
fn discontiguous_contraction_over_two_marks_is_cldr_only() {
    // U+0334 (class 1), U+0321 (class 202), U+0301 (class 230): the
    // three-code-point contraction reaches over the first mark for the last
    // two, which only CLDR mode tries from a single starter
    let two_mark_tables = || {
        let mut t = Tables::new();
        t.set_single(0x418, vec![pack_weights(false, 0x3000, 0x20, 2)]);
        t.set_multi(
            pack_code_points(&vec![0x418, 0x321, 0x301]),
            vec![pack_weights(false, 0x5200, 0x20, 2)],
        );
        t.set_single(0x1234, vec![pack_weights(false, 0x4000, 0x20, 2)]);
        t
    };
    let input = "\u{418}\u{334}\u{321}\u{301}\u{61}";
    let mut cldr = Collator::with_tables(
        Tailoring::Cldr(Locale::Root),
        false,
        false,
        two_mark_tables(),
        two_mark_tables(),
    );
    let comp = cldr.collate(input.as_bytes(), REFERENCE.as_bytes());
    assert_eq!(comp, Ordering::Greater);

    // DUCET mode probes only pairs from a single starter, so the triple is
    // never found
    let mut ducet = Collator::with_tables(
        Tailoring::Ducet,
        false,
        false,
        two_mark_tables(),
        two_mark_tables(),
    );
    let comp = ducet.collate(input.as_bytes(), REFERENCE.as_bytes());
    assert_eq!(comp, Ordering::Less);
}

#[test]
fn nfd_equivalent_forms_compare_equal() {
    // a table set where the composed letter decomposes: both spellings
    // normalize to the same buffer, so they compare Equal without a tiebreak
    let make = || {
        let mut u = Tables::new();
        u.set_decomposition(0xE9, vec![0x65, 0x301]);
        u.set_fcd(0xE9, 0x00E6);
        u
    };
    let mut c = Collator::with_tables(Tailoring::Cldr(Locale::Root), true, false, make(), make());
    // U+0327 (class 202) after U+0301 (class 230) forces normalization on
    // both sides; the decomposed and composed spellings converge
    let composed = "\u{E9}\u{327}";
    let decomposed = "\u{65}\u{301}\u{327}";
    assert_eq!(c.collate(composed.as_bytes(), decomposed.as_bytes()), Ordering::Equal);
}

#[test]
fn reordering_swaps_marks_by_combining_class() {
    // U+0301 (class 230) then U+0327 (class 202) must reorder
    let t = tailored_tables(Tailoring::Ducet);
    let mut buf: Vec<u32> = vec![0x61, 0x301, 0x327];
    make_nfd(&t, &mut buf);
    assert_eq!(buf, vec![0x61, 0x327, 0x301]);

    // an already well-ordered buffer passes the FCD check and stays as it is
    let mut buf: Vec<u32> = vec![0x61, 0x327, 0x301];
    make_nfd(&t, &mut buf);
    assert_eq!(buf, vec![0x61, 0x327, 0x301]);
}

#[test]
fn prefix_trimming_respects_variable_code_points() {
    let t = tailored_tables(Tailoring::Cldr(Locale::Root));
    let a: Vec<u32> = vec![0x61, 0x20, 0x63];
    let b: Vec<u32> = vec![0x61, 0x20, 0x64];
    // without shifting the whole shared run is trimmed
    assert_eq!(find_prefix(&t, &a, &b, false), 2);
    // with shifting the trailing space (a variable weight) must stay
    assert_eq!(find_prefix(&t, &a, &b, true), 1);
    // a contraction starter stops the shared run early
    let a2: Vec<u32> = vec![0x61, 0x6C, 0x63];
    let b2: Vec<u32> = vec![0x61, 0x6C, 0x64];
    assert_eq!(find_prefix(&t, &a2, &b2, false), 1);
}

#[test]
fn quaternary_level_separates_variable_weights() {
    // two variable elements with different primaries: equal at the first
    // three levels under shifting, decided at the quaternary
    let wa = {
        let mut lv = false;
        feruca::shift_weights(pack_weights(true, 0x0205, 0x20, 2), &mut lv)
    };
    let wb = {
        let mut lv = false;
        feruca::shift_weights(pack_weights(true, 0x0209, 0x20, 2), &mut lv)
    };
    let a_cea: Vec<u32> = vec![wa, u32::MAX];
    let b_cea: Vec<u32> = vec![wb, u32::MAX];
    assert_eq!(compare_incremental(&a_cea, &b_cea, true), Ordering::Less);
    assert_eq!(compare_incremental(&b_cea, &a_cea, true), Ordering::Greater);
    assert_eq!(compare_incremental(&a_cea, &a_cea, true), Ordering::Equal);
}
