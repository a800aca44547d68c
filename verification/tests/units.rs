use feruca::{
    fill_and_check, implicit_a, implicit_b, pack_code_points, pack_weights,
    parse_conformance_line, primary, secondary, shift_weights, tertiary, unpack_weights,
    variability,
};
use std::cmp::Ordering;

#[test]
fn pack_and_unpack_round_trip() {
    for (v, p, s, t) in [
        (false, 0u16, 0u16, 0u16),
        (true, 0xFFFF, 0x1FF, 0x3F),
        (false, 0x2380, 0x20, 0x2),
        (true, 0x0209, 0x20, 0x2),
    ] {
        let w = pack_weights(v, p, s, t);
        assert_eq!(unpack_weights(w), (v, p, s, t));
        assert_eq!(variability(w), v);
        assert_eq!(primary(w), p);
        assert_eq!(secondary(w), s);
        assert_eq!(tertiary(w), t);
    }
}

#[test]
fn shift_weights_cases() {
    // a variable element keeps only its primary, and flips the flag on
    let mut last_variable = false;
    let w = pack_weights(true, 0x0209, 0x20, 0x2);
    let shifted = shift_weights(w, &mut last_variable);
    assert!(last_variable);
    assert_eq!(unpack_weights(shifted), (true, 0x0209, 0, 0));

    // an ignorable element after a variable one is zeroed
    let ignorable = pack_weights(false, 0, 0x24, 0x2);
    let shifted = shift_weights(ignorable, &mut last_variable);
    assert!(last_variable);
    assert_eq!(shifted, 0);

    // a normal element passes through and clears the flag
    let normal = pack_weights(false, 0x2380, 0x20, 0x2);
    let shifted = shift_weights(normal, &mut last_variable);
    assert!(!last_variable);
    assert_eq!(shifted, normal);

    // a wholly zero element is dropped even with the flag off
    let mut flag = false;
    assert_eq!(shift_weights(0, &mut flag), 0);
    assert!(!flag);
}

#[test]
fn implicit_weight_blocks() {
    // CJK base block
    assert_eq!(primary(implicit_a(0x4E00)), 0xFB40 + (0x4E00 >> 15) as u16);
    assert_eq!(primary(implicit_b(0x4E00)), 0x8000 | (0x4E00 & 0x7FFF) as u16);
    // CJK extension block
    assert_eq!(primary(implicit_a(0x20000)), 0xFB80 + (0x20000u32 >> 15) as u16);
    // Tangut, Khitan, Nushu: fixed first primaries, block offsets
    assert_eq!(primary(implicit_a(0x17005)), 0xFB00);
    assert_eq!(primary(implicit_b(0x17005)), 0x8005);
    assert_eq!(primary(implicit_a(0x18B02)), 0xFB02);
    assert_eq!(primary(implicit_b(0x18B02)), 0x8002);
    assert_eq!(primary(implicit_a(0x1B171)), 0xFB01);
    assert_eq!(primary(implicit_b(0x1B171)), 0x8001);
    // unassigned
    assert_eq!(primary(implicit_a(0xFFFD)), 0xFBC0 + (0xFFFDu32 >> 15) as u16);
    // the four code points the extension ranges cover erroneously take the
    // unassigned formula
    for cp in [0x2B73Au32, 0x2B81E, 0x2CEA2, 0x2EBE1] {
        assert_eq!(primary(implicit_a(cp)), 0xFBC0 + (cp >> 15) as u16);
        assert_eq!(primary(implicit_b(cp)), 0x8000 | (cp & 0x7FFF) as u16);
    }
    // the second element is always marked with the high bit
    assert_eq!(primary(implicit_b(0x10FFFF)) & 0x8000, 0x8000);
    // implicit elements carry secondary 32 and tertiary 2, then zeros
    assert_eq!(secondary(implicit_a(0x4E00)), 32);
    assert_eq!(tertiary(implicit_a(0x4E00)), 2);
    assert_eq!(secondary(implicit_b(0x4E00)), 0);
    assert_eq!(tertiary(implicit_b(0x4E00)), 0);
}

#[test]
fn pack_code_points_widths() {
    assert_eq!(pack_code_points(&vec![1, 2]), (1u64 << 21) | 2);
    assert_eq!(pack_code_points(&vec![1, 2, 3]), (1u64 << 42) | (2 << 21) | 3);
}

#[test]
fn ascii_fast_path() {
    let to_vec = |s: &str| s.chars().map(|c| c as u32).collect::<Vec<u32>>();
    // a folded difference decides
    assert_eq!(fill_and_check(&to_vec("abc"), &to_vec("abd")), Some(Ordering::Less));
    assert_eq!(fill_and_check(&to_vec("aBc"), &to_vec("abd")), Some(Ordering::Less));
    // a pure case difference is remembered reversed
    assert_eq!(fill_and_check(&to_vec("aBc"), &to_vec("abc")), Some(Ordering::Greater));
    // the longer side wins when one runs out
    assert_eq!(fill_and_check(&to_vec("ab"), &to_vec("abc")), Some(Ordering::Less));
    // equal eligible strings decide nothing
    assert_eq!(fill_and_check(&to_vec("abc"), &to_vec("abc")), None);
    // anything ineligible gives up
    assert_eq!(fill_and_check(&to_vec("a√"), &to_vec("ab")), None);
    assert_eq!(fill_and_check(&to_vec("a-b"), &to_vec("axb")), None);
}

#[test]
fn conformance_lines() {
    assert_eq!(parse_conformance_line(b"0041 0301"), Some(vec![0x41, 0x301]));
    assert_eq!(parse_conformance_line(b"1F600"), Some(vec![0x1F600]));
    assert_eq!(parse_conformance_line(b"fffe 0062"), Some(vec![0xFFFE, 0x62]));
    assert_eq!(parse_conformance_line(b""), None);
    assert_eq!(parse_conformance_line(b"# comment"), None);
    // surrogates are skipped
    assert_eq!(parse_conformance_line(b"0041 D800"), None);
    // malformed tokens are rejected
    assert_eq!(parse_conformance_line(b"0041  0042"), None);
    assert_eq!(parse_conformance_line(b"XYZ"), None);
    assert_eq!(parse_conformance_line(b"110000"), None);
    assert_eq!(parse_conformance_line(b"FFFFFFFFF"), None);
}
