//! Helpers for building a collation element array: implicit weights for
//! code points absent from the tables, contraction-key packing, shifted row
//! filling, buffer growth, and the combining-class checks of discontiguous
//! matching.

use vstd::prelude::*;
use crate::consts::{INCLUDED_UNASSIGNED, MAX_CODE_POINT};
use crate::unicode::{ccc, spec_ccc};
use crate::weights::{pack_weights, shift_weights, spec_pack_weights, spec_primary, spec_secondary, spec_shift_weights, spec_tertiary, spec_variability};

verus! {

/// The primary weight of the first implicit collation element, chosen by
/// block: CJK extensions, CJK base, Tangut, Khitan, and Nushu ranges have
/// their own formulas; everything else (including four unassigned code
/// points inside the CJK extension ranges) takes the unassigned formula.
pub open spec fn spec_aaaa(cp: u32) -> u32 {
    if INCLUDED_UNASSIGNED@.contains(cp) {
        (0xFBC0 + (cp >> 15)) as u32
    } else if (0x3400 <= cp && cp <= 0x4DBF) || (0x20000 <= cp && cp <= 0x2A6DF) || (0x2A700 <= cp
        && cp <= 0x2EE5D) || (0x30000 <= cp && cp <= 0x323AF) {
        (0xFB80 + (cp >> 15)) as u32
    } else if (0x4E00 <= cp && cp <= 0x9FFF) || (0xF900 <= cp && cp <= 0xFAFF) {
        (0xFB40 + (cp >> 15)) as u32
    } else if (0x17000 <= cp && cp <= 0x18AFF) || (0x18D00 <= cp && cp <= 0x18D8F) {
        0xFB00u32
    } else if 0x18B00 <= cp && cp <= 0x18CFF {
        0xFB02u32
    } else if 0x1B170 <= cp && cp <= 0x1B2FF {
        0xFB01u32
    } else {
        (0xFBC0 + (cp >> 15)) as u32
    }
}

/// The primary weight of the second implicit collation element: an offset
/// into the code point's block, with the high bit set.
pub open spec fn spec_bbbb(cp: u32) -> u32 {
    let base: u32 = if INCLUDED_UNASSIGNED@.contains(cp) {
        cp & 0x7FFF
    } else if (0x17000 <= cp && cp <= 0x18AFF) || (0x18D00 <= cp && cp <= 0x18D8F) {
        (cp - 0x17000) as u32
    } else if 0x18B00 <= cp && cp <= 0x18CFF {
        (cp - 0x18B00) as u32
    } else if 0x1B170 <= cp && cp <= 0x1B2FF {
        (cp - 0x1B170) as u32
    } else {
        cp & 0x7FFF
    };
    base | 0x8000
}

/// The first implicit collation element: primary by block formula,
/// secondary 32, tertiary 2, not variable.
pub open spec fn spec_implicit_a(cp: u32) -> u32 {
    spec_pack_weights(false, spec_aaaa(cp) as u16, 32, 2)
}

/// The second implicit collation element: primary `spec_bbbb`, secondary
/// and tertiary 0, not variable.
pub open spec fn spec_implicit_b(cp: u32) -> u32 {
    spec_pack_weights(false, spec_bbbb(cp) as u16, 0, 0)
}

/// Compute the first implicit collation element of a code point.
pub fn implicit_a(cp: u32) -> (r: u32)
    requires
        cp <= MAX_CODE_POINT,
    ensures
        r == spec_implicit_a(cp),
{
    proof {
        assert(cp <= 0x10FFFF ==> cp >> 15 <= 0x21) by (bit_vector);
    }
    let aaaa: u32 = if crate::tables::in_list(&INCLUDED_UNASSIGNED, cp) {
        0xFBC0 + (cp >> 15)
    } else if (0x3400 <= cp && cp <= 0x4DBF) || (0x20000 <= cp && cp <= 0x2A6DF) || (0x2A700 <= cp
        && cp <= 0x2EE5D) || (0x30000 <= cp && cp <= 0x323AF) {
        0xFB80 + (cp >> 15)
    } else if (0x4E00 <= cp && cp <= 0x9FFF) || (0xF900 <= cp && cp <= 0xFAFF) {
        0xFB40 + (cp >> 15)
    } else if (0x17000 <= cp && cp <= 0x18AFF) || (0x18D00 <= cp && cp <= 0x18D8F) {
        0xFB00
    } else if 0x18B00 <= cp && cp <= 0x18CFF {
        0xFB02
    } else if 0x1B170 <= cp && cp <= 0x1B2FF {
        0xFB01
    } else {
        0xFBC0 + (cp >> 15)
    };
    pack_weights(false, aaaa as u16, 32, 2)
}

/// Compute the second implicit collation element of a code point.
pub fn implicit_b(cp: u32) -> (r: u32)
    requires
        cp <= MAX_CODE_POINT,
    ensures
        r == spec_implicit_b(cp),
{
    let mut bbbb: u32 = if crate::tables::in_list(&INCLUDED_UNASSIGNED, cp) {
        cp & 0x7FFF
    } else if (0x17000 <= cp && cp <= 0x18AFF) || (0x18D00 <= cp && cp <= 0x18D8F) {
        cp - 0x17000
    } else if 0x18B00 <= cp && cp <= 0x18CFF {
        cp - 0x18B00
    } else if 0x1B170 <= cp && cp <= 0x1B2FF {
        cp - 0x1B170
    } else {
        cp & 0x7FFF
    };
    proof {
        assert(cp & 0x7FFF <= 0x7FFF) by (bit_vector);
        assert(bbbb <= 0x7FFF ==> (bbbb | 0x8000) <= 0xFFFF) by (bit_vector);
    }
    bbbb = bbbb | 0x8000;
    pack_weights(false, bbbb as u16, 0, 0)
}

/// Synthesizing the implicit pair of a code point and reading the primaries
/// back gives the block formulas: the packing loses nothing.
pub proof fn lemma_implicit_primary_round_trip(cp: u32)
    requires
        cp <= MAX_CODE_POINT,
    ensures
        spec_primary(spec_implicit_a(cp)) as int == spec_aaaa(cp) as int,
        spec_primary(spec_implicit_b(cp)) as int == spec_bbbb(cp) as int,
        spec_secondary(spec_implicit_a(cp)) == 32,
        spec_tertiary(spec_implicit_a(cp)) == 2,
        !spec_variability(spec_implicit_a(cp)),
        spec_secondary(spec_implicit_b(cp)) == 0,
        spec_tertiary(spec_implicit_b(cp)) == 0,
        !spec_variability(spec_implicit_b(cp)),
{
    assert(cp <= 0x10FFFF ==> cp >> 15 <= 0x21) by (bit_vector);
    assert(cp & 0x7FFF <= 0x7FFF) by (bit_vector);
    let base: u32 = if INCLUDED_UNASSIGNED@.contains(cp) {
        cp & 0x7FFF
    } else if (0x17000 <= cp && cp <= 0x18AFF) || (0x18D00 <= cp && cp <= 0x18D8F) {
        (cp - 0x17000) as u32
    } else if 0x18B00 <= cp && cp <= 0x18CFF {
        (cp - 0x18B00) as u32
    } else if 0x1B170 <= cp && cp <= 0x1B2FF {
        (cp - 0x1B170) as u32
    } else {
        cp & 0x7FFF
    };
    assert(base <= 0x7FFF ==> (base | 0x8000) <= 0xFFFF) by (bit_vector);
    crate::weights::lemma_pack_unpack_round_trip(false, spec_aaaa(cp) as u16, 32, 2);
    crate::weights::lemma_pack_unpack_round_trip(false, spec_bbbb(cp) as u16, 0, 0);
}

/// Pack two or three code points into one `u64` contraction key, 21 bits
/// per code point.
pub open spec fn spec_pack_code_points(code_points: Seq<u32>) -> u64 {
    if code_points.len() == 2 {
        (((code_points[0] as u64) << 21) | (code_points[1] as u64)) as u64
    } else {
        ((((code_points[0] as u64) << 42) | ((code_points[1] as u64) << 21)) | (
        code_points[2] as u64)) as u64
    }
}

/// Pack a sequence of two or three code points into one `u64` key for the
/// multis table.
pub fn pack_code_points(code_points: &Vec<u32>) -> (r: u64)
    requires
        code_points@.len() == 2 || code_points@.len() == 3,
    ensures
        r == spec_pack_code_points(code_points@),
{
    if code_points.len() == 2 {
        ((code_points[0] as u64) << 21) | (code_points[1] as u64)
    } else {
        ((code_points[0] as u64) << 42) | ((code_points[1] as u64) << 21) | (code_points[2] as u64)
    }
}

/// The state of the last-variable flag after shifting one element (the
/// flag is untouched when shifting is off).
pub open spec fn spec_lv_step(w: u32, shifting: bool, lv: bool) -> bool {
    if shifting {
        spec_shift_weights(w, lv).1
    } else {
        lv
    }
}

/// The state of the last-variable flag after a whole row has been written.
pub open spec fn spec_lv_after(row: Seq<u32>, shifting: bool, lv: bool) -> bool
    decreases row.len(),
{
    if row.len() == 0 {
        lv
    } else {
        spec_lv_after(row.drop_first(), shifting, spec_lv_step(row[0], shifting, lv))
    }
}

/// One written element: shifted if shifting is on, as it stands otherwise.
pub open spec fn spec_shifted_elem(w: u32, shifting: bool, lv: bool) -> u32 {
    if shifting {
        spec_shift_weights(w, lv).0
    } else {
        w
    }
}

/// The whole weight row as written: element `i` is shifted under the flag
/// state left by the elements before it.
pub open spec fn spec_fill_row(row: Seq<u32>, shifting: bool, lv: bool) -> Seq<u32> {
    Seq::new(row.len(), |i: int| spec_shifted_elem(row[i], shifting, spec_lv_after(row.take(i), shifting, lv)))
}

/// Reading `spec_lv_after` off the back of a prefix: the flag after `j`
/// elements is one step past the flag after `j - 1`.
pub proof fn lemma_lv_after_snoc(row: Seq<u32>, j: int, shifting: bool, lv: bool)
    requires
        1 <= j <= row.len(),
    ensures
        spec_lv_after(row.take(j), shifting, lv) == spec_lv_step(
            row[j - 1],
            shifting,
            spec_lv_after(row.take(j - 1), shifting, lv),
        ),
    decreases j,
{
    if j == 1 {
        assert(row.take(1)[0] == row[0]);
        assert(row.take(1).drop_first() =~= Seq::<u32>::empty());
        assert(row.take(0int) =~= Seq::<u32>::empty());
        assert(spec_lv_after(row.take(0int), shifting, lv) == lv);
        assert(spec_lv_after(row.take(1), shifting, lv) == spec_lv_after(
            Seq::<u32>::empty(),
            shifting,
            spec_lv_step(row[0], shifting, lv),
        ));
        assert(spec_lv_after(Seq::<u32>::empty(), shifting, spec_lv_step(row[0], shifting, lv))
            == spec_lv_step(row[0], shifting, lv));
    } else {
        let tail = row.drop_first();
        lemma_lv_after_snoc(tail, j - 1, shifting, spec_lv_step(row[0], shifting, lv));
        assert(row.take(j)[0] == row[0]);
        assert(row.take(j - 1)[0] == row[0]);
        assert(row.take(j).drop_first() =~= tail.take(j - 1));
        assert(row.take(j - 1).drop_first() =~= tail.take(j - 2));
        assert(tail[j - 2] == row[j - 1]);
        assert(spec_lv_after(row.take(j), shifting, lv) == spec_lv_after(
            tail.take(j - 1),
            shifting,
            spec_lv_step(row[0], shifting, lv),
        ));
        assert(spec_lv_after(row.take(j - 1), shifting, lv) == spec_lv_after(
            tail.take(j - 2),
            shifting,
            spec_lv_step(row[0], shifting, lv),
        ));
    }
}

/// Reading `spec_fill_row` off the back of a prefix: the row written for
/// `j` elements is the row written for `j - 1` with one more element.
pub proof fn lemma_fill_row_snoc(row: Seq<u32>, j: int, shifting: bool, lv: bool)
    requires
        1 <= j <= row.len(),
    ensures
        spec_fill_row(row.take(j), shifting, lv) == spec_fill_row(row.take(j - 1), shifting,
            lv).push(
            spec_shifted_elem(row[j - 1], shifting, spec_lv_after(row.take(j - 1), shifting, lv)),
        ),
{
    assert forall|k: int| 0 <= k < j implies #[trigger] row.take(j).take(k) == row.take(k) by {
        assert(row.take(j).take(k) =~= row.take(k));
    }
    assert forall|k: int| 0 <= k < j - 1 implies #[trigger] row.take(j - 1).take(k) == row.take(
        k,
    ) by {
        assert(row.take(j - 1).take(k) =~= row.take(k));
    }
    assert(row.take(j).take(j - 1) =~= row.take(j - 1));
    assert(spec_fill_row(row.take(j), shifting, lv) =~= spec_fill_row(row.take(j - 1), shifting,
        lv).push(
        spec_shifted_elem(row[j - 1], shifting, spec_lv_after(row.take(j - 1), shifting, lv)),
    ));
}

/// Write a weight row into the collation element array at `*i`, shifting
/// each element if `shifting` is on, and advance `*i` past it.
pub fn fill_weights(
    cea: &mut Vec<u32>,
    row: &Vec<u32>,
    i: &mut usize,
    shifting: bool,
    last_variable: &mut bool,
)
    requires
        *old(i) + row@.len() <= old(cea)@.len(),
    ensures
        final(cea)@.len() == old(cea)@.len(),
        *final(i) == *old(i) + row@.len(),
        final(cea)@.subrange(0, *old(i) as int) == old(cea)@.subrange(0, *old(i) as int),
        final(cea)@.subrange(*old(i) as int, *final(i) as int) == spec_fill_row(
            row@,
            shifting,
            *old(last_variable),
        ),
        final(cea)@.subrange(*final(i) as int, final(cea)@.len() as int) == old(cea)@.subrange(
            *final(i) as int,
            old(cea)@.len() as int,
        ),
        *final(last_variable) == spec_lv_after(row@, shifting, *old(last_variable)),
{
    let ghost cea0 = cea@;
    let ghost i0: usize = *i;
    let ghost lv0: bool = *last_variable;
    let mut j: usize = 0;
    while j < row.len()
        invariant
            i0 + row@.len() <= cea0.len(),
            *i == i0 + j,
            0 <= j <= row@.len(),
            cea@.len() == cea0.len(),
            cea0.len() == cea.len(),
            cea@.subrange(0, i0 as int) == cea0.subrange(0, i0 as int),
            cea@.subrange(i0 as int, *i as int) == spec_fill_row(row@.take(j as int), shifting, lv0),
            cea@.subrange(*i as int, cea@.len() as int) == cea0.subrange(
                *i as int,
                cea0.len() as int,
            ),
            *last_variable == spec_lv_after(row@.take(j as int), shifting, lv0),
        decreases row@.len() - j,
    {
        let ghost cea_pre = cea@;
        let ghost i_pre: usize = *i;
        let ghost lv_pre: bool = *last_variable;
        let w: u32 = if shifting {
            shift_weights(row[j], last_variable)
        } else {
            row[j]
        };
        cea[*i] = w;
        *i = *i + 1;
        j = j + 1;
        proof {
            lemma_lv_after_snoc(row@, j as int, shifting, lv0);
            assert(row@.take(j as int)[j - 1] == row@[j - 1]);
            assert(row@.take(j as int).take(j - 1) =~= row@.take(j - 1));
            assert(w == spec_shifted_elem(row@[j - 1], shifting, lv_pre));
            assert(*last_variable == spec_lv_step(row@[j - 1], shifting, lv_pre));
            assert(cea@.subrange(0, i0 as int) =~= cea_pre.subrange(0, i0 as int));
            assert(cea@.subrange(i0 as int, *i as int) =~= cea_pre.subrange(
                i0 as int,
                i_pre as int,
            ).push(w));
            lemma_fill_row_snoc(row@, j as int, shifting, lv0);
            assert(cea@.subrange(*i as int, cea@.len() as int) =~= cea_pre.subrange(
                *i as int,
                cea_pre.len() as int,
            ));
            assert(cea0.subrange(*i as int, cea0.len() as int) =~= cea0.subrange(
                i_pre as int,
                cea0.len() as int,
            ).drop_first());
        }
    }
    proof {
        assert(row@.take(row@.len() as int) =~= row@);
    }
}

/// Make room in the collation element array: ensure at least 20 free slots
/// past `i` (room for the longest weight row plus the sentinel), roughly
/// doubling the buffer when it must grow. A buffer with enough slack is
/// left untouched; grown slots hold 0.
pub fn grow_vec(cea: &mut Vec<u32>, i: usize)
    requires
        i <= old(cea)@.len(),
        i + 20 <= usize::MAX,
    ensures
        final(cea)@.len() >= i + 20,
        final(cea)@.len() >= old(cea)@.len(),
        final(cea)@.subrange(0, old(cea)@.len() as int) == old(cea)@,
        old(cea)@.len() - i >= 20 ==> final(cea)@ == old(cea)@,
        old(cea)@.len() - i < 20 ==> final(cea)@.len() as int == (if old(cea)@.len()
            <= usize::MAX / 2 && old(cea)@.len() * 2 >= i + 20 {
            old(cea)@.len() * 2 as int
        } else {
            i + 20 as int
        }),
        forall|j: int| old(cea)@.len() <= j < final(cea)@.len() ==> final(cea)@[j] == 0,
{
    let l = cea.len();
    if l - i < 20 {
        let target: usize = if l <= usize::MAX / 2 && l * 2 >= i + 20 {
            l * 2
        } else {
            i + 20
        };
        while cea.len() < target
            invariant
                old(cea)@.len() <= cea@.len(),
                cea@.len() <= target,
                cea@.subrange(0, old(cea)@.len() as int) == old(cea)@,
                forall|j: int| old(cea)@.len() <= j < cea@.len() ==> cea@[j] == 0,
                i + 20 <= target,
            decreases target - cea@.len(),
        {
            let ghost pre = cea@;
            cea.push(0);
            proof {
                assert(cea@.subrange(0, old(cea)@.len() as int) =~= pre.subrange(
                    0,
                    old(cea)@.len() as int,
                ));
            }
        }
    } else {
        proof {
            assert(cea@.subrange(0, old(cea)@.len() as int) =~= cea@);
        }
    }
}

/// Write the packed element of one low code point at `*i`, shifted if
/// shifting is on, and advance `*i`.
pub fn handle_low_weights(
    cea: &mut Vec<u32>,
    weights: u32,
    i: &mut usize,
    shifting: bool,
    last_variable: &mut bool,
)
    requires
        *old(i) < old(cea)@.len(),
    ensures
        final(cea)@.len() == old(cea)@.len(),
        *final(i) == *old(i) + 1,
        final(cea)@ == old(cea)@.update(
            *old(i) as int,
            spec_shifted_elem(weights, shifting, *old(last_variable)),
        ),
        *final(last_variable) == spec_lv_step(weights, shifting, *old(last_variable)),
{
    proof {
        assert(*i < cea.len());
    }
    if shifting {
        let w = shift_weights(weights, last_variable);
        cea[*i] = w;
    } else {
        cea[*i] = weights;
    }
    *i = *i + 1;
}

/// Write the two implicit collation elements of a code point at `*i` and
/// advance `*i` past them. Implicit weights are neither variable nor
/// ignorable, so they are written unshifted and the last-variable flag is
/// not consulted.
pub fn handle_implicit_weights(cea: &mut Vec<u32>, cp: u32, i: &mut usize)
    requires
        cp <= MAX_CODE_POINT,
        *old(i) + 2 <= old(cea)@.len(),
    ensures
        final(cea)@.len() == old(cea)@.len(),
        *final(i) == *old(i) + 2,
        final(cea)@ == old(cea)@.update(*old(i) as int, spec_implicit_a(cp)).update(
            *old(i) + 1,
            spec_implicit_b(cp),
        ),
{
    proof {
        assert(*i + 2 <= cea.len());
    }
    cea[*i] = implicit_a(cp);
    *i = *i + 1;
    cea[*i] = implicit_b(cp);
    *i = *i + 1;
}

/// Remove from the code point buffer the one or two later code points that
/// a discontiguous match consumed, keeping the tracked length in step.
pub fn remove_pulled(char_vals: &mut Vec<u32>, i: usize, input_length: &mut usize, try_two: bool)
    requires
        *old(input_length) == old(char_vals)@.len(),
        i < old(char_vals)@.len(),
        try_two ==> 1 <= i,
    ensures
        final(char_vals)@ == if try_two {
            old(char_vals)@.remove(i as int).remove(i - 1)
        } else {
            old(char_vals)@.remove(i as int)
        },
        *final(input_length) == final(char_vals)@.len(),
{
    char_vals.remove(i);
    *input_length = *input_length - 1;
    if try_two {
        char_vals.remove(i - 1);
        *input_length = *input_length - 1;
    }
}

/// Whether a sequence of code points has strictly increasing combining
/// classes starting from a nonzero one, so that a discontiguous match may
/// reach past it.
pub open spec fn spec_ccc_seq_ok_from(s: Seq<u32>, max_ccc: u8) -> bool
    decreases s.len(),
{
    if s.len() == 0 {
        true
    } else {
        let c = spec_ccc(s[0]);
        &&& !(c == 0 || c <= max_ccc)
        &&& spec_ccc_seq_ok_from(s.drop_first(), c)
    }
}

/// A range that passes the combining-class check holds marks alone: every
/// element's class is nonzero.
pub proof fn lemma_ccc_seq_ok_all_marks(s: Seq<u32>, max_ccc: u8)
    requires
        spec_ccc_seq_ok_from(s, max_ccc),
    ensures
        forall|k: int| 0 <= k < s.len() ==> spec_ccc(#[trigger] s[k]) > 0,
    decreases s.len(),
{
    if s.len() > 0 {
        lemma_ccc_seq_ok_all_marks(s.drop_first(), spec_ccc(s[0]));
        assert forall|k: int| 0 <= k < s.len() implies spec_ccc(#[trigger] s[k]) > 0 by {
            if k > 0 {
                assert(s.drop_first()[k - 1] == s[k]);
            }
        }
    }
}

/// The test applied to the whole range, starting from class 0.
pub open spec fn spec_ccc_seq_ok(s: Seq<u32>) -> bool {
    spec_ccc_seq_ok_from(s, 0)
}

/// Check that the code points at `from .. to` have strictly increasing,
/// nonzero combining classes; an empty range passes vacuously.
pub fn ccc_sequence_ok(chars: &Vec<u32>, from: usize, to: usize) -> (r: bool)
    requires
        from <= to <= chars@.len(),
    ensures
        r == spec_ccc_seq_ok(chars@.subrange(from as int, to as int)),
{
    let ghost full = chars@.subrange(from as int, to as int);
    let mut max_ccc: u8 = 0;
    let mut j: usize = from;
    while j < to
        invariant
            from <= j <= to,
            to <= chars@.len(),
            chars@.len() == chars.len(),
            full == chars@.subrange(from as int, to as int),
            spec_ccc_seq_ok(full) == spec_ccc_seq_ok_from(
                chars@.subrange(j as int, to as int),
                max_ccc,
            ),
        decreases to - j,
    {
        let c = ccc(chars[j]);
        proof {
            assert(chars@.subrange(j as int, to as int)[0] == chars@[j as int]);
            assert(chars@.subrange(j as int, to as int).drop_first() =~= chars@.subrange(
                j + 1,
                to as int,
            ));
        }
        if c == 0 || c <= max_ccc {
            return false;
        }
        max_ccc = c;
        j = j + 1;
    }
    proof {
        assert(chars@.subrange(j as int, to as int) =~= Seq::<u32>::empty());
    }
    true
}

} // verus!
