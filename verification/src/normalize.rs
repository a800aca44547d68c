//! Normalization to NFD: an FCD precheck that certifies a buffer as already
//! acceptable, canonical decomposition (with the algorithmic Hangul path),
//! and canonical reordering of combining marks.

use vstd::prelude::*;
use crate::consts::JAMO_LV;
use crate::tables::{Tables, in_list};
use crate::unicode::{ccc, spec_ccc};

verus! {

/// Jamo arithmetic: the first Hangul syllable.
pub const S_BASE: u32 = 0xAC00;
/// Jamo arithmetic: the first leading consonant.
pub const L_BASE: u32 = 0x1100;
/// Jamo arithmetic: the first vowel.
pub const V_BASE: u32 = 0x1161;
/// Jamo arithmetic: the first trailing consonant.
pub const T_BASE: u32 = 0x11A7;
/// Jamo arithmetic: the number of trailing consonants, plus one.
pub const T_COUNT: u32 = 28;
/// Jamo arithmetic: the number of syllables per leading consonant.
pub const N_COUNT: u32 = 588;

/// The leading combining class a code point reports to the FCD walk: the
/// first byte of its FCD entry, or its own combining class without one.
pub open spec fn spec_fcd_lead(t: Tables, c: u32) -> u8 {
    if t.fcd_map().contains_key(c) {
        (t.fcd_map()[c] >> 8) as u8
    } else {
        spec_ccc(c)
    }
}

/// The trailing combining class a code point reports to the FCD walk: the
/// second byte of its FCD entry, or its own combining class without one.
pub open spec fn spec_fcd_trail(t: Tables, c: u32) -> u8 {
    if t.fcd_map().contains_key(c) {
        (t.fcd_map()[c] & 0xFF) as u8
    } else {
        spec_ccc(c)
    }
}

/// The FCD walk from a given previous trailing class: every code point
/// below 0xC0 resets the chain; U+0F81 and the Hangul syllables always
/// fail; otherwise a nonzero leading class smaller than the previous
/// trailing class fails.
pub open spec fn spec_fcd_from(t: Tables, s: Seq<u32>, prev_trail: u8) -> bool
    decreases s.len(),
{
    if s.len() == 0 {
        true
    } else {
        let c = s[0];
        if c < 0xC0 {
            spec_fcd_from(t, s.drop_first(), 0)
        } else if c == 0xF81 || (0xAC00 <= c && c <= 0xD7A3) {
            false
        } else {
            let lead = spec_fcd_lead(t, c);
            let trail = spec_fcd_trail(t, c);
            if lead != 0 && lead < prev_trail {
                false
            } else {
                spec_fcd_from(t, s.drop_first(), trail)
            }
        }
    }
}

/// Whether a buffer passes the FCD precheck, so that normalization may be
/// skipped.
pub open spec fn spec_fcd(t: Tables, s: Seq<u32>) -> bool {
    spec_fcd_from(t, s, 0)
}

/// Run the FCD precheck over a buffer.
pub fn fcd(t: &Tables, input: &Vec<u32>) -> (r: bool)
    ensures
        r == spec_fcd(*t, input@),
{
    let ghost full = input@;
    proof {
        assert(input@.skip(0int) =~= input@);
    }
    let mut prev_trail_cc: u8 = 0;
    let mut i: usize = 0;
    while i < input.len()
        invariant
            0 <= i <= input@.len(),
            input@.len() == input.len(),
            spec_fcd(*t, full) == spec_fcd_from(*t, input@.skip(i as int), prev_trail_cc),
            full == input@,
        decreases input@.len() - i,
    {
        let c = input[i];
        proof {
            assert(input@.skip(i as int)[0] == input@[i as int]);
            assert(input@.skip(i as int).drop_first() =~= input@.skip(i + 1));
        }
        if c < 0xC0 {
            prev_trail_cc = 0;
            i = i + 1;
            continue;
        }
        if c == 0xF81 || (0xAC00 <= c && c <= 0xD7A3) {
            return false;
        }
        let curr_lead_cc: u8;
        let curr_trail_cc: u8;
        match t.fcd_get(c) {
            Some(vals) => {
                proof {
                    assert(vals >> 8 <= 0xFF && vals & 0xFF <= 0xFF) by (bit_vector);
                }
                curr_lead_cc = (vals >> 8) as u8;
                curr_trail_cc = (vals & 0xFF) as u8;
            },
            None => {
                curr_lead_cc = ccc(c);
                curr_trail_cc = curr_lead_cc;
            },
        }
        if curr_lead_cc != 0 && curr_lead_cc < prev_trail_cc {
            return false;
        }
        prev_trail_cc = curr_trail_cc;
        i = i + 1;
    }
    proof {
        assert(input@.skip(i as int) =~= Seq::<u32>::empty());
    }
    true
}

/// The algorithmic decomposition of a Hangul syllable: a leading consonant
/// and a vowel, plus a trailing consonant unless the syllable is in the LV
/// set.
pub open spec fn spec_jamo_expansion(s: u32) -> Seq<u32> {
    let s_index = s as int - S_BASE as int;
    let l_part = (L_BASE as int + s_index / (N_COUNT as int)) as u32;
    let v_part = (V_BASE as int + (s_index % (N_COUNT as int)) / (T_COUNT as int)) as u32;
    let t_part = (T_BASE as int + s_index % (T_COUNT as int)) as u32;
    if JAMO_LV@.contains(s) {
        seq![l_part, v_part]
    } else {
        seq![l_part, v_part, t_part]
    }
}

/// Decompose one Hangul syllable into its jamo.
pub fn decompose_jamo(s: u32) -> (r: Vec<u32>)
    requires
        S_BASE <= s <= 0xD7A3,
    ensures
        r@ == spec_jamo_expansion(s),
{
    let s_index = s - S_BASE;
    let lv = in_list(&JAMO_LV, s);
    let l_index = s_index / N_COUNT;
    let v_index = (s_index % N_COUNT) / T_COUNT;
    if lv {
        let l_part = L_BASE + l_index;
        let v_part = V_BASE + v_index;
        let r = vec![l_part, v_part];
        proof {
            assert(r@ =~= spec_jamo_expansion(s));
        }
        r
    } else {
        let t_index = s_index % T_COUNT;
        let l_part = L_BASE + l_index;
        let v_part = V_BASE + v_index;
        let t_part = T_BASE + t_index;
        let r = vec![l_part, v_part, t_part];
        proof {
            assert(r@ =~= spec_jamo_expansion(s));
        }
        r
    }
}

/// What one code point contributes to the decomposed buffer: itself when it
/// is low or has no decomposition, its jamo when it is a Hangul syllable,
/// and its decomposition row otherwise.
pub open spec fn spec_expansion(t: Tables, c: u32) -> Seq<u32> {
    if c < 0xC0 {
        seq![c]
    } else if 0xAC00 <= c && c <= 0xD7A3 {
        spec_jamo_expansion(c)
    } else if t.decomp_map().contains_key(c) {
        t.decomp_map()[c]
    } else {
        seq![c]
    }
}

/// The canonical decomposition of a whole buffer: the concatenation of the
/// expansions of its code points.
pub open spec fn spec_decompose(t: Tables, s: Seq<u32>) -> Seq<u32>
    decreases s.len(),
{
    if s.len() == 0 {
        Seq::<u32>::empty()
    } else {
        spec_expansion(t, s[0]) + spec_decompose(t, s.drop_first())
    }
}

/// Reading `spec_decompose` off the back of a prefix.
pub proof fn lemma_decompose_snoc(t: Tables, s: Seq<u32>, j: int)
    requires
        1 <= j <= s.len(),
    ensures
        spec_decompose(t, s.take(j)) == spec_decompose(t, s.take(j - 1)) + spec_expansion(
            t,
            s[j - 1],
        ),
    decreases j,
{
    if j == 1 {
        assert(s.take(1)[0] == s[0]);
        assert(s.take(1).drop_first() =~= Seq::<u32>::empty());
        assert(s.take(0int) =~= Seq::<u32>::empty());
        assert(spec_decompose(t, s.take(1)) =~= spec_decompose(t, s.take(0int)) + spec_expansion(
            t,
            s[0],
        ));
    } else {
        let tail = s.drop_first();
        lemma_decompose_snoc(t, tail, j - 1);
        assert(s.take(j)[0] == s[0]);
        assert(s.take(j - 1)[0] == s[0]);
        assert(s.take(j).drop_first() =~= tail.take(j - 1));
        assert(s.take(j - 1).drop_first() =~= tail.take(j - 2));
        assert(tail[j - 2] == s[j - 1]);
        assert(spec_decompose(t, s.take(j)) == spec_expansion(t, s[0]) + spec_decompose(
            t,
            tail.take(j - 1),
        ));
        assert(spec_decompose(t, s.take(j - 1)) == spec_expansion(t, s[0]) + spec_decompose(
            t,
            tail.take(j - 2),
        ));
        assert((spec_expansion(t, s[0]) + (spec_decompose(t, tail.take(j - 2)) + spec_expansion(
            t,
            tail[j - 2],
        ))) =~= (spec_expansion(t, s[0]) + spec_decompose(t, tail.take(j - 2))) + spec_expansion(
            t,
            tail[j - 2],
        ));
    }
}

/// An expansion is never empty and never longer than a table row may be.
pub proof fn lemma_expansion_len(t: Tables, c: u32)
    requires
        t.wf(),
    ensures
        1 <= spec_expansion(t, c).len() <= crate::tables::MAX_ROW_LEN,
{
}

/// The decomposed buffer is at most `MAX_ROW_LEN` times the input buffer.
pub proof fn lemma_decompose_len(t: Tables, s: Seq<u32>)
    requires
        t.wf(),
    ensures
        s.len() <= spec_decompose(t, s).len() <= crate::tables::MAX_ROW_LEN * s.len(),
    decreases s.len(),
{
    if s.len() > 0 {
        lemma_expansion_len(t, s[0]);
        lemma_decompose_len(t, s.drop_first());
    }
}

/// Decompose a buffer, producing a new one.
pub fn decompose(t: &Tables, input: &Vec<u32>) -> (out: Vec<u32>)
    requires
        t.wf(),
    ensures
        out@ == spec_decompose(*t, input@),
{
    let mut out: Vec<u32> = Vec::new();
    let mut i: usize = 0;
    while i < input.len()
        invariant
            0 <= i <= input@.len(),
            input@.len() == input.len(),
            t.wf(),
            out@ == spec_decompose(*t, input@.take(i as int)),
        decreases input@.len() - i,
    {
        let ghost pre = out@;
        let code_point = input[i];
        if code_point < 0xC0 {
            out.push(code_point);
            proof {
                assert(pre.push(code_point) =~= pre + seq![code_point]);
            }
        } else if 0xAC00 <= code_point && code_point <= 0xD7A3 {
            let rep = decompose_jamo(code_point);
            push_all(&mut out, &rep);
        } else {
            match t.decomp_get(code_point) {
                Some(rep) => {
                    push_all(&mut out, rep);
                },
                None => {
                    out.push(code_point);
                    proof {
                        assert(pre.push(code_point) =~= pre + seq![code_point]);
                    }
                },
            }
        }
        i = i + 1;
        proof {
            lemma_decompose_snoc(*t, input@, i as int);
        }
    }
    proof {
        assert(input@.take(i as int) =~= input@);
    }
    out
}

/// Append a whole vector to another.
fn push_all(out: &mut Vec<u32>, row: &Vec<u32>)
    ensures
        final(out)@ == old(out)@ + row@,
{
    let mut j: usize = 0;
    while j < row.len()
        invariant
            0 <= j <= row@.len(),
            row@.len() == row.len(),
            out@ == old(out)@ + row@.take(j as int),
        decreases row@.len() - j,
    {
        out.push(row[j]);
        j = j + 1;
        proof {
            assert(old(out)@ + row@.take(j as int) =~= (old(out)@ + row@.take(j - 1)).push(
                row@[j - 1],
            ));
        }
    }
    proof {
        assert(row@.take(row@.len() as int) =~= row@);
    }
}

/// One canonical reordering pass, walking pairs from position `i` with the
/// right bound `n`: a pair of nonzero combining classes out of order is
/// swapped, and `new_n` remembers the last swap position.
pub open spec fn spec_reorder_pass(s: Seq<u32>, i: int, n: int, new_n: int) -> (Seq<u32>, int)
    decreases n - i,
{
    if i >= n || i < 1 {
        (s, new_n)
    } else {
        let ccc_b = spec_ccc(s[i]);
        if ccc_b == 0 {
            spec_reorder_pass(
                s,
                if i + 2 <= n {
                    i + 2
                } else {
                    n
                },
                n,
                new_n,
            )
        } else {
            let ccc_a = spec_ccc(s[i - 1]);
            if ccc_a == 0 || ccc_a <= ccc_b {
                spec_reorder_pass(s, i + 1, n, new_n)
            } else {
                spec_reorder_pass(s.update(i - 1, s[i]).update(i, s[i - 1]), i + 1, n, i)
            }
        }
    }
}

/// A pass keeps the buffer's length.
pub proof fn lemma_reorder_pass_len(s: Seq<u32>, i: int, n: int, new_n: int)
    requires
        n <= s.len(),
    ensures
        spec_reorder_pass(s, i, n, new_n).0.len() == s.len(),
    decreases n - i,
{
    if i >= n || i < 1 {
    } else {
        let ccc_b = spec_ccc(s[i]);
        if ccc_b == 0 {
            lemma_reorder_pass_len(
                s,
                if i + 2 <= n {
                    i + 2
                } else {
                    n
                },
                n,
                new_n,
            );
        } else {
            let ccc_a = spec_ccc(s[i - 1]);
            if ccc_a == 0 || ccc_a <= ccc_b {
                lemma_reorder_pass_len(s, i + 1, n, new_n);
            } else {
                lemma_reorder_pass_len(s.update(i - 1, s[i]).update(i, s[i - 1]), i + 1, n, i);
            }
        }
    }
}

/// A pass leaves the last-swap position below the right bound.
pub proof fn lemma_reorder_pass_new_n(s: Seq<u32>, i: int, n: int, new_n: int)
    requires
        0 <= new_n < n,
        1 <= i,
    ensures
        0 <= spec_reorder_pass(s, i, n, new_n).1 < n,
    decreases n - i,
{
    if i >= n || i < 1 {
    } else {
        let ccc_b = spec_ccc(s[i]);
        if ccc_b == 0 {
            lemma_reorder_pass_new_n(
                s,
                if i + 2 <= n {
                    i + 2
                } else {
                    n
                },
                n,
                new_n,
            );
        } else {
            let ccc_a = spec_ccc(s[i - 1]);
            if ccc_a == 0 || ccc_a <= ccc_b {
                lemma_reorder_pass_new_n(s, i + 1, n, new_n);
            } else {
                lemma_reorder_pass_new_n(s.update(i - 1, s[i]).update(i, s[i - 1]), i + 1, n, i);
            }
        }
    }
}

/// Repeated reordering passes, shrinking the right bound to the last swap
/// position of each pass, until a pass swaps nothing.
pub open spec fn spec_reorder_loop(s: Seq<u32>, n: int) -> Seq<u32>
    decreases n via spec_reorder_loop_dec
{
    if n <= 1 {
        s
    } else {
        let (s2, new_n) = spec_reorder_pass(s, 1, n, 0);
        spec_reorder_loop(s2, new_n)
    }
}

#[via_fn]
proof fn spec_reorder_loop_dec(s: Seq<u32>, n: int) {
    if n > 1 {
        lemma_reorder_pass_new_n(s, 1, n, 0);
    }
}

/// Reordering passes keep the buffer's length.
pub proof fn lemma_reorder_loop_len(s: Seq<u32>, n: int)
    requires
        n <= s.len(),
    ensures
        spec_reorder_loop(s, n).len() == s.len(),
    decreases n,
{
    if n > 1 {
        lemma_reorder_pass_new_n(s, 1, n, 0);
        lemma_reorder_pass_len(s, 1, n, 0);
        let (s2, new_n) = spec_reorder_pass(s, 1, n, 0);
        lemma_reorder_loop_len(s2, new_n);
    }
}

/// Canonically reorder a buffer in place: bubble passes that swap adjacent
/// pairs of nonzero combining classes standing in decreasing order, with the
/// right bound shrinking to the last swap of each pass.
pub fn reorder(input: &mut Vec<u32>)
    ensures
        final(input)@ == spec_reorder_loop(old(input)@, old(input)@.len() as int),
        final(input)@.len() == old(input)@.len(),
{
    let ghost orig = old(input)@;
    let mut n: usize = input.len();
    while n > 1
        invariant
            n <= input@.len(),
            input@.len() == orig.len(),
            input@.len() == input.len(),
            spec_reorder_loop(input@, n as int) == spec_reorder_loop(orig, orig.len() as int),
        decreases n,
    {
        let ghost s_entry = input@;
        let mut new_n: usize = 0;
        let mut i: usize = 1;
        while i < n
            invariant
                1 <= i,
                1 < n <= input@.len(),
                input@.len() == s_entry.len(),
                input@.len() == input.len(),
                new_n < n,
                spec_reorder_pass(input@, i as int, n as int, new_n as int) == spec_reorder_pass(
                    s_entry,
                    1,
                    n as int,
                    0,
                ),
            decreases n - i,
        {
            let ccc_b = ccc(input[i]);
            if ccc_b == 0 {
                i = if n - i >= 2 {
                    i + 2
                } else {
                    n
                };
                continue;
            }
            let ccc_a = ccc(input[i - 1]);
            if ccc_a == 0 || ccc_a <= ccc_b {
                i = i + 1;
                continue;
            }
            let ghost pre = input@;
            let va = input[i - 1];
            let vb = input[i];
            input[i - 1] = vb;
            input[i] = va;
            proof {
                assert(input@ =~= pre.update(i - 1, vb).update(i as int, va));
            }
            new_n = i;
            i = i + 1;
        }
        proof {
            lemma_reorder_pass_len(s_entry, 1, n as int, 0);
        }
        n = new_n;
    }
}

/// Every element of a buffer is a code point.
pub open spec fn all_code_points(s: Seq<u32>) -> bool {
    forall|i: int| 0 <= i < s.len() ==> s[i] <= crate::consts::MAX_CODE_POINT
}

/// Jamo expansions hold code points only.
pub proof fn lemma_jamo_bounded(c: u32)
    requires
        S_BASE <= c <= 0xD7A3,
    ensures
        all_code_points(spec_jamo_expansion(c)),
{
    let s_index = c as int - S_BASE as int;
    assert(0 <= s_index <= 0x2BA3);
    assert(s_index / (N_COUNT as int) <= s_index) by (nonlinear_arith)
        requires 0 <= s_index;
    assert(0 <= s_index % (N_COUNT as int) < 588);
    assert((s_index % (N_COUNT as int)) / (T_COUNT as int) <= s_index % (N_COUNT as int))
        by (nonlinear_arith)
        requires 0 <= s_index % (N_COUNT as int);
    assert(0 <= s_index % (T_COUNT as int) < 28);
}

/// Expansions of code points hold code points only.
pub proof fn lemma_expansion_bounded(t: Tables, c: u32)
    requires
        t.wf(),
        c <= crate::consts::MAX_CODE_POINT,
    ensures
        all_code_points(spec_expansion(t, c)),
{
    if 0xC0 <= c && 0xAC00 <= c && c <= 0xD7A3 {
        lemma_jamo_bounded(c);
    }
}

/// The decomposition of a buffer of code points holds code points only.
pub proof fn lemma_decompose_bounded(t: Tables, s: Seq<u32>)
    requires
        t.wf(),
        all_code_points(s),
    ensures
        all_code_points(spec_decompose(t, s)),
    decreases s.len(),
{
    if s.len() > 0 {
        lemma_expansion_bounded(t, s[0]);
        lemma_decompose_bounded(t, s.drop_first());
        assert(all_code_points(s.drop_first()));
    }
}

/// A reordering pass keeps every element a code point.
pub proof fn lemma_reorder_pass_bounded(s: Seq<u32>, i: int, n: int, new_n: int)
    requires
        n <= s.len(),
        all_code_points(s),
    ensures
        all_code_points(spec_reorder_pass(s, i, n, new_n).0),
    decreases n - i,
{
    if i >= n || i < 1 {
    } else {
        let ccc_b = spec_ccc(s[i]);
        if ccc_b == 0 {
            lemma_reorder_pass_bounded(
                s,
                if i + 2 <= n {
                    i + 2
                } else {
                    n
                },
                n,
                new_n,
            );
        } else {
            let ccc_a = spec_ccc(s[i - 1]);
            if ccc_a == 0 || ccc_a <= ccc_b {
                lemma_reorder_pass_bounded(s, i + 1, n, new_n);
            } else {
                let s2 = s.update(i - 1, s[i]).update(i, s[i - 1]);
                assert(all_code_points(s2));
                lemma_reorder_pass_bounded(s2, i + 1, n, i);
            }
        }
    }
}

/// The reordering passes keep every element a code point.
pub proof fn lemma_reorder_loop_bounded(s: Seq<u32>, n: int)
    requires
        n <= s.len(),
        all_code_points(s),
    ensures
        all_code_points(spec_reorder_loop(s, n)),
    decreases n,
{
    if n > 1 {
        lemma_reorder_pass_new_n(s, 1, n, 0);
        lemma_reorder_pass_len(s, 1, n, 0);
        lemma_reorder_pass_bounded(s, 1, n, 0);
        let (s2, new_n) = spec_reorder_pass(s, 1, n, 0);
        lemma_reorder_loop_bounded(s2, new_n);
    }
}

/// What normalization makes of a buffer: the buffer itself when the FCD
/// precheck passes, and its canonical decomposition, reordered, otherwise.
pub open spec fn spec_make_nfd(t: Tables, s: Seq<u32>) -> Seq<u32> {
    if spec_fcd(t, s) {
        s
    } else {
        let d = spec_decompose(t, s);
        spec_reorder_loop(d, d.len() as int)
    }
}

/// Normalize a buffer to NFD, unless the FCD precheck certifies that it is
/// already acceptable.
pub fn make_nfd(t: &Tables, input: &mut Vec<u32>)
    requires
        t.wf(),
    ensures
        final(input)@ == spec_make_nfd(*t, old(input)@),
        old(input)@.len() <= final(input)@.len() || spec_fcd(*t, old(input)@),
        final(input)@.len() <= crate::tables::MAX_ROW_LEN * old(input)@.len(),
        all_code_points(old(input)@) ==> all_code_points(final(input)@),
{
    proof {
        if !spec_fcd(*t, old(input)@) {
            let d = spec_decompose(*t, old(input)@);
            lemma_decompose_len(*t, old(input)@);
            lemma_reorder_loop_len(d, d.len() as int);
            if all_code_points(old(input)@) {
                lemma_decompose_bounded(*t, old(input)@);
                lemma_reorder_loop_bounded(d, d.len() as int);
            }
        } else {
            let n0 = old(input)@.len() as int;
            assert(n0 <= 18 * n0) by (nonlinear_arith)
                requires n0 >= 0;
        }
    }
    if fcd(t, input) {
        return;
    }
    let d = decompose(t, input);
    *input = d;
    reorder(input);
}

/// An FCD map entry is consistent with the combining-class oracle for a
/// code point that does not decompose: both its bytes are the code point's
/// own class.
pub open spec fn fcd_consistent(t: Tables, s: Seq<u32>) -> bool {
    forall|i: int| 0 <= i < s.len() ==> (t.fcd_map().contains_key(s[i])
        ==> #[trigger] t.fcd_map()[s[i]] == (((spec_ccc(s[i]) as u16) << 8) | (spec_ccc(
        s[i],
    ) as u16)) as u16)
}

/// Combining classes never descend across the buffer (ignoring starters).
pub open spec fn nodescent(s: Seq<u32>) -> bool {
    forall|j: int| 1 <= j < s.len() ==> (spec_ccc(s[j]) == 0 || spec_ccc(s[j - 1]) <= spec_ccc(
        #[trigger] s[j],
    ))
}

/// The chained form of `nodescent`, following the FCD walk.
pub open spec fn nodescent_from(s: Seq<u32>, prev: u8) -> bool
    decreases s.len(),
{
    if s.len() == 0 {
        true
    } else {
        &&& (spec_ccc(s[0]) == 0 || spec_ccc(s[0]) >= prev)
        &&& nodescent_from(s.drop_first(), spec_ccc(s[0]))
    }
}

/// A passing FCD walk with consistent entries leaves no descent.
proof fn lemma_fcd_nodescent_from(t: Tables, s: Seq<u32>, prev: u8)
    requires
        spec_fcd_from(t, s, prev),
        fcd_consistent(t, s),
        forall|i: int| 0 <= i < s.len() ==> !t.decomp_map().contains_key(s[i]),
    ensures
        nodescent_from(s, prev),
        forall|i: int| 0 <= i < s.len() ==> !(0xAC00 <= #[trigger] s[i] <= 0xD7A3),
    decreases s.len(),
{
    if s.len() > 0 {
        let c = s[0];
        assert(fcd_consistent(t, s.drop_first()));
        assert(forall|i: int| 0 <= i < s.drop_first().len()
            ==> !t.decomp_map().contains_key(s.drop_first()[i]));
        if c < 0xC0 {
            lemma_fcd_nodescent_from(t, s.drop_first(), 0);
        } else {
            let v: u16 = (((spec_ccc(c) as u16) << 8) | (spec_ccc(c) as u16)) as u16;
            if t.fcd_map().contains_key(c) {
                let cc = spec_ccc(c);
                assert(cc <= 255 ==> ((((cc as u16) << 8) | (cc as u16)) >> 8) as u8 == cc
                    && ((((cc as u16) << 8) | (cc as u16)) & 0xFF) as u8 == cc) by (bit_vector);
            }
            assert(spec_fcd_lead(t, c) == spec_ccc(c));
            assert(spec_fcd_trail(t, c) == spec_ccc(c));
            lemma_fcd_nodescent_from(t, s.drop_first(), spec_ccc(c));
        }
        assert forall|i: int| 0 <= i < s.len() implies !(0xAC00 <= #[trigger] s[i] <= 0xD7A3) by {
            if i > 0 {
                assert(s.drop_first()[i - 1] == s[i]);
            }
        }
    }
}

/// The chained no-descent form gives the pairwise one.
proof fn lemma_nodescent_from_pairs(s: Seq<u32>, prev: u8)
    requires
        nodescent_from(s, prev),
    ensures
        nodescent(s),
    decreases s.len(),
{
    if s.len() > 0 {
        lemma_nodescent_from_pairs(s.drop_first(), spec_ccc(s[0]));
        assert forall|j: int| 1 <= j < s.len() implies (spec_ccc(s[j]) == 0 || spec_ccc(s[j - 1])
            <= spec_ccc(#[trigger] s[j])) by {
            if j == 1 {
                assert(s.drop_first()[0] == s[1]);
                assert(nodescent_from(s.drop_first(), spec_ccc(s[0])));
            } else {
                assert(s.drop_first()[j - 1] == s[j]);
                assert(s.drop_first()[j - 2] == s[j - 1]);
            }
        }
    }
}

/// On a buffer with no descent, a reordering pass swaps nothing.
proof fn lemma_nodescent_pass_identity(s: Seq<u32>, i: int, n: int, new_n: int)
    requires
        nodescent(s),
        n <= s.len(),
        1 <= i,
    ensures
        spec_reorder_pass(s, i, n, new_n) == (s, new_n),
    decreases n - i,
{
    if i >= n || i < 1 {
    } else {
        let ccc_b = spec_ccc(s[i]);
        if ccc_b == 0 {
            lemma_nodescent_pass_identity(
                s,
                if i + 2 <= n {
                    i + 2
                } else {
                    n
                },
                n,
                new_n,
            );
        } else {
            let ccc_a = spec_ccc(s[i - 1]);
            assert(ccc_a == 0 || ccc_a <= ccc_b);
            lemma_nodescent_pass_identity(s, i + 1, n, new_n);
        }
    }
}

/// On a buffer with no descent, reordering is the identity.
proof fn lemma_nodescent_reorder_identity(s: Seq<u32>, n: int)
    requires
        nodescent(s),
        n <= s.len(),
    ensures
        spec_reorder_loop(s, n) == s,
    decreases n,
{
    if n > 1 {
        lemma_nodescent_pass_identity(s, 1, n, 0);
        lemma_reorder_pass_new_n(s, 1, n, 0);
        lemma_nodescent_reorder_identity(s, 0);
    }
}

/// On a buffer without decompositions or Hangul syllables, decomposition is
/// the identity.
proof fn lemma_decompose_identity(t: Tables, s: Seq<u32>)
    requires
        forall|i: int| 0 <= i < s.len() ==> !t.decomp_map().contains_key(s[i]),
        forall|i: int| 0 <= i < s.len() ==> !(0xAC00 <= #[trigger] s[i] <= 0xD7A3),
    ensures
        spec_decompose(t, s) == s,
    decreases s.len(),
{
    if s.len() > 0 {
        assert(forall|i: int| 0 <= i < s.drop_first().len()
            ==> !t.decomp_map().contains_key(s.drop_first()[i]));
        assert(forall|i: int| 0 <= i < s.drop_first().len() ==> !(0xAC00
            <= #[trigger] s.drop_first()[i] <= 0xD7A3));
        lemma_decompose_identity(t, s.drop_first());
        assert(spec_expansion(t, s[0]) =~= seq![s[0]]);
        assert(seq![s[0]] + s.drop_first() =~= s);
    }
}

/// Honouring the FCD precheck changes nothing: on a buffer the precheck
/// passes, whose code points have no decompositions and whose FCD entries
/// agree with the combining-class oracle, decomposing and reordering anyway
/// give the buffer back.
pub proof fn lemma_fcd_honored_matches_bypassed(t: Tables, s: Seq<u32>)
    requires
        spec_fcd(t, s),
        forall|i: int| 0 <= i < s.len() ==> !t.decomp_map().contains_key(s[i]),
        fcd_consistent(t, s),
    ensures
        spec_make_nfd(t, s) == s,
        spec_reorder_loop(spec_decompose(t, s), spec_decompose(t, s).len() as int) == s,
{
    lemma_fcd_nodescent_from(t, s, 0);
    lemma_nodescent_from_pairs(s, 0);
    lemma_decompose_identity(t, s);
    lemma_nodescent_reorder_identity(s, s.len() as int);
}

/// Decomposition splits at any position.
proof fn lemma_decompose_split(t: Tables, s: Seq<u32>, k: int)
    requires
        0 <= k <= s.len(),
    ensures
        spec_decompose(t, s) == spec_decompose(t, s.take(k)) + spec_decompose(t, s.skip(k)),
    decreases k,
{
    if k == 0 {
        assert(s.take(0int) =~= Seq::<u32>::empty());
        assert(s.skip(0int) =~= s);
        assert(spec_decompose(t, s.take(0int)) + spec_decompose(t, s) =~= spec_decompose(t, s));
    } else {
        let tail = s.drop_first();
        lemma_decompose_split(t, tail, k - 1);
        assert(s.take(k)[0] == s[0]);
        assert(s.take(k).drop_first() =~= tail.take(k - 1));
        assert(s.skip(k) =~= tail.skip(k - 1));
        assert(spec_expansion(t, s[0]) + (spec_decompose(t, tail.take(k - 1)) + spec_decompose(
            t,
            tail.skip(k - 1),
        )) =~= (spec_expansion(t, s[0]) + spec_decompose(t, tail.take(k - 1))) + spec_decompose(
            t,
            tail.skip(k - 1),
        ));
    }
}

/// Decomposing a buffer whose first `k` code points are low keeps them in
/// place.
proof fn lemma_decompose_low_prefix(t: Tables, s: Seq<u32>, k: int)
    requires
        t.wf(),
        0 <= k <= s.len(),
        forall|j: int| 0 <= j < k ==> #[trigger] s[j] < 0xC0,
    ensures
        spec_decompose(t, s).len() >= s.len(),
        spec_decompose(t, s).take(k) == s.take(k),
    decreases k,
{
    lemma_decompose_len(t, s);
    if k == 0 {
        assert(spec_decompose(t, s).take(0int) =~= s.take(0int));
    } else {
        let tail = s.drop_first();
        assert(forall|j: int| 0 <= j < k - 1 ==> #[trigger] tail[j] < 0xC0);
        lemma_decompose_low_prefix(t, tail, k - 1);
        assert(spec_expansion(t, s[0]) =~= seq![s[0]]);
        assert forall|j: int| 0 <= j < k implies spec_decompose(t, s)[j] == s[j] by {
            if j > 0 {
                assert(spec_decompose(t, s)[j] == spec_decompose(t, tail)[j - 1]);
                assert(spec_decompose(t, tail).take(k - 1)[j - 1] == tail.take(k - 1)[j - 1]);
            }
        }
        assert(spec_decompose(t, s).take(k) =~= s.take(k));
    }
}

/// A reordering pass never touches positions before the first nonzero
/// combining class.
proof fn lemma_reorder_pass_low_prefix(s: Seq<u32>, i: int, n: int, new_n: int, k: int)
    requires
        n <= s.len(),
        0 <= k <= s.len(),
        forall|j: int| 0 <= j < k ==> spec_ccc(#[trigger] s[j]) == 0,
    ensures
        spec_reorder_pass(s, i, n, new_n).0.take(k) == s.take(k),
        forall|j: int| 0 <= j < k ==> spec_ccc(#[trigger] spec_reorder_pass(s, i, n, new_n).0[j])
            == 0,
    decreases n - i,
{
    lemma_reorder_pass_len(s, i, n, new_n);
    if i >= n || i < 1 {
        assert(spec_reorder_pass(s, i, n, new_n).0.take(k) =~= s.take(k));
    } else {
        let ccc_b = spec_ccc(s[i]);
        if ccc_b == 0 {
            lemma_reorder_pass_low_prefix(
                s,
                if i + 2 <= n {
                    i + 2
                } else {
                    n
                },
                n,
                new_n,
                k,
            );
        } else {
            let ccc_a = spec_ccc(s[i - 1]);
            if ccc_a == 0 || ccc_a <= ccc_b {
                lemma_reorder_pass_low_prefix(s, i + 1, n, new_n, k);
            } else {
                // a swap requires both classes nonzero, so it happens past
                // the low prefix
                assert(i - 1 >= k);
                let s2 = s.update(i - 1, s[i]).update(i, s[i - 1]);
                assert(forall|j: int| 0 <= j < k ==> spec_ccc(#[trigger] s2[j]) == 0);
                lemma_reorder_pass_low_prefix(s2, i + 1, n, i, k);
                assert(s2.take(k) =~= s.take(k));
            }
        }
    }
}

/// Reordering never touches positions before the first nonzero combining
/// class.
proof fn lemma_reorder_loop_low_prefix(s: Seq<u32>, n: int, k: int)
    requires
        n <= s.len(),
        0 <= k <= s.len(),
        forall|j: int| 0 <= j < k ==> spec_ccc(#[trigger] s[j]) == 0,
    ensures
        spec_reorder_loop(s, n).take(k) == s.take(k),
    decreases n,
{
    if n <= 1 {
        assert(spec_reorder_loop(s, n).take(k) =~= s.take(k));
    } else {
        lemma_reorder_pass_new_n(s, 1, n, 0);
        lemma_reorder_pass_len(s, 1, n, 0);
        lemma_reorder_pass_low_prefix(s, 1, n, 0, k);
        let (s2, new_n) = spec_reorder_pass(s, 1, n, 0);
        lemma_reorder_loop_low_prefix(s2, new_n, k);
        assert(s2.take(k) == s.take(k));
        assert forall|j: int| 0 <= j < k implies spec_ccc(#[trigger] s2[j]) == 0 by {
            assert(s2.take(k)[j] == s2[j]);
            assert(s.take(k)[j] == s[j]);
        }
    }
}

/// Normalization keeps a leading run of low code points in place, and never
/// shrinks the buffer.
pub proof fn lemma_nfd_low_prefix(t: Tables, s: Seq<u32>, k: int)
    requires
        t.wf(),
        0 <= k <= s.len(),
        forall|j: int| 0 <= j < k ==> #[trigger] s[j] < 0xC0,
    ensures
        spec_make_nfd(t, s).len() >= s.len(),
        spec_make_nfd(t, s).take(k) == s.take(k),
    decreases 0int,
{
    if spec_fcd(t, s) {
        assert(spec_make_nfd(t, s).take(k) =~= s.take(k));
    } else {
        let d = spec_decompose(t, s);
        lemma_decompose_low_prefix(t, s, k);
        lemma_reorder_loop_len(d, d.len() as int);
        assert forall|j: int| 0 <= j < k implies spec_ccc(#[trigger] d[j]) == 0 by {
            assert(d.take(k)[j] == d[j]);
            assert(s.take(k)[j] == s[j]);
            assert(d[j] == s[j]);
            assert(s[j] < 0x300);
        }
        lemma_reorder_loop_low_prefix(d, d.len() as int, k);
    }
}

/// A buffer of low code points passes the FCD precheck.
pub proof fn lemma_fcd_all_low(t: Tables, s: Seq<u32>, prev: u8)
    requires
        forall|j: int| 0 <= j < s.len() ==> #[trigger] s[j] < 0xC0,
    ensures
        spec_fcd_from(t, s, prev),
    decreases s.len(),
{
    if s.len() > 0 {
        assert(forall|j: int| 0 <= j < s.drop_first().len() ==> #[trigger] s.drop_first()[j]
            < 0xC0);
        lemma_fcd_all_low(t, s.drop_first(), 0);
    }
}

} // verus!


