//! The ASCII fast path: walk both decoded buffers while they produce
//! alphanumeric ASCII, comparing case-folded code points, and decide the
//! comparison without consulting any weight table when that is sound.

use vstd::prelude::*;
use core::cmp::Ordering;

verus! {

/// The order of two mathematical integers, as an `Ordering`.
pub open spec fn spec_ord_int(x: int, y: int) -> Ordering {
    if x < y {
        Ordering::Less
    } else if x == y {
        Ordering::Equal
    } else {
        Ordering::Greater
    }
}

/// Compare two `u32` values.
pub fn cmp_u32(x: u32, y: u32) -> (r: Ordering)
    ensures
        r == spec_ord_int(x as int, y as int),
{
    if x < y {
        Ordering::Less
    } else if x == y {
        Ordering::Equal
    } else {
        Ordering::Greater
    }
}

/// Compare two `usize` values.
pub fn cmp_usize(x: usize, y: usize) -> (r: Ordering)
    ensures
        r == spec_ord_int(x as int, y as int),
{
    if x < y {
        Ordering::Less
    } else if x == y {
        Ordering::Equal
    } else {
        Ordering::Greater
    }
}

/// Whether a code point is alphanumeric ASCII: a digit or a basic Latin
/// letter of either case.
pub open spec fn spec_ascii_alphanumeric(c: u32) -> bool {
    &&& 0x30 <= c <= 0x7A
    &&& !(0x3A <= c <= 0x40)
    &&& !(0x5B <= c <= 0x60)
}

/// Case-fold an alphanumeric ASCII code point by mapping lowercase letters
/// onto uppercase.
pub open spec fn spec_fold(c: u32) -> int {
    if c > 0x5A {
        c - 0x20
    } else {
        c as int
    }
}

/// What the fast path returns when a buffer ran out before anything decided
/// and no ineligible code point was seen: the longer buffer wins, else the
/// remembered case difference, if any.
pub open spec fn spec_ascii_finish(a: Seq<u32>, b: Seq<u32>, backup: Option<Ordering>) -> Option<
    Ordering,
> {
    if a.len() != b.len() {
        Some(spec_ord_int(a.len() as int, b.len() as int))
    } else {
        backup
    }
}

/// The fast-path walk from position `i`, with the first case difference
/// remembered in `backup`: an ineligible code point on either side yields no
/// decision; a difference that survives case folding decides; a pure case
/// difference is remembered once, reversed (uppercase after lowercase); a
/// buffer running out ends the walk. Identical all-eligible buffers come
/// back undecided rather than Equal: such buffers can only arise from
/// byte-equal inputs, which the byte-identity short-circuit answers before
/// the fast path ever runs.
pub open spec fn spec_fill_and_check(a: Seq<u32>, b: Seq<u32>, i: int, backup: Option<Ordering>)
    -> Option<Ordering>
    decreases a.len() - i,
{
    if i < 0 || i >= a.len() {
        spec_ascii_finish(a, b, backup)
    } else if !spec_ascii_alphanumeric(a[i]) {
        None
    } else if i >= b.len() {
        spec_ascii_finish(a, b, backup)
    } else if !spec_ascii_alphanumeric(b[i]) {
        None
    } else if a[i] == b[i] {
        spec_fill_and_check(a, b, i + 1, backup)
    } else if spec_fold(a[i]) == spec_fold(b[i]) {
        spec_fill_and_check(
            a,
            b,
            i + 1,
            if backup is None {
                Some(spec_ord_int(b[i] as int, a[i] as int))
            } else {
                backup
            },
        )
    } else {
        Some(spec_ord_int(spec_fold(a[i]), spec_fold(b[i])))
    }
}

/// Walk the two decoded buffers and decide the comparison from alphanumeric
/// ASCII alone where that is sound; yield no decision as soon as either side
/// produces anything else.
pub fn fill_and_check(a_chars: &Vec<u32>, b_chars: &Vec<u32>) -> (r: Option<Ordering>)
    ensures
        r == spec_fill_and_check(a_chars@, b_chars@, 0, None::<Ordering>),
{
    let mut backup: Option<Ordering> = None;
    let mut i: usize = 0;
    while i < a_chars.len()
        invariant
            0 <= i <= a_chars@.len(),
            a_chars@.len() == a_chars.len(),
            b_chars@.len() == b_chars.len(),
            spec_fill_and_check(a_chars@, b_chars@, 0, None::<Ordering>) == spec_fill_and_check(
                a_chars@,
                b_chars@,
                i as int,
                backup,
            ),
        decreases a_chars@.len() - i,
    {
        let a = a_chars[i];
        if !ascii_alphanumeric(a) {
            return None;
        }
        if i >= b_chars.len() {
            if a_chars.len() != b_chars.len() {
                return Some(cmp_usize(a_chars.len(), b_chars.len()));
            }
            return backup;
        }
        let b = b_chars[i];
        if !ascii_alphanumeric(b) {
            return None;
        }
        if a == b {
            i = i + 1;
            continue;
        }
        let a_folded: u32 = if a > 0x5A {
            a - 0x20
        } else {
            a
        };
        let b_folded: u32 = if b > 0x5A {
            b - 0x20
        } else {
            b
        };
        if a_folded == b_folded {
            if backup.is_none() {
                backup = Some(cmp_u32(b, a));
            }
            i = i + 1;
            continue;
        }
        return Some(cmp_u32(a_folded, b_folded));
    }
    if a_chars.len() != b_chars.len() {
        return Some(cmp_usize(a_chars.len(), b_chars.len()));
    }
    backup
}

/// Whether a code point is alphanumeric ASCII.
pub fn ascii_alphanumeric(c: u32) -> (r: bool)
    ensures
        r == spec_ascii_alphanumeric(c),
{
    (0x30 <= c && c <= 0x7A) && !(0x3A <= c && c <= 0x40) && !(0x5B <= c && c <= 0x60)
}

/// The fast path never decides Equal: every decision is strictly ordered.
pub proof fn lemma_fill_never_equal(a: Seq<u32>, b: Seq<u32>, i: int, backup: Option<Ordering>)
    requires
        backup != Some(Ordering::Equal),
    ensures
        spec_fill_and_check(a, b, i, backup) != Some(Ordering::Equal),
    decreases a.len() - i,
{
    if i < 0 || i >= a.len() {
    } else if !spec_ascii_alphanumeric(a[i]) {
    } else if i >= b.len() {
    } else if !spec_ascii_alphanumeric(b[i]) {
    } else if a[i] == b[i] {
        lemma_fill_never_equal(a, b, i + 1, backup);
    } else if spec_fold(a[i]) == spec_fold(b[i]) {
        lemma_fill_never_equal(
            a,
            b,
            i + 1,
            if backup is None {
                Some(spec_ord_int(b[i] as int, a[i] as int))
            } else {
                backup
            },
        );
    }
}

/// Reversing an optional decision.
pub open spec fn spec_reverse_option(o: Option<Ordering>) -> Option<Ordering> {
    match o {
        Some(Ordering::Less) => Some(Ordering::Greater),
        Some(Ordering::Equal) => Some(Ordering::Equal),
        Some(Ordering::Greater) => Some(Ordering::Less),
        None => None,
    }
}

/// Every element of a buffer is alphanumeric ASCII.
pub open spec fn all_alphanumeric(s: Seq<u32>) -> bool {
    forall|i: int| 0 <= i < s.len() ==> spec_ascii_alphanumeric(#[trigger] s[i])
}

/// On buffers of alphanumeric ASCII the fast path is antisymmetric.
pub proof fn lemma_fill_antisym(
    a: Seq<u32>,
    b: Seq<u32>,
    i: int,
    backup_ab: Option<Ordering>,
    backup_ba: Option<Ordering>,
)
    requires
        all_alphanumeric(a),
        all_alphanumeric(b),
        backup_ba == spec_reverse_option(backup_ab),
    ensures
        spec_fill_and_check(b, a, i, backup_ba) == spec_reverse_option(
            spec_fill_and_check(a, b, i, backup_ab),
        ),
    decreases a.len() + b.len() - i,
{
    if i < 0 || i >= a.len() || i >= b.len() {
    } else if a[i] == b[i] {
        lemma_fill_antisym(a, b, i + 1, backup_ab, backup_ba);
    } else if spec_fold(a[i]) == spec_fold(b[i]) {
        lemma_fill_antisym(
            a,
            b,
            i + 1,
            if backup_ab is None {
                Some(spec_ord_int(b[i] as int, a[i] as int))
            } else {
                backup_ab
            },
            if backup_ba is None {
                Some(spec_ord_int(a[i] as int, b[i] as int))
            } else {
                backup_ba
            },
        );
    }
}

/// On buffers of alphanumeric ASCII, a walk that decides nothing means the
/// buffers were equal.
pub proof fn lemma_fill_none_equal(a: Seq<u32>, b: Seq<u32>, i: int)
    requires
        all_alphanumeric(a),
        all_alphanumeric(b),
        0 <= i,
        spec_fill_and_check(a, b, i, None::<Ordering>) is None,
        a.take(i) == b.take(i),
        i <= a.len(),
        i <= b.len(),
    ensures
        a == b,
    decreases a.len() - i,
{
    if i >= a.len() {
        assert(a.take(i) =~= a);
        assert(b.take(i) =~= b);
    } else if i >= b.len() {
        // the walk would have decided by length
    } else if a[i] == b[i] {
        assert(a.take(i + 1) =~= b.take(i + 1));
        lemma_fill_none_equal(a, b, i + 1);
    } else if spec_fold(a[i]) == spec_fold(b[i]) {
        // the walk would have remembered the case difference and decided
        lemma_fill_backup_sticks(
            a,
            b,
            i + 1,
            Some(spec_ord_int(b[i] as int, a[i] as int)),
        );
    }
}

/// A remembered decision is never forgotten: with a backup in hand the walk
/// cannot end undecided.
proof fn lemma_fill_backup_sticks(a: Seq<u32>, b: Seq<u32>, i: int, backup: Option<Ordering>)
    requires
        all_alphanumeric(a),
        all_alphanumeric(b),
        backup is Some,
    ensures
        spec_fill_and_check(a, b, i, backup) is Some,
    decreases a.len() - i,
{
    if i < 0 || i >= a.len() || i >= b.len() {
    } else if a[i] == b[i] || spec_fold(a[i]) == spec_fold(b[i]) {
        lemma_fill_backup_sticks(a, b, i + 1, backup);
    }
}

/// Lexicographic order on integer sequences.
pub open spec fn spec_lex_int(x: Seq<int>, y: Seq<int>) -> Ordering
    decreases x.len(),
{
    if x.len() == 0 && y.len() == 0 {
        Ordering::Equal
    } else if x.len() == 0 {
        Ordering::Less
    } else if y.len() == 0 {
        Ordering::Greater
    } else if x[0] < y[0] {
        Ordering::Less
    } else if x[0] > y[0] {
        Ordering::Greater
    } else {
        spec_lex_int(x.drop_first(), y.drop_first())
    }
}

/// Lexicographic order calls two sequences Equal exactly when they are
/// equal.
pub proof fn lemma_lex_int_equal_iff(x: Seq<int>, y: Seq<int>)
    ensures
        (spec_lex_int(x, y) == Ordering::Equal) <==> x == y,
    decreases x.len(),
{
    if x.len() == 0 && y.len() == 0 {
        assert(x =~= y);
    } else if x.len() != 0 && y.len() != 0 && x[0] == y[0] {
        lemma_lex_int_equal_iff(x.drop_first(), y.drop_first());
        if spec_lex_int(x, y) == Ordering::Equal {
            assert(x.drop_first() == y.drop_first());
            assert forall|k: int| 1 <= k < x.len() implies x[k] == y[k] by {
                assert(x.drop_first()[k - 1] == y.drop_first()[k - 1]);
            }
            assert(x =~= y);
        } else {
            if x == y {
                assert(x.drop_first() =~= y.drop_first());
            }
        }
    } else {
        if x == y {
            assert(x.len() == y.len());
            if x.len() != 0 {
                assert(x[0] == y[0]);
            }
        }
    }
}

/// Lexicographic order is transitive in its strict part.
pub proof fn lemma_lex_int_trans(x: Seq<int>, y: Seq<int>, z: Seq<int>)
    requires
        spec_lex_int(x, y) == Ordering::Less,
        spec_lex_int(y, z) == Ordering::Less,
    ensures
        spec_lex_int(x, z) == Ordering::Less,
    decreases x.len() + y.len() + z.len(),
{
    if x.len() == 0 {
    } else if x.len() != 0 && y.len() != 0 && x[0] == y[0] && z.len() != 0 && y[0] == z[0] {
        lemma_lex_int_trans(x.drop_first(), y.drop_first(), z.drop_first());
    }
}

/// The case-folded reading of a buffer.
pub open spec fn spec_folded_seq(s: Seq<u32>) -> Seq<int> {
    s.map_values(|c: u32| spec_fold(c))
}

/// The case reading of a buffer: uppercase letters and digits before
/// lowercase letters, matching the reversed comparison the fast path
/// remembers.
pub open spec fn spec_case_seq(s: Seq<u32>) -> Seq<int> {
    s.map_values(
        |c: u32|
            if c > 0x5A {
                0int
            } else {
                1int
            },
    )
}

/// What the fast path decides on alphanumeric ASCII: the case-folded
/// buffers compared lexicographically; on a tie, any remembered decision;
/// then the case readings.
pub proof fn lemma_fill_characterize(a: Seq<u32>, b: Seq<u32>, i: int, backup: Option<Ordering>)
    requires
        all_alphanumeric(a),
        all_alphanumeric(b),
        0 <= i <= a.len(),
        i <= b.len(),
    ensures
        spec_fill_and_check(a, b, i, backup) == ({
            let lf = spec_lex_int(spec_folded_seq(a).skip(i), spec_folded_seq(b).skip(i));
            let lc = spec_lex_int(spec_case_seq(a).skip(i), spec_case_seq(b).skip(i));
            if lf != Ordering::Equal {
                Some(lf)
            } else if backup is Some {
                backup
            } else if lc != Ordering::Equal {
                Some(lc)
            } else {
                None::<Ordering>
            }
        }),
    decreases a.len() - i,
{
    let fa = spec_folded_seq(a);
    let fb = spec_folded_seq(b);
    let ca = spec_case_seq(a);
    let cb = spec_case_seq(b);
    if i >= a.len() {
        assert(fa.skip(i) =~= Seq::<int>::empty());
        assert(ca.skip(i) =~= Seq::<int>::empty());
        if i >= b.len() {
            assert(fb.skip(i) =~= Seq::<int>::empty());
            assert(cb.skip(i) =~= Seq::<int>::empty());
        } else {
            assert(fb.skip(i).len() > 0);
        }
    } else if i >= b.len() {
        assert(fb.skip(i) =~= Seq::<int>::empty());
        assert(fa.skip(i).len() > 0);
    } else {
        assert(fa.skip(i)[0] == spec_fold(a[i]));
        assert(fb.skip(i)[0] == spec_fold(b[i]));
        assert(ca.skip(i)[0] == (if a[i] > 0x5A { 0int } else { 1int }));
        assert(cb.skip(i)[0] == (if b[i] > 0x5A { 0int } else { 1int }));
        assert(fa.skip(i).drop_first() =~= fa.skip(i + 1));
        assert(fb.skip(i).drop_first() =~= fb.skip(i + 1));
        assert(ca.skip(i).drop_first() =~= ca.skip(i + 1));
        assert(cb.skip(i).drop_first() =~= cb.skip(i + 1));
        if a[i] == b[i] {
            lemma_fill_characterize(a, b, i + 1, backup);
        } else if spec_fold(a[i]) == spec_fold(b[i]) {
            // one is the uppercase of the other, so their case readings
            // differ, and the remembered decision equals their case order
            let backup2: Option<Ordering> = if backup is None {
                Some(spec_ord_int(b[i] as int, a[i] as int))
            } else {
                backup
            };
            lemma_fill_characterize(a, b, i + 1, backup2);
        }
    }
}

} // verus!
