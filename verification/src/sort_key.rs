//! Incremental multi-level comparison of two collation element arrays:
//! primary, secondary, tertiary, and (under shifting) quaternary weights are
//! compared level by level, skipping zero weights, until one level decides.

use vstd::prelude::*;
use core::cmp::Ordering;
use crate::weights::{primary, secondary, tertiary, variability, spec_primary, spec_secondary,
    spec_tertiary, spec_variability};

verus! {

/// One comparison level.
#[derive(Debug, PartialEq, Eq, Clone, Copy, Structural)]
pub enum Level {
    /// Primary weights, all elements.
    Primary,
    /// Primary weights, skipping variable elements (which count only at the
    /// quaternary level).
    PrimaryShifted,
    /// Secondary weights.
    Secondary,
    /// Tertiary weights.
    Tertiary,
}

/// The weight an element contributes at a level; 0 stands for "skipped".
pub open spec fn spec_level_weight(w: u32, level: Level) -> u16 {
    match level {
        Level::Primary => spec_primary(w),
        Level::PrimaryShifted => if spec_variability(w) {
            0u16
        } else {
            spec_primary(w)
        },
        Level::Secondary => spec_secondary(w),
        Level::Tertiary => spec_tertiary(w),
    }
}

/// The stream of nonzero weights of one level, reading the collation
/// element array up to its sentinel.
pub open spec fn spec_level_filter(cea: Seq<u32>, level: Level) -> Seq<u16>
    decreases cea.len(),
{
    if cea.len() == 0 || cea[0] == u32::MAX {
        Seq::<u16>::empty()
    } else {
        let v = spec_level_weight(cea[0], level);
        (if v == 0 {
            Seq::<u16>::empty()
        } else {
            seq![v]
        }) + spec_level_filter(cea.drop_first(), level)
    }
}

/// Lockstep comparison of two weight streams: the first difference decides;
/// a stream that runs out first loses; streams that run out together leave
/// the level undecided.
pub open spec fn spec_cmp_filtered(x: Seq<u16>, y: Seq<u16>) -> Option<Ordering>
    decreases x.len(),
{
    if x.len() == 0 && y.len() == 0 {
        None
    } else if x.len() == 0 {
        Some(Ordering::Less)
    } else if y.len() == 0 {
        Some(Ordering::Greater)
    } else if x[0] < y[0] {
        Some(Ordering::Less)
    } else if x[0] > y[0] {
        Some(Ordering::Greater)
    } else {
        spec_cmp_filtered(x.drop_first(), y.drop_first())
    }
}

/// The comparison of one level of two collation element arrays.
pub open spec fn spec_cmp_level(a_cea: Seq<u32>, b_cea: Seq<u32>, level: Level) -> Option<
    Ordering,
> {
    spec_cmp_filtered(spec_level_filter(a_cea, level), spec_level_filter(b_cea, level))
}

/// The full multi-level comparison: primary (skipping variable elements
/// under shifting), secondary, tertiary, and, under shifting, the
/// quaternary reading of the primaries.
pub open spec fn spec_compare_incremental(a_cea: Seq<u32>, b_cea: Seq<u32>, shifting: bool)
    -> Ordering {
    let first = if shifting {
        spec_cmp_level(a_cea, b_cea, Level::PrimaryShifted)
    } else {
        spec_cmp_level(a_cea, b_cea, Level::Primary)
    };
    match first {
        Some(o) => o,
        None => match spec_cmp_level(a_cea, b_cea, Level::Secondary) {
            Some(o) => o,
            None => match spec_cmp_level(a_cea, b_cea, Level::Tertiary) {
                Some(o) => o,
                None => if !shifting {
                    Ordering::Equal
                } else {
                    match spec_cmp_level(a_cea, b_cea, Level::Primary) {
                        Some(o) => o,
                        None => Ordering::Equal,
                    }
                },
            },
        },
    }
}

/// Reading `spec_level_filter` off the back of a sentinel-free prefix.
proof fn lemma_level_filter_snoc(cea: Seq<u32>, j: int, level: Level)
    requires
        1 <= j <= cea.len(),
        forall|k: int| 0 <= k < j ==> cea[k] != u32::MAX,
    ensures
        spec_level_filter(cea.take(j), level) == spec_level_filter(cea.take(j - 1), level) + (
        if spec_level_weight(cea[j - 1], level) == 0 {
            Seq::<u16>::empty()
        } else {
            seq![spec_level_weight(cea[j - 1], level)]
        }),
    decreases j,
{
    if j == 1 {
        assert(cea.take(1)[0] == cea[0]);
        assert(cea.take(1).drop_first() =~= Seq::<u16>::empty().map_values(|v: u16| 0u32));
        assert(cea.take(1).drop_first() =~= Seq::<u32>::empty());
        assert(cea.take(0int) =~= Seq::<u32>::empty());
        assert(spec_level_filter(cea.take(1), level) =~= spec_level_filter(cea.take(0int), level)
            + (if spec_level_weight(cea[0], level) == 0 {
            Seq::<u16>::empty()
        } else {
            seq![spec_level_weight(cea[0], level)]
        }));
    } else {
        let tail = cea.drop_first();
        lemma_level_filter_snoc(tail, j - 1, level);
        assert(cea.take(j)[0] == cea[0]);
        assert(cea.take(j - 1)[0] == cea[0]);
        assert(cea.take(j).drop_first() =~= tail.take(j - 1));
        assert(cea.take(j - 1).drop_first() =~= tail.take(j - 2));
        assert(tail[j - 2] == cea[j - 1]);
        let head: Seq<u16> = if spec_level_weight(cea[0], level) == 0 {
            Seq::<u16>::empty()
        } else {
            seq![spec_level_weight(cea[0], level)]
        };
        let last: Seq<u16> = if spec_level_weight(cea[j - 1], level) == 0 {
            Seq::<u16>::empty()
        } else {
            seq![spec_level_weight(cea[j - 1], level)]
        };
        assert(head + (spec_level_filter(tail.take(j - 2), level) + last) =~= (head
            + spec_level_filter(tail.take(j - 2), level)) + last);
    }
}

/// Collect the nonzero weights of one level, up to the sentinel.
fn extract_level(cea: &Vec<u32>, level: Level) -> (out: Vec<u16>)
    ensures
        out@ == spec_level_filter(cea@, level),
{
    let mut out: Vec<u16> = Vec::new();
    let mut i: usize = 0;
    while i < cea.len() && cea[i] != u32::MAX
        invariant
            0 <= i <= cea@.len(),
            cea@.len() == cea.len(),
            forall|k: int| 0 <= k < i ==> cea@[k] != u32::MAX,
            out@ == spec_level_filter(cea@.take(i as int), level),
        decreases cea@.len() - i,
    {
        let w = cea[i];
        let v: u16 = match level {
            Level::Primary => primary(w),
            Level::PrimaryShifted => if variability(w) {
                0u16
            } else {
                primary(w)
            },
            Level::Secondary => secondary(w),
            Level::Tertiary => tertiary(w),
        };
        if v != 0 {
            out.push(v);
        }
        i = i + 1;
        proof {
            lemma_level_filter_snoc(cea@, i as int, level);
            if v != 0 {
                assert(spec_level_filter(cea@.take(i - 1), level).push(v) =~= spec_level_filter(
                    cea@.take(i - 1),
                    level,
                ) + seq![v]);
            } else {
                assert(spec_level_filter(cea@.take(i - 1), level) + Seq::<u16>::empty()
                    =~= spec_level_filter(cea@.take(i - 1), level));
            }
        }
    }
    proof {
        if i == cea@.len() {
            assert(cea@.take(i as int) =~= cea@);
        } else {
            lemma_level_filter_stops(cea@, i as int, level);
        }
    }
    out
}

/// A collation element array reads the same up to its first sentinel.
proof fn lemma_level_filter_stops(cea: Seq<u32>, j: int, level: Level)
    requires
        0 <= j < cea.len(),
        cea[j] == u32::MAX,
        forall|k: int| 0 <= k < j ==> cea[k] != u32::MAX,
    ensures
        spec_level_filter(cea, level) == spec_level_filter(cea.take(j), level),
    decreases j,
{
    if j == 0 {
        assert(cea.take(0int) =~= Seq::<u32>::empty());
    } else {
        let tail = cea.drop_first();
        lemma_level_filter_stops(tail, j - 1, level);
        assert(tail[j - 1] == cea[j]);
        assert(cea.take(j)[0] == cea[0]);
        assert(cea.take(j).drop_first() =~= tail.take(j - 1));
    }
}

/// Compare two already-filtered weight streams in lockstep.
fn compare_filtered(x: &Vec<u16>, y: &Vec<u16>) -> (r: Option<Ordering>)
    ensures
        r == spec_cmp_filtered(x@, y@),
{
    proof {
        assert(x@.skip(0int) =~= x@);
        assert(y@.skip(0int) =~= y@);
    }
    let mut i: usize = 0;
    while i < x.len() || i < y.len()
        invariant
            0 <= i <= x@.len() || 0 <= i <= y@.len(),
            i <= x@.len(),
            i <= y@.len(),
            x@.len() == x.len(),
            y@.len() == y.len(),
            spec_cmp_filtered(x@, y@) == spec_cmp_filtered(x@.skip(i as int), y@.skip(i as int)),
        decreases x@.len() + y@.len() - i,
    {
        proof {
            if i < x@.len() {
                assert(x@.skip(i as int)[0] == x@[i as int]);
                assert(x@.skip(i as int).drop_first() =~= x@.skip(i + 1));
            }
            if i < y@.len() {
                assert(y@.skip(i as int)[0] == y@[i as int]);
                assert(y@.skip(i as int).drop_first() =~= y@.skip(i + 1));
            }
        }
        if i >= x.len() {
            return Some(Ordering::Less);
        }
        if i >= y.len() {
            return Some(Ordering::Greater);
        }
        if x[i] < y[i] {
            return Some(Ordering::Less);
        }
        if x[i] > y[i] {
            return Some(Ordering::Greater);
        }
        i = i + 1;
    }
    proof {
        assert(x@.skip(i as int) =~= Seq::<u16>::empty());
        assert(y@.skip(i as int) =~= Seq::<u16>::empty());
    }
    None
}

/// Compare the primary weights of two collation element arrays.
pub fn compare_primary(a_cea: &Vec<u32>, b_cea: &Vec<u32>) -> (r: Option<Ordering>)
    ensures
        r == spec_cmp_level(a_cea@, b_cea@, Level::Primary),
{
    let xa = extract_level(a_cea, Level::Primary);
    let xb = extract_level(b_cea, Level::Primary);
    compare_filtered(&xa, &xb)
}

/// Compare the primary weights of two collation element arrays, skipping
/// variable elements, as the shifted strategy reads the primary level.
pub fn compare_primary_shifting(a_cea: &Vec<u32>, b_cea: &Vec<u32>) -> (r: Option<Ordering>)
    ensures
        r == spec_cmp_level(a_cea@, b_cea@, Level::PrimaryShifted),
{
    let xa = extract_level(a_cea, Level::PrimaryShifted);
    let xb = extract_level(b_cea, Level::PrimaryShifted);
    compare_filtered(&xa, &xb)
}

/// Compare the secondary weights of two collation element arrays.
pub fn compare_secondary(a_cea: &Vec<u32>, b_cea: &Vec<u32>) -> (r: Option<Ordering>)
    ensures
        r == spec_cmp_level(a_cea@, b_cea@, Level::Secondary),
{
    let xa = extract_level(a_cea, Level::Secondary);
    let xb = extract_level(b_cea, Level::Secondary);
    compare_filtered(&xa, &xb)
}

/// Compare the tertiary weights of two collation element arrays.
pub fn compare_tertiary(a_cea: &Vec<u32>, b_cea: &Vec<u32>) -> (r: Option<Ordering>)
    ensures
        r == spec_cmp_level(a_cea@, b_cea@, Level::Tertiary),
{
    let xa = extract_level(a_cea, Level::Tertiary);
    let xb = extract_level(b_cea, Level::Tertiary);
    compare_filtered(&xa, &xb)
}

/// Compare two collation element arrays level by level. Both must have been
/// built with the same shifting flag as given here.
pub fn compare_incremental(a_cea: &Vec<u32>, b_cea: &Vec<u32>, shifting: bool) -> (r: Ordering)
    ensures
        r == spec_compare_incremental(a_cea@, b_cea@, shifting),
{
    if shifting {
        if let Some(o) = compare_primary_shifting(a_cea, b_cea) {
            return o;
        }
    } else {
        if let Some(o) = compare_primary(a_cea, b_cea) {
            return o;
        }
    }
    if let Some(o) = compare_secondary(a_cea, b_cea) {
        return o;
    }
    if let Some(o) = compare_tertiary(a_cea, b_cea) {
        return o;
    }
    if !shifting {
        return Ordering::Equal;
    }
    if let Some(o) = compare_primary(a_cea, b_cea) {
        return o;
    }
    Ordering::Equal
}

/// Weights past the first sentinel never matter: the level stream of a
/// terminated array reads the same whatever follows the sentinel.
pub proof fn lemma_level_filter_through(w: Seq<u32>, rest: Seq<u32>, level: Level)
    ensures
        spec_level_filter((w + seq![u32::MAX]) + rest, level) == spec_level_filter(
            w + seq![u32::MAX],
            level,
        ),
    decreases w.len(),
{
    if w.len() == 0 {
        assert((w + seq![u32::MAX])[0] == u32::MAX);
        assert(((w + seq![u32::MAX]) + rest)[0] == u32::MAX);
    } else if w[0] == u32::MAX {
        assert((w + seq![u32::MAX])[0] == u32::MAX);
        assert(((w + seq![u32::MAX]) + rest)[0] == u32::MAX);
    } else {
        let tail = w.drop_first();
        lemma_level_filter_through(tail, rest, level);
        assert((w + seq![u32::MAX])[0] == w[0]);
        assert(((w + seq![u32::MAX]) + rest)[0] == w[0]);
        assert((w + seq![u32::MAX]).drop_first() =~= tail + seq![u32::MAX]);
        assert(((w + seq![u32::MAX]) + rest).drop_first() =~= (tail + seq![u32::MAX]) + rest);
    }
}

/// A comparison of two collation element buffers depends only on what
/// stands before and at their sentinels.
pub proof fn lemma_compare_buffers(buf_a: Seq<u32>, buf_b: Seq<u32>, wa: Seq<u32>, wb: Seq<u32>, shifting: bool)
    requires
        buf_a.len() >= wa.len() + 1,
        buf_a.subrange(0, wa.len() as int + 1) == wa + seq![u32::MAX],
        buf_b.len() >= wb.len() + 1,
        buf_b.subrange(0, wb.len() as int + 1) == wb + seq![u32::MAX],
    ensures
        spec_compare_incremental(buf_a, buf_b, shifting) == spec_compare_incremental(
            wa + seq![u32::MAX],
            wb + seq![u32::MAX],
            shifting,
        ),
{
    let rest_a = buf_a.skip(wa.len() as int + 1);
    let rest_b = buf_b.skip(wb.len() as int + 1);
    assert(buf_a =~= (wa + seq![u32::MAX]) + rest_a);
    assert(buf_b =~= (wb + seq![u32::MAX]) + rest_b);
    lemma_level_filter_through(wa, rest_a, Level::Primary);
    lemma_level_filter_through(wa, rest_a, Level::PrimaryShifted);
    lemma_level_filter_through(wa, rest_a, Level::Secondary);
    lemma_level_filter_through(wa, rest_a, Level::Tertiary);
    lemma_level_filter_through(wb, rest_b, Level::Primary);
    lemma_level_filter_through(wb, rest_b, Level::PrimaryShifted);
    lemma_level_filter_through(wb, rest_b, Level::Secondary);
    lemma_level_filter_through(wb, rest_b, Level::Tertiary);
}

/// What reversing an `Ordering` means.
pub open spec fn spec_reverse(o: Ordering) -> Ordering {
    match o {
        Ordering::Less => Ordering::Greater,
        Ordering::Equal => Ordering::Equal,
        Ordering::Greater => Ordering::Less,
    }
}

/// Lockstep stream comparison is antisymmetric.
pub proof fn lemma_cmp_filtered_antisym(x: Seq<u16>, y: Seq<u16>)
    ensures
        spec_cmp_filtered(y, x) == match spec_cmp_filtered(x, y) {
            Some(o) => Some(spec_reverse(o)),
            None => None::<Ordering>,
        },
    decreases x.len(),
{
    if x.len() != 0 && y.len() != 0 && x[0] == y[0] {
        lemma_cmp_filtered_antisym(x.drop_first(), y.drop_first());
    }
}

/// Lockstep stream comparison leaves a level undecided exactly on equal
/// streams.
pub proof fn lemma_cmp_filtered_none_iff_eq(x: Seq<u16>, y: Seq<u16>)
    ensures
        (spec_cmp_filtered(x, y) is None) <==> x == y,
    decreases x.len(),
{
    if x.len() == 0 && y.len() == 0 {
        assert(x =~= y);
    } else if x.len() != 0 && y.len() != 0 && x[0] == y[0] {
        lemma_cmp_filtered_none_iff_eq(x.drop_first(), y.drop_first());
        if spec_cmp_filtered(x, y) is None {
            assert(x.drop_first() == y.drop_first());
            assert forall|k: int| 1 <= k < x.len() implies x[k] == y[k] by {
                assert(x.drop_first()[k - 1] == y.drop_first()[k - 1]);
            }
            assert(x =~= y);
        } else {
            if x == y {
                assert(x.drop_first() =~= y.drop_first());
            }
        }
    } else {
        if x == y {
            assert(x.len() == y.len());
            if x.len() != 0 {
                assert(x[0] == y[0]);
            }
        }
    }
}

/// Lockstep stream comparison is transitive in its strict part.
pub proof fn lemma_cmp_filtered_trans(x: Seq<u16>, y: Seq<u16>, z: Seq<u16>)
    requires
        spec_cmp_filtered(x, y) == Some(Ordering::Less),
        spec_cmp_filtered(y, z) == Some(Ordering::Less),
    ensures
        spec_cmp_filtered(x, z) == Some(Ordering::Less),
    decreases x.len() + y.len() + z.len(),
{
    if x.len() == 0 {
    } else if x.len() != 0 && y.len() != 0 && x[0] == y[0] && z.len() != 0 && y[0] == z[0] {
        lemma_cmp_filtered_trans(x.drop_first(), y.drop_first(), z.drop_first());
    }
}

/// The multi-level comparison is antisymmetric.
pub proof fn lemma_compare_incremental_antisym(a_cea: Seq<u32>, b_cea: Seq<u32>, shifting: bool)
    ensures
        spec_compare_incremental(b_cea, a_cea, shifting) == spec_reverse(
            spec_compare_incremental(a_cea, b_cea, shifting),
        ),
{
    lemma_cmp_filtered_antisym(
        spec_level_filter(a_cea, Level::Primary),
        spec_level_filter(b_cea, Level::Primary),
    );
    lemma_cmp_filtered_antisym(
        spec_level_filter(a_cea, Level::PrimaryShifted),
        spec_level_filter(b_cea, Level::PrimaryShifted),
    );
    lemma_cmp_filtered_antisym(
        spec_level_filter(a_cea, Level::Secondary),
        spec_level_filter(b_cea, Level::Secondary),
    );
    lemma_cmp_filtered_antisym(
        spec_level_filter(a_cea, Level::Tertiary),
        spec_level_filter(b_cea, Level::Tertiary),
    );
}

/// Comparing a collation element array with itself decides nothing at any
/// level: the result is Equal.
pub proof fn lemma_compare_incremental_reflexive(cea: Seq<u32>, shifting: bool)
    ensures
        spec_compare_incremental(cea, cea, shifting) == Ordering::Equal,
{
    lemma_cmp_filtered_none_iff_eq(
        spec_level_filter(cea, Level::Primary),
        spec_level_filter(cea, Level::Primary),
    );
    lemma_cmp_filtered_none_iff_eq(
        spec_level_filter(cea, Level::PrimaryShifted),
        spec_level_filter(cea, Level::PrimaryShifted),
    );
    lemma_cmp_filtered_none_iff_eq(
        spec_level_filter(cea, Level::Secondary),
        spec_level_filter(cea, Level::Secondary),
    );
    lemma_cmp_filtered_none_iff_eq(
        spec_level_filter(cea, Level::Tertiary),
        spec_level_filter(cea, Level::Tertiary),
    );
}

/// One level of the transitivity argument: from the verdicts of a level on
/// (a, b) and (b, c), the verdict on (a, c), with undecided levels replaced
/// by stream equality.
proof fn lemma_level_trans(xa: Seq<u16>, xb: Seq<u16>, xc: Seq<u16>)
    requires
        spec_cmp_filtered(xa, xb) == Some(Ordering::Less) || spec_cmp_filtered(xa, xb) is None,
        spec_cmp_filtered(xb, xc) == Some(Ordering::Less) || spec_cmp_filtered(xb, xc) is None,
    ensures
        spec_cmp_filtered(xa, xc) == Some(Ordering::Less) || spec_cmp_filtered(xa, xc) is None,
        (spec_cmp_filtered(xa, xb) == Some(Ordering::Less) || spec_cmp_filtered(xb, xc) == Some(
            Ordering::Less,
        )) ==> spec_cmp_filtered(xa, xc) == Some(Ordering::Less),
{
    lemma_cmp_filtered_none_iff_eq(xa, xb);
    lemma_cmp_filtered_none_iff_eq(xb, xc);
    lemma_cmp_filtered_none_iff_eq(xa, xc);
    if spec_cmp_filtered(xa, xb) is None {
        // xa == xb: the (b, c) verdict carries over
    } else if spec_cmp_filtered(xb, xc) is None {
        // xb == xc: the (a, b) verdict carries over
    } else {
        lemma_cmp_filtered_trans(xa, xb, xc);
    }
}

/// Lockstep stream comparison never returns a decided Equal: a decided
/// level is strictly ordered.
pub proof fn lemma_cmp_filtered_not_equal(x: Seq<u16>, y: Seq<u16>)
    ensures
        spec_cmp_filtered(x, y) != Some(Ordering::Equal),
    decreases x.len(),
{
    if x.len() != 0 && y.len() != 0 && x[0] == y[0] {
        lemma_cmp_filtered_not_equal(x.drop_first(), y.drop_first());
    }
}

/// The undecided and strict-order facts of every level of one pair of
/// collation element arrays.
proof fn lemma_level_facts(a_cea: Seq<u32>, b_cea: Seq<u32>, level: Level)
    ensures
        spec_cmp_level(a_cea, b_cea, level) != Some(Ordering::Equal),
        (spec_cmp_level(a_cea, b_cea, level) is None) <==> spec_level_filter(a_cea, level)
            == spec_level_filter(b_cea, level),
{
    lemma_cmp_filtered_not_equal(
        spec_level_filter(a_cea, level),
        spec_level_filter(b_cea, level),
    );
    lemma_cmp_filtered_none_iff_eq(
        spec_level_filter(a_cea, level),
        spec_level_filter(b_cea, level),
    );
}

/// One level of the transitivity chain: given non-Greater verdicts on
/// (a, b) and (b, c) down to this level, the (a, c) verdict here is Less
/// when either side already decided Less, and undecided when both are.
proof fn lemma_level_step(a_cea: Seq<u32>, b_cea: Seq<u32>, c_cea: Seq<u32>, level: Level)
    requires
        spec_cmp_level(a_cea, b_cea, level) == Some(Ordering::Less) || spec_cmp_level(
            a_cea,
            b_cea,
            level,
        ) is None,
        spec_cmp_level(b_cea, c_cea, level) == Some(Ordering::Less) || spec_cmp_level(
            b_cea,
            c_cea,
            level,
        ) is None,
    ensures
        spec_cmp_level(a_cea, c_cea, level) == if spec_cmp_level(a_cea, b_cea, level) is None
            && spec_cmp_level(b_cea, c_cea, level) is None {
            None::<Ordering>
        } else {
            Some(Ordering::Less)
        },
{
    lemma_level_facts(a_cea, b_cea, level);
    lemma_level_facts(b_cea, c_cea, level);
    lemma_level_facts(a_cea, c_cea, level);
    if spec_cmp_level(a_cea, b_cea, level) == Some(Ordering::Less) && spec_cmp_level(
        b_cea,
        c_cea,
        level,
    ) == Some(Ordering::Less) {
        lemma_cmp_filtered_trans(
            spec_level_filter(a_cea, level),
            spec_level_filter(b_cea, level),
            spec_level_filter(c_cea, level),
        );
    }
}

/// The multi-level comparison is transitive: a chain of non-Greater
/// verdicts cannot end above its start.
pub proof fn lemma_compare_incremental_trans(
    a_cea: Seq<u32>,
    b_cea: Seq<u32>,
    c_cea: Seq<u32>,
    shifting: bool,
)
    requires
        spec_compare_incremental(a_cea, b_cea, shifting) != Ordering::Greater,
        spec_compare_incremental(b_cea, c_cea, shifting) != Ordering::Greater,
    ensures
        spec_compare_incremental(a_cea, c_cea, shifting) != Ordering::Greater,
{
    let first = if shifting {
        Level::PrimaryShifted
    } else {
        Level::Primary
    };
    lemma_level_facts(a_cea, b_cea, first);
    lemma_level_facts(b_cea, c_cea, first);
    lemma_level_facts(a_cea, b_cea, Level::Secondary);
    lemma_level_facts(b_cea, c_cea, Level::Secondary);
    lemma_level_facts(a_cea, b_cea, Level::Tertiary);
    lemma_level_facts(b_cea, c_cea, Level::Tertiary);
    lemma_level_facts(a_cea, b_cea, Level::Primary);
    lemma_level_facts(b_cea, c_cea, Level::Primary);
    lemma_level_step(a_cea, b_cea, c_cea, first);
    if spec_cmp_level(a_cea, b_cea, first) is None && spec_cmp_level(b_cea, c_cea, first)
        is None {
        lemma_level_step(a_cea, b_cea, c_cea, Level::Secondary);
        if spec_cmp_level(a_cea, b_cea, Level::Secondary) is None && spec_cmp_level(
            b_cea,
            c_cea,
            Level::Secondary,
        ) is None {
            lemma_level_step(a_cea, b_cea, c_cea, Level::Tertiary);
            if shifting && spec_cmp_level(a_cea, b_cea, Level::Tertiary) is None
                && spec_cmp_level(b_cea, c_cea, Level::Tertiary) is None {
                lemma_level_step(a_cea, b_cea, c_cea, Level::Primary);
            }
        }
    }
}

} // verus!
