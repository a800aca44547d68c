//! Building the collation element array: walk the code point buffer,
//! consulting the low table, the multis table (contractions, with
//! discontiguous matches across combining marks), the singles table, and the
//! implicit-weight formulas, and emit packed weights terminated by a
//! sentinel.

use vstd::prelude::*;
use crate::cea_utils::{ccc_sequence_ok, fill_weights, grow_vec, handle_implicit_weights,
    handle_low_weights, pack_code_points, remove_pulled, spec_ccc_seq_ok, spec_fill_row,
    spec_implicit_a, spec_implicit_b, spec_lv_after, spec_lv_step, spec_pack_code_points,
    spec_shifted_elem};
use crate::consts::{LOW, LOW_CLDR, MAX_CODE_POINT, NEED_THREE, NEED_TWO};
use crate::normalize::all_code_points;
use crate::tables::{Tables, in_list};
use crate::unicode::ccc;

verus! {

/// The longest buffer the collation element array builder accepts: room for
/// the longest weight row per code point, plus the sentinel, must fit in
/// `usize`.
pub const MAX_CEA_INPUT_LEN: usize = (usize::MAX - 20) / 18;

/// One buffer arises from another by deleting elements alone: nothing is
/// changed or reordered.
#[verifier::opaque]
pub open spec fn spec_subsequence_of(x: Seq<u32>, y: Seq<u32>) -> bool
    decreases y.len(),
{
    if x.len() == 0 {
        true
    } else if y.len() == 0 {
        false
    } else {
        (x[0] == y[0] && spec_subsequence_of(x.drop_first(), y.drop_first()))
            || spec_subsequence_of(x, y.drop_first())
    }
}

/// One buffer arises from another by deleting combining marks alone: every
/// dropped element has a nonzero combining class, and nothing is changed or
/// reordered.
#[verifier::opaque]
pub open spec fn spec_deletes_only_marks(x: Seq<u32>, y: Seq<u32>) -> bool
    decreases y.len(),
{
    if x.len() == 0 {
        forall|k: int| 0 <= k < y.len() ==> crate::unicode::spec_ccc(#[trigger] y[k]) > 0
    } else if y.len() == 0 {
        false
    } else {
        (x[0] == y[0] && spec_deletes_only_marks(x.drop_first(), y.drop_first())) || (
        crate::unicode::spec_ccc(y[0]) > 0 && spec_deletes_only_marks(x, y.drop_first()))
    }
}

/// Every buffer arises from itself by deleting nothing.
pub proof fn lemma_marks_refl(x: Seq<u32>)
    ensures
        spec_deletes_only_marks(x, x),
    decreases x.len(),
{
    reveal(spec_deletes_only_marks);
    if x.len() > 0 {
        lemma_marks_refl(x.drop_first());
    }
}

/// Deleting one mark is a mark-only deletion.
pub proof fn lemma_marks_remove(y: Seq<u32>, i: int)
    requires
        0 <= i < y.len(),
        crate::unicode::spec_ccc(y[i]) > 0,
    ensures
        spec_deletes_only_marks(y.remove(i), y),
    decreases i,
{
    reveal(spec_deletes_only_marks);
    if i == 0 {
        assert(y.remove(0int) =~= y.drop_first());
        lemma_marks_refl(y.drop_first());
    } else {
        lemma_marks_remove(y.drop_first(), i - 1);
        assert(y.remove(i)[0] == y[0]);
        assert(y.remove(i).drop_first() =~= y.drop_first().remove(i - 1));
    }
}

/// Mark-only deletions compose.
pub proof fn lemma_marks_trans(x: Seq<u32>, y: Seq<u32>, z: Seq<u32>)
    requires
        spec_deletes_only_marks(x, y),
        spec_deletes_only_marks(y, z),
    ensures
        spec_deletes_only_marks(x, z),
    decreases x.len() + y.len() + z.len(),
{
    reveal(spec_deletes_only_marks);
    if x.len() == 0 {
        if z.len() == 0 {
        } else if y.len() == 0 {
            // the (y, z) hypothesis already says all of z is marks
        } else {
            assert forall|k: int| 0 <= k < y.drop_first().len() implies crate::unicode::spec_ccc(
                #[trigger] y.drop_first()[k],
            ) > 0 by {
                assert(y.drop_first()[k] == y[k + 1]);
            }
            if crate::unicode::spec_ccc(z[0]) > 0 && spec_deletes_only_marks(y, z.drop_first()) {
                lemma_marks_trans(x, y, z.drop_first());
            } else {
                lemma_marks_trans(x, y.drop_first(), z.drop_first());
            }
            assert forall|k: int| 0 <= k < z.len() implies crate::unicode::spec_ccc(
                #[trigger] z[k],
            ) > 0 by {
                if k > 0 {
                    assert(z.drop_first()[k - 1] == z[k]);
                }
            }
        }
    } else {
        if crate::unicode::spec_ccc(z[0]) > 0 && spec_deletes_only_marks(y, z.drop_first()) {
            lemma_marks_trans(x, y, z.drop_first());
        } else {
            if crate::unicode::spec_ccc(y[0]) > 0 && spec_deletes_only_marks(x, y.drop_first()) {
                lemma_marks_trans(x, y.drop_first(), z.drop_first());
            } else {
                lemma_marks_trans(x.drop_first(), y.drop_first(), z.drop_first());
            }
        }
    }
}

/// A mark-only deletion is in particular a subsequence.
pub proof fn lemma_marks_subseq(x: Seq<u32>, y: Seq<u32>)
    requires
        spec_deletes_only_marks(x, y),
    ensures
        spec_subsequence_of(x, y),
    decreases y.len(),
{
    reveal(spec_deletes_only_marks);
    reveal(spec_subsequence_of);
    if x.len() == 0 {
    } else if y.len() == 0 {
    } else {
        if x[0] == y[0] && spec_deletes_only_marks(x.drop_first(), y.drop_first()) {
            lemma_marks_subseq(x.drop_first(), y.drop_first());
        } else {
            lemma_marks_subseq(x, y.drop_first());
        }
    }
}

/// A mark-only deletion from a buffer without marks deletes nothing.
pub proof fn lemma_marks_unchanged(x: Seq<u32>, y: Seq<u32>)
    requires
        spec_deletes_only_marks(x, y),
        forall|k: int| 0 <= k < y.len() ==> crate::unicode::spec_ccc(#[trigger] y[k]) == 0,
    ensures
        x == y,
    decreases y.len(),
{
    reveal(spec_deletes_only_marks);
    if x.len() == 0 {
        if y.len() > 0 {
            assert(crate::unicode::spec_ccc(y[0]) > 0);
        }
        assert(x =~= y);
    } else {
        assert forall|k: int| 0 <= k < y.drop_first().len() implies crate::unicode::spec_ccc(
            #[trigger] y.drop_first()[k],
        ) == 0 by {
            assert(y.drop_first()[k] == y[k + 1]);
        }
        lemma_marks_unchanged(x.drop_first(), y.drop_first());
        assert forall|k: int| 1 <= k < x.len() implies x[k] == y[k] by {
            assert(x.drop_first()[k - 1] == y.drop_first()[k - 1]);
        }
        assert(x =~= y);
    }
}

/// The discontiguous scan after a failed contraction probe, mirroring one
/// probe at a time: from the candidate end position `mr` (and whether two
/// marks are being reached over, `t2`), the result is whether a contraction
/// was found, at which end position, and whether it reached over two marks.
pub open spec fn spec_scan(t: Tables, s: Seq<u32>, mr: int, t2: bool) -> (bool, int, bool)
    decreases mr, (if t2 {
        1int
    } else {
        0int
    }),
{
    if mr <= 1 {
        (false, 0int, false)
    } else if !spec_ccc_seq_ok(s.subrange(1, mr + 1)) {
        spec_scan(t, s, mr - 1, false)
    } else {
        let key = if t2 {
            spec_pack_code_points(seq![s[0], s[mr - 1], s[mr]])
        } else {
            spec_pack_code_points(seq![s[0], s[mr]])
        };
        if t.multis_map().contains_key(key) {
            (true, mr, t2)
        } else if t2 {
            spec_scan(t, s, mr, false)
        } else {
            spec_scan(t, s, mr - 1, false)
        }
    }
}

/// A scan that hits reports an end position no further than where it
/// started and past the base code point, a reached-over range that passed
/// the combining-class check, and a key the multis table holds.
pub proof fn lemma_scan_hit_range(t: Tables, s: Seq<u32>, mr: int, t2: bool)
    requires
        spec_scan(t, s, mr, t2).0,
    ensures
        1 < spec_scan(t, s, mr, t2).1 <= mr,
        spec_ccc_seq_ok(s.subrange(1, spec_scan(t, s, mr, t2).1 + 1)),
        t.multis_map().contains_key(
            if spec_scan(t, s, mr, t2).2 {
                spec_pack_code_points(
                    seq![s[0], s[spec_scan(t, s, mr, t2).1 - 1], s[spec_scan(t, s, mr, t2).1]],
                )
            } else {
                spec_pack_code_points(seq![s[0], s[spec_scan(t, s, mr, t2).1]])
            },
        ),
    decreases mr, (if t2 {
        1int
    } else {
        0int
    }),
{
    if mr <= 1 {
    } else if !spec_ccc_seq_ok(s.subrange(1, mr + 1)) {
        lemma_scan_hit_range(t, s, mr - 1, false);
    } else {
        let key = if t2 {
            spec_pack_code_points(seq![s[0], s[mr - 1], s[mr]])
        } else {
            spec_pack_code_points(seq![s[0], s[mr]])
        };
        if t.multis_map().contains_key(key) {
        } else if t2 {
            lemma_scan_hit_range(t, s, mr, false);
        } else {
            lemma_scan_hit_range(t, s, mr - 1, false);
        }
    }
}

/// The initial end position of the discontiguous scan: up to two code
/// points past the base, within the buffer.
pub open spec fn spec_scan_start(len: int) -> int {
    if len >= 4 {
        3int
    } else if len == 3 {
        2int
    } else {
        1int
    }
}

/// Whether the scan may reach over two marks: only when the buffer allows
/// the full reach and the tailoring is CLDR-based.
pub open spec fn spec_scan_try_two(len: int, cldr: bool) -> bool {
    spec_scan_start(len) == 3 && cldr
}

/// The low weight table in the chosen order.
pub open spec fn spec_low_of(cldr: bool, c: u32) -> u32 {
    if cldr {
        LOW_CLDR@[c as int]
    } else {
        LOW@[c as int]
    }
}

/// The collation element array of a code point buffer (without the final
/// sentinel): one step of the builder at a time, on the remaining buffer
/// `s`, with `lv` the last-variable state of the shifting transformation.
#[verifier::opaque]
pub open spec fn spec_cea(t: Tables, cldr: bool, shifting: bool, s: Seq<u32>, lv: bool) -> Seq<
    u32,
>
    decreases s.len() via spec_cea_dec
{
    if s.len() == 0 {
        Seq::<u32>::empty()
    } else {
        let c = s[0];
        if c < 0xB7 && c != 0x6C && c != 0x4C {
            let w = spec_low_of(cldr, c);
            seq![spec_shifted_elem(w, shifting, lv)] + spec_cea(
                t,
                cldr,
                shifting,
                s.drop_first(),
                spec_lv_step(w, shifting, lv),
            )
        } else {
            let lookahead: int = if NEED_THREE@.contains(c) {
                3int
            } else if NEED_TWO@.contains(c) {
                2int
            } else {
                1int
            };
            if lookahead == 1 || s.len() == 1 {
                if t.singles_map().contains_key(c) {
                    let row = t.singles_map()[c];
                    spec_fill_row(row, shifting, lv) + spec_cea(
                        t,
                        cldr,
                        shifting,
                        s.drop_first(),
                        spec_lv_after(row, shifting, lv),
                    )
                } else {
                    seq![spec_implicit_a(c), spec_implicit_b(c)] + spec_cea(
                        t,
                        cldr,
                        shifting,
                        s.drop_first(),
                        lv,
                    )
                }
            } else if lookahead == 3 && s.len() >= 3 && t.multis_map().contains_key(
                spec_pack_code_points(seq![s[0], s[1], s[2]]),
            ) {
                let row = t.multis_map()[spec_pack_code_points(seq![s[0], s[1], s[2]])];
                spec_fill_row(row, shifting, lv) + spec_cea(
                    t,
                    cldr,
                    shifting,
                    s.skip(3),
                    spec_lv_after(row, shifting, lv),
                )
            } else if t.multis_map().contains_key(spec_pack_code_points(seq![s[0], s[1]])) {
                let row2 = t.multis_map()[spec_pack_code_points(seq![s[0], s[1]])];
                if s.len() > 3 && crate::unicode::spec_ccc(s[2]) > 0 && crate::unicode::spec_ccc(
                    s[3],
                ) > crate::unicode::spec_ccc(s[2]) && t.multis_map().contains_key(
                    spec_pack_code_points(seq![s[0], s[1], s[3]]),
                ) {
                    let rowd = t.multis_map()[spec_pack_code_points(seq![s[0], s[1], s[3]])];
                    spec_fill_row(rowd, shifting, lv) + spec_cea(
                        t,
                        cldr,
                        shifting,
                        s.remove(3).skip(2),
                        spec_lv_after(rowd, shifting, lv),
                    )
                } else {
                    spec_fill_row(row2, shifting, lv) + spec_cea(
                        t,
                        cldr,
                        shifting,
                        s.skip(2),
                        spec_lv_after(row2, shifting, lv),
                    )
                }
            } else if t.singles_map().contains_key(c) {
                let row1 = t.singles_map()[c];
                let scan = spec_scan(
                    t,
                    s,
                    spec_scan_start(s.len() as int),
                    spec_scan_try_two(s.len() as int, cldr),
                );
                if scan.0 {
                    let mr = scan.1;
                    let key = if scan.2 {
                        spec_pack_code_points(seq![s[0], s[mr - 1], s[mr]])
                    } else {
                        spec_pack_code_points(seq![s[0], s[mr]])
                    };
                    let rowd = t.multis_map()[key];
                    let s_next = if scan.2 {
                        s.remove(mr).remove(mr - 1).drop_first()
                    } else {
                        s.remove(mr).drop_first()
                    };
                    spec_fill_row(rowd, shifting, lv) + spec_cea(
                        t,
                        cldr,
                        shifting,
                        s_next,
                        spec_lv_after(rowd, shifting, lv),
                    )
                } else {
                    spec_fill_row(row1, shifting, lv) + spec_cea(
                        t,
                        cldr,
                        shifting,
                        s.drop_first(),
                        spec_lv_after(row1, shifting, lv),
                    )
                }
            } else {
                seq![spec_implicit_a(c), spec_implicit_b(c)] + spec_cea(
                    t,
                    cldr,
                    shifting,
                    s.drop_first(),
                    lv,
                )
            }
        }
    }
}

#[via_fn]
proof fn spec_cea_dec(t: Tables, cldr: bool, shifting: bool, s: Seq<u32>, lv: bool) {
    if s.len() > 0 {
        let scan = spec_scan(
            t,
            s,
            spec_scan_start(s.len() as int),
            spec_scan_try_two(s.len() as int, cldr),
        );
        if scan.0 {
            lemma_scan_hit_range(
                t,
                s,
                spec_scan_start(s.len() as int),
                spec_scan_try_two(s.len() as int, cldr),
            );
        }
    }
}

/// The lookahead width of a code point: how long a contraction it may start.
pub open spec fn spec_lookahead(c: u32) -> int {
    if NEED_THREE@.contains(c) {
        3int
    } else if NEED_TWO@.contains(c) {
        2int
    } else {
        1int
    }
}

/// Unfolding `spec_cea` on the empty buffer.
pub proof fn lemma_cea_empty(t: Tables, cldr: bool, shifting: bool, lv: bool)
    ensures
        spec_cea(t, cldr, shifting, Seq::<u32>::empty(), lv) == Seq::<u32>::empty(),
{
    reveal(spec_cea);
}

/// Unfolding `spec_cea` on a low code point.
pub proof fn lemma_cea_low(t: Tables, cldr: bool, shifting: bool, s: Seq<u32>, lv: bool)
    requires
        s.len() > 0,
        s[0] < 0xB7 && s[0] != 0x6C && s[0] != 0x4C,
    ensures
        spec_cea(t, cldr, shifting, s, lv) == seq![
            spec_shifted_elem(spec_low_of(cldr, s[0]), shifting, lv),
        ] + spec_cea(t, cldr, shifting, s.drop_first(), spec_lv_step(
            spec_low_of(cldr, s[0]),
            shifting,
            lv,
        )),
{
    reveal(spec_cea);
}

/// Unfolding `spec_cea` when only a single code point is consulted and the
/// singles table has it.
pub proof fn lemma_cea_single(t: Tables, cldr: bool, shifting: bool, s: Seq<u32>, lv: bool)
    requires
        s.len() > 0,
        !(s[0] < 0xB7 && s[0] != 0x6C && s[0] != 0x4C),
        spec_lookahead(s[0]) == 1 || s.len() == 1,
        t.singles_map().contains_key(s[0]),
    ensures
        spec_cea(t, cldr, shifting, s, lv) == spec_fill_row(
            t.singles_map()[s[0]],
            shifting,
            lv,
        ) + spec_cea(t, cldr, shifting, s.drop_first(), spec_lv_after(
            t.singles_map()[s[0]],
            shifting,
            lv,
        )),
{
    reveal(spec_cea);
}

/// Unfolding `spec_cea` when only a single code point is consulted and the
/// singles table lacks it: implicit weights.
pub proof fn lemma_cea_single_implicit(t: Tables, cldr: bool, shifting: bool, s: Seq<u32>, lv: bool)
    requires
        s.len() > 0,
        !(s[0] < 0xB7 && s[0] != 0x6C && s[0] != 0x4C),
        spec_lookahead(s[0]) == 1 || s.len() == 1,
        !t.singles_map().contains_key(s[0]),
    ensures
        spec_cea(t, cldr, shifting, s, lv) == seq![spec_implicit_a(s[0]), spec_implicit_b(s[0])]
            + spec_cea(t, cldr, shifting, s.drop_first(), lv),
{
    reveal(spec_cea);
}

/// Unfolding `spec_cea` on a three-code-point contraction match.
pub proof fn lemma_cea_multi3(t: Tables, cldr: bool, shifting: bool, s: Seq<u32>, lv: bool)
    requires
        s.len() >= 3,
        !(s[0] < 0xB7 && s[0] != 0x6C && s[0] != 0x4C),
        spec_lookahead(s[0]) == 3,
        t.multis_map().contains_key(spec_pack_code_points(seq![s[0], s[1], s[2]])),
    ensures
        spec_cea(t, cldr, shifting, s, lv) == spec_fill_row(
            t.multis_map()[spec_pack_code_points(seq![s[0], s[1], s[2]])],
            shifting,
            lv,
        ) + spec_cea(t, cldr, shifting, s.skip(3), spec_lv_after(
            t.multis_map()[spec_pack_code_points(seq![s[0], s[1], s[2]])],
            shifting,
            lv,
        )),
{
    reveal(spec_cea);
}

/// Unfolding `spec_cea` on a two-code-point contraction match that extends
/// discontiguously over one mark.
pub proof fn lemma_cea_multi2_discont(t: Tables, cldr: bool, shifting: bool, s: Seq<u32>, lv: bool)
    requires
        s.len() > 3,
        !(s[0] < 0xB7 && s[0] != 0x6C && s[0] != 0x4C),
        spec_lookahead(s[0]) >= 2,
        !(spec_lookahead(s[0]) == 3 && s.len() >= 3 && t.multis_map().contains_key(
            spec_pack_code_points(seq![s[0], s[1], s[2]]),
        )),
        t.multis_map().contains_key(spec_pack_code_points(seq![s[0], s[1]])),
        crate::unicode::spec_ccc(s[2]) > 0,
        crate::unicode::spec_ccc(s[3]) > crate::unicode::spec_ccc(s[2]),
        t.multis_map().contains_key(spec_pack_code_points(seq![s[0], s[1], s[3]])),
    ensures
        spec_cea(t, cldr, shifting, s, lv) == spec_fill_row(
            t.multis_map()[spec_pack_code_points(seq![s[0], s[1], s[3]])],
            shifting,
            lv,
        ) + spec_cea(t, cldr, shifting, s.remove(3).skip(2), spec_lv_after(
            t.multis_map()[spec_pack_code_points(seq![s[0], s[1], s[3]])],
            shifting,
            lv,
        )),
{
    reveal(spec_cea);
}

/// Unfolding `spec_cea` on a two-code-point contraction match with no
/// discontiguous extension.
pub proof fn lemma_cea_multi2_plain(t: Tables, cldr: bool, shifting: bool, s: Seq<u32>, lv: bool)
    requires
        s.len() >= 2,
        !(s[0] < 0xB7 && s[0] != 0x6C && s[0] != 0x4C),
        spec_lookahead(s[0]) >= 2,
        !(spec_lookahead(s[0]) == 3 && s.len() >= 3 && t.multis_map().contains_key(
            spec_pack_code_points(seq![s[0], s[1], s[2]]),
        )),
        t.multis_map().contains_key(spec_pack_code_points(seq![s[0], s[1]])),
        !(s.len() > 3 && crate::unicode::spec_ccc(s[2]) > 0 && crate::unicode::spec_ccc(s[3])
            > crate::unicode::spec_ccc(s[2]) && t.multis_map().contains_key(
            spec_pack_code_points(seq![s[0], s[1], s[3]]),
        )),
    ensures
        spec_cea(t, cldr, shifting, s, lv) == spec_fill_row(
            t.multis_map()[spec_pack_code_points(seq![s[0], s[1]])],
            shifting,
            lv,
        ) + spec_cea(t, cldr, shifting, s.skip(2), spec_lv_after(
            t.multis_map()[spec_pack_code_points(seq![s[0], s[1]])],
            shifting,
            lv,
        )),
{
    reveal(spec_cea);
}

/// Unfolding `spec_cea` on the single-code-point fallback whose
/// discontiguous scan hits.
pub proof fn lemma_cea_fallback_hit(t: Tables, cldr: bool, shifting: bool, s: Seq<u32>, lv: bool)
    requires
        s.len() >= 2,
        !(s[0] < 0xB7 && s[0] != 0x6C && s[0] != 0x4C),
        spec_lookahead(s[0]) >= 2,
        !(spec_lookahead(s[0]) == 3 && s.len() >= 3 && t.multis_map().contains_key(
            spec_pack_code_points(seq![s[0], s[1], s[2]]),
        )),
        !t.multis_map().contains_key(spec_pack_code_points(seq![s[0], s[1]])),
        t.singles_map().contains_key(s[0]),
        spec_scan(t, s, spec_scan_start(s.len() as int), spec_scan_try_two(s.len() as int, cldr)).0,
    ensures
        ({
            let scan = spec_scan(
                t,
                s,
                spec_scan_start(s.len() as int),
                spec_scan_try_two(s.len() as int, cldr),
            );
            let key = if scan.2 {
                spec_pack_code_points(seq![s[0], s[scan.1 - 1], s[scan.1]])
            } else {
                spec_pack_code_points(seq![s[0], s[scan.1]])
            };
            let s_next = if scan.2 {
                s.remove(scan.1).remove(scan.1 - 1).drop_first()
            } else {
                s.remove(scan.1).drop_first()
            };
            spec_cea(t, cldr, shifting, s, lv) == spec_fill_row(t.multis_map()[key], shifting, lv)
                + spec_cea(t, cldr, shifting, s_next, spec_lv_after(
                t.multis_map()[key],
                shifting,
                lv,
            ))
        }),
{
    reveal(spec_cea);
}

/// Unfolding `spec_cea` on the single-code-point fallback whose
/// discontiguous scan finds nothing.
pub proof fn lemma_cea_fallback_nohit(t: Tables, cldr: bool, shifting: bool, s: Seq<u32>, lv: bool)
    requires
        s.len() >= 2,
        !(s[0] < 0xB7 && s[0] != 0x6C && s[0] != 0x4C),
        spec_lookahead(s[0]) >= 2,
        !(spec_lookahead(s[0]) == 3 && s.len() >= 3 && t.multis_map().contains_key(
            spec_pack_code_points(seq![s[0], s[1], s[2]]),
        )),
        !t.multis_map().contains_key(spec_pack_code_points(seq![s[0], s[1]])),
        t.singles_map().contains_key(s[0]),
        !spec_scan(
            t,
            s,
            spec_scan_start(s.len() as int),
            spec_scan_try_two(s.len() as int, cldr),
        ).0,
    ensures
        spec_cea(t, cldr, shifting, s, lv) == spec_fill_row(
            t.singles_map()[s[0]],
            shifting,
            lv,
        ) + spec_cea(t, cldr, shifting, s.drop_first(), spec_lv_after(
            t.singles_map()[s[0]],
            shifting,
            lv,
        )),
{
    reveal(spec_cea);
}

/// Unfolding `spec_cea` on a contraction starter with no contiguous match,
/// no singles row, and so implicit weights.
pub proof fn lemma_cea_starter_implicit(t: Tables, cldr: bool, shifting: bool, s: Seq<u32>, lv:
    bool)
    requires
        s.len() >= 2,
        !(s[0] < 0xB7 && s[0] != 0x6C && s[0] != 0x4C),
        spec_lookahead(s[0]) >= 2,
        !(spec_lookahead(s[0]) == 3 && s.len() >= 3 && t.multis_map().contains_key(
            spec_pack_code_points(seq![s[0], s[1], s[2]]),
        )),
        !t.multis_map().contains_key(spec_pack_code_points(seq![s[0], s[1]])),
        !t.singles_map().contains_key(s[0]),
    ensures
        spec_cea(t, cldr, shifting, s, lv) == seq![spec_implicit_a(s[0]), spec_implicit_b(s[0])]
            + spec_cea(t, cldr, shifting, s.drop_first(), lv),
{
    reveal(spec_cea);
}

/// One step of the builder: consume at least one code point at `*left`,
/// write its weights at `*cea_idx`, and keep the specification's account of
/// the remaining work in balance.
#[verifier::rlimit(100)]
fn cea_step(
    tables: &Tables,
    cea: &mut Vec<u32>,
    cea_idx: &mut usize,
    char_vals: &mut Vec<u32>,
    input_length: &mut usize,
    left: &mut usize,
    last_variable: &mut bool,
    shifting: bool,
    cldr: bool,
)
    requires
        tables.wf(),
        *old(left) < *old(input_length),
        *old(input_length) == old(char_vals)@.len(),
        old(char_vals)@.len() + 3 <= usize::MAX,
        all_code_points(old(char_vals)@),
        *old(cea_idx) + 20 <= old(cea)@.len(),
    ensures
        *old(left) < *final(left),
        *final(left) <= *final(input_length),
        *final(input_length) == final(char_vals)@.len(),
        final(char_vals)@.len() <= old(char_vals)@.len(),
        spec_deletes_only_marks(final(char_vals)@, old(char_vals)@),
        all_code_points(final(char_vals)@),
        (final(char_vals)@.len() - *final(left)) + 1 <= old(char_vals)@.len() - *old(left),
        *old(cea_idx) <= *final(cea_idx) <= *old(cea_idx) + 18,
        final(cea)@.len() == old(cea)@.len(),
        final(cea)@.subrange(0, *old(cea_idx) as int) == old(cea)@.subrange(
            0,
            *old(cea_idx) as int,
        ),
        spec_cea(*tables, cldr, shifting, old(char_vals)@.skip(*old(left) as int), *old(
            last_variable,
        )) == final(cea)@.subrange(*old(cea_idx) as int, *final(cea_idx) as int) + spec_cea(
            *tables,
            cldr,
            shifting,
            final(char_vals)@.skip(*final(left) as int),
            *final(last_variable),
        ),
{
    let ghost s = char_vals@.skip(*left as int);
    proof {
        lemma_marks_refl(char_vals@);
        assert(forall|k: int| 0 <= k < s.len() ==> s[k] == char_vals@[*left + k]);
        assert(s.len() == char_vals@.len() - *left);
    }
    let left_val = char_vals[*left];
    // a low code point (that starts no contraction) takes one element from
    // the low table
    if left_val < 0xB7 && left_val != 0x6C && left_val != 0x4C {
        let weights = if cldr {
            LOW_CLDR[left_val as usize]
        } else {
            LOW[left_val as usize]
        };
        handle_low_weights(cea, weights, cea_idx, shifting, last_variable);
        *left = *left + 1;
        proof {
            lemma_cea_low(*tables, cldr, shifting, s, *old(last_variable));
            assert(s.drop_first() =~= char_vals@.skip(*left as int));
            assert(cea@.subrange(*old(cea_idx) as int, *cea_idx as int) =~= seq![
                spec_shifted_elem(spec_low_of(cldr, s[0]), shifting, *old(last_variable)),
            ]);
        }
        return ;
    }
    let lookahead: usize = if in_list(&NEED_THREE, left_val) {
        3
    } else if in_list(&NEED_TWO, left_val) {
        2
    } else {
        1
    };
    let check_multi = lookahead > 1 && *input_length - *left > 1;
    if !check_multi {
        // a single code point: its singles row, or implicit weights
        match tables.single_get(left_val) {
            Some(row) => {
                fill_weights(cea, row, cea_idx, shifting, last_variable);
                *left = *left + 1;
                proof {
                    lemma_cea_single(*tables, cldr, shifting, s, *old(last_variable));
                    assert(s.drop_first() =~= char_vals@.skip(*left as int));
                }
            },
            None => {
                handle_implicit_weights(cea, left_val, cea_idx);
                *left = *left + 1;
                proof {
                    lemma_cea_single_implicit(*tables, cldr, shifting, s, *old(last_variable));
                    assert(s.drop_first() =~= char_vals@.skip(*left as int));
                    assert(cea@.subrange(*old(cea_idx) as int, *cea_idx as int) =~= seq![
                        spec_implicit_a(s[0]),
                        spec_implicit_b(s[0]),
                    ]);
                }
            },
        }
        return ;
    }
    // contraction probes: three code points first, then two
    if lookahead == 3 && *input_length - *left >= 3 {
        let key3_vec = vec![left_val, char_vals[*left + 1], char_vals[*left + 2]];
        let key3 = pack_code_points(&key3_vec);
        proof {
            assert(key3_vec@ =~= seq![s[0], s[1], s[2]]);
        }
        match tables.multi_get(key3) {
            Some(row) => {
                fill_weights(cea, row, cea_idx, shifting, last_variable);
                *left = *left + 3;
                proof {
                    lemma_cea_multi3(*tables, cldr, shifting, s, *old(last_variable));
                    assert(s.skip(3) =~= char_vals@.skip(*left as int));
                }
                return ;
            },
            None => {},
        }
    }
    let key2_vec = vec![left_val, char_vals[*left + 1]];
    let key2 = pack_code_points(&key2_vec);
    proof {
        assert(key2_vec@ =~= seq![s[0], s[1]]);
    }
    if has_key(tables, key2) {
        step_two(tables, cea, cea_idx, char_vals, input_length, left, last_variable, shifting,
            cldr);
        return ;
    }
    // no contraction matched contiguously; fall back to the single code
    // point, scanning for a discontiguous match first
    step_fallback(tables, cea, cea_idx, char_vals, input_length, left, last_variable, shifting,
        cldr);
}

/// Whether the multis table has a key (a spec-transparent probe).
fn has_key(tables: &Tables, key: u64) -> (r: bool)
    ensures
        r == tables.multis_map().contains_key(key),
{
    match tables.multi_get(key) {
        Some(_) => true,
        None => false,
    }
}

/// The step taken on a two-code-point contraction match: extend it
/// discontiguously across one mark where the tables allow, else take it as
/// it stands.
#[verifier::rlimit(100)]
fn step_two(
    tables: &Tables,
    cea: &mut Vec<u32>,
    cea_idx: &mut usize,
    char_vals: &mut Vec<u32>,
    input_length: &mut usize,
    left: &mut usize,
    last_variable: &mut bool,
    shifting: bool,
    cldr: bool,
)
    requires
        tables.wf(),
        *old(left) < *old(input_length),
        *old(input_length) == old(char_vals)@.len(),
        old(char_vals)@.len() + 3 <= usize::MAX,
        all_code_points(old(char_vals)@),
        *old(cea_idx) + 20 <= old(cea)@.len(),
        ({
            let s = old(char_vals)@.skip(*old(left) as int);
            &&& s.len() >= 2
            &&& !(s[0] < 0xB7 && s[0] != 0x6C && s[0] != 0x4C)
            &&& spec_lookahead(s[0]) >= 2
            &&& !(spec_lookahead(s[0]) == 3 && s.len() >= 3 && tables.multis_map().contains_key(
                spec_pack_code_points(seq![s[0], s[1], s[2]]),
            ))
            &&& tables.multis_map().contains_key(spec_pack_code_points(seq![s[0], s[1]]))
        }),
    ensures
        *old(left) < *final(left),
        *final(left) <= *final(input_length),
        *final(input_length) == final(char_vals)@.len(),
        final(char_vals)@.len() <= old(char_vals)@.len(),
        spec_deletes_only_marks(final(char_vals)@, old(char_vals)@),
        all_code_points(final(char_vals)@),
        (final(char_vals)@.len() - *final(left)) + 1 <= old(char_vals)@.len() - *old(left),
        *old(cea_idx) <= *final(cea_idx) <= *old(cea_idx) + 18,
        final(cea)@.len() == old(cea)@.len(),
        final(cea)@.subrange(0, *old(cea_idx) as int) == old(cea)@.subrange(
            0,
            *old(cea_idx) as int,
        ),
        spec_cea(*tables, cldr, shifting, old(char_vals)@.skip(*old(left) as int), *old(
            last_variable,
        )) == final(cea)@.subrange(*old(cea_idx) as int, *final(cea_idx) as int) + spec_cea(
            *tables,
            cldr,
            shifting,
            final(char_vals)@.skip(*final(left) as int),
            *final(last_variable),
        ),
{
    let ghost s = char_vals@.skip(*left as int);
    proof {
        lemma_marks_refl(char_vals@);
        assert(forall|k: int| 0 <= k < s.len() ==> s[k] == char_vals@[*left + k]);
        assert(s.len() == char_vals@.len() - *left);
    }
    let left_val = char_vals[*left];
    let key2_vec = vec![left_val, char_vals[*left + 1]];
    let key2 = pack_code_points(&key2_vec);
    proof {
        assert(key2_vec@ =~= seq![s[0], s[1]]);
    }
    if *left + 3 < *input_length {
        let ccc_a = ccc(char_vals[*left + 2]);
        let ccc_b = ccc(char_vals[*left + 3]);
        if ccc_a > 0 && ccc_b > ccc_a {
            let keyd_vec = vec![left_val, char_vals[*left + 1], char_vals[*left + 3]];
            let keyd = pack_code_points(&keyd_vec);
            proof {
                assert(keyd_vec@ =~= seq![s[0], s[1], s[3]]);
            }
            match tables.multi_get(keyd) {
                Some(rowd) => {
                    fill_weights(cea, rowd, cea_idx, shifting, last_variable);
                    let ghost pre_removal = char_vals@;
                    remove_pulled(char_vals, *left + 3, input_length, false);
                    *left = *left + 2;
                    proof {
                        assert(crate::unicode::spec_ccc(pre_removal[*left + 1]) > 0);
                        lemma_marks_remove(pre_removal, *left + 1);
                        lemma_cea_multi2_discont(*tables, cldr, shifting, s, *old(last_variable));
                        assert(s.remove(3).skip(2) =~= char_vals@.skip(*left as int));
                        assert(all_code_points(char_vals@));
                    }
                    return ;
                },
                None => {},
            }
        }
    }
    match tables.multi_get(key2) {
        Some(row2) => {
            fill_weights(cea, row2, cea_idx, shifting, last_variable);
            *left = *left + 2;
            proof {
                lemma_cea_multi2_plain(*tables, cldr, shifting, s, *old(last_variable));
                assert(s.skip(2) =~= char_vals@.skip(*left as int));
            }
        },
        None => {
            proof {
                assert(false);
            }
        },
    }
}

/// The step taken when no contraction matched contiguously: fall back to
/// the single code point, scanning first for a discontiguous match.
#[verifier::rlimit(100)]
fn step_fallback(
    tables: &Tables,
    cea: &mut Vec<u32>,
    cea_idx: &mut usize,
    char_vals: &mut Vec<u32>,
    input_length: &mut usize,
    left: &mut usize,
    last_variable: &mut bool,
    shifting: bool,
    cldr: bool,
)
    requires
        tables.wf(),
        *old(left) < *old(input_length),
        *old(input_length) == old(char_vals)@.len(),
        old(char_vals)@.len() + 3 <= usize::MAX,
        all_code_points(old(char_vals)@),
        *old(cea_idx) + 20 <= old(cea)@.len(),
        ({
            let s = old(char_vals)@.skip(*old(left) as int);
            &&& s.len() >= 2
            &&& !(s[0] < 0xB7 && s[0] != 0x6C && s[0] != 0x4C)
            &&& spec_lookahead(s[0]) >= 2
            &&& !(spec_lookahead(s[0]) == 3 && s.len() >= 3 && tables.multis_map().contains_key(
                spec_pack_code_points(seq![s[0], s[1], s[2]]),
            ))
            &&& !tables.multis_map().contains_key(spec_pack_code_points(seq![s[0], s[1]]))
        }),
    ensures
        *old(left) < *final(left),
        *final(left) <= *final(input_length),
        *final(input_length) == final(char_vals)@.len(),
        final(char_vals)@.len() <= old(char_vals)@.len(),
        spec_deletes_only_marks(final(char_vals)@, old(char_vals)@),
        all_code_points(final(char_vals)@),
        (final(char_vals)@.len() - *final(left)) + 1 <= old(char_vals)@.len() - *old(left),
        *old(cea_idx) <= *final(cea_idx) <= *old(cea_idx) + 18,
        final(cea)@.len() == old(cea)@.len(),
        final(cea)@.subrange(0, *old(cea_idx) as int) == old(cea)@.subrange(
            0,
            *old(cea_idx) as int,
        ),
        spec_cea(*tables, cldr, shifting, old(char_vals)@.skip(*old(left) as int), *old(
            last_variable,
        )) == final(cea)@.subrange(*old(cea_idx) as int, *final(cea_idx) as int) + spec_cea(
            *tables,
            cldr,
            shifting,
            final(char_vals)@.skip(*final(left) as int),
            *final(last_variable),
        ),
{
    let ghost s = char_vals@.skip(*left as int);
    proof {
        lemma_marks_refl(char_vals@);
        assert(forall|k: int| 0 <= k < s.len() ==> s[k] == char_vals@[*left + k]);
        assert(s.len() == char_vals@.len() - *left);
    }
    let left_val = char_vals[*left];
    match tables.single_get(left_val) {
        None => {
            handle_implicit_weights(cea, left_val, cea_idx);
            *left = *left + 1;
            proof {
                lemma_cea_starter_implicit(*tables, cldr, shifting, s, *old(last_variable));
                assert(s.drop_first() =~= char_vals@.skip(*left as int));
                assert(cea@.subrange(*old(cea_idx) as int, *cea_idx as int) =~= seq![
                    spec_implicit_a(s[0]),
                    spec_implicit_b(s[0]),
                ]);
            }
        },
        Some(row1) => {
            let (hit, hit_mr, hit_t2) = discont_scan(tables, char_vals, *input_length, *left, cldr);
            if hit {
                proof {
                    lemma_scan_hit_range(
                        *tables,
                        s,
                        spec_scan_start(s.len() as int),
                        spec_scan_try_two(s.len() as int, cldr),
                    );
                }
                let ghost mr_rel = (hit_mr - *left) as int;
                let key_vec = if hit_t2 {
                    vec![left_val, char_vals[hit_mr - 1], char_vals[hit_mr]]
                } else {
                    vec![left_val, char_vals[hit_mr]]
                };
                let key = pack_code_points(&key_vec);
                proof {
                    if hit_t2 {
                        assert(key_vec@ =~= seq![s[0], s[mr_rel - 1], s[mr_rel]]);
                    } else {
                        assert(key_vec@ =~= seq![s[0], s[mr_rel]]);
                    }
                }
                match tables.multi_get(key) {
                    Some(rowd) => {
                        fill_weights(cea, rowd, cea_idx, shifting, last_variable);
                        let ghost pre_removal = char_vals@;
                        remove_pulled(char_vals, hit_mr, input_length, hit_t2);
                        *left = *left + 1;
                        proof {
                            let scan = spec_scan(
                                *tables,
                                s,
                                spec_scan_start(s.len() as int),
                                spec_scan_try_two(s.len() as int, cldr),
                            );
                            let reach = s.subrange(1, scan.1 + 1);
                            crate::cea_utils::lemma_ccc_seq_ok_all_marks(reach, 0);
                            assert(reach[scan.1 - 1] == s[scan.1]);
                            assert(crate::unicode::spec_ccc(pre_removal[hit_mr as int]) > 0);
                            lemma_marks_remove(pre_removal, hit_mr as int);
                            if hit_t2 {
                                assert(reach[scan.1 - 2] == s[scan.1 - 1]);
                                assert(pre_removal.remove(hit_mr as int)[hit_mr - 1]
                                    == pre_removal[hit_mr - 1]);
                                assert(crate::unicode::spec_ccc(pre_removal[hit_mr - 1]) > 0);
                                lemma_marks_remove(pre_removal.remove(hit_mr as int), hit_mr - 1);
                                lemma_marks_trans(
                                    char_vals@,
                                    pre_removal.remove(hit_mr as int),
                                    pre_removal,
                                );
                            }
                            lemma_cea_fallback_hit(*tables, cldr, shifting, s, *old(last_variable));
                            if hit_t2 {
                                assert(s.remove(mr_rel).remove(mr_rel - 1).drop_first()
                                    =~= char_vals@.skip(*left as int));
                            } else {
                                assert(s.remove(mr_rel).drop_first() =~= char_vals@.skip(
                                    *left as int,
                                ));
                            }
                            assert(all_code_points(char_vals@));
                        }
                    },
                    None => {
                        proof {
                            assert(false);
                        }
                    },
                }
            } else {
                fill_weights(cea, row1, cea_idx, shifting, last_variable);
                *left = *left + 1;
                proof {
                    lemma_cea_fallback_nohit(*tables, cldr, shifting, s, *old(last_variable));
                    assert(s.drop_first() =~= char_vals@.skip(*left as int));
                }
            }
        },
    }
}

/// The discontiguous scan: walk candidate end positions downward, requiring
/// strictly increasing combining classes over the reached-over marks, and
/// probe the multis table at each; report the hit, if any, as `spec_scan`
/// finds it.
fn discont_scan(tables: &Tables, char_vals: &Vec<u32>, input_length: usize, left: usize, cldr:
    bool) -> (r: (bool, usize, bool))
    requires
        left < input_length,
        input_length == char_vals@.len(),
    ensures
        ({
            let s = char_vals@.skip(left as int);
            let scan = spec_scan(
                *tables,
                s,
                spec_scan_start(s.len() as int),
                spec_scan_try_two(s.len() as int, cldr),
            );
            &&& r.0 == scan.0
            &&& r.0 ==> (scan.1 == r.1 - left && scan.2 == r.2 && left < r.1 < input_length)
        }),
{
    let ghost s = char_vals@.skip(left as int);
    proof {
        assert(forall|k: int| 0 <= k < s.len() ==> s[k] == char_vals@[left + k]);
        assert(s.len() == char_vals@.len() - left);
    }
    let left_val = char_vals[left];
    let right = left + 1;
    let mut max_right: usize = if input_length - right >= 3 {
        right + 2
    } else if input_length - right == 2 {
        right + 1
    } else {
        right
    };
    let mut try_two: bool = (max_right - right == 2) && cldr;
    let mut hit = false;
    let mut hit_mr: usize = 0;
    let mut hit_t2 = false;
    proof {
        assert(max_right - left == spec_scan_start(s.len() as int));
        assert(try_two == spec_scan_try_two(s.len() as int, cldr));
    }
    let ghost mr0 = (max_right - left) as int;
    let ghost t20 = try_two;
    while !hit && max_right > right
        invariant
            right == left + 1,
            left < input_length,
            input_length == char_vals@.len(),
            s == char_vals@.skip(left as int),
            left_val == s[0],
            right <= max_right,
            max_right > right ==> max_right < input_length,
            hit ==> (spec_scan(*tables, s, mr0, t20) == (true, (hit_mr - left) as int, hit_t2)
                && left < hit_mr < input_length),
            !hit ==> spec_scan(*tables, s, (max_right - left) as int, try_two) == spec_scan(
                *tables,
                s,
                mr0,
                t20,
            ),
        decreases (max_right - right) as int + (if try_two {
            1int
        } else {
            0int
        }) + (if hit {
            0int
        } else {
            1int
        }),
    {
        let ghost mr_rel = (max_right - left) as int;
        proof {
            assert(char_vals@.subrange(right as int, max_right + 1) =~= s.subrange(1, mr_rel + 1));
        }
        if !ccc_sequence_ok(char_vals, right, max_right + 1) {
            try_two = false;
            max_right = max_right - 1;
            continue;
        }
        let key_vec = if try_two {
            vec![left_val, char_vals[max_right - 1], char_vals[max_right]]
        } else {
            vec![left_val, char_vals[max_right]]
        };
        let key = pack_code_points(&key_vec);
        proof {
            if try_two {
                assert(key_vec@ =~= seq![s[0], s[mr_rel - 1], s[mr_rel]]);
            } else {
                assert(key_vec@ =~= seq![s[0], s[mr_rel]]);
            }
        }
        match tables.multi_get(key) {
            Some(_) => {
                hit = true;
                hit_mr = max_right;
                hit_t2 = try_two;
            },
            None => {
                if try_two {
                    try_two = false;
                } else {
                    max_right = max_right - 1;
                }
            },
        }
    }
    (hit, hit_mr, hit_t2)
}

/// Build the collation element array of `char_vals[offset..]` into `cea`:
/// the weights that `spec_cea` gives, terminated by the sentinel value.
/// Discontiguous matches delete the code points they consume from
/// `char_vals`; nothing else touches it, so the final buffer arises by
/// deleting combining marks alone, and a buffer whose code points all have
/// combining class 0 comes back unchanged.
pub fn generate_cea(
    tables: &Tables,
    cea: &mut Vec<u32>,
    char_vals: &mut Vec<u32>,
    shifting: bool,
    cldr: bool,
    offset: usize,
)
    requires
        tables.wf(),
        offset <= old(char_vals)@.len(),
        all_code_points(old(char_vals)@),
        old(char_vals)@.len() <= MAX_CEA_INPUT_LEN,
    ensures
        ({
            let w = spec_cea(*tables, cldr, shifting, old(char_vals)@.skip(offset as int), false);
            &&& final(cea)@.len() >= w.len() + 1
            &&& final(cea)@.subrange(0, w.len() as int + 1) == w + seq![u32::MAX]
        }),
        final(cea)@.len() >= old(cea)@.len(),
        spec_subsequence_of(final(char_vals)@, old(char_vals)@),
        spec_deletes_only_marks(final(char_vals)@, old(char_vals)@),
        (forall|k: int|
            0 <= k < old(char_vals)@.len() ==> crate::unicode::spec_ccc(
                #[trigger] old(char_vals)@[k],
            ) == 0) ==> final(char_vals)@ == old(char_vals)@,
{
    proof {
        lemma_marks_refl(char_vals@);
    }
    let ghost s0 = old(char_vals)@.skip(offset as int);
    let ghost w_full = spec_cea(*tables, cldr, shifting, s0, false);
    let mut input_length: usize = char_vals.len();
    let mut left: usize = offset;
    let mut cea_idx: usize = 0;
    let mut last_variable: bool = false;
    proof {
        assert(cea@.subrange(0, 0int) =~= Seq::<u32>::empty());
        assert(Seq::<u32>::empty() + w_full =~= w_full);
    }
    while left < input_length
        invariant
            tables.wf(),
            offset <= left <= input_length,
            input_length == char_vals@.len(),
            old(char_vals)@.len() <= MAX_CEA_INPUT_LEN,
            all_code_points(char_vals@),
            cea_idx <= cea@.len(),
            cea@.len() >= old(cea)@.len(),
            cea_idx <= 18 * ((old(char_vals)@.len() - offset) - (char_vals@.len() - left)),
            char_vals@.len() <= old(char_vals)@.len(),
            spec_deletes_only_marks(char_vals@, old(char_vals)@),
            char_vals@.len() - left <= old(char_vals)@.len() - offset,
            cea@.subrange(0, cea_idx as int) + spec_cea(
                *tables,
                cldr,
                shifting,
                char_vals@.skip(left as int),
                last_variable,
            ) == w_full,
        decreases char_vals@.len() - left,
    {
        let ghost done_pre = cea@.subrange(0, cea_idx as int);
        let ghost idx_pre = cea_idx;
        let ghost s_pre = char_vals@.skip(left as int);
        let ghost lv_pre = last_variable;
        proof {
            vstd::arithmetic::div_mod::lemma_fundamental_div_mod(usize::MAX as int - 20, 18);
            vstd::arithmetic::div_mod::lemma_mod_bound(usize::MAX as int - 20, 18);
            assert(cea_idx + 20 <= usize::MAX);
            assert(char_vals@.len() + 3 <= usize::MAX);
        }
        grow_vec(cea, cea_idx);
        proof {
            assert(cea@.subrange(0, cea_idx as int) =~= done_pre);
        }
        let ghost chars_pre = char_vals@;
        cea_step(
            tables,
            cea,
            &mut cea_idx,
            char_vals,
            &mut input_length,
            &mut left,
            &mut last_variable,
            shifting,
            cldr,
        );
        proof {
            lemma_marks_trans(char_vals@, chars_pre, old(char_vals)@);
            assert(cea@.subrange(0, idx_pre as int) == done_pre);
            lemma_step_concat(
                cea@,
                done_pre,
                idx_pre as int,
                cea_idx as int,
                spec_cea(*tables, cldr, shifting, char_vals@.skip(left as int), last_variable),
            );
        }
    }
    proof {
        assert(char_vals@.skip(left as int) =~= Seq::<u32>::empty());
        lemma_cea_empty(*tables, cldr, shifting, last_variable);
        assert(cea@.subrange(0, cea_idx as int) + Seq::<u32>::empty() =~= cea@.subrange(
            0,
            cea_idx as int,
        ));
        vstd::arithmetic::div_mod::lemma_fundamental_div_mod(usize::MAX as int - 20, 18);
        vstd::arithmetic::div_mod::lemma_mod_bound(usize::MAX as int - 20, 18);
        assert(cea_idx + 20 <= usize::MAX);
    }
    grow_vec(cea, cea_idx);
    let ghost before_sentinel = cea@;
    cea[cea_idx] = u32::MAX;
    proof {
        lemma_marks_subseq(char_vals@, old(char_vals)@);
        if forall|k: int|
            0 <= k < old(char_vals)@.len() ==> crate::unicode::spec_ccc(
                #[trigger] old(char_vals)@[k],
            ) == 0 {
            lemma_marks_unchanged(char_vals@, old(char_vals)@);
        }
        assert(cea@.subrange(0, cea_idx as int) =~= before_sentinel.subrange(0, cea_idx as int));
        assert(cea@.subrange(0, cea_idx + 1) =~= w_full + seq![u32::MAX]);
    }
}

/// Splicing one step's emitted weights: what stands in the array up to the
/// new index is the old prefix plus the new row, so the remaining
/// specification concatenates past it.
proof fn lemma_step_concat(
    cea: Seq<u32>,
    done_pre: Seq<u32>,
    idx_pre: int,
    idx_post: int,
    rest: Seq<u32>,
)
    requires
        0 <= idx_pre <= idx_post <= cea.len(),
        cea.subrange(0, idx_pre) == done_pre,
    ensures
        cea.subrange(0, idx_post) + rest == done_pre + (cea.subrange(idx_pre, idx_post) + rest),
{
    assert(cea.subrange(0, idx_post) =~= done_pre + cea.subrange(idx_pre, idx_post));
    assert((done_pre + cea.subrange(idx_pre, idx_post)) + rest =~= done_pre + (cea.subrange(
        idx_pre,
        idx_post,
    ) + rest));
}

} // verus!
