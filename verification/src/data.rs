//! The built-in dataset. It covers the low code points in full, and beyond
//! them a reduced set of entries built from canonical decompositions and the
//! relative weight order of the code points it ships; anything else falls
//! back to implicit weights. Full weight tables may be supplied through
//! `Collator::with_tables`. The spec functions here pin exactly what the
//! builders put into each table.

use vstd::prelude::*;
use crate::cea::spec_low_of;
use crate::consts::{LOW, LOW_CLDR};
use crate::tables::Tables;
use crate::types::{Locale, Tailoring};
use crate::weights::{primary, spec_primary, spec_variability, variability};

verus! {

/// Whether a low code point's table entry is variable or primary-ignorable,
/// so that it is unsafe at a trimmed prefix boundary.
pub open spec fn spec_low_unsafe(cldr: bool, c: u32) -> bool {
    spec_variability(spec_low_of(cldr, c)) || spec_primary(spec_low_of(cldr, c)) == 0
}

/// The variable set the dataset ships: every low code point whose entry is
/// variable or primary-ignorable, and the combining marks.
pub open spec fn spec_base_variable(cldr: bool) -> Set<u32> {
    Set::new(
        |c: u32|
            (c < 0xB7 && spec_low_unsafe(cldr, c)) || c == 0x300 || c == 0x301 || c == 0x303 || c == 0x304 || c == 0x308 || c == 0x30C || c == 0x654,
    )
}

/// The decomposition map the dataset ships.
pub open spec fn spec_base_decomp() -> Map<u32, Seq<u32>> {
    Map::<u32, Seq<u32>>::empty().insert(
            0xE9,
            seq![0x65u32, 0x301u32],
        ).insert(
            0xE8,
            seq![0x65u32, 0x300u32],
        ).insert(
            0xEF,
            seq![0x69u32, 0x308u32],
        ).insert(
            0x101,
            seq![0x61u32, 0x304u32],
        ).insert(
            0x10D,
            seq![0x63u32, 0x30Cu32],
        ).insert(
            0x161,
            seq![0x73u32, 0x30Cu32],
        ).insert(
            0xC9,
            seq![0x45u32, 0x301u32],
        ).insert(
            0xF1,
            seq![0x6Eu32, 0x303u32],
        ).insert(
            0xD1,
            seq![0x4Eu32, 0x303u32],
        ).insert(
            0x623,
            seq![0x627u32, 0x654u32],
        )
}

/// The FCD map the dataset ships: each composed entry's decomposition leads
/// with class 0 and trails with class 230.
pub open spec fn spec_base_fcd() -> Map<u32, u16> {
    Map::<u32, u16>::empty().insert(
            0xE9,
            0x00E6,
        ).insert(
            0xE8,
            0x00E6,
        ).insert(
            0xEF,
            0x00E6,
        ).insert(
            0x101,
            0x00E6,
        ).insert(
            0x10D,
            0x00E6,
        ).insert(
            0x161,
            0x00E6,
        ).insert(
            0xC9,
            0x00E6,
        ).insert(
            0xF1,
            0x00E6,
        ).insert(
            0xD1,
            0x00E6,
        ).insert(
            0x623,
            0x00E6,
        )
}

/// The singles table the dataset ships, in DUCET or CLDR order.
pub open spec fn spec_base_singles(cldr: bool) -> Map<u32, Seq<u32>> {
    Map::<u32, Seq<u32>>::empty().insert(
            0x300,
            seq![0x00000425u32],
        ).insert(
            0x301,
            seq![0x00000424u32],
        ).insert(
            0x303,
            seq![0x00000428u32],
        ).insert(
            0x304,
            seq![0x0000042Au32],
        ).insert(
            0x308,
            seq![0x0000042Bu32],
        ).insert(
            0x30C,
            seq![0x00000429u32],
        ).insert(
            0x654,
            seq![0x00000430u32],
        ).insert(
            0x6C,
            seq![(if cldr { 0x28CF0420u32 } else { 0x24CF0420u32 })],
        ).insert(
            0x4C,
            seq![(if cldr { 0x28CF1020u32 } else { 0x24CF1020u32 })],
        ).insert(
            0xE9,
            seq![(if cldr { 0x27E80420u32 } else { 0x23E70420u32 }), 0x00000424u32],
        ).insert(
            0xE8,
            seq![(if cldr { 0x27E80420u32 } else { 0x23E70420u32 }), 0x00000425u32],
        ).insert(
            0xEF,
            seq![(if cldr { 0x28730420u32 } else { 0x24730420u32 }), 0x0000042Bu32],
        ).insert(
            0x101,
            seq![(if cldr { 0x27800420u32 } else { 0x23800420u32 }), 0x0000042Au32],
        ).insert(
            0x10D,
            seq![(if cldr { 0x27B50420u32 } else { 0x23B40420u32 }), 0x00000429u32],
        ).insert(
            0x161,
            seq![(if cldr { 0x29C60420u32 } else { 0x25C60420u32 }), 0x00000429u32],
        ).insert(
            0xC9,
            seq![(if cldr { 0x27E81020u32 } else { 0x23E71020u32 }), 0x00000424u32],
        ).insert(
            0xF1,
            seq![(if cldr { 0x29050420u32 } else { 0x25050420u32 }), 0x00000428u32],
        ).insert(
            0xD1,
            seq![(if cldr { 0x29051020u32 } else { 0x25051020u32 }), 0x00000428u32],
        ).insert(
            0x627,
            seq![(if cldr { 0x2D000420u32 } else { 0x26500420u32 })],
        ).insert(
            0x623,
            seq![(if cldr { 0x2D000420u32 } else { 0x26500420u32 }), 0x00000430u32],
        ).insert(
            0xFDFA,
            if cldr {
                seq![0x2A000420u32, 0x2A010420u32, 0x2A020420u32, 0x2A030420u32, 0x2A040420u32, 0x2A050420u32, 0x2A060420u32, 0x2A070420u32, 0x2A080420u32, 0x2A090420u32, 0x2A0A0420u32, 0x2A0B0420u32, 0x2A0C0420u32, 0x2A0D0420u32, 0x2A0E0420u32, 0x2A0F0420u32, 0x2A100420u32, 0x2A110420u32]
            } else {
                seq![0x26000420u32, 0x26010420u32, 0x26020420u32, 0x26030420u32, 0x26040420u32, 0x26050420u32, 0x26060420u32, 0x26070420u32, 0x26080420u32, 0x26090420u32, 0x260A0420u32, 0x260B0420u32, 0x260C0420u32, 0x260D0420u32, 0x260E0420u32, 0x260F0420u32, 0x26100420u32, 0x26110420u32]
            },
        )
}

/// The singles table for a tailoring: the base in the matching order, with
/// the locale overlay merged over it.
pub open spec fn spec_tailored_singles(tailoring: Tailoring) -> Map<u32, Seq<u32>> {
    match tailoring {
        Tailoring::Ducet => spec_base_singles(false),
        Tailoring::Cldr(Locale::Root) => spec_base_singles(true),
        Tailoring::Cldr(Locale::ArabicScript) => spec_base_singles(true).insert(
            0x6CC,
            seq![0x24000420u32],
        ),
        Tailoring::Cldr(Locale::ArabicInterleaved) => spec_base_singles(true).insert(
            0x627,
            seq![0x27900420u32],
        ).insert(0x623, seq![0x27900420u32, 0x00000430u32]),
    }
}

/// Whether a tailoring selects the CLDR order.
pub open spec fn spec_is_cldr(tailoring: Tailoring) -> bool {
    tailoring != Tailoring::Ducet
}

/// What the built-in dataset holds for a tailoring: every table's exact
/// contents.
pub open spec fn spec_builtin_tables(t: Tables, tailoring: Tailoring) -> bool {
    &&& t.singles_map() == spec_tailored_singles(tailoring)
    &&& t.decomp_map() == spec_base_decomp()
    &&& t.fcd_map() == spec_base_fcd()
    &&& t.multis_map() == Map::<u64, Seq<u32>>::empty()
    &&& t.variable_set() == spec_base_variable(spec_is_cldr(tailoring))
}

/// Build the base dataset, in DUCET or CLDR order: variable and
/// primary-ignorable low code points, the combining marks the dataset
/// ships, contraction-starter letters, composed letters with their
/// canonical decompositions and FCD entries, and the one code point with
/// the longest weight row.
#[verifier::rlimit(100)]
pub fn base_tables(cldr: bool) -> (t: Tables)
    ensures
        t.wf(),
        t.singles_map() == spec_base_singles(cldr),
        t.decomp_map() == spec_base_decomp(),
        t.fcd_map() == spec_base_fcd(),
        t.multis_map() == Map::<u64, Seq<u32>>::empty(),
        t.variable_set() == spec_base_variable(cldr),
{
    let mut t = Tables::new();
    let mut c: usize = 0;
    while c < 183
        invariant
            t.wf(),
            0 <= c <= 183,
            t.decomp_map() == Map::<u32, Seq<u32>>::empty(),
            t.fcd_map() == Map::<u32, u16>::empty(),
            t.singles_map() == Map::<u32, Seq<u32>>::empty(),
            t.multis_map() == Map::<u64, Seq<u32>>::empty(),
            t.variable_set() == Set::new(
                |x: u32| (x as int) < c as int && spec_low_unsafe(cldr, x),
            ),
        decreases 183 - c,
    {
        let ghost pre = t.variable_set();
        let w = if cldr {
            LOW_CLDR[c]
        } else {
            LOW[c]
        };
        if variability(w) || primary(w) == 0 {
            t.set_variable(c as u32);
            proof {
                assert(pre.insert(c as u32) =~= Set::new(
                    |x: u32| (x as int) < c + 1 && spec_low_unsafe(cldr, x),
                ));
            }
        } else {
            proof {
                assert(pre =~= Set::new(
                    |x: u32| (x as int) < c + 1 && spec_low_unsafe(cldr, x),
                ));
            }
        }
        c = c + 1;
    }
    t.set_variable(0x300);
    t.set_variable(0x301);
    t.set_variable(0x303);
    t.set_variable(0x304);
    t.set_variable(0x308);
    t.set_variable(0x30C);
    t.set_variable(0x654);
    proof {
        assert(t.variable_set() =~= spec_base_variable(cldr));
    }
    let row = vec![0x00000425u32];
    proof {
        assert(row@ =~= seq![0x00000425u32]);
    }
    t.set_single(0x300, row);
    let row = vec![0x00000424u32];
    proof {
        assert(row@ =~= seq![0x00000424u32]);
    }
    t.set_single(0x301, row);
    let row = vec![0x00000428u32];
    proof {
        assert(row@ =~= seq![0x00000428u32]);
    }
    t.set_single(0x303, row);
    let row = vec![0x0000042Au32];
    proof {
        assert(row@ =~= seq![0x0000042Au32]);
    }
    t.set_single(0x304, row);
    let row = vec![0x0000042Bu32];
    proof {
        assert(row@ =~= seq![0x0000042Bu32]);
    }
    t.set_single(0x308, row);
    let row = vec![0x00000429u32];
    proof {
        assert(row@ =~= seq![0x00000429u32]);
    }
    t.set_single(0x30C, row);
    let row = vec![0x00000430u32];
    proof {
        assert(row@ =~= seq![0x00000430u32]);
    }
    t.set_single(0x654, row);
    let row = vec![if cldr { 0x28CF0420u32 } else { 0x24CF0420u32 }];
    proof {
        assert(row@ =~= seq![(if cldr { 0x28CF0420u32 } else { 0x24CF0420u32 })]);
    }
    t.set_single(0x6C, row);
    let row = vec![if cldr { 0x28CF1020u32 } else { 0x24CF1020u32 }];
    proof {
        assert(row@ =~= seq![(if cldr { 0x28CF1020u32 } else { 0x24CF1020u32 })]);
    }
    t.set_single(0x4C, row);
    let row = vec![if cldr { 0x27E80420u32 } else { 0x23E70420u32 }, 0x00000424u32];
    proof {
        assert(row@ =~= seq![(if cldr { 0x27E80420u32 } else { 0x23E70420u32 }), 0x00000424u32]);
    }
    t.set_single(0xE9, row);
    let row = vec![0x65u32, 0x301u32];
    proof {
        assert(row@ =~= seq![0x65u32, 0x301u32]);
    }
    t.set_decomposition(0xE9, row);
    t.set_fcd(0xE9, 0x00E6);
    let row = vec![if cldr { 0x27E80420u32 } else { 0x23E70420u32 }, 0x00000425u32];
    proof {
        assert(row@ =~= seq![(if cldr { 0x27E80420u32 } else { 0x23E70420u32 }), 0x00000425u32]);
    }
    t.set_single(0xE8, row);
    let row = vec![0x65u32, 0x300u32];
    proof {
        assert(row@ =~= seq![0x65u32, 0x300u32]);
    }
    t.set_decomposition(0xE8, row);
    t.set_fcd(0xE8, 0x00E6);
    let row = vec![if cldr { 0x28730420u32 } else { 0x24730420u32 }, 0x0000042Bu32];
    proof {
        assert(row@ =~= seq![(if cldr { 0x28730420u32 } else { 0x24730420u32 }), 0x0000042Bu32]);
    }
    t.set_single(0xEF, row);
    let row = vec![0x69u32, 0x308u32];
    proof {
        assert(row@ =~= seq![0x69u32, 0x308u32]);
    }
    t.set_decomposition(0xEF, row);
    t.set_fcd(0xEF, 0x00E6);
    let row = vec![if cldr { 0x27800420u32 } else { 0x23800420u32 }, 0x0000042Au32];
    proof {
        assert(row@ =~= seq![(if cldr { 0x27800420u32 } else { 0x23800420u32 }), 0x0000042Au32]);
    }
    t.set_single(0x101, row);
    let row = vec![0x61u32, 0x304u32];
    proof {
        assert(row@ =~= seq![0x61u32, 0x304u32]);
    }
    t.set_decomposition(0x101, row);
    t.set_fcd(0x101, 0x00E6);
    let row = vec![if cldr { 0x27B50420u32 } else { 0x23B40420u32 }, 0x00000429u32];
    proof {
        assert(row@ =~= seq![(if cldr { 0x27B50420u32 } else { 0x23B40420u32 }), 0x00000429u32]);
    }
    t.set_single(0x10D, row);
    let row = vec![0x63u32, 0x30Cu32];
    proof {
        assert(row@ =~= seq![0x63u32, 0x30Cu32]);
    }
    t.set_decomposition(0x10D, row);
    t.set_fcd(0x10D, 0x00E6);
    let row = vec![if cldr { 0x29C60420u32 } else { 0x25C60420u32 }, 0x00000429u32];
    proof {
        assert(row@ =~= seq![(if cldr { 0x29C60420u32 } else { 0x25C60420u32 }), 0x00000429u32]);
    }
    t.set_single(0x161, row);
    let row = vec![0x73u32, 0x30Cu32];
    proof {
        assert(row@ =~= seq![0x73u32, 0x30Cu32]);
    }
    t.set_decomposition(0x161, row);
    t.set_fcd(0x161, 0x00E6);
    let row = vec![if cldr { 0x27E81020u32 } else { 0x23E71020u32 }, 0x00000424u32];
    proof {
        assert(row@ =~= seq![(if cldr { 0x27E81020u32 } else { 0x23E71020u32 }), 0x00000424u32]);
    }
    t.set_single(0xC9, row);
    let row = vec![0x45u32, 0x301u32];
    proof {
        assert(row@ =~= seq![0x45u32, 0x301u32]);
    }
    t.set_decomposition(0xC9, row);
    t.set_fcd(0xC9, 0x00E6);
    let row = vec![if cldr { 0x29050420u32 } else { 0x25050420u32 }, 0x00000428u32];
    proof {
        assert(row@ =~= seq![(if cldr { 0x29050420u32 } else { 0x25050420u32 }), 0x00000428u32]);
    }
    t.set_single(0xF1, row);
    let row = vec![0x6Eu32, 0x303u32];
    proof {
        assert(row@ =~= seq![0x6Eu32, 0x303u32]);
    }
    t.set_decomposition(0xF1, row);
    t.set_fcd(0xF1, 0x00E6);
    let row = vec![if cldr { 0x29051020u32 } else { 0x25051020u32 }, 0x00000428u32];
    proof {
        assert(row@ =~= seq![(if cldr { 0x29051020u32 } else { 0x25051020u32 }), 0x00000428u32]);
    }
    t.set_single(0xD1, row);
    let row = vec![0x4Eu32, 0x303u32];
    proof {
        assert(row@ =~= seq![0x4Eu32, 0x303u32]);
    }
    t.set_decomposition(0xD1, row);
    t.set_fcd(0xD1, 0x00E6);
    let row = vec![if cldr { 0x2D000420u32 } else { 0x26500420u32 }];
    proof {
        assert(row@ =~= seq![(if cldr { 0x2D000420u32 } else { 0x26500420u32 })]);
    }
    t.set_single(0x627, row);
    let row = vec![if cldr { 0x2D000420u32 } else { 0x26500420u32 }, 0x00000430u32];
    proof {
        assert(row@ =~= seq![(if cldr { 0x2D000420u32 } else { 0x26500420u32 }), 0x00000430u32]);
    }
    t.set_single(0x623, row);
    let row = vec![0x627u32, 0x654u32];
    proof {
        assert(row@ =~= seq![0x627u32, 0x654u32]);
    }
    t.set_decomposition(0x623, row);
    t.set_fcd(0x623, 0x00E6);
    if cldr {
        let row = vec![0x2A000420u32, 0x2A010420u32, 0x2A020420u32, 0x2A030420u32, 0x2A040420u32, 0x2A050420u32, 0x2A060420u32, 0x2A070420u32, 0x2A080420u32, 0x2A090420u32, 0x2A0A0420u32, 0x2A0B0420u32, 0x2A0C0420u32, 0x2A0D0420u32, 0x2A0E0420u32, 0x2A0F0420u32, 0x2A100420u32, 0x2A110420u32];
        proof {
            assert(row@ =~= seq![0x2A000420u32, 0x2A010420u32, 0x2A020420u32, 0x2A030420u32, 0x2A040420u32, 0x2A050420u32, 0x2A060420u32, 0x2A070420u32, 0x2A080420u32, 0x2A090420u32, 0x2A0A0420u32, 0x2A0B0420u32, 0x2A0C0420u32, 0x2A0D0420u32, 0x2A0E0420u32, 0x2A0F0420u32, 0x2A100420u32, 0x2A110420u32]);
        }
        t.set_single(0xFDFA, row);
    } else {
        let row = vec![0x26000420u32, 0x26010420u32, 0x26020420u32, 0x26030420u32, 0x26040420u32, 0x26050420u32, 0x26060420u32, 0x26070420u32, 0x26080420u32, 0x26090420u32, 0x260A0420u32, 0x260B0420u32, 0x260C0420u32, 0x260D0420u32, 0x260E0420u32, 0x260F0420u32, 0x26100420u32, 0x26110420u32];
        proof {
            assert(row@ =~= seq![0x26000420u32, 0x26010420u32, 0x26020420u32, 0x26030420u32, 0x26040420u32, 0x26050420u32, 0x26060420u32, 0x26070420u32, 0x26080420u32, 0x26090420u32, 0x260A0420u32, 0x260B0420u32, 0x260C0420u32, 0x260D0420u32, 0x260E0420u32, 0x260F0420u32, 0x26100420u32, 0x26110420u32]);
        }
        t.set_single(0xFDFA, row);
    }
    proof {
        assert(t.singles_map() =~= spec_base_singles(cldr));
        assert(t.decomp_map() =~= spec_base_decomp());
        assert(t.fcd_map() =~= spec_base_fcd());
    }
    t
}

/// Build the dataset for a tailoring: the DUCET base, the CLDR base, or the
/// CLDR base with a locale's overlay merged over it.
pub fn tailored_tables(tailoring: Tailoring) -> (t: Tables)
    ensures
        t.wf(),
        spec_builtin_tables(t, tailoring),
{
    match tailoring {
        Tailoring::Ducet => base_tables(false),
        Tailoring::Cldr(Locale::Root) => base_tables(true),
        Tailoring::Cldr(Locale::ArabicScript) => {
            let mut t = base_tables(true);
            let row = vec![0x24000420u32];
            proof {
                assert(row@ =~= seq![0x24000420u32]);
            }
            t.set_single(0x6CC, row);
            t
        },
        Tailoring::Cldr(Locale::ArabicInterleaved) => {
            let mut t = base_tables(true);
            let row = vec![0x27900420u32];
            proof {
                assert(row@ =~= seq![0x27900420u32]);
            }
            t.set_single(0x627, row);
            let row2 = vec![0x27900420u32, 0x00000430u32];
            proof {
                assert(row2@ =~= seq![0x27900420u32, 0x00000430u32]);
            }
            t.set_single(0x623, row2);
            t
        },
    }
}

} // verus!
