//! The first-primary fast path: when the leading code points of the two
//! buffers differ, start no contraction, and both carry nonzero primary
//! weights, their primaries decide the comparison outright.

use vstd::prelude::*;
use core::cmp::Ordering;
use crate::consts::{LOW, LOW_CLDR, MAX_CODE_POINT, NEED_THREE, NEED_TWO};
use crate::cea_utils::{implicit_a, spec_implicit_a};
use crate::tables::{Tables, in_list};
use crate::weights::{primary, variability, spec_primary, spec_variability};

verus! {

/// The low weight table in the chosen order.
pub open spec fn spec_low_table(cldr: bool) -> Seq<u32> {
    if cldr {
        LOW_CLDR@
    } else {
        LOW@
    }
}

/// Whether a pair of leading code points lets the fast path act at all:
/// they differ and neither can start a contraction.
pub open spec fn spec_safe_chars(a: u32, b: u32) -> bool {
    &&& a != b
    &&& !NEED_TWO@.contains(a)
    &&& !NEED_TWO@.contains(b)
    &&& !NEED_THREE@.contains(a)
    &&& !NEED_THREE@.contains(b)
}

/// The first primary weight of a code point: from the low table when the
/// code point is low (and no contraction starter), else from the singles
/// table, else the implicit-weight formula; 0 when shifting is on and the
/// weight found is variable.
pub open spec fn spec_get_first_primary(t: Tables, cldr: bool, shifting: bool, val: u32) -> u16 {
    if val < 0xB7 && val != 0x6C && val != 0x4C {
        let w = spec_low_table(cldr)[val as int];
        if shifting && spec_variability(w) {
            0u16
        } else {
            spec_primary(w)
        }
    } else if t.singles_map().contains_key(val) {
        let w = t.singles_map()[val][0];
        if shifting && spec_variability(w) {
            0u16
        } else {
            spec_primary(w)
        }
    } else {
        spec_primary(spec_implicit_a(val))
    }
}

/// What the fast path decides for a pair of leading code points: nothing
/// unless the pair is safe and both primaries are nonzero and different.
pub open spec fn spec_try_initial(t: Tables, cldr: bool, shifting: bool, a0: u32, b0: u32)
    -> Option<Ordering> {
    if !spec_safe_chars(a0, b0) {
        None
    } else {
        let ap = spec_get_first_primary(t, cldr, shifting, a0);
        if ap == 0 {
            None
        } else {
            let bp = spec_get_first_primary(t, cldr, shifting, b0);
            if bp == 0 || bp == ap {
                None
            } else if ap < bp {
                Some(Ordering::Less)
            } else {
                Some(Ordering::Greater)
            }
        }
    }
}

/// Whether a pair of leading code points is safe for the fast path.
pub fn safe_chars(a: u32, b: u32) -> (r: bool)
    ensures
        r == spec_safe_chars(a, b),
{
    a != b && !in_list(&NEED_TWO, a) && !in_list(&NEED_TWO, b) && !in_list(&NEED_THREE, a)
        && !in_list(&NEED_THREE, b)
}

/// Find the first primary weight of a code point under the given options.
pub fn get_first_primary(val: u32, tables: &Tables, cldr: bool, shifting: bool) -> (r: u16)
    requires
        tables.wf(),
        val <= MAX_CODE_POINT,
    ensures
        r == spec_get_first_primary(*tables, cldr, shifting, val),
{
    if val < 0xB7 && val != 0x6C && val != 0x4C {
        let weights = if cldr {
            LOW_CLDR[val as usize]
        } else {
            LOW[val as usize]
        };
        if shifting && variability(weights) {
            return 0;
        }
        return primary(weights);
    }
    match tables.single_get(val) {
        Some(row) => {
            let w = row[0];
            if shifting && variability(w) {
                0
            } else {
                primary(w)
            }
        },
        None => {
            let first_weights = implicit_a(val);
            primary(first_weights)
        },
    }
}

/// Try to decide the comparison from the first code points of the two
/// buffers alone.
pub fn try_initial(
    tables: &Tables,
    cldr: bool,
    shifting: bool,
    a_chars: &Vec<u32>,
    b_chars: &Vec<u32>,
    offset: usize,
) -> (r: Option<Ordering>)
    requires
        tables.wf(),
        offset < a_chars@.len(),
        offset < b_chars@.len(),
        a_chars@[offset as int] <= MAX_CODE_POINT,
        b_chars@[offset as int] <= MAX_CODE_POINT,
    ensures
        r == spec_try_initial(
            *tables,
            cldr,
            shifting,
            a_chars@[offset as int],
            b_chars@[offset as int],
        ),
{
    let a_first = a_chars[offset];
    let b_first = b_chars[offset];
    if !safe_chars(a_first, b_first) {
        return None;
    }
    let a_first_primary = get_first_primary(a_first, tables, cldr, shifting);
    if a_first_primary == 0 {
        return None;
    }
    let b_first_primary = get_first_primary(b_first, tables, cldr, shifting);
    if b_first_primary == 0 || b_first_primary == a_first_primary {
        return None;
    }
    if a_first_primary < b_first_primary {
        Some(Ordering::Less)
    } else {
        Some(Ordering::Greater)
    }
}

} // verus!
