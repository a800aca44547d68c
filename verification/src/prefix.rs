//! Trimming a shared prefix that is safe to drop before building collation
//! element arrays.

use vstd::prelude::*;
use crate::consts::{NEED_THREE, NEED_TWO};
use crate::tables::{Tables, in_list};

verus! {

/// How far the two buffers agree, walking from `i`, on code points that no
/// contraction can start.
pub open spec fn spec_prefix_len_from(a: Seq<u32>, b: Seq<u32>, i: int) -> int
    decreases (if a.len() <= b.len() {
        a.len() as int
    } else {
        b.len() as int
    }) - i,
{
    let m = if a.len() <= b.len() {
        a.len() as int
    } else {
        b.len() as int
    };
    if i < 0 || i >= m {
        i
    } else if a[i] == b[i] && !NEED_TWO@.contains(a[i]) && !NEED_THREE@.contains(a[i]) {
        spec_prefix_len_from(a, b, i + 1)
    } else {
        i
    }
}

/// The raw shared-prefix length, before the variable-weight retraction.
pub open spec fn spec_prefix_len(a: Seq<u32>, b: Seq<u32>) -> int {
    spec_prefix_len_from(a, b, 0)
}

/// The shared prefix that may be dropped: the raw prefix, unless shifting is
/// on and the last code point of the prefix is variable or
/// primary-ignorable, in which case the prefix retracts by one (and is given
/// up altogether when that is unsafe too, or when nothing remains).
pub open spec fn spec_find_prefix(t: Tables, a: Seq<u32>, b: Seq<u32>, shifting: bool) -> int {
    let p = spec_prefix_len(a, b);
    if p > 0 {
        if shifting && t.variable_set().contains(a[p - 1]) {
            if p > 1 {
                if t.variable_set().contains(a[p - 2]) {
                    0
                } else {
                    p - 1
                }
            } else {
                0
            }
        } else {
            p
        }
    } else {
        0
    }
}

/// The raw prefix never reaches past either buffer.
pub proof fn lemma_prefix_len_bounds(a: Seq<u32>, b: Seq<u32>, i: int)
    requires
        0 <= i,
        i <= a.len(),
        i <= b.len(),
    ensures
        i <= spec_prefix_len_from(a, b, i),
        spec_prefix_len_from(a, b, i) <= a.len(),
        spec_prefix_len_from(a, b, i) <= b.len(),
    decreases (if a.len() <= b.len() {
        a.len() as int
    } else {
        b.len() as int
    }) - i,
{
    let m = if a.len() <= b.len() {
        a.len() as int
    } else {
        b.len() as int
    };
    if i < m && a[i] == b[i] && !NEED_TWO@.contains(a[i]) && !NEED_THREE@.contains(a[i]) {
        lemma_prefix_len_bounds(a, b, i + 1);
    }
}

/// Find the length of a shared leading run that is safe to drop from both
/// buffers.
pub fn find_prefix(t: &Tables, a: &Vec<u32>, b: &Vec<u32>, shifting: bool) -> (r: usize)
    ensures
        r == spec_find_prefix(*t, a@, b@, shifting),
        r <= a@.len(),
        r <= b@.len(),
{
    let m: usize = if a.len() <= b.len() {
        a.len()
    } else {
        b.len()
    };
    let mut i: usize = 0;
    while i < m && a[i] == b[i] && !in_list(&NEED_TWO, a[i]) && !in_list(&NEED_THREE, a[i])
        invariant
            0 <= i <= m,
            m <= a@.len(),
            m <= b@.len(),
            m == if a@.len() <= b@.len() {
                a@.len()
            } else {
                b@.len()
            },
            spec_prefix_len(a@, b@) == spec_prefix_len_from(a@, b@, i as int),
        decreases m - i,
    {
        i = i + 1;
    }
    let prefix_len = i;
    proof {
        lemma_prefix_len_bounds(a@, b@, prefix_len as int);
    }
    if prefix_len > 0 {
        if shifting && t.is_variable(a[prefix_len - 1]) {
            if prefix_len > 1 {
                if t.is_variable(a[prefix_len - 2]) {
                    return 0;
                }
                return prefix_len - 1;
            }
            return 0;
        }
        return prefix_len;
    }
    0
}

/// Every position inside the raw shared prefix holds the same code point on
/// both sides.
pub proof fn lemma_prefix_agrees(a: Seq<u32>, b: Seq<u32>, i: int, j: int)
    requires
        0 <= i <= j < spec_prefix_len_from(a, b, i),
        i <= a.len(),
        i <= b.len(),
    ensures
        a[j] == b[j],
    decreases j - i,
{
    lemma_prefix_len_bounds(a, b, i);
    let m = if a.len() <= b.len() {
        a.len() as int
    } else {
        b.len() as int
    };
    if i < m && a[i] == b[i] && !NEED_TWO@.contains(a[i]) && !NEED_THREE@.contains(a[i]) {
        if j > i {
            lemma_prefix_agrees(a, b, i + 1, j);
        }
    }
}

/// When the dropped prefix covers both buffers entirely, they are equal.
pub proof fn lemma_full_prefix_equal(t: Tables, a: Seq<u32>, b: Seq<u32>, shifting: bool)
    requires
        spec_find_prefix(t, a, b, shifting) == a.len(),
        spec_find_prefix(t, a, b, shifting) == b.len(),
    ensures
        a == b,
{
    let p = spec_prefix_len(a, b);
    lemma_prefix_len_bounds(a, b, 0);
    let r = spec_find_prefix(t, a, b, shifting);
    if a.len() == 0 {
        assert(a =~= b);
    } else {
        // the retraction never reaches past the raw prefix, so a full-cover
        // result means the raw prefix covers both buffers
        assert(r <= p);
        assert(p <= a.len() && p <= b.len());
        assert(p == a.len() && p == b.len());
        assert forall|j: int| 0 <= j < a.len() implies a[j] == b[j] by {
            lemma_prefix_agrees(a, b, 0, j);
        }
        assert(a =~= b);
    }
}

} // verus!
