//! The dynamic weight tables: decompositions, FCD values, single- and
//! multi-code-point weight rows, and the set of code points that are unsafe
//! at a trimmed prefix boundary. The logic of the library is verified for
//! any well-formed contents of these tables.

use vstd::prelude::*;
use std::collections::HashMap;
use std::collections::HashSet;

verus! {

broadcast use vstd::std_specs::hash::group_hash_axioms;

/// The longest weight row a table may hold (U+FDFA expands to 18 collation
/// elements, more than any other code point).
pub const MAX_ROW_LEN: usize = 18;

/// A weight row is well formed when it is nonempty, no longer than
/// `MAX_ROW_LEN`, and free of the sentinel value `u32::MAX` that terminates
/// a collation element array.
pub open spec fn valid_weight_row(row: Seq<u32>) -> bool {
    &&& 1 <= row.len() <= MAX_ROW_LEN
    &&& forall|i: int| 0 <= i < row.len() ==> row[i] != u32::MAX
}

/// A decomposition row is well formed when it is nonempty, no longer than
/// `MAX_ROW_LEN`, and holds code points only.
pub open spec fn valid_decomp_row(row: Seq<u32>) -> bool {
    &&& 1 <= row.len() <= MAX_ROW_LEN
    &&& forall|i: int| 0 <= i < row.len() ==> row[i] <= crate::consts::MAX_CODE_POINT
}

/// The dynamic part of a weight table set: a canonical decomposition map, an
/// FCD map (first and last combining class of a decomposition, packed into a
/// `u16`), weight rows for single code points, weight rows for contractions
/// of two or three code points (keyed by the packed key that
/// `pack_code_points` builds), and the set of code points that are variable
/// or primary-ignorable.
pub struct Tables {
    decomp: HashMap<u32, Vec<u32>>,
    fcd: HashMap<u32, u16>,
    singles: HashMap<u32, Vec<u32>>,
    multis: HashMap<u64, Vec<u32>>,
    variable: HashSet<u32>,
}

impl Tables {
    /// The decomposition map, as a mathematical map to sequences.
    pub closed spec fn decomp_map(self) -> Map<u32, Seq<u32>> {
        self.decomp@.map_values(|v: Vec<u32>| v@)
    }

    /// The FCD map.
    pub closed spec fn fcd_map(self) -> Map<u32, u16> {
        self.fcd@
    }

    /// The singles table, as a mathematical map to weight rows.
    pub closed spec fn singles_map(self) -> Map<u32, Seq<u32>> {
        self.singles@.map_values(|v: Vec<u32>| v@)
    }

    /// The multis table, keyed by packed code point sequences.
    pub closed spec fn multis_map(self) -> Map<u64, Seq<u32>> {
        self.multis@.map_values(|v: Vec<u32>| v@)
    }

    /// The set of code points that are variable or primary-ignorable.
    pub closed spec fn variable_set(self) -> Set<u32> {
        self.variable@
    }

    /// Well-formedness: every weight row is nonempty, bounded, and free of
    /// the sentinel; every decomposition is nonempty and bounded.
    pub open spec fn wf(self) -> bool {
        &&& forall|c: u32| self.decomp_map().contains_key(c) ==> valid_decomp_row(
            #[trigger] self.decomp_map()[c],
        )
        &&& forall|c: u32| self.singles_map().contains_key(c) ==> valid_weight_row(
            #[trigger] self.singles_map()[c],
        )
        &&& forall|k: u64| self.multis_map().contains_key(k) ==> valid_weight_row(
            #[trigger] self.multis_map()[k],
        )
    }

    /// An empty table set.
    pub fn new() -> (t: Tables)
        ensures
            t.wf(),
            t.decomp_map() == Map::<u32, Seq<u32>>::empty(),
            t.fcd_map() == Map::<u32, u16>::empty(),
            t.singles_map() == Map::<u32, Seq<u32>>::empty(),
            t.multis_map() == Map::<u64, Seq<u32>>::empty(),
            t.variable_set() == Set::<u32>::empty(),
    {
        let t = Tables {
            decomp: HashMap::new(),
            fcd: HashMap::new(),
            singles: HashMap::new(),
            multis: HashMap::new(),
            variable: HashSet::new(),
        };
        proof {
            assert(t.decomp_map() =~= Map::<u32, Seq<u32>>::empty());
            assert(t.singles_map() =~= Map::<u32, Seq<u32>>::empty());
            assert(t.multis_map() =~= Map::<u64, Seq<u32>>::empty());
        }
        t
    }

    /// Record the canonical decomposition of a code point.
    pub fn set_decomposition(&mut self, c: u32, row: Vec<u32>)
        requires
            old(self).wf(),
            valid_decomp_row(row@),
        ensures
            final(self).wf(),
            final(self).decomp_map() == old(self).decomp_map().insert(c, row@),
            final(self).fcd_map() == old(self).fcd_map(),
            final(self).singles_map() == old(self).singles_map(),
            final(self).multis_map() == old(self).multis_map(),
            final(self).variable_set() == old(self).variable_set(),
    {
        let ghost pre = *self;
        self.decomp.insert(c, row);
        proof {
            assert(self.decomp_map() =~= pre.decomp_map().insert(c, row@));
            assert(self.fcd_map() == pre.fcd_map());
            assert(self.singles_map() == pre.singles_map());
            assert(self.multis_map() == pre.multis_map());
            assert(pre.wf());
            assert(self.wf());
        }
    }

    /// Record the first and last combining classes of a code point's
    /// decomposition, packed as `first << 8 | last`.
    pub fn set_fcd(&mut self, c: u32, v: u16)
        requires
            old(self).wf(),
        ensures
            final(self).wf(),
            final(self).fcd_map() == old(self).fcd_map().insert(c, v),
            final(self).decomp_map() == old(self).decomp_map(),
            final(self).singles_map() == old(self).singles_map(),
            final(self).multis_map() == old(self).multis_map(),
            final(self).variable_set() == old(self).variable_set(),
    {
        let ghost pre = *self;
        self.fcd.insert(c, v);
        proof {
            assert(self.decomp_map() == pre.decomp_map());
            assert(self.singles_map() == pre.singles_map());
            assert(self.multis_map() == pre.multis_map());
            assert(pre.wf());
            assert(self.wf());
        }
    }

    /// Record the weight row of a single code point.
    pub fn set_single(&mut self, c: u32, row: Vec<u32>)
        requires
            old(self).wf(),
            valid_weight_row(row@),
        ensures
            final(self).wf(),
            final(self).singles_map() == old(self).singles_map().insert(c, row@),
            final(self).decomp_map() == old(self).decomp_map(),
            final(self).fcd_map() == old(self).fcd_map(),
            final(self).multis_map() == old(self).multis_map(),
            final(self).variable_set() == old(self).variable_set(),
    {
        let ghost pre = *self;
        self.singles.insert(c, row);
        proof {
            assert(self.singles_map() =~= pre.singles_map().insert(c, row@));
            assert(self.decomp_map() == pre.decomp_map());
            assert(self.fcd_map() == pre.fcd_map());
            assert(self.multis_map() == pre.multis_map());
            assert(pre.wf());
            assert(self.wf());
        }
    }

    /// Record the weight row of a contraction, keyed by its packed key.
    pub fn set_multi(&mut self, key: u64, row: Vec<u32>)
        requires
            old(self).wf(),
            valid_weight_row(row@),
        ensures
            final(self).wf(),
            final(self).multis_map() == old(self).multis_map().insert(key, row@),
            final(self).decomp_map() == old(self).decomp_map(),
            final(self).fcd_map() == old(self).fcd_map(),
            final(self).singles_map() == old(self).singles_map(),
            final(self).variable_set() == old(self).variable_set(),
    {
        let ghost pre = *self;
        self.multis.insert(key, row);
        proof {
            assert(self.multis_map() =~= pre.multis_map().insert(key, row@));
            assert(self.decomp_map() == pre.decomp_map());
            assert(self.fcd_map() == pre.fcd_map());
            assert(self.singles_map() == pre.singles_map());
            assert(pre.wf());
            assert(self.wf());
        }
    }

    /// Mark a code point as variable or primary-ignorable.
    pub fn set_variable(&mut self, c: u32)
        requires
            old(self).wf(),
        ensures
            final(self).wf(),
            final(self).variable_set() == old(self).variable_set().insert(c),
            final(self).decomp_map() == old(self).decomp_map(),
            final(self).fcd_map() == old(self).fcd_map(),
            final(self).singles_map() == old(self).singles_map(),
            final(self).multis_map() == old(self).multis_map(),
    {
        let ghost pre = *self;
        self.variable.insert(c);
        proof {
            assert(self.decomp == pre.decomp);
            assert(self.decomp_map() == pre.decomp_map());
            assert(self.singles_map() == pre.singles_map());
            assert(self.multis_map() == pre.multis_map());
            assert(pre.wf());
            assert(self.wf());
        }
    }

    /// Look up a canonical decomposition.
    pub fn decomp_get(&self, c: u32) -> (r: Option<&Vec<u32>>)
        ensures
            match r {
                Some(row) => self.decomp_map().contains_key(c) && row@ == self.decomp_map()[c],
                None => !self.decomp_map().contains_key(c),
            },
    {
        self.decomp.get(&c)
    }

    /// Look up an FCD entry.
    pub fn fcd_get(&self, c: u32) -> (r: Option<u16>)
        ensures
            match r {
                Some(v) => self.fcd_map().contains_key(c) && v == self.fcd_map()[c],
                None => !self.fcd_map().contains_key(c),
            },
    {
        match self.fcd.get(&c) {
            Some(v) => Some(*v),
            None => None,
        }
    }

    /// Look up the weight row of a single code point.
    pub fn single_get(&self, c: u32) -> (r: Option<&Vec<u32>>)
        ensures
            match r {
                Some(row) => self.singles_map().contains_key(c) && row@ == self.singles_map()[c],
                None => !self.singles_map().contains_key(c),
            },
    {
        self.singles.get(&c)
    }

    /// Look up the weight row of a contraction by its packed key.
    pub fn multi_get(&self, key: u64) -> (r: Option<&Vec<u32>>)
        ensures
            match r {
                Some(row) => self.multis_map().contains_key(key) && row@ == self.multis_map()[key],
                None => !self.multis_map().contains_key(key),
            },
    {
        self.multis.get(&key)
    }

    /// Whether a code point is variable or primary-ignorable.
    pub fn is_variable(&self, c: u32) -> (r: bool)
        ensures
            r == self.variable_set().contains(c),
    {
        self.variable.contains(&c)
    }
}

/// Whether a list of code points contains the given one.
pub fn in_list(list: &[u32], c: u32) -> (r: bool)
    ensures
        r == list@.contains(c),
{
    let mut i: usize = 0;
    while i < list.len()
        invariant
            0 <= i <= list@.len(),
            forall|j: int| 0 <= j < i ==> list@[j] != c,
        decreases list@.len() - i,
    {
        if list[i] == c {
            return true;
        }
        i = i + 1;
    }
    false
}

} // verus!
