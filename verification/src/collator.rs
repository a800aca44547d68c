//! The `Collator`: the configuration and scratch state behind `collate`.

use vstd::prelude::*;
use core::cmp::Ordering;
use crate::ascii::{all_alphanumeric, cmp_usize, fill_and_check, lemma_fill_antisym,
    lemma_fill_characterize, lemma_fill_none_equal, lemma_lex_int_equal_iff,
    lemma_lex_int_trans, spec_ascii_alphanumeric, spec_case_seq, spec_fill_and_check,
    spec_folded_seq, spec_lex_int, spec_ord_int};
use crate::cea::{generate_cea, spec_cea, MAX_CEA_INPUT_LEN};
use crate::data::{spec_builtin_tables, tailored_tables};
use crate::first_weight::{try_initial, spec_try_initial};
use crate::normalize::{all_code_points, lemma_fcd_all_low, lemma_nfd_low_prefix, make_nfd,
    spec_fcd, spec_make_nfd};
use crate::prefix::{find_prefix, spec_find_prefix};
use crate::sort_key::{compare_incremental, lemma_compare_buffers,
    lemma_compare_incremental_reflexive, spec_compare_incremental, spec_reverse};
use crate::tables::Tables;
use crate::types::{Locale, Tailoring};
use crate::unicode::{decode_code_points, utf8_decode};

verus! {

/// The CLDR table set a collator built with the given tailoring carries:
/// the tailoring's own locale for a CLDR tailoring, and the root locale
/// beside a DUCET one (so that the tailoring option may be flipped later).
pub open spec fn spec_cldr_choice(tailoring: Tailoring) -> Tailoring {
    match tailoring {
        Tailoring::Ducet => Tailoring::Cldr(Locale::Root),
        Tailoring::Cldr(locale) => Tailoring::Cldr(locale),
    }
}

/// The entry point of the library. It holds the options used in collation
/// (the weight table, the handling of variable-weight characters, and
/// whether to break ties by byte order), the weight tables themselves, and
/// scratch buffers reused across calls.
pub struct Collator {
    /// The table of weights to be used: DUCET, or CLDR with a choice of
    /// locale
    pub tailoring: Tailoring,
    /// The approach to variable-weight characters: "non-ignorable"
    /// (`false`) or "shifted" (`true`)
    pub shifting: bool,
    /// Whether to break ties by byte order when two strings produce equal
    /// sort keys
    pub tiebreak: bool,
    ducet_tables: Tables,
    cldr_tables: Tables,
    a_chars: Vec<u32>,
    b_chars: Vec<u32>,
    a_cea: Vec<u32>,
    b_cea: Vec<u32>,
}

impl Collator {
    /// The DUCET table set the collator carries.
    pub closed spec fn spec_ducet_tables(self) -> Tables {
        self.ducet_tables
    }

    /// The CLDR table set the collator carries.
    pub closed spec fn spec_cldr_tables(self) -> Tables {
        self.cldr_tables
    }

    /// The tailoring option, as specifications read it.
    pub closed spec fn spec_tailoring(self) -> Tailoring {
        self.tailoring
    }

    /// The shifting option, as specifications read it.
    pub closed spec fn spec_shifting(self) -> bool {
        self.shifting
    }

    /// The tiebreak option, as specifications read it.
    pub closed spec fn spec_tiebreak(self) -> bool {
        self.tiebreak
    }

    /// The table set that the current tailoring selects.
    pub open spec fn spec_tables(self) -> Tables {
        if self.spec_tailoring() == Tailoring::Ducet {
            self.spec_ducet_tables()
        } else {
            self.spec_cldr_tables()
        }
    }

    /// Whether the current tailoring is CLDR-based.
    pub open spec fn spec_cldr(self) -> bool {
        self.spec_tailoring() != Tailoring::Ducet
    }

    /// A collator is well formed when both of its table sets are.
    pub open spec fn wf(self) -> bool {
        &&& self.spec_ducet_tables().wf()
        &&& self.spec_cldr_tables().wf()
    }

    /// Create a collator with the given options, carrying the reduced
    /// built-in dataset (the CLDR set honours the tailoring's locale
    /// overlay); supply full weight tables through `with_tables`.
    pub fn new(tailoring: Tailoring, shifting: bool, tiebreak: bool) -> (c: Collator)
        ensures
            c.wf(),
            c.spec_tailoring() == tailoring,
            c.spec_shifting() == shifting,
            c.spec_tiebreak() == tiebreak,
            spec_builtin_tables(c.spec_ducet_tables(), Tailoring::Ducet),
            spec_builtin_tables(c.spec_cldr_tables(), spec_cldr_choice(tailoring)),
    {
        let cldr_tables = match tailoring {
            Tailoring::Ducet => tailored_tables(Tailoring::Cldr(Locale::Root)),
            Tailoring::Cldr(locale) => tailored_tables(Tailoring::Cldr(locale)),
        };
        Collator {
            tailoring,
            shifting,
            tiebreak,
            ducet_tables: tailored_tables(Tailoring::Ducet),
            cldr_tables,
            a_chars: Vec::new(),
            b_chars: Vec::new(),
            a_cea: vec_of_zeros(64),
            b_cea: vec_of_zeros(64),
        }
    }

    /// Create a collator that carries the given table sets instead of the
    /// built-in dataset.
    pub fn with_tables(
        tailoring: Tailoring,
        shifting: bool,
        tiebreak: bool,
        ducet_tables: Tables,
        cldr_tables: Tables,
    ) -> (c: Collator)
        requires
            ducet_tables.wf(),
            cldr_tables.wf(),
        ensures
            c.wf(),
            c.spec_tailoring() == tailoring,
            c.spec_shifting() == shifting,
            c.spec_tiebreak() == tiebreak,
            c.spec_ducet_tables() == ducet_tables,
            c.spec_cldr_tables() == cldr_tables,
    {
        Collator {
            tailoring,
            shifting,
            tiebreak,
            ducet_tables,
            cldr_tables,
            a_chars: Vec::new(),
            b_chars: Vec::new(),
            a_cea: vec_of_zeros(64),
            b_cea: vec_of_zeros(64),
        }
    }
}

impl Default for Collator {
    /// The default collator: the CLDR root order, shifted variable weights,
    /// and byte-order tiebreaking.
    fn default() -> (c: Collator)
        ensures
            c.wf(),
            c.spec_tailoring() == Tailoring::Cldr(Locale::Root),
            c.spec_shifting() == true,
            c.spec_tiebreak() == true,
            spec_builtin_tables(c.spec_ducet_tables(), Tailoring::Ducet),
            spec_builtin_tables(c.spec_cldr_tables(), Tailoring::Cldr(Locale::Root)),
    {
        Collator::new(Tailoring::Cldr(Locale::Root), true, true)
    }
}

/// A vector of the given number of zeros.
fn vec_of_zeros(n: usize) -> (r: Vec<u32>)
    ensures
        r@.len() == n,
        forall|i: int| 0 <= i < n ==> r@[i] == 0,
{
    let mut r: Vec<u32> = Vec::new();
    let mut i: usize = 0;
    while i < n
        invariant
            0 <= i <= n,
            r@.len() == i,
            forall|j: int| 0 <= j < i ==> r@[j] == 0,
        decreases n - i,
    {
        r.push(0);
        i = i + 1;
    }
    r
}

/// The longest byte string `collate` accepts: normalization may expand each
/// code point to a full weight row's worth of code points, and the result
/// must stay within what the collation element array builder takes.
pub const MAX_INPUT_BYTES: usize = MAX_CEA_INPUT_LEN / 18;

/// Byte-wise lexicographic order.
pub open spec fn spec_ord_bytes(a: Seq<u8>, b: Seq<u8>) -> Ordering
    decreases a.len(),
{
    if a.len() == 0 && b.len() == 0 {
        Ordering::Equal
    } else if a.len() == 0 {
        Ordering::Less
    } else if b.len() == 0 {
        Ordering::Greater
    } else if a[0] < b[0] {
        Ordering::Less
    } else if a[0] > b[0] {
        Ordering::Greater
    } else {
        spec_ord_bytes(a.drop_first(), b.drop_first())
    }
}

/// Whether two byte strings are equal.
pub fn bytes_equal(a: &[u8], b: &[u8]) -> (r: bool)
    ensures
        r == (a@ == b@),
{
    if a.len() != b.len() {
        proof {
            assert(a@.len() != b@.len());
        }
        return false;
    }
    let mut i: usize = 0;
    while i < a.len()
        invariant
            0 <= i <= a@.len(),
            a@.len() == a.len(),
            b@.len() == b.len(),
            a@.len() == b@.len(),
            forall|j: int| 0 <= j < i ==> a@[j] == b@[j],
        decreases a@.len() - i,
    {
        if a[i] != b[i] {
            return false;
        }
        i = i + 1;
    }
    proof {
        assert(a@ =~= b@);
    }
    true
}

/// Compare two byte strings lexicographically.
pub fn bytes_cmp(a: &[u8], b: &[u8]) -> (r: Ordering)
    ensures
        r == spec_ord_bytes(a@, b@),
{
    proof {
        assert(a@.skip(0int) =~= a@);
        assert(b@.skip(0int) =~= b@);
    }
    let mut i: usize = 0;
    while i < a.len() && i < b.len()
        invariant
            0 <= i <= a@.len(),
            0 <= i <= b@.len(),
            a@.len() == a.len(),
            b@.len() == b.len(),
            spec_ord_bytes(a@, b@) == spec_ord_bytes(a@.skip(i as int), b@.skip(i as int)),
        decreases a@.len() - i,
    {
        proof {
            assert(a@.skip(i as int)[0] == a@[i as int]);
            assert(b@.skip(i as int)[0] == b@[i as int]);
            assert(a@.skip(i as int).drop_first() =~= a@.skip(i + 1));
            assert(b@.skip(i as int).drop_first() =~= b@.skip(i + 1));
        }
        if a[i] < b[i] {
            return Ordering::Less;
        }
        if a[i] > b[i] {
            return Ordering::Greater;
        }
        i = i + 1;
    }
    proof {
        if i == a@.len() {
            assert(a@.skip(i as int) =~= Seq::<u8>::empty());
        }
        if i == b@.len() {
            assert(b@.skip(i as int) =~= Seq::<u8>::empty());
        }
    }
    if a.len() < b.len() {
        Ordering::Less
    } else if a.len() > b.len() {
        Ordering::Greater
    } else {
        Ordering::Equal
    }
}

/// What `collate` returns, stage by stage: byte-equal strings are Equal;
/// the ASCII fast path may decide; both sides are normalized and a safe
/// shared prefix dropped; if one side is exhausted the longer wins; the
/// first-primary fast path may decide; otherwise the collation element
/// arrays are compared level by level, with byte order as the optional
/// tiebreak.
pub open spec fn spec_collate(
    t: Tables,
    cldr: bool,
    shifting: bool,
    tiebreak: bool,
    a: Seq<u8>,
    b: Seq<u8>,
) -> Ordering {
    if a == b {
        Ordering::Equal
    } else {
        let ca = utf8_decode(a);
        let cb = utf8_decode(b);
        match spec_fill_and_check(ca, cb, 0, None::<Ordering>) {
            Some(o) => o,
            None => {
                let na = spec_make_nfd(t, ca);
                let nb = spec_make_nfd(t, cb);
                let offset = spec_find_prefix(t, na, nb, shifting);
                if offset == na.len() || offset == nb.len() {
                    spec_ord_int(na.len() as int, nb.len() as int)
                } else {
                    match spec_try_initial(t, cldr, shifting, na[offset], nb[offset]) {
                        Some(o) => o,
                        None => {
                            let wa = spec_cea(t, cldr, shifting, na.skip(offset), false);
                            let wb = spec_cea(t, cldr, shifting, nb.skip(offset), false);
                            let comparison = spec_compare_incremental(
                                wa + seq![u32::MAX],
                                wb + seq![u32::MAX],
                                shifting,
                            );
                            if comparison == Ordering::Equal && tiebreak {
                                spec_ord_bytes(a, b)
                            } else {
                                comparison
                            }
                        },
                    }
                }
            },
        }
    }
}

impl Collator {
    /// Compare two byte strings, interpreted as UTF-8 (ill-formed sequences
    /// read as U+FFFD), under the collator's options.
    pub fn collate(&mut self, a: &[u8], b: &[u8]) -> (r: Ordering)
        requires
            old(self).wf(),
            a@.len() <= MAX_INPUT_BYTES,
            b@.len() <= MAX_INPUT_BYTES,
        ensures
            r == spec_collate(
                old(self).spec_tables(),
                old(self).spec_cldr(),
                old(self).spec_shifting(),
                old(self).spec_tiebreak(),
                a@,
                b@,
            ),
            a@ == b@ ==> r == Ordering::Equal,
            all_alphanumeric_bytes(a@) && all_alphanumeric_bytes(b@) ==> r == spec_reverse(
                spec_collate(
                    old(self).spec_tables(),
                    old(self).spec_cldr(),
                    old(self).spec_shifting(),
                    old(self).spec_tiebreak(),
                    b@,
                    a@,
                ),
            ),
            final(self).wf(),
            final(self).spec_tailoring() == old(self).spec_tailoring(),
            final(self).spec_shifting() == old(self).spec_shifting(),
            final(self).spec_tiebreak() == old(self).spec_tiebreak(),
            final(self).spec_ducet_tables() == old(self).spec_ducet_tables(),
            final(self).spec_cldr_tables() == old(self).spec_cldr_tables(),
    {
        if bytes_equal(a, b) {
            return Ordering::Equal;
        }
        self.a_chars = decode_code_points(a);
        self.b_chars = decode_code_points(b);
        proof {
            if all_alphanumeric_bytes(a@) && all_alphanumeric_bytes(b@) {
                assert(forall|i: int| 0 <= i < a@.len() ==> a@[i] < 0x80);
                assert(forall|i: int| 0 <= i < b@.len() ==> b@[i] < 0x80);
                lemma_collate_antisym_alphanumeric(
                    old(self).spec_tables(),
                    old(self).spec_cldr(),
                    old(self).spec_shifting(),
                    old(self).spec_tiebreak(),
                    a@,
                    b@,
                );
            }
        }
        if let Some(o) = fill_and_check(&self.a_chars, &self.b_chars) {
            return o;
        }
        let cldr = self.tailoring != Tailoring::Ducet;
        let shifting = self.shifting;
        let tables = if cldr {
            &self.cldr_tables
        } else {
            &self.ducet_tables
        };
        proof {
            vstd::arithmetic::div_mod::lemma_fundamental_div_mod(
                MAX_CEA_INPUT_LEN as int,
                18,
            );
            vstd::arithmetic::div_mod::lemma_mod_bound(MAX_CEA_INPUT_LEN as int, 18);
            assert(all_code_points(self.a_chars@));
            assert(all_code_points(self.b_chars@));
        }
        make_nfd(tables, &mut self.a_chars);
        make_nfd(tables, &mut self.b_chars);
        let offset = find_prefix(tables, &self.a_chars, &self.b_chars, shifting);
        if offset == self.a_chars.len() || offset == self.b_chars.len() {
            return cmp_usize(self.a_chars.len(), self.b_chars.len());
        }
        if let Some(o) = try_initial(tables, cldr, shifting, &self.a_chars, &self.b_chars, offset) {
            return o;
        }
        let ghost wa = spec_cea(*tables, cldr, shifting, self.a_chars@.skip(offset as int), false);
        let ghost wb = spec_cea(*tables, cldr, shifting, self.b_chars@.skip(offset as int), false);
        generate_cea(tables, &mut self.a_cea, &mut self.a_chars, shifting, cldr, offset);
        generate_cea(tables, &mut self.b_cea, &mut self.b_chars, shifting, cldr, offset);
        let comparison = compare_incremental(&self.a_cea, &self.b_cea, shifting);
        proof {
            lemma_compare_buffers(self.a_cea@, self.b_cea@, wa, wb, shifting);
        }
        if matches!(comparison, Ordering::Equal) && self.tiebreak {
            return bytes_cmp(a, b);
        }
        comparison
    }
}

/// Whether every byte of a string is alphanumeric ASCII.
pub open spec fn all_alphanumeric_bytes(a: Seq<u8>) -> bool {
    forall|i: int| 0 <= i < a.len() ==> spec_ascii_alphanumeric(#[trigger] a[i] as u32)
}

/// On strings of alphanumeric ASCII the whole comparison is antisymmetric:
/// the fast path decides them (reversibly), or they are equal. The decoded
/// forms are taken as hypotheses; the decoder's contract supplies them.
proof fn lemma_collate_antisym_alphanumeric(
    t: Tables,
    cldr: bool,
    shifting: bool,
    tiebreak: bool,
    a: Seq<u8>,
    b: Seq<u8>,
)
    requires
        all_alphanumeric_bytes(a),
        all_alphanumeric_bytes(b),
        utf8_decode(a) == a.map_values(|x: u8| x as u32),
        utf8_decode(b) == b.map_values(|x: u8| x as u32),
    ensures
        spec_collate(t, cldr, shifting, tiebreak, b, a) == spec_reverse(
            spec_collate(t, cldr, shifting, tiebreak, a, b),
        ),
{
    if a == b {
    } else {
        let ca = utf8_decode(a);
        let cb = utf8_decode(b);
        assert(all_alphanumeric(ca));
        assert(all_alphanumeric(cb));
        lemma_fill_antisym(ca, cb, 0, None::<Ordering>, None::<Ordering>);
        match spec_fill_and_check(ca, cb, 0, None::<Ordering>) {
            Some(o) => {},
            None => {
                assert(ca.take(0int) =~= cb.take(0int));
                lemma_fill_none_equal(ca, cb, 0);
                // the decoded buffers are equal, so everything past the fast
                // path is symmetric, down to the byte-order tiebreak
                let na = spec_make_nfd(t, ca);
                let offset = spec_find_prefix(t, na, na, shifting);
                if offset == na.len() {
                } else {
                    let wa = spec_cea(t, cldr, shifting, na.skip(offset), false);
                    lemma_compare_incremental_reflexive(wa + seq![u32::MAX], shifting);
                    lemma_ord_bytes_antisym(a, b);
                }
            },
        }
    }
}

/// The verdict of the whole comparison on distinct strings of alphanumeric
/// ASCII: their case-folded readings compared lexicographically, and on a
/// tie their case readings, which then cannot tie as well.
proof fn lemma_collate_alphanumeric_value(
    t: Tables,
    cldr: bool,
    shifting: bool,
    tiebreak: bool,
    a: Seq<u8>,
    b: Seq<u8>,
)
    requires
        all_alphanumeric_bytes(a),
        all_alphanumeric_bytes(b),
        utf8_decode(a) == a.map_values(|x: u8| x as u32),
        utf8_decode(b) == b.map_values(|x: u8| x as u32),
        a != b,
    ensures
        ({
            let lf = spec_lex_int(
                spec_folded_seq(utf8_decode(a)),
                spec_folded_seq(utf8_decode(b)),
            );
            let lc = spec_lex_int(spec_case_seq(utf8_decode(a)), spec_case_seq(utf8_decode(b)));
            &&& spec_collate(t, cldr, shifting, tiebreak, a, b) == (if lf != Ordering::Equal {
                lf
            } else {
                lc
            })
            &&& !(lf == Ordering::Equal && lc == Ordering::Equal)
        }),
{
    let ca = utf8_decode(a);
    let cb = utf8_decode(b);
    assert(all_alphanumeric(ca));
    assert(all_alphanumeric(cb));
    lemma_fill_characterize(ca, cb, 0, None::<Ordering>);
    assert(spec_folded_seq(ca).skip(0int) =~= spec_folded_seq(ca));
    assert(spec_folded_seq(cb).skip(0int) =~= spec_folded_seq(cb));
    assert(spec_case_seq(ca).skip(0int) =~= spec_case_seq(ca));
    assert(spec_case_seq(cb).skip(0int) =~= spec_case_seq(cb));
    if spec_fill_and_check(ca, cb, 0, None::<Ordering>) is None {
        assert(ca.take(0int) =~= cb.take(0int));
        lemma_fill_none_equal(ca, cb, 0);
        assert forall|k: int| 0 <= k < a.len() implies a[k] == b[k] by {
            assert(ca[k] == a[k] as u32);
            assert(cb[k] == b[k] as u32);
        }
        assert(a =~= b);
    }
}

/// On strings of alphanumeric ASCII the whole comparison is transitive. The
/// decoded forms of the three strings are taken as hypotheses in the
/// conclusion; the decoder's contract supplies them at every call.
pub proof fn lemma_collate_transitive_alphanumeric(
    t: Tables,
    cldr: bool,
    shifting: bool,
    tiebreak: bool,
    a: Seq<u8>,
    b: Seq<u8>,
    c: Seq<u8>,
)
    requires
        all_alphanumeric_bytes(a),
        all_alphanumeric_bytes(b),
        all_alphanumeric_bytes(c),
    ensures
        (utf8_decode(a) == a.map_values(|x: u8| x as u32) && utf8_decode(b) == b.map_values(
            |x: u8| x as u32,
        ) && utf8_decode(c) == c.map_values(|x: u8| x as u32)) ==> ((spec_collate(
            t,
            cldr,
            shifting,
            tiebreak,
            a,
            b,
        ) != Ordering::Greater && spec_collate(t, cldr, shifting, tiebreak, b, c)
            != Ordering::Greater) ==> spec_collate(t, cldr, shifting, tiebreak, a, c)
            != Ordering::Greater),
{
    if utf8_decode(a) == a.map_values(|x: u8| x as u32) && utf8_decode(b) == b.map_values(
        |x: u8| x as u32,
    ) && utf8_decode(c) == c.map_values(|x: u8| x as u32) && spec_collate(
        t,
        cldr,
        shifting,
        tiebreak,
        a,
        b,
    ) != Ordering::Greater && spec_collate(t, cldr, shifting, tiebreak, b, c)
        != Ordering::Greater {
        if a == b || b == c || a == c {
            // an equal pair collapses the chain by plain substitution
        } else {
            lemma_collate_alphanumeric_value(t, cldr, shifting, tiebreak, a, b);
            lemma_collate_alphanumeric_value(t, cldr, shifting, tiebreak, b, c);
            lemma_collate_alphanumeric_value(t, cldr, shifting, tiebreak, a, c);
            let fa = spec_folded_seq(utf8_decode(a));
            let fb = spec_folded_seq(utf8_decode(b));
            let fc = spec_folded_seq(utf8_decode(c));
            let ka = spec_case_seq(utf8_decode(a));
            let kb = spec_case_seq(utf8_decode(b));
            let kc = spec_case_seq(utf8_decode(c));
            lemma_lex_int_equal_iff(fa, fb);
            lemma_lex_int_equal_iff(fb, fc);
            lemma_lex_int_equal_iff(fa, fc);
            lemma_lex_int_equal_iff(ka, kb);
            lemma_lex_int_equal_iff(kb, kc);
            if spec_lex_int(fa, fb) == Ordering::Less && spec_lex_int(fb, fc) == Ordering::Less {
                lemma_lex_int_trans(fa, fb, fc);
            } else if spec_lex_int(fa, fb) == Ordering::Equal && spec_lex_int(fb, fc)
                == Ordering::Equal {
                if spec_lex_int(ka, kb) == Ordering::Less && spec_lex_int(kb, kc)
                    == Ordering::Less {
                    lemma_lex_int_trans(ka, kb, kc);
                }
            }
        }
    }
}

/// Comparing any byte string with itself gives Equal, whatever the options.
pub proof fn lemma_collate_reflexive(
    t: Tables,
    cldr: bool,
    shifting: bool,
    tiebreak: bool,
    a: Seq<u8>,
)
    ensures
        spec_collate(t, cldr, shifting, tiebreak, a, a) == Ordering::Equal,
{
}

/// Byte-equal strings compare Equal, whatever the options.
pub proof fn lemma_collate_byte_equal(
    t: Tables,
    cldr: bool,
    shifting: bool,
    tiebreak: bool,
    a: Seq<u8>,
    b: Seq<u8>,
)
    requires
        a == b,
    ensures
        spec_collate(t, cldr, shifting, tiebreak, a, b) == Ordering::Equal,
{
}

/// Byte order calls two strings Equal exactly when they are the same
/// string.
pub proof fn lemma_ord_bytes_equal_iff(a: Seq<u8>, b: Seq<u8>)
    ensures
        (spec_ord_bytes(a, b) == Ordering::Equal) <==> a == b,
    decreases a.len(),
{
    if a.len() == 0 && b.len() == 0 {
        assert(a =~= b);
    } else if a.len() != 0 && b.len() != 0 && a[0] == b[0] {
        lemma_ord_bytes_equal_iff(a.drop_first(), b.drop_first());
        if spec_ord_bytes(a, b) == Ordering::Equal {
            assert(a.drop_first() == b.drop_first());
            assert forall|k: int| 1 <= k < a.len() implies a[k] == b[k] by {
                assert(a.drop_first()[k - 1] == b.drop_first()[k - 1]);
            }
            assert(a =~= b);
        } else {
            if a == b {
                assert(a.drop_first() =~= b.drop_first());
            }
        }
    } else {
        if a == b {
            assert(a.len() == b.len());
            if a.len() != 0 {
                assert(a[0] == b[0]);
            }
        }
    }
}

/// Byte order is antisymmetric.
pub proof fn lemma_ord_bytes_antisym(a: Seq<u8>, b: Seq<u8>)
    ensures
        spec_ord_bytes(b, a) == crate::sort_key::spec_reverse(spec_ord_bytes(a, b)),
    decreases a.len(),
{
    if a.len() != 0 && b.len() != 0 && a[0] == b[0] {
        lemma_ord_bytes_antisym(a.drop_first(), b.drop_first());
    }
}

/// Two buffers that differ at a position inside a leading run of low code
/// points normalize to different buffers: normalization keeps that run in
/// place.
proof fn lemma_nfd_differ_at(t: Tables, ca: Seq<u32>, cb: Seq<u32>, j: int)
    requires
        t.wf(),
        0 <= j < ca.len(),
        j < cb.len(),
        forall|i: int| 0 <= i <= j ==> #[trigger] ca[i] < 0xC0,
        forall|i: int| 0 <= i <= j ==> #[trigger] cb[i] < 0xC0,
        ca[j] != cb[j],
    ensures
        spec_make_nfd(t, ca) != spec_make_nfd(t, cb),
{
    lemma_nfd_low_prefix(t, ca, j + 1);
    lemma_nfd_low_prefix(t, cb, j + 1);
    let na = spec_make_nfd(t, ca);
    let nb = spec_make_nfd(t, cb);
    assert(na.take(j + 1)[j] == na[j]);
    assert(nb.take(j + 1)[j] == nb[j]);
    assert(ca.take(j + 1)[j] == ca[j]);
    assert(cb.take(j + 1)[j] == cb[j]);
    assert(na[j] != nb[j]);
}

/// A buffer of low code points that is a strict prefix, by length, of what
/// another buffer normalizes to cannot share its normalization: low code
/// points normalize to themselves, and normalization never shrinks.
proof fn lemma_nfd_differ_len(t: Tables, ca: Seq<u32>, cb: Seq<u32>)
    requires
        t.wf(),
        ca.len() < cb.len(),
        forall|i: int| 0 <= i < ca.len() ==> #[trigger] ca[i] < 0xC0,
    ensures
        spec_make_nfd(t, ca) != spec_make_nfd(t, cb),
{
    lemma_fcd_all_low(t, ca, 0);
    assert(spec_fcd(t, ca));
    assert(spec_make_nfd(t, ca) == ca);
    lemma_nfd_low_prefix(t, cb, 0);
    assert(spec_make_nfd(t, cb).len() >= cb.len());
}

/// When the ASCII fast path decides, the two buffers normalize to different
/// buffers: every decision reflects a difference that normalization keeps.
proof fn lemma_fill_decides_nfd_differ(
    t: Tables,
    ca: Seq<u32>,
    cb: Seq<u32>,
    i: int,
    backup: Option<Ordering>,
)
    requires
        t.wf(),
        spec_fill_and_check(ca, cb, i, backup) is Some,
        0 <= i <= ca.len(),
        i <= cb.len(),
        forall|j: int| 0 <= j < i ==> spec_ascii_alphanumeric(#[trigger] ca[j]),
        forall|j: int| 0 <= j < i ==> spec_ascii_alphanumeric(#[trigger] cb[j]),
        ((forall|j: int| 0 <= j < i ==> #[trigger] ca[j] == cb[j]) && backup is None)
            || spec_make_nfd(t, ca) != spec_make_nfd(t, cb),
    ensures
        spec_make_nfd(t, ca) != spec_make_nfd(t, cb),
    decreases ca.len() - i,
{
    if spec_make_nfd(t, ca) != spec_make_nfd(t, cb) {
    } else {
        assert(forall|j: int| 0 <= j < i ==> #[trigger] ca[j] == cb[j]);
        assert(backup is None);
        if i >= ca.len() {
            // the walk ended with the buffers exhausted in step: the
            // decision is by length, and the shorter buffer is wholly
            // alphanumeric
            assert(ca.len() != cb.len());
            assert(ca.len() < cb.len());
            lemma_nfd_differ_len(t, ca, cb);
        } else if i >= cb.len() {
            assert(cb.len() < ca.len());
            lemma_nfd_differ_len(t, cb, ca);
        } else if ca[i] == cb[i] {
            lemma_fill_decides_nfd_differ(t, ca, cb, i + 1, backup);
        } else {
            // the code points differ at a position where both are
            // alphanumeric, whether or not folding equates them
            lemma_nfd_differ_at(t, ca, cb, i);
        }
    }
}

/// Two strings that the library normalizes to the same buffer compare Equal
/// when the tiebreak is off: the ASCII fast path cannot separate them, and
/// everything after normalization is determined by the normalized buffers.
pub proof fn lemma_collate_nfd_equal(
    t: Tables,
    cldr: bool,
    shifting: bool,
    a: Seq<u8>,
    b: Seq<u8>,
)
    requires
        t.wf(),
        spec_make_nfd(t, utf8_decode(a)) == spec_make_nfd(t, utf8_decode(b)),
    ensures
        spec_collate(t, cldr, shifting, false, a, b) == Ordering::Equal,
{
    if a == b {
    } else {
        if spec_fill_and_check(utf8_decode(a), utf8_decode(b), 0, None::<Ordering>) is Some {
            lemma_fill_decides_nfd_differ(t, utf8_decode(a), utf8_decode(b), 0, None::<Ordering>);
        }
        let na = spec_make_nfd(t, utf8_decode(a));
        let offset = spec_find_prefix(t, na, na, shifting);
        if offset == na.len() {
        } else {
            let wa = spec_cea(t, cldr, shifting, na.skip(offset), false);
            lemma_compare_incremental_reflexive(wa + seq![u32::MAX], shifting);
        }
    }
}

/// Strings whose decoded code points are the same compare Equal when the
/// tiebreak is off.
pub proof fn lemma_collate_decoded_equal(
    t: Tables,
    cldr: bool,
    shifting: bool,
    a: Seq<u8>,
    b: Seq<u8>,
)
    requires
        t.wf(),
        utf8_decode(a) == utf8_decode(b),
    ensures
        spec_collate(t, cldr, shifting, false, a, b) == Ordering::Equal,
{
    lemma_collate_nfd_equal(t, cldr, shifting, a, b);
}

/// With the tiebreak on, Equal comes back only for byte-equal strings,
/// unless the two strings are distinct spellings that normalize to the same
/// buffer (the hypothesis leaves those out).
pub proof fn lemma_collate_tiebreak_equal(
    t: Tables,
    cldr: bool,
    shifting: bool,
    a: Seq<u8>,
    b: Seq<u8>,
)
    requires
        spec_collate(t, cldr, shifting, true, a, b) == Ordering::Equal,
        spec_make_nfd(t, utf8_decode(a)) == spec_make_nfd(t, utf8_decode(b)) ==> a == b,
    ensures
        a == b,
{
    if a != b {
        let ca = utf8_decode(a);
        let cb = utf8_decode(b);
        crate::ascii::lemma_fill_never_equal(ca, cb, 0, None::<Ordering>);
        match spec_fill_and_check(ca, cb, 0, None::<Ordering>) {
            Some(o) => {},
            None => {
                let na = spec_make_nfd(t, ca);
                let nb = spec_make_nfd(t, cb);
                let offset = spec_find_prefix(t, na, nb, shifting);
                if offset == na.len() || offset == nb.len() {
                    // an Equal verdict here means both buffers were fully
                    // trimmed, so they are equal, which the hypothesis turns
                    // into byte equality
                    crate::prefix::lemma_full_prefix_equal(t, na, nb, shifting);
                } else {
                    match spec_try_initial(t, cldr, shifting, na[offset], nb[offset]) {
                        Some(o) => {},
                        None => {
                            lemma_ord_bytes_equal_iff(a, b);
                        },
                    }
                }
            },
        }
    }
}

} // verus!
