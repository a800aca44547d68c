//! A Unicode Collation Algorithm comparator: it compares two byte strings,
//! interpreted as UTF-8, and returns a total order consistent with the UCA,
//! with optional CLDR locale tailorings, variable-weight shifting, and a
//! byte-order tiebreak.
//!
//! The collation logic is verified for any well-formed weight tables. The
//! tables a collator carries by default are the reduced built-in dataset of
//! the `data` module (the low code points in full, a handful of entries
//! beyond them, and no contractions); everything absent falls back to
//! implicit weights, so default-configuration order for most non-ASCII text
//! is not the full DUCET/CLDR order. Full tables go in through
//! `Collator::with_tables`.

pub mod ascii;
pub mod cea;
pub mod cea_utils;
pub mod collator;
pub mod conformance;
pub mod consts;
pub mod data;
pub mod first_weight;
pub mod normalize;
pub mod prefix;
pub mod sort_key;
pub mod tables;
pub mod types;
pub mod unicode;
pub mod weights;

pub use collator::Collator;
pub use types::{Locale, Tailoring};
pub use tables::Tables;

pub use ascii::fill_and_check;
pub use conformance::parse_conformance_line;
pub use cea::generate_cea;
pub use cea_utils::{implicit_a, implicit_b, pack_code_points, fill_weights};
pub use first_weight::try_initial;
pub use normalize::make_nfd;
pub use prefix::find_prefix;
pub use sort_key::compare_incremental;
pub use weights::{pack_weights, primary, secondary, shift_weights, tertiary, unpack_weights,
    variability};
