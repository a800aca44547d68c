//! The choice of weight table and locale tailoring.

use vstd::prelude::*;

verus! {

/// Which locale to use with the CLDR table of character weights. `Root` is
/// the CLDR root collation order in its unmodified form.
#[derive(Debug, PartialEq, Eq, PartialOrd, Ord, Clone, Copy, Hash, Structural)]
pub enum Locale {
    /// A tailoring in which the Arabic script sorts before the Latin script
    ArabicScript,
    /// A tailoring in which Arabic-script characters are interleaved with
    /// Latin-script characters, so that alif sorts between A and B
    ArabicInterleaved,
    /// The CLDR root collation order
    Root,
}

impl Default for Locale {
    /// The default locale is `Root`.
    fn default() -> (r: Self)
        ensures
            r == Locale::Root,
    {
        Locale::Root
    }
}

/// Which collation tailoring (table of character weights) to use. With the
/// CLDR table there is a further choice of locale.
#[derive(Debug, PartialEq, Eq, PartialOrd, Ord, Clone, Copy, Hash, Structural)]
pub enum Tailoring {
    /// The table associated with the CLDR root collation order, and locale
    /// tailorings based thereon (recommended)
    Cldr(Locale),
    /// The default table for the Unicode Collation Algorithm
    Ducet,
}

impl Default for Tailoring {
    /// The default tailoring is the CLDR root collation order.
    fn default() -> (r: Self)
        ensures
            r == Tailoring::Cldr(Locale::Root),
    {
        Tailoring::Cldr(Locale::Root)
    }
}

} // verus!
