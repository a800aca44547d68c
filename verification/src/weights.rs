//! Packed collation weights.
//!
//! One collation element carries four fields: a variable flag (1 bit), a
//! primary weight (16 bits), a secondary weight (9 bits), and a tertiary
//! weight (6 bits). They are packed into one `u32`: the primary in the high
//! 16 bits; the low 16 bits carry `variable << 15 | tertiary << 9 | secondary`.

use vstd::prelude::*;

verus! {

/// The packed form of one collation element.
pub open spec fn spec_pack_weights(variable: bool, primary: u16, secondary: u16, tertiary: u16) -> u32 {
    let v_int: u16 = if variable { 1u16 } else { 0u16 };
    ((primary as u32) << 16) | ((((v_int << 15) | (tertiary << 9)) | secondary) as u32)
}

/// The primary field of a packed element.
pub open spec fn spec_primary(weights: u32) -> u16 {
    (weights >> 16) as u16
}

/// The secondary field of a packed element.
pub open spec fn spec_secondary(weights: u32) -> u16 {
    ((weights & 0xFFFF) & 0x1FF) as u16
}

/// The tertiary field of a packed element.
pub open spec fn spec_tertiary(weights: u32) -> u16 {
    (((weights & 0xFFFF) >> 9) & 0x3F) as u16
}

/// The variable flag of a packed element.
pub open spec fn spec_variability(weights: u32) -> bool {
    weights & 0x8000 != 0
}

/// Pack the four fields of a collation element into one `u32`.
pub fn pack_weights(variable: bool, primary: u16, secondary: u16, tertiary: u16) -> (r: u32)
    ensures
        r == spec_pack_weights(variable, primary, secondary, tertiary),
{
    let upper: u32 = (primary as u32) << 16;
    let v_int: u16 = if variable { 1u16 } else { 0u16 };
    let lower: u16 = (v_int << 15) | (tertiary << 9) | secondary;
    upper | (lower as u32)
}

/// Read the primary weight out of a packed element.
pub fn primary(weights: u32) -> (r: u16)
    ensures
        r == spec_primary(weights),
{
    (weights >> 16) as u16
}

/// Read the secondary weight out of a packed element.
pub fn secondary(weights: u32) -> (r: u16)
    ensures
        r == spec_secondary(weights),
{
    ((weights & 0xFFFF) & 0x1FF) as u16
}

/// Read the tertiary weight out of a packed element.
pub fn tertiary(weights: u32) -> (r: u16)
    ensures
        r == spec_tertiary(weights),
{
    (((weights & 0xFFFF) >> 9) & 0x3F) as u16
}

/// Whether a packed element has its variable flag set.
pub fn variability(weights: u32) -> (r: bool)
    ensures
        r == spec_variability(weights),
{
    weights & 0x8000 != 0
}

/// Unpack a collation element into its four fields:
/// `(variable, primary, secondary, tertiary)`.
pub fn unpack_weights(packed: u32) -> (r: (bool, u16, u16, u16))
    ensures
        r.0 == spec_variability(packed),
        r.1 == spec_primary(packed),
        r.2 == spec_secondary(packed),
        r.3 == spec_tertiary(packed),
{
    let primary: u16 = (packed >> 16) as u16;
    let lower: u16 = (packed & 0xFFFF) as u16;
    let variable: bool = lower >> 15 == 1;
    let secondary: u16 = lower & 0x1FF;
    let tertiary: u16 = (lower >> 9) & 0x3F;
    proof {
        assert(((packed & 0xFFFF) as u16 >> 15 == 1) == (packed & 0x8000 != 0)) by (bit_vector);
        assert(((packed & 0xFFFF) as u16 & 0x1FF) == ((packed & 0xFFFF) & 0x1FF) as u16)
            by (bit_vector);
        assert((((packed & 0xFFFF) as u16 >> 9) & 0x3F) == (((packed & 0xFFFF) >> 9) & 0x3F) as u16)
            by (bit_vector);
    }
    (variable, primary, secondary, tertiary)
}

/// Packing the four fields of a collation element and unpacking the word
/// gives the fields back, whenever the secondary fits in 9 bits and the
/// tertiary in 6 (the ranges the weight tables use).
pub proof fn lemma_pack_unpack_round_trip(variable: bool, primary: u16, secondary: u16, tertiary: u16)
    requires
        secondary < 0x200,
        tertiary < 0x40,
    ensures
        spec_variability(spec_pack_weights(variable, primary, secondary, tertiary)) == variable,
        spec_primary(spec_pack_weights(variable, primary, secondary, tertiary)) == primary,
        spec_secondary(spec_pack_weights(variable, primary, secondary, tertiary)) == secondary,
        spec_tertiary(spec_pack_weights(variable, primary, secondary, tertiary)) == tertiary,
{
    let v_int: u16 = if variable { 1u16 } else { 0u16 };
    let w = spec_pack_weights(variable, primary, secondary, tertiary);
    assert({
        let w2 = ((primary as u32) << 16) | ((((v_int << 15) | (tertiary << 9)) | secondary) as u32);
        secondary < 0x200 && tertiary < 0x40 && (v_int == 0 || v_int == 1) ==> {
            &&& (w2 & 0x8000 != 0) == (v_int == 1)
            &&& (w2 >> 16) as u16 == primary
            &&& ((w2 & 0xFFFF) & 0x1FF) as u16 == secondary
            &&& (((w2 & 0xFFFF) >> 9) & 0x3F) as u16 == tertiary
        }
    }) by (bit_vector);
}

/// Apply the "shifted" transformation to one packed element, tracking in
/// `last_variable` whether the element before was variable. A variable
/// element keeps only its primary (to be read later as a quaternary weight);
/// an ignorable element after a variable one is zeroed; anything else is
/// kept as it stands.
pub open spec fn spec_shift_weights(weights: u32, last_variable: bool) -> (u32, bool) {
    let variable = spec_variability(weights);
    let primary = spec_primary(weights);
    let tertiary = spec_tertiary(weights);
    if variable {
        (spec_pack_weights(true, primary, 0, 0), true)
    } else if primary == 0 && (tertiary == 0 || last_variable) {
        (0u32, last_variable)
    } else {
        (weights, false)
    }
}

/// Shift one packed element, as `spec_shift_weights` says.
pub fn shift_weights(weights: u32, last_variable: &mut bool) -> (r: u32)
    ensures
        (r, *final(last_variable)) == spec_shift_weights(weights, *old(last_variable)),
{
    let (variable, primary, _, tertiary) = unpack_weights(weights);
    if variable {
        *last_variable = true;
        pack_weights(true, primary, 0, 0)
    } else if primary == 0 && (tertiary == 0 || *last_variable) {
        0
    } else {
        *last_variable = false;
        weights
    }
}

} // verus!
