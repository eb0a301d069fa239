//! Quantity tiers: the percentage a cart line earns from its quantity.

use vstd::prelude::*;

verus! {

/// The standard schedule: 200 units or more earn 20 percent, 50 or more earn
/// 15 percent, 10 or more earn 10 percent, and anything less earns nothing.
pub open spec fn standard_percent(quantity: int) -> int {
    if quantity >= 200 {
        20
    } else if quantity >= 50 {
        15
    } else if quantity >= 10 {
        10
    } else {
        0
    }
}

/// The reduced schedule: 100 units or more earn 15 percent, 50 or more earn
/// 10 percent, 20 or more earn 5 percent, and anything less earns nothing.
pub open spec fn reduced_percent(quantity: int) -> int {
    if quantity >= 100 {
        15
    } else if quantity >= 50 {
        10
    } else if quantity >= 20 {
        5
    } else {
        0
    }
}

/// Looks a quantity up in the standard schedule. Zero means no discount.
pub fn standard_tier(quantity: i64) -> (percent: u32)
    ensures
        percent == standard_percent(quantity as int),
        quantity <= 9 ==> percent == 0,
        10 <= quantity <= 49 ==> percent == 10,
        50 <= quantity <= 199 ==> percent == 15,
        200 <= quantity ==> percent == 20,
{
    if quantity >= 200 {
        20
    } else if quantity >= 50 {
        15
    } else if quantity >= 10 {
        10
    } else {
        0
    }
}

/// Looks a quantity up in the reduced schedule. Zero means no discount.
pub fn reduced_tier(quantity: i64) -> (percent: u32)
    ensures
        percent == reduced_percent(quantity as int),
        quantity <= 19 ==> percent == 0,
        20 <= quantity <= 49 ==> percent == 5,
        50 <= quantity <= 99 ==> percent == 10,
        100 <= quantity ==> percent == 15,
{
    if quantity >= 100 {
        15
    } else if quantity >= 50 {
        10
    } else if quantity >= 20 {
        5
    } else {
        0
    }
}

/// Every quantity falls in exactly one band of the standard schedule, and the
/// band fixes the percentage; a threshold itself belongs to the band above it.
pub proof fn lemma_standard_bands(quantity: int)
    ensures
        quantity <= 9 ==> standard_percent(quantity) == 0,
        10 <= quantity <= 49 ==> standard_percent(quantity) == 10,
        50 <= quantity <= 199 ==> standard_percent(quantity) == 15,
        200 <= quantity ==> standard_percent(quantity) == 20,
{
}

/// Every quantity falls in exactly one band of the reduced schedule, and the
/// band fixes the percentage; a threshold itself belongs to the band above it.
pub proof fn lemma_reduced_bands(quantity: int)
    ensures
        quantity <= 19 ==> reduced_percent(quantity) == 0,
        20 <= quantity <= 49 ==> reduced_percent(quantity) == 5,
        50 <= quantity <= 99 ==> reduced_percent(quantity) == 10,
        100 <= quantity ==> reduced_percent(quantity) == 15,
{
}

/// A larger quantity never earns a smaller percentage, in either schedule.
pub proof fn lemma_tiers_monotonic(smaller: int, larger: int)
    requires
        smaller <= larger,
    ensures
        standard_percent(smaller) <= standard_percent(larger),
        reduced_percent(smaller) <= reduced_percent(larger),
{
}

} // verus!
