//! Balloon classes and the manufacturer's ascent coefficients that the
//! ascent model is calibrated with.
use vstd::prelude::*;

use crate::tawhiri::supported_balloon_class;

verus! {

/// The manufacturer's ascent-rate coefficient of each known balloon class
/// (grams); the model's `k` is this value divided by 23.6.
pub open spec fn coefficient_of(balloon_class_g: u32) -> Option<u32> {
    if balloon_class_g == 1000 {
        Some(132)
    } else if balloon_class_g == 1500 {
        Some(138)
    } else if balloon_class_g == 2000 {
        Some(148)
    } else if balloon_class_g == 3000 {
        Some(158)
    } else {
        None
    }
}

/// The manufacturer's ascent coefficient of a balloon class, if it is known.
pub fn manufacturer_coefficient(balloon_class_g: u32) -> (r: Option<u32>)
    ensures
        r == coefficient_of(balloon_class_g),
{
    match balloon_class_g {
        1000 => Some(132),
        1500 => Some(138),
        2000 => Some(148),
        3000 => Some(158),
        _ => None,
    }
}

/// The classes that requests accept are exactly those the ascent model has
/// a coefficient for.
pub proof fn accepted_classes_have_coefficients(balloon_class_g: u32)
    ensures
        coefficient_of(balloon_class_g) is Some <==> supported_balloon_class(balloon_class_g),
{
}

/// The manufacturer's coefficients of the four classes: 132, 138, 148 and
/// 158 for 1000, 1500, 2000 and 3000 g; a larger balloon has a larger
/// coefficient.
pub proof fn coefficients_grow_with_class(smaller: u32, larger: u32)
    ensures
        coefficient_of(1000) == Some(132u32),
        coefficient_of(1500) == Some(138u32),
        coefficient_of(2000) == Some(148u32),
        coefficient_of(3000) == Some(158u32),
        smaller < larger && coefficient_of(smaller) is Some && coefficient_of(larger) is Some
            ==> coefficient_of(smaller)->Some_0 < coefficient_of(larger)->Some_0,
{
}

} // verus!
