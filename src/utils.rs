//! Random integer draws.
use vstd::prelude::*;

verus! {

/// Relies on rand::random, which draws a value from the thread-local
/// generator; nothing is known of the value drawn.
pub assume_specification<T>[ rand::random::<T> ]() -> (r: T)
    where
        rand::distributions::Standard: rand::distributions::Distribution<T>,
;

/// A random `i32`, uniform over the whole type.
pub fn random_i32() -> (r: i32) {
    rand::random::<i32>()
}

/// The integer in `[min, max)` that a 32-bit draw selects: `min` plus the
/// draw modulo the width of the range.
pub fn range_from_draw(min: i32, max: i32, draw: u32) -> (r: i32)
    requires
        min < max,
    ensures
        r == min + (draw as int) % (max - min),
        min <= r < max,
{
    let span: u32 = (max as i64 - min as i64) as u32;
    let offset: u32 = draw % span;
    (min as i64 + offset as i64) as i32
}

/// A random integer in `[min, max)`.
pub fn random_i32_range(min: i32, max: i32) -> (r: i32)
    requires
        min < max,
    ensures
        min <= r < max,
{
    let draw: u32 = rand::random::<u32>();
    range_from_draw(min, max, draw)
}

} // verus!
