//! The integer side of camera setup: the stratified sampling grid.
use vstd::prelude::*;

verus! {

/// A camera setting that no image can be rendered with.
#[derive(Clone, Copy, Debug, PartialEq, Eq, Structural)]
pub enum ConfigError {
    /// Fewer than one sample per pixel.
    NoSamples,
}

/// Side of the square grid of sub-pixel cells, one sample per cell: the
/// largest `n` with `n * n` no more than the samples asked for per pixel.
pub fn sample_grid_side(samples_per_pixel: u32) -> (r: Result<u32, ConfigError>)
    ensures
        samples_per_pixel == 0 <==> r is Err,
        r matches Ok(n) ==> n >= 1 && n * n <= samples_per_pixel < (n + 1) * (n + 1),
        r matches Err(e) ==> e == ConfigError::NoSamples,
{
    if samples_per_pixel == 0 {
        return Err(ConfigError::NoSamples);
    }
    let spp = samples_per_pixel as u64;
    let mut n: u64 = 1;
    loop
        invariant
            1 <= n <= 65536,
            n * n <= spp,
            spp <= u32::MAX,
        ensures
            n * n <= spp < (n + 1) * (n + 1),
            n <= 65536,
        decreases 65536 - n,
    {
        let next = n + 1;
        assert(next * next <= 65537 * 65537) by (nonlinear_arith)
            requires
                next <= 65537,
        ;
        if next * next > spp {
            break;
        }
        assert(next < 65536) by (nonlinear_arith)
            requires
                next * next <= spp,
                spp <= u32::MAX,
        ;
        n = next;
    }
    Ok(n as u32)
}

} // verus!
