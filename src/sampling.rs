use vstd::prelude::*;

verus! {

/// `s` is the integer square root of `n`.
pub open spec fn is_isqrt(n: int, s: int) -> bool {
    0 <= s && s * s <= n && n < (s + 1) * (s + 1)
}

/// Side of the stratified sample grid for a sample budget: the integer square
/// root of `samples_per_pixel`.
pub fn sqrt_samples(samples_per_pixel: u32) -> (r: u32)
    ensures
        is_isqrt(samples_per_pixel as int, r as int),
{
    let n: u64 = samples_per_pixel as u64;
    let mut r: u64 = 0;
    loop
        invariant
            r * r <= n,
            n <= u32::MAX,
            r < 65536,
        ensures
            r * r <= n < (r + 1) * (r + 1),
            r < 65536,
        decreases 65536 - r,
    {
        let next: u64 = r + 1;
        assert(next * next <= 65536 * 65536) by (nonlinear_arith)
            requires next <= 65536;
        if next * next > n {
            break;
        }
        assert(next < 65536) by (nonlinear_arith)
            requires next * next <= n, n <= u32::MAX;
        r = next;
    }
    r as u32
}

/// Number of primary rays traced per pixel: one per cell of the
/// `sqrt_samples × sqrt_samples` stratified grid.
pub fn samples_taken(samples_per_pixel: u32) -> (r: u32)
    ensures
        exists|s: int| is_isqrt(samples_per_pixel as int, s) && r == s * s,
{
    let s = sqrt_samples(samples_per_pixel);
    proof {
        assert(s as int * s as int <= u32::MAX);
    }
    s * s
}

/// Image height from the width divided by the aspect ratio (`quotient`), which
/// is never allowed below one row.
pub fn image_height_from(quotient: u32) -> (r: u32)
    ensures
        r == if quotient > 1 { quotient } else { 1 },
{
    if quotient > 1 {
        quotient
    } else {
        1
    }
}

} // verus!
