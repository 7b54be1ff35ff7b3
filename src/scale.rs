use vstd::prelude::*;

verus! {

/// The compression quality, which selects the resampling filter and thereby the speed.
#[derive(Copy, Clone, Debug, PartialEq, Eq, Structural)]
pub enum Quality {
    Fastest,
    Best,
}

/// The resampling filter handed to the image resizer.
#[derive(Copy, Clone, Debug, PartialEq, Eq, Structural)]
pub enum Filter {
    Nearest,
    Gaussian,
}

/// How the output size is derived from the input size.
///
/// `Ratio(n, d)` scales both sides by the factor `n / d`; `Dimension(w, h)`
/// asks for exactly `w` by `h` pixels, whatever the input's aspect ratio.
#[derive(Copy, Clone, Debug, PartialEq, Eq, Structural)]
pub enum Scale {
    Ratio(u32, u32),
    Dimension(u32, u32),
}

impl Scale {
    /// A ratio is positive: a nonzero numerator over a nonzero denominator.
    pub open spec fn wf(self) -> bool {
        match self {
            Scale::Ratio(n, d) => n > 0 && d > 0,
            Scale::Dimension(_, _) => true,
        }
    }
}

/// The filter that a quality selects.
pub open spec fn filter_of(q: Quality) -> Filter {
    match q {
        Quality::Fastest => Filter::Nearest,
        Quality::Best => Filter::Gaussian,
    }
}

/// `Fastest` resamples with nearest neighbour, `Best` with a Gaussian kernel.
pub fn filter_for(q: Quality) -> (r: Filter)
    ensures
        r == filter_of(q),
{
    match q {
        Quality::Fastest => Filter::Nearest,
        Quality::Best => Filter::Gaussian,
    }
}

/// `floor(side * n / d)`, held at `u32::MAX` where it would not fit.
pub open spec fn scaled_side(side: u32, n: u32, d: u32) -> u32
    recommends
        d > 0,
{
    let v = side as int * n as int / d as int;
    if v > u32::MAX {
        u32::MAX
    } else {
        v as u32
    }
}

/// The output size for an input of `w` by `h` pixels.
pub open spec fn dims_for(scale: Scale, w: u32, h: u32) -> (u32, u32)
    recommends
        scale.wf(),
{
    match scale {
        Scale::Ratio(n, d) => (scaled_side(w, n, d), scaled_side(h, n, d)),
        Scale::Dimension(x, y) => (x, y),
    }
}

fn scale_side(side: u32, n: u32, d: u32) -> (r: u32)
    requires
        d > 0,
    ensures
        r == scaled_side(side, n, d),
{
    let s = side as u64;
    let m = n as u64;
    assert(s * m <= u32::MAX as int * u32::MAX as int) by (nonlinear_arith)
        requires
            s <= u32::MAX,
            m <= u32::MAX,
    ;
    let v: u64 = s * m / (d as u64);
    if v > u32::MAX as u64 {
        u32::MAX
    } else {
        v as u32
    }
}

/// The output size for an input of `w` by `h` pixels: a ratio truncates each
/// scaled side towards zero, a fixed dimension is taken as it stands.
pub fn target_dimensions(scale: Scale, w: u32, h: u32) -> (r: (u32, u32))
    requires
        scale.wf(),
    ensures
        r == dims_for(scale, w, h),
{
    match scale {
        Scale::Ratio(n, d) => (scale_side(w, n, d), scale_side(h, n, d)),
        Scale::Dimension(x, y) => (x, y),
    }
}

/// A positive ratio `n / d` gives each side as `floor(side * n / d)`, where
/// that fits in a `u32`; with `n <= d` it always fits.
pub proof fn lemma_ratio_truncates(n: u32, d: u32, w: u32, h: u32)
    requires
        n > 0,
        d > 0,
        (w as int * n as int / d as int) <= u32::MAX || n <= d,
        (h as int * n as int / d as int) <= u32::MAX || n <= d,
    ensures
        dims_for(Scale::Ratio(n, d), w, h).0 == w as int * n as int / d as int,
        dims_for(Scale::Ratio(n, d), w, h).1 == h as int * n as int / d as int,
{
    if n <= d {
        lemma_shrinks(w, n, d);
        lemma_shrinks(h, n, d);
    }
}

proof fn lemma_shrinks(side: u32, n: u32, d: u32)
    requires
        0 < n <= d,
    ensures
        side as int * n as int / d as int <= side,
{
    let s = side as int;
    assert(s * (n as int) <= s * (d as int)) by (nonlinear_arith)
        requires
            0 <= s,
            n <= d,
    ;
    assert(s * (n as int) / (d as int) <= s * (d as int) / (d as int)) by (nonlinear_arith)
        requires
            s * (n as int) <= s * (d as int),
            d > 0,
    ;
    assert(s * (d as int) / (d as int) == s) by (nonlinear_arith)
        requires
            d > 0,
    ;
}

/// A fixed dimension is the output size whatever the input size.
pub proof fn lemma_dimension_is_exact(x: u32, y: u32, w: u32, h: u32)
    ensures
        dims_for(Scale::Dimension(x, y), w, h) == (x, y),
{
}

} // verus!
