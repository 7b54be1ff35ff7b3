use vstd::prelude::*;
use image::GenericImageView;
use crate::scale::{dims_for, filter_for, filter_of, target_dimensions, Filter, Quality, Scale};

verus! {

#[verifier::external_type_specification]
#[verifier::external_body]
pub struct ExDynamicImage(image::DynamicImage);

/// The width and height of a decoded image.
pub uninterp spec fn image_dims(img: image::DynamicImage) -> (u32, u32);

/// The image that resampling `img` to `w` by `h` pixels with filter `f` gives.
pub uninterp spec fn resampled(img: image::DynamicImage, w: u32, h: u32, f: Filter) -> image::DynamicImage;

/// Whether the resampler can turn an image of size `src` into one of size
/// `dst` without a panic: the source has pixels to sample, and the
/// intermediate (`src.0` by `dst.1`) and final (`dst.0` by `dst.1`) buffers,
/// at up to four channels per pixel, have a length that fits in `usize`,
/// counting as the buffer does: channels times width first, then times height.
pub open spec fn resizable(src: (u32, u32), dst: (u32, u32)) -> bool {
    &&& src.0 > 0
    &&& src.1 > 0
    &&& 4 * (src.0 as int) <= usize::MAX
    &&& 4 * (dst.0 as int) <= usize::MAX
    &&& 4 * ((src.0 as int) * (dst.1 as int)) <= usize::MAX
    &&& 4 * ((dst.0 as int) * (dst.1 as int)) <= usize::MAX
}

/// Relies on `GenericImageView::dimensions` of `image::DynamicImage`: it
/// returns the image's width and height.
#[verifier::external_body]
fn dimensions(img: &image::DynamicImage) -> (r: (u32, u32))
    ensures
        r == image_dims(*img),
{
    img.dimensions()
}

/// Relies on `image::DynamicImage::resize_exact`: the new image is `w` by `h`
/// pixels, aspect ratio not kept, computed from the source pixels, the size
/// and the filter alone (`Nearest` and `Gaussian` of `image::FilterType`). It allocates a buffer of
/// `channels * width * h` and then `channels * w * h` elements, multiplying
/// channels by width and then by height, each step checked and panicking
/// where it overflows `usize`, and samples the source pixels.
#[verifier::external_body]
fn resize_exact(img: &image::DynamicImage, w: u32, h: u32, f: Filter) -> (r: image::DynamicImage)
    requires
        resizable(image_dims(*img), (w, h)),
    ensures
        r == resampled(*img, w, h, f),
        image_dims(r) == (w, h),
{
    let filter = match f {
        Filter::Nearest => image::FilterType::Nearest,
        Filter::Gaussian => image::FilterType::Gaussian,
    };
    img.resize_exact(w, h, filter)
}

fn fits(src: (u32, u32), dst: (u32, u32)) -> (r: bool)
    ensures
        r == resizable(src, dst),
{
    let lim = usize::MAX as u128;
    let a = src.0 as u128;
    let b = dst.0 as u128;
    let c = dst.1 as u128;
    assert(a * c <= u32::MAX as int * u32::MAX as int && b * c <= u32::MAX as int
        * u32::MAX as int) by (nonlinear_arith)
        requires
            a <= u32::MAX,
            b <= u32::MAX,
            c <= u32::MAX,
    ;
    src.0 > 0 && src.1 > 0 && 4 * a <= lim && 4 * b <= lim && 4 * (a * c) <= lim && 4 * (b * c)
        <= lim
}

/// Resamples `img` to the size that `scale` asks for, with the filter that
/// `quality` selects. `None` where that size cannot be produced (an empty
/// source, or buffers too large for this machine).
///
/// A ratio gives each side as `floor(side * n / d)` where that fits in a
/// `u32`; a fixed dimension gives exactly that size, whatever the input's
/// aspect ratio. A target side of zero is not an error: it is passed on to
/// the resampler, which then returns an image with no pixels on that side.
pub fn resize_for(img: &image::DynamicImage, scale: Scale, quality: Quality) -> (r: Option<
    image::DynamicImage,
>)
    requires
        scale.wf(),
    ensures
        ({
            let src = image_dims(*img);
            let dst = dims_for(scale, src.0, src.1);
            &&& r is Some <==> resizable(src, dst)
            &&& r matches Some(out) ==> out == resampled(*img, dst.0, dst.1, filter_of(quality))
            &&& r matches Some(out) ==> image_dims(out) == dst
        }),
        r matches Some(out) ==> match scale {
            Scale::Ratio(n, d) => {
                let src = image_dims(*img);
                &&& (src.0 as int * n as int / d as int <= u32::MAX) ==> image_dims(out).0
                    == src.0 as int * n as int / d as int
                &&& (src.1 as int * n as int / d as int <= u32::MAX) ==> image_dims(out).1
                    == src.1 as int * n as int / d as int
            },
            Scale::Dimension(x, y) => image_dims(out) == (x, y),
        },
{
    let (w, h) = dimensions(img);
    let (nw, nh) = target_dimensions(scale, w, h);
    if fits((w, h), (nw, nh)) {
        Some(resize_exact(img, nw, nh, filter_for(quality)))
    } else {
        None
    }
}

} // verus!
