//! Decoded pictures: their size, their pixels, and the thumbnail that is made of them.

use vstd::prelude::*;

use crate::loader::{Pixels, THUMB_SIZE};

verus! {

/// A decoded picture of the `image` crate.
#[verifier::external_type_specification]
#[verifier::external_body]
pub struct ExDynamicImage(image::DynamicImage);

/// How many pixels wide a picture is.
pub uninterp spec fn picture_width(img: image::DynamicImage) -> u32;

/// How many pixels high a picture is.
pub uninterp spec fn picture_height(img: image::DynamicImage) -> u32;

/// What a picture holds as RGBA, one byte for each, row by row.
pub uninterp spec fn picture_rgba(img: image::DynamicImage) -> Seq<u8>;

/// The size that a picture of the given size is scaled to, so that it fits the given bounds:
/// width, height, greatest width, greatest height.
pub uninterp spec fn fitted_size(width: u32, height: u32, max_width: u32, max_height: u32) -> (
    u32,
    u32,
);

/// `DynamicImage::width` of the `image` crate: the width of the picture.
#[verifier::external_body]
fn width_of(img: &image::DynamicImage) -> (r: u32)
    ensures
        r == picture_width(*img),
{
    img.width()
}

/// `DynamicImage::height` of the `image` crate: the height of the picture.
#[verifier::external_body]
fn height_of(img: &image::DynamicImage) -> (r: u32)
    ensures
        r == picture_height(*img),
{
    img.height()
}

/// A picture of the given size, scaled to `w` by `h` so that it fits the bounds, keeps its
/// proportions: the side that the bounds leave less room for reaches its bound, and the other
/// side is within one pixel of what the proportions ask for.
pub open spec fn in_proportion(
    w: int,
    h: int,
    width: int,
    height: int,
    max_width: int,
    max_height: int,
) -> bool {
    if max_width * height <= max_height * width {
        w == max_width && h * width <= max_width * height + width && max_width * height <= h
            * width + width
    } else {
        h == max_height && w * height <= max_height * width + height && max_height * width <= w
            * height + height
    }
}

/// `DynamicImage::resize` of the `image` crate with the Lanczos filter: the picture scaled, in
/// its proportions up to rounding, to the greatest size that fits the bounds. One side reaches
/// its bound, and no side is empty. A picture that has the size of the bounds is cloned; any
/// other one becomes a new picture, which holds four bytes of RGBA for each of its pixels. The
/// colours of the scaled picture are weighed with sines in floating point, whose last bits are
/// the machine's; nothing is said of them.
#[verifier::external_body]
fn resized(img: &image::DynamicImage, max_width: u32, max_height: u32) -> (r: image::DynamicImage)
    requires
        0 < max_width <= THUMB_SIZE,
        0 < max_height <= THUMB_SIZE,
        picture_width(*img) > 0 || picture_height(*img) > 0,
    ensures
        (picture_width(r), picture_height(r)) == fitted_size(
            picture_width(*img),
            picture_height(*img),
            max_width,
            max_height,
        ),
        0 < picture_width(r) <= max_width,
        0 < picture_height(r) <= max_height,
        in_proportion(
            picture_width(r) as int,
            picture_height(r) as int,
            picture_width(*img) as int,
            picture_height(*img) as int,
            max_width as int,
            max_height as int,
        ),
        (picture_width(*img), picture_height(*img)) != (max_width, max_height) ==> picture_rgba(
            r,
        ).len() == picture_width(r) * picture_height(r) * 4,
{
    img.resize(max_width, max_height, image::imageops::FilterType::Lanczos3)
}

/// `DynamicImage::to_rgba8` of the `image` crate: the picture as RGBA bytes, with its size.
#[verifier::external_body]
fn rgba_of(img: &image::DynamicImage) -> (r: Pixels)
    ensures
        r.width == picture_width(*img),
        r.height == picture_height(*img),
        r.rgba@ == picture_rgba(*img),
{
    let rgba = img.to_rgba8();
    let (width, height) = rgba.dimensions();
    Pixels { width, height, rgba: rgba.into_raw() }
}

/// The pixels of a picture at full size.
pub fn full_pixels(img: &image::DynamicImage) -> (r: Pixels)
    ensures
        r.width == picture_width(*img),
        r.height == picture_height(*img),
        r.rgba@ == picture_rgba(*img),
{
    rgba_of(img)
}

/// A picture is larger than a thumbnail.
pub open spec fn needs_scaling(width: u32, height: u32) -> bool {
    width > THUMB_SIZE || height > THUMB_SIZE
}

/// Whether a picture of this size is scaled down for its thumbnail; a smaller one is shown as
/// it is, which avoids blowing it up.
pub fn is_scaled(width: u32, height: u32) -> (r: bool)
    ensures
        r == needs_scaling(width, height),
{
    width > THUMB_SIZE || height > THUMB_SIZE
}

/// The thumbnail of a picture: no side is longer than the size of thumbnails, and a picture
/// that fits is left as it is. One that does not fit is scaled in its proportions, so that its
/// longer side has the size of thumbnails. Nothing is said of the colours of a scaled picture:
/// they are the machine's floating point.
pub fn thumbnail_pixels(img: image::DynamicImage) -> (r: Pixels)
    ensures
        r.width <= THUMB_SIZE,
        r.height <= THUMB_SIZE,
        needs_scaling(picture_width(img), picture_height(img)) ==> {
            &&& (r.width, r.height) == fitted_size(
                picture_width(img),
                picture_height(img),
                THUMB_SIZE,
                THUMB_SIZE,
            )
            &&& in_proportion(
                r.width as int,
                r.height as int,
                picture_width(img) as int,
                picture_height(img) as int,
                THUMB_SIZE as int,
                THUMB_SIZE as int,
            )
            &&& crate::loader::whole_pixels(r.width, r.height, r.rgba@.len() as int)
            &&& exists|t: image::DynamicImage| #[trigger]
                picture_rgba(t) == r.rgba@ && picture_width(t) == r.width && picture_height(t)
                    == r.height
        },
        !needs_scaling(picture_width(img), picture_height(img)) ==> r.width == picture_width(img)
            && r.height == picture_height(img) && r.rgba@ == picture_rgba(img),
{
    if is_scaled(width_of(&img), height_of(&img)) {
        let thumb = resized(&img, THUMB_SIZE, THUMB_SIZE);
        rgba_of(&thumb)
    } else {
        rgba_of(&img)
    }
}

/// A picture with a side of more than three hundred pixels is scaled, and no other.
pub proof fn only_large_pictures_are_scaled(width: u32, height: u32)
    ensures
        needs_scaling(width, height) <==> width > 300 || height > 300,
{
}

/// The longer side of a scaled picture has the length that it may have at most, and the other side is
/// within one pixel of what the proportions of the picture ask for.
pub proof fn the_longer_side_reaches_the_bound(w: int, h: int, width: int, height: int, bound: int)
    requires
        in_proportion(w, h, width, height, bound, bound),
        0 < width,
        0 < height,
        0 < bound,
    ensures
        width >= height ==> w == bound && h * width <= bound * height + width && bound * height
            <= h * width + width,
        width < height ==> h == bound && w * height <= bound * width + height && bound * width <= w
            * height + height,
{
    assert(bound * height <= bound * width <==> height <= width) by (nonlinear_arith)
        requires
            bound > 0,
    ;
}

} // verus!
