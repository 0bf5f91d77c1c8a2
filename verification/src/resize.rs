//! Scaling a picture to the size of a surface and packing it as BGRA bytes.

use vstd::prelude::*;

verus! {

/// The sampling filter that a picture is scaled with.
#[derive(Clone, Copy, Debug, PartialEq, Eq)]
pub enum Filter {
    /// Nearest neighbour.
    Nearest,
    /// Linear interpolation.
    Triangle,
    /// Cubic interpolation.
    CatmullRom,
    /// Gaussian weighting.
    Gaussian,
    /// Lanczos with a window of three.
    Lanczos3,
}

/// The longest side, in pixels, that scaling takes: of the picture, of the
/// size it is scaled to, and of the size asked for.
///
/// The sampler places pixels in single-precision arithmetic. Below this
/// limit every pixel position, and every position and a half, is exact
/// there, and the centre of a sampling window is off by less than a sixteenth
/// of a pixel.
pub const SIDE_LIMIT: u32 = 262_144;

/// The number of bytes that a picture of the given size takes, at four bytes
/// per pixel.
pub open spec fn packed_len(width: u32, height: u32) -> int {
    4 * width * height
}

/// The position in an RGBA buffer of the byte that stands at position `at` in
/// the BGRA buffer made from it: red and blue change places, green and alpha
/// stay.
pub open spec fn source_position(at: int) -> int {
    if at % 4 == 0 {
        at + 2
    } else if at % 4 == 2 {
        at - 2
    } else {
        at
    }
}

/// The pixels of an RGBA buffer in BGRA order.
pub open spec fn bgra_of(rgba: Seq<u8>) -> Seq<u8> {
    Seq::new(rgba.len(), |at: int| rgba[source_position(at)])
}

/// The size to which a picture of `width` by `height` is scaled, keeping its
/// proportions, so that it covers `to_width` by `to_height`; what hangs over
/// is then cut off evenly on both sides.
pub open spec fn covering_size(width: u32, height: u32, to_width: u32, to_height: u32) -> (
    int,
    int,
)
    recommends
        width > 0,
        height > 0,
{
    if to_width * height > width * to_height {
        (to_width as int, (height * to_width) / (width as int))
    } else {
        ((width * to_height) / (height as int), to_height as int)
    }
}

/// Whether a picture of `width` by `height` can be scaled to fill `to_width`
/// by `to_height`: no side is empty, no side of the picture, of the covering
/// size or of the size asked for is longer than [`SIDE_LIMIT`], and the
/// buffers that scaling allocates on the way can be addressed.
pub open spec fn can_fill(width: u32, height: u32, to_width: u32, to_height: u32) -> bool {
    let (wide, high) = covering_size(width, height, to_width, to_height);
    &&& 0 < width <= SIDE_LIMIT
    &&& 0 < height <= SIDE_LIMIT
    &&& 0 < to_width <= SIDE_LIMIT
    &&& 0 < to_height <= SIDE_LIMIT
    &&& wide <= SIDE_LIMIT
    &&& high <= SIDE_LIMIT
    &&& 4 * width * high <= isize::MAX
    &&& 4 * wide * high <= isize::MAX
}

/// Whether a picture of `width` by `height` can be brought to `to_width` by
/// `to_height`: it has that size already, or it can be scaled to fill it.
pub open spec fn can_show(width: u32, height: u32, to_width: u32, to_height: u32) -> bool {
    (width == to_width && height == to_height) || can_fill(width, height, to_width, to_height)
}

/// Whether the sampler works with this filter in exact arithmetic alone:
/// sums, products and quotients, which give the same result wherever they
/// are computed. The other three filters weigh pixels by powers, sines or
/// exponentials, whose last digit the standard library leaves open.
pub open spec fn samples_exactly(filter: Filter) -> bool {
    filter is Nearest || filter is Triangle
}

/// The RGBA bytes that the `image` crate gives when it scales the picture of
/// `width` by `height` with pixels `rgba` to fill `to_width` by `to_height`
/// with `filter`, for a filter that it samples exactly with.
pub uninterp spec fn resampled(
    width: u32,
    height: u32,
    rgba: Seq<u8>,
    to_width: u32,
    to_height: u32,
    filter: Filter,
) -> Seq<u8>;

/// What a picture of `from_width` by `from_height` with pixels `rgba` looks
/// like on a surface of `width` by `height`: its pixels in BGRA order where
/// it has that size already, and else the pixels of the picture scaled to
/// fill that size, in BGRA order.
pub open spec fn resized(
    from_width: u32,
    from_height: u32,
    rgba: Seq<u8>,
    width: u32,
    height: u32,
    filter: Filter,
) -> Seq<u8> {
    if from_width == width && from_height == height {
        bgra_of(rgba)
    } else {
        bgra_of(resampled(from_width, from_height, rgba, width, height, filter))
    }
}

/// Whether what a picture of `from_width` by `from_height` looks like on a
/// surface of `width` by `height` is fixed by the picture, the size and the
/// filter: it is not sampled at all, or sampled exactly.
pub open spec fn is_fixed(from_width: u32, from_height: u32, width: u32, height: u32, filter: Filter) -> bool {
    (from_width == width && from_height == height) || samples_exactly(filter)
}

/// A decoded picture: its size and its pixels, row by row, as RGBA bytes.
#[derive(Debug)]
pub struct Picture {
    width: u32,
    height: u32,
    rgba: Vec<u8>,
}

impl Picture {
    #[verifier::type_invariant]
    spec fn packed(self) -> bool {
        self.rgba@.len() == packed_len(self.width, self.height)
    }

    /// The picture's width in pixels.
    pub closed spec fn spec_width(self) -> u32 {
        self.width
    }

    /// The picture's height in pixels.
    pub closed spec fn spec_height(self) -> u32 {
        self.height
    }

    /// The picture's RGBA bytes.
    pub closed spec fn pixels(self) -> Seq<u8> {
        self.rgba@
    }

    /// Whether the picture can be brought to `to_width` by `to_height`.
    pub open spec fn fits(self, to_width: u32, to_height: u32) -> bool {
        can_show(self.spec_width(), self.spec_height(), to_width, to_height)
    }

    /// Makes a picture from its size and RGBA bytes. There is a picture
    /// exactly where the buffer holds four bytes for each pixel.
    pub fn new(width: u32, height: u32, rgba: Vec<u8>) -> (picture: Option<Picture>)
        ensures
            picture.is_some() <==> rgba@.len() == packed_len(width, height),
            picture matches Some(made) ==> made.spec_width() == width && made.spec_height()
                == height && made.pixels() == rgba@,
    {
        let wide: u128 = width as u128;
        let high: u128 = height as u128;
        assert(wide * high <= 0xffff_ffff * 0xffff_ffff) by (nonlinear_arith)
            requires
                wide <= 0xffff_ffff,
                high <= 0xffff_ffff,
        ;
        let pixels: u128 = wide * high;
        assert(4 * pixels == packed_len(width, height)) by (nonlinear_arith)
            requires
                pixels == width * height,
                packed_len(width, height) == 4 * width * height,
        ;
        if rgba.len() as u128 == 4 * pixels {
            Some(Picture { width, height, rgba })
        } else {
            None
        }
    }

    /// The picture's width in pixels.
    pub fn width(&self) -> (width: u32)
        ensures
            width == self.spec_width(),
    {
        self.width
    }

    /// The picture's height in pixels.
    pub fn height(&self) -> (height: u32)
        ensures
            height == self.spec_height(),
    {
        self.height
    }

    /// Tells whether the picture can be brought to `to_width` by `to_height`.
    pub fn check_fits(&self, to_width: u32, to_height: u32) -> (fits: bool)
        ensures
            fits == self.fits(to_width, to_height),
    {
        if self.width == to_width && self.height == to_height {
            return true;
        }
        if self.width == 0 || self.height == 0 || to_width == 0 || to_height == 0 {
            return false;
        }
        if self.width > SIDE_LIMIT || self.height > SIDE_LIMIT || to_width > SIDE_LIMIT
            || to_height > SIDE_LIMIT {
            return false;
        }
        let width: u128 = self.width as u128;
        let height: u128 = self.height as u128;
        let across: u128 = to_width as u128;
        let down: u128 = to_height as u128;
        assert(across * height <= 0x1_0000_0000_0000_0000 && width * down
            <= 0x1_0000_0000_0000_0000) by (nonlinear_arith)
            requires
                across <= 0xffff_ffff,
                height <= 0xffff_ffff,
                width <= 0xffff_ffff,
                down <= 0xffff_ffff,
        ;
        let (wide, high): (u128, u128) = if across * height > width * down {
            (across, (height * across) / width)
        } else {
            ((width * down) / height, down)
        };
        assert(wide == covering_size(self.width, self.height, to_width, to_height).0);
        assert(high == covering_size(self.width, self.height, to_width, to_height).1);
        if wide > SIDE_LIMIT as u128 || high > SIDE_LIMIT as u128 {
            return false;
        }
        assert(4 * width * high <= 0x4_0000_0000_0000_0000 && 4 * wide * high
            <= 0x4_0000_0000_0000_0000) by (nonlinear_arith)
            requires
                wide <= 0xffff_ffff,
                high <= 0xffff_ffff,
                width <= 0xffff_ffff,
        ;
        4 * width * high <= isize::MAX as u128 && 4 * wide * high <= isize::MAX as u128
    }
}

/// Calls `image::DynamicImage::resize_to_fill` on the picture, held as an
/// `image::RgbaImage`, and takes the raw buffer of what comes back.
///
/// Trusted: the result holds four bytes for each pixel of the size asked for:
/// the crate scales the picture to its covering size and crops that to
/// exactly the size asked for. With the nearest-neighbour and the triangle
/// filter the result is what the crate computes from the picture, the size
/// and the filter alone: it samples in single precision with sums, products,
/// quotients and roundings to whole numbers only, in a fixed order. Nothing
/// is claimed of the pixels that the other filters give: their kernels use
/// powers, sines and exponentials, whose last digit the standard library
/// leaves open.
///
/// The call returns on every picture that `can_fill` admits. The sampler
/// divides each sum of weighted pixels by the sum of the weights, and panics
/// where both are zero. It takes the weights of an unbroken run of source
/// pixels round a centre, cut off at the picture's edges. With no side above
/// [`SIDE_LIMIT`] the centre it computes lies inside the picture, so the
/// pixel under the centre is in the run, no more than half a pixel from the
/// centre, where each of the five kernels is above 0.4. The box, triangle and
/// Gaussian kernels are negative nowhere, so the sum is above 0.4. The
/// Catmull-Rom and Lanczos kernels are negative only where their argument is
/// between one and two in size, and there above -0.15; a run reaches that
/// stretch on a side only through the whole positive stretch before it,
/// which outweighs it, and the sum again stays above 0.4. Rounding in a sum
/// of at most six times `SIDE_LIMIT` weights changes it by less than a fifth
/// of its size, so it is never zero.
#[verifier::external_body]
fn resize_to_fill(picture: Picture, to_width: u32, to_height: u32, filter: Filter) -> (rgba: Vec<u8>)
    requires
        can_fill(picture.spec_width(), picture.spec_height(), to_width, to_height),
    ensures
        rgba@.len() == packed_len(to_width, to_height),
        samples_exactly(filter) ==> rgba@ == resampled(
            picture.spec_width(),
            picture.spec_height(),
            picture.pixels(),
            to_width,
            to_height,
            filter,
        ),
{
    let kernel = match filter {
        Filter::Nearest => image::imageops::FilterType::Nearest,
        Filter::Triangle => image::imageops::FilterType::Triangle,
        Filter::CatmullRom => image::imageops::FilterType::CatmullRom,
        Filter::Gaussian => image::imageops::FilterType::Gaussian,
        Filter::Lanczos3 => image::imageops::FilterType::Lanczos3,
    };
    let source = image::RgbaImage::from_raw(picture.width, picture.height, picture.rgba).unwrap();
    let filled = image::DynamicImage::ImageRgba8(source).resize_to_fill(to_width, to_height, kernel);
    filled.into_rgba8().into_raw()
}

/// Calls `image::DynamicImage::into_bgra8` on a picture of `width` by
/// `height`, held as an `image::RgbaImage`, and takes the raw buffer of what
/// comes back.
///
/// Trusted: the crate copies every pixel with its red and blue bytes
/// exchanged and its green and alpha bytes in place.
#[verifier::external_body]
fn into_bgra8(width: u32, height: u32, rgba: Vec<u8>) -> (bgra: Vec<u8>)
    requires
        rgba@.len() == packed_len(width, height),
    ensures
        bgra@ == bgra_of(rgba@),
{
    let source = image::RgbaImage::from_raw(width, height, rgba).unwrap();
    image::DynamicImage::ImageRgba8(source).into_bgra8().into_raw()
}

/// Scales a picture with `filter` so that it fills `width` by `height`,
/// keeping its proportions and cropping what hangs over evenly. With a
/// filter that samples exactly, the pixels are fixed by the picture, the size
/// and the filter.
pub fn scale_to_fill(img: Picture, width: u32, height: u32, filter: Filter) -> (scaled: Picture)
    requires
        can_fill(img.spec_width(), img.spec_height(), width, height),
    ensures
        scaled.spec_width() == width,
        scaled.spec_height() == height,
        scaled.pixels().len() == packed_len(width, height),
        samples_exactly(filter) ==> scaled.pixels() == resampled(
            img.spec_width(),
            img.spec_height(),
            img.pixels(),
            width,
            height,
            filter,
        ),
{
    let rgba = resize_to_fill(img, width, height, filter);
    Picture { width, height, rgba }
}

/// Packs a picture's pixels as BGRA bytes.
pub fn into_bgra(img: Picture) -> (bytes: Vec<u8>)
    ensures
        bytes@ == bgra_of(img.pixels()),
        bytes@.len() == packed_len(img.spec_width(), img.spec_height()),
{
    proof {
        use_type_invariant(&img);
    }
    into_bgra8(img.width, img.height, img.rgba)
}

/// Brings a picture to `width` by `height` and packs it as BGRA bytes. A
/// picture that has that size already is not sampled again: only its channel
/// order changes. Any other picture is scaled with `filter` to fill the size,
/// cropping what hangs over.
pub fn img_resize(img: Picture, width: u32, height: u32, filter: Filter) -> (bytes: Vec<u8>)
    requires
        img.fits(width, height),
    ensures
        bytes@.len() == packed_len(width, height),
        is_fixed(img.spec_width(), img.spec_height(), width, height, filter) ==> bytes@
            == resized(img.spec_width(), img.spec_height(), img.pixels(), width, height, filter),
        img.spec_width() == width && img.spec_height() == height ==> bytes@ == bgra_of(
            img.pixels(),
        ),
{
    if img.width == width && img.height == height {
        into_bgra(img)
    } else {
        into_bgra(scale_to_fill(img, width, height, filter))
    }
}

} // verus!
