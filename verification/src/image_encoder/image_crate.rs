//! Pictures in the buffer of the `image` crate.

use vstd::prelude::*;
use crate::image_encoder::image_encoder::ImageEncoder;
use crate::fixed::Fixed;
use crate::fixed::magnitude_spec;
use crate::scalar::Scalar;
use crate::vec3::Colour;
use crate::vec3::Vec3;

verus! {

/// A picture with three bytes a pixel, kept in the buffer of the `image`
/// crate.
#[verifier::external_body]
pub struct ImageCrateEncoder {
    imgbuf: image::ImageBuffer<image::Rgb<u8>, Vec<u8>>,
}

/// An encoder with three bytes a pixel.
pub type ImageCrateRGBu8Encoder = ImageCrateEncoder;

/// The bytes that a picture holds: three a pixel, row after row from the
/// top, each row from the left.
pub uninterp spec fn picture_bytes(picture: ImageCrateEncoder) -> Seq<u8>;

/// The number of pixels in each row of a picture.
pub uninterp spec fn picture_width(picture: ImageCrateEncoder) -> u32;

/// The number of rows of a picture.
pub uninterp spec fn picture_height(picture: ImageCrateEncoder) -> u32;

/// Where in the bytes of a picture `width` pixels wide the pixel at column
/// `x` of row `y` begins.
pub open spec fn pixel_offset(width: u32, x: u32, y: u32) -> int {
    3 * (y * width + x)
}

/// A picture of the given size with every byte zero: `ImageBuffer::new`. It
/// works out the number of bytes as three times the width, then times the
/// height, and panics where either product does not fit a `usize`.
#[verifier::external_body]
fn new_buffer(width: u32, height: u32) -> (r: ImageCrateEncoder)
    requires
        3 * width <= usize::MAX,
        3 * width * height <= usize::MAX,
    ensures
        picture_width(r) == width,
        picture_height(r) == height,
        picture_bytes(r) == Seq::new((3 * width * height) as nat, |i: int| 0u8),
{
    ImageCrateEncoder { imgbuf: image::ImageBuffer::new(width, height) }
}

/// Stores three bytes as the pixel at column `x` of row `y`: an assignment to
/// what `ImageBuffer::get_pixel_mut` hands out, which panics where the place
/// lies outside the picture. The size and all other bytes stay as they are.
#[verifier::external_body]
fn put_pixel(picture: &mut ImageCrateEncoder, x: u32, y: u32, rgb: [u8; 3])
    requires
        x < picture_width(*old(picture)),
        y < picture_height(*old(picture)),
    ensures
        picture_width(*final(picture)) == picture_width(*old(picture)),
        picture_height(*final(picture)) == picture_height(*old(picture)),
        picture_bytes(*final(picture)) == picture_bytes(*old(picture)).update(
            pixel_offset(picture_width(*old(picture)), x, y),
            rgb[0],
        ).update(pixel_offset(picture_width(*old(picture)), x, y) + 1, rgb[1]).update(
            pixel_offset(picture_width(*old(picture)), x, y) + 2,
            rgb[2],
        ),
{
    *picture.imgbuf.get_pixel_mut(x, y) = image::Rgb(rgb);
}

/// The width and height of a picture (`ImageBuffer::dimensions`).
#[verifier::external_body]
fn size_of(picture: &ImageCrateEncoder) -> (r: (u32, u32))
    ensures
        r.0 == picture_width(*picture),
        r.1 == picture_height(*picture),
{
    picture.imgbuf.dimensions()
}

/// The bytes of a picture (`ImageBuffer::as_raw`).
#[verifier::external_body]
fn raw_of(picture: &ImageCrateEncoder) -> (r: &Vec<u8>)
    ensures
        r@ == picture_bytes(*picture),
{
    picture.imgbuf.as_raw()
}

impl ImageCrateEncoder {
    /// All bytes of the picture: three a pixel, row after row from the top,
    /// each row from the left.
    pub open spec fn bytes(&self) -> Seq<u8> {
        picture_bytes(*self)
    }

    pub open spec fn width_spec(&self) -> u32 {
        picture_width(*self)
    }

    pub open spec fn height_spec(&self) -> u32 {
        picture_height(*self)
    }

    /// The width and height of the picture.
    pub fn dimensions(&self) -> (r: (u32, u32))
        ensures
            r == (self.width_spec(), self.height_spec()),
    {
        size_of(self)
    }

    /// The bytes of the picture, for writing them to a file.
    pub fn as_raw(&self) -> (r: &Vec<u8>)
        ensures
            r@ == self.bytes(),
    {
        raw_of(self)
    }
}

/// The bytes of a pixel of a picture lie within the bytes of the picture.
pub proof fn pixel_is_inside(width: u32, height: u32, x: u32, y: u32)
    requires
        x < width,
        y < height,
    ensures
        0 <= pixel_offset(width, x, y),
        pixel_offset(width, x, y) + 3 <= 3 * width * height,
{
    assert(y * width + x < height * width) by (nonlinear_arith)
        requires
            x < width,
            y < height,
    ;
    assert(3 * (height * width) == 3 * width * height) by (nonlinear_arith);
}

/// Pixels at different places of a picture do not share bytes.
pub proof fn pixels_are_apart(width: u32, height: u32, x: u32, y: u32, a: u32, b: u32)
    requires
        x < width,
        y < height,
        a < width,
        b < height,
        a != x || b != y,
    ensures
        pixel_offset(width, a, b) + 3 <= pixel_offset(width, x, y) || pixel_offset(width, x, y) + 3
            <= pixel_offset(width, a, b),
{
    if b < y {
        assert(b * width + a < y * width + x) by (nonlinear_arith)
            requires
                b < y,
                a < width,
                0 <= x,
        ;
    } else if y < b {
        assert(y * width + x < b * width + a) by (nonlinear_arith)
            requires
                y < b,
                x < width,
                0 <= a,
        ;
    }
}

impl<T: Scalar> ImageEncoder<T> for ImageCrateEncoder {
    open spec fn wf(&self) -> bool {
        self.bytes().len() == 3 * self.width_spec() * self.height_spec()
    }

    open spec fn width(&self) -> u32 {
        self.width_spec()
    }

    open spec fn height(&self) -> u32 {
        self.height_spec()
    }

    open spec fn stored(&self, x: u32, y: u32) -> Seq<u8> {
        self.bytes().subrange(
            pixel_offset(self.width_spec(), x, y),
            pixel_offset(self.width_spec(), x, y) + 3,
        )
    }

    /// The square roots of the three parts, on a scale from 0 to 255.
    open spec fn encoding(colour: Colour<T>) -> Seq<u8> {
        seq![
            Vec3::channel_spec(colour.0),
            Vec3::channel_spec(colour.1),
            Vec3::channel_spec(colour.2),
        ]
    }

    /// The bytes of one row, and those of all rows, can be counted in a
    /// `usize`.
    open spec fn can_hold(width: u32, height: u32) -> bool {
        3 * width <= usize::MAX && 3 * width * height <= usize::MAX
    }

    fn fits(width: u32, height: u32) -> (r: bool) {
        assert(3 * width * height <= 3 * 0xffff_ffff * 0xffff_ffff) by (nonlinear_arith)
            requires
                width <= 0xffff_ffff,
                height <= 0xffff_ffff,
        ;
        let row: u128 = 3 * (width as u128);
        let size: u128 = row * (height as u128);
        row <= usize::MAX as u128 && size <= usize::MAX as u128
    }

    fn new(width: u32, height: u32) -> (r: Self) {
        new_buffer(width, height)
    }

    fn set_pixel(&mut self, x: u32, y: u32, colour: Colour<T>) {
        let ghost before = self.bytes();
        let ghost width = self.width_spec();
        let ghost height = self.height_spec();
        let rgb = colour.into_rgb();
        proof {
            pixel_is_inside(width, height, x, y);
        }
        put_pixel(self, x, y, rgb);
        proof {
            let at = pixel_offset(width, x, y);
            assert(self.bytes().subrange(at, at + 3) =~= seq![rgb[0], rgb[1], rgb[2]]);
            assert forall|a: u32, b: u32| a < width && b < height && (a != x || b != y) implies #[trigger] self.bytes().subrange(
                pixel_offset(width, a, b),
                pixel_offset(width, a, b) + 3,
            ) == before.subrange(pixel_offset(width, a, b), pixel_offset(width, a, b) + 3) by {
                pixels_are_apart(width, height, x, y, a, b);
                pixel_is_inside(width, height, a, b);
                assert(self.bytes().subrange(pixel_offset(width, a, b), pixel_offset(width, a, b) + 3)
                    =~= before.subrange(pixel_offset(width, a, b), pixel_offset(width, a, b) + 3));
            }
        }
    }
}

/// In fixed-point numbers black is kept as three zero bytes.
pub proof fn black_is_kept_as_zeros()
    ensures
        <ImageCrateEncoder as ImageEncoder<Fixed>>::encoding(Vec3::<Fixed>::zero_spec()) == seq![
            0u8,
            0u8,
            0u8,
        ],
{
    let zero = Fixed::zero_spec();
    assert(zero.square_root() == zero);
    assert(Fixed::ratio_spec(255_999, 1000).product(zero).raw == 0) by {
        assert(magnitude_spec(Fixed::ratio_spec(255_999, 1000).raw as int) * 0 == 0);
        assert(0int / 65536 == 0);
    }
    assert(Vec3::<Fixed>::channel_spec(zero) == 0u8);
}

} // verus!
