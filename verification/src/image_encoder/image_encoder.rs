//! What the renderer asks of a place to put a picture.

use vstd::prelude::*;
use crate::scalar::Scalar;
use crate::vec3::Colour;

verus! {

/// A picture that is filled in pixel by pixel. Implement this to keep
/// pictures in a format of your own.
pub trait ImageEncoder<T: Scalar>: Sized {
    /// Whether the picture is in working order.
    spec fn wf(&self) -> bool;

    /// The number of pixels in a row.
    spec fn width(&self) -> u32;

    /// The number of rows.
    spec fn height(&self) -> u32;

    /// What is kept of the pixel at column `x` of row `y`, counted from the
    /// top left.
    spec fn stored(&self, x: u32, y: u32) -> Seq<u8>;

    /// What is kept of a colour.
    spec fn encoding(colour: Colour<T>) -> Seq<u8>;

    /// Whether a picture of this size can be made.
    spec fn can_hold(width: u32, height: u32) -> bool;

    /// Whether a picture of this size can be made.
    fn fits(width: u32, height: u32) -> (r: bool)
        ensures
            r == Self::can_hold(width, height),
    ;

    /// A picture of the given size.
    fn new(width: u32, height: u32) -> (r: Self)
        requires
            Self::can_hold(width, height),
        ensures
            r.wf(),
            r.width() == width,
            r.height() == height,
    ;

    /// Sets the pixel at column `x` of row `y` to a colour. No other pixel
    /// changes.
    fn set_pixel(&mut self, x: u32, y: u32, colour: Colour<T>)
        requires
            old(self).wf(),
            x < old(self).width(),
            y < old(self).height(),
        ensures
            final(self).wf(),
            final(self).width() == old(self).width(),
            final(self).height() == old(self).height(),
            final(self).stored(x, y) == Self::encoding(colour),
            forall|a: u32, b: u32|
                a < old(self).width() && b < old(self).height() && (a != x || b != y)
                    ==> #[trigger] final(self).stored(a, b) == old(self).stored(a, b),
    ;
}

} // verus!
