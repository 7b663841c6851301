//! Decoded recipe images: raw pixels with their dimensions.

use vstd::prelude::*;

verus! {

/// How many bytes one pixel takes: red, green, blue and alpha.
pub const BYTES_PER_PIXEL: usize = 4;

/// A decoded image: rows of RGBA pixels, eight bits per channel. The buffer
/// always holds exactly `width * height` pixels.
#[derive(Debug)]
pub struct Image {
    width: usize,
    height: usize,
    pixels: Vec<u8>,
}

/// An image as a value: its dimensions and its bytes.
pub struct ImageView {
    pub width: nat,
    pub height: nat,
    pub pixels: Seq<u8>,
}

impl View for Image {
    type V = ImageView;

    closed spec fn view(&self) -> ImageView {
        ImageView {
            width: self.width as nat,
            height: self.height as nat,
            pixels: self.pixels@,
        }
    }
}

impl Image {
    #[verifier::type_invariant]
    spec fn sized(self) -> bool {
        self.pixels@.len() == self.width * self.height * BYTES_PER_PIXEL
    }

    /// Whether a buffer of `len` bytes holds exactly the pixels of a `width` by
    /// `height` image.
    pub open spec fn fits(len: nat, width: nat, height: nat) -> bool {
        len == width * height * BYTES_PER_PIXEL
    }

    /// Makes an image of a pixel buffer, or nothing if the buffer's length does
    /// not match the dimensions.
    pub fn from_raw(pixels: Vec<u8>, width: usize, height: usize) -> (image: Option<Image>)
        ensures
            image.is_some() == Image::fits(pixels@.len(), width as nat, height as nat),
            image matches Some(i) ==> i@ == (ImageView {
                width: width as nat,
                height: height as nat,
                pixels: pixels@,
            }),
    {
        let len = pixels.len();
        let area = match width.checked_mul(height) {
            Some(area) => area,
            None => {
                proof {
                    lemma_area_over(pixels@.len(), width as nat, height as nat);
                }
                return None;
            },
        };
        let bytes = match area.checked_mul(BYTES_PER_PIXEL) {
            Some(bytes) => bytes,
            None => {
                return None;
            },
        };
        if len == bytes {
            Some(Image { width, height, pixels })
        } else {
            None
        }
    }

    /// The width of the image in pixels.
    pub fn width(&self) -> (w: usize)
        ensures
            w == self@.width,
    {
        self.width
    }

    /// The height of the image in pixels.
    pub fn height(&self) -> (h: usize)
        ensures
            h == self@.height,
    {
        self.height
    }

    /// The bytes of the image, row by row, four to a pixel.
    pub fn raw_pixels(&self) -> (pixels: &Vec<u8>)
        ensures
            pixels@ == self@.pixels,
            Image::fits(pixels@.len(), self@.width, self@.height),
    {
        proof {
            use_type_invariant(self);
        }
        &self.pixels
    }
}

/// A buffer whose length fits in a machine word cannot hold an image whose
/// pixel count does not.
proof fn lemma_area_over(len: nat, width: nat, height: nat)
    requires
        len <= usize::MAX,
        width * height > usize::MAX,
    ensures
        !Image::fits(len, width, height),
{
    assert(width * height * BYTES_PER_PIXEL >= width * height) by (nonlinear_arith);
}

} // verus!
