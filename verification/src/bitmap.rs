//! A decoded image: its size and its pixels, four bytes each.

use vstd::prelude::*;

verus! {

/// A decoded image as plain values.
pub struct BitmapView {
    pub width: int,
    pub height: int,
    pub rgba: Seq<u8>,
}

impl BitmapView {
    /// The pixels are as many as the size says: four bytes for each.
    pub open spec fn is_filled(self) -> bool {
        self.rgba.len() == 4 * self.width * self.height
    }
}

/// A decoded image: `width` by `height` pixels, each as its red, green, blue
/// and alpha byte, row after row.
#[derive(Debug)]
pub struct Bitmap {
    width: u32,
    height: u32,
    rgba: Vec<u8>,
}

impl View for Bitmap {
    type V = BitmapView;

    closed spec fn view(&self) -> BitmapView {
        BitmapView { width: self.width as int, height: self.height as int, rgba: self.rgba@ }
    }
}

/// `image::load_from_memory`, then `DynamicImage::to_rgba8`: the width, the
/// height and the bytes of the image that `bytes` encode, or `None` where
/// the decoder refuses them. Nothing is claimed of what comes back.
#[verifier::external_body]
fn decode_rgba(bytes: &[u8]) -> (decoded: Option<(u32, u32, Vec<u8>)>) {
    match image::load_from_memory(bytes) {
        Ok(picture) => {
            let pixels = picture.to_rgba8();
            Some((pixels.width(), pixels.height(), pixels.into_raw()))
        },
        Err(_) => None,
    }
}

impl Bitmap {
    #[verifier::type_invariant]
    spec fn filled(self) -> bool {
        self.rgba.len() == 4 * self.width * self.height
    }

    /// The image of this size with these pixels; `None` where the pixels are
    /// not four bytes for each pixel of the size.
    pub fn new(width: u32, height: u32, rgba: Vec<u8>) -> (made: Option<Bitmap>)
        ensures
            match made {
                Some(bitmap) => bitmap@ == (BitmapView {
                    width: width as int,
                    height: height as int,
                    rgba: rgba@,
                }) && bitmap@.is_filled(),
                None => rgba@.len() != 4 * width * height,
            },
    {
        let across: u128 = width as u128;
        let down: u128 = height as u128;
        assert(across * down <= 0xFFFF_FFFF * 0xFFFF_FFFF) by (nonlinear_arith)
            requires
                across <= 0xFFFF_FFFF,
                down <= 0xFFFF_FFFF,
        ;
        let wanted: u128 = 4 * (across * down);
        assert(wanted == 4 * width * height) by (nonlinear_arith)
            requires
                wanted == 4 * (across * down),
                across == width,
                down == height,
        ;
        if rgba.len() as u128 == wanted {
            Some(Bitmap { width, height, rgba })
        } else {
            None
        }
    }

    /// The image that `bytes` encode, as the decoder gives it; `None` where
    /// the decoder refuses the bytes or gives pixels that do not fill the
    /// size. Which image comes of which bytes is the decoder's matter, and
    /// its code differs with the machine's processor: the contract says
    /// what holds of every image that comes back, and `new` says what is
    /// made of each size and pixels.
    pub fn decode(bytes: &[u8]) -> (made: Option<Bitmap>)
        ensures
            made matches Some(bitmap) ==> bitmap@.is_filled(),
    {
        match decode_rgba(bytes) {
            Some((width, height, rgba)) => Bitmap::new(width, height, rgba),
            None => None,
        }
    }

    /// The number of pixels in a row.
    pub fn width(&self) -> (width: u32)
        ensures
            width == self@.width,
    {
        self.width
    }

    /// The number of rows.
    pub fn height(&self) -> (height: u32)
        ensures
            height == self@.height,
    {
        self.height
    }

    /// The pixels, four bytes each, row after row.
    pub fn rgba(&self) -> (rgba: &Vec<u8>)
        ensures
            rgba@ == self@.rgba,
            self@.is_filled(),
    {
        proof {
            use_type_invariant(self);
        }
        &self.rgba
    }
}

} // verus!
