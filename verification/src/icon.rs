//! The window icon: an encoded picture turned into the rows of RGBA bytes
//! that a window system takes.

use vstd::prelude::*;

verus! {

/// Why a window icon could not be made.
#[derive(Debug, Clone, Copy, PartialEq, Eq, Structural)]
pub enum IconError {
    /// The bytes are no picture in a format that can be decoded.
    Undecodable,
    /// The pixel bytes are not four for each pixel of the stated size.
    SizeMismatch,
}

/// A window icon: four bytes (red, green, blue, alpha) for each pixel, row
/// after row.
#[derive(Debug)]
pub struct Icon {
    rgba: Vec<u8>,
    width: u32,
    height: u32,
}

/// The mathematical value of an `Icon`.
pub struct IconView {
    pub rgba: Seq<u8>,
    pub width: nat,
    pub height: nat,
}

impl IconView {
    /// Four bytes stand for each pixel.
    pub open spec fn is_complete(self) -> bool {
        self.rgba.len() == 4 * self.width * self.height
    }
}

impl View for Icon {
    type V = IconView;

    closed spec fn view(&self) -> IconView {
        IconView { rgba: self.rgba@, width: self.width as nat, height: self.height as nat }
    }
}

/// Calls `image::load_from_memory`, which guesses the format and decodes,
/// and takes the picture apart with `DynamicImage::width`, `height`,
/// `into_rgba8` and `ImageBuffer::into_raw`: the pixel bytes, the width and
/// the height, or `None` where the crate reports an error. Which format is
/// guessed depends on the hooks that the process has registered with the
/// crate, so nothing is claimed of the result.
#[verifier::external_body]
fn decode_rgba8(bytes: &[u8]) -> (decoded: Option<(Vec<u8>, u32, u32)>) {
    match image::load_from_memory(bytes) {
        Ok(picture) => {
            let (width, height) = (picture.width(), picture.height());
            Some((picture.into_rgba8().into_raw(), width, height))
        },
        Err(_) => None,
    }
}

impl Icon {
    #[verifier::type_invariant]
    spec fn complete(self) -> bool {
        self@.is_complete()
    }

    /// Makes an icon of pixel bytes and a size. The bytes must fit the size:
    /// where they do not, that is the error, and no icon is made.
    pub fn from_rgba(rgba: Vec<u8>, width: u32, height: u32) -> (made: Result<Icon, IconError>)
        ensures
            made is Ok <==> rgba@.len() == 4 * width * height,
            made matches Ok(icon) ==> icon@ == (IconView {
                rgba: rgba@,
                width: width as nat,
                height: height as nat,
            }),
            made matches Err(error) ==> error == IconError::SizeMismatch,
    {
        assert((width as int) * (height as int) <= 0xFFFF_FFFF * 0xFFFF_FFFF) by (nonlinear_arith)
            requires
                0 <= width <= 0xFFFF_FFFF,
                0 <= height <= 0xFFFF_FFFF,
        ;
        assert(4 * width * height == 4 * ((width as int) * (height as int))) by (nonlinear_arith);
        let pixels: u128 = (width as u128) * (height as u128);
        if rgba.len() as u128 == 4 * pixels {
            Ok(Icon { rgba, width, height })
        } else {
            Err(IconError::SizeMismatch)
        }
    }

    /// The pixel bytes: four for each pixel, row after row.
    pub fn rgba(&self) -> (rgba: &Vec<u8>)
        ensures
            rgba@ == self@.rgba,
            self@.is_complete(),
    {
        proof {
            use_type_invariant(self);
        }
        &self.rgba
    }

    /// The width in pixels.
    pub fn width(&self) -> (width: u32)
        ensures
            width == self@.width,
    {
        self.width
    }

    /// The height in pixels.
    pub fn height(&self) -> (height: u32)
        ensures
            height == self@.height,
    {
        self.height
    }
}

/// Makes the icon of what a decoder gave: the pixel bytes with the width and
/// the height, or `None` where the bytes were no picture.
pub fn icon_from_decoded(decoded: Option<(Vec<u8>, u32, u32)>) -> (made: Result<Icon, IconError>)
    ensures
        match decoded {
            None => made == Err::<Icon, IconError>(IconError::Undecodable),
            Some((rgba, width, height)) => {
                &&& made is Ok <==> rgba@.len() == 4 * width * height
                &&& made matches Ok(icon) ==> icon@ == (IconView {
                    rgba: rgba@,
                    width: width as nat,
                    height: height as nat,
                })
                &&& made matches Err(error) ==> error == IconError::SizeMismatch
            },
        },
{
    match decoded {
        Some((rgba, width, height)) => Icon::from_rgba(rgba, width, height),
        None => Err(IconError::Undecodable),
    }
}

/// Decodes an encoded picture into a window icon. What the decoder makes of
/// the bytes is not stated here; whatever it is, `icon_from_decoded` says
/// what becomes of it, and an icon that comes back is complete.
pub fn load_icon(bytes: &[u8]) -> (loaded: Result<Icon, IconError>)
    ensures
        loaded matches Ok(icon) ==> icon@.is_complete(),
{
    icon_from_decoded(decode_rgba8(bytes))
}

} // verus!
