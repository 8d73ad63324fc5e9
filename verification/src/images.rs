use vstd::prelude::*;

use image::imageops::FilterType;
use image::{DynamicImage, GenericImageView};

verus! {

#[verifier::external_type_specification]
#[verifier::external_body]
pub struct ExDynamicImage(DynamicImage);

/// Where a picture's image came from: decoded from some bytes, cut out of
/// another picture (at a column, a row, a width and a height), or another
/// picture scaled to fit a box (of a width and a height).
pub enum PictureOrigin {
    Decoded(Seq<u8>),
    Cut(Box<PictureOrigin>, u32, u32, u32, u32),
    Resized(Box<PictureOrigin>, u32, u32),
}

/// What a picture is: the size of its image and where the image came from.
pub ghost struct PictureView {
    pub width: u32,
    pub height: u32,
    pub origin: PictureOrigin,
}

/// A decoded image together with its width and height and a record of
/// where it came from. Only the calls of this module make one, and each
/// reads the size from the image itself, so the size always is the image's.
pub struct Picture {
    image: DynamicImage,
    width: u32,
    height: u32,
    origin: Ghost<PictureOrigin>,
}

impl View for Picture {
    type V = PictureView;

    closed spec fn view(&self) -> PictureView {
        PictureView { width: self.width, height: self.height, origin: self.origin@ }
    }
}

/// Whether the image crate decodes `bytes`, in the format its magic bytes
/// name, into an image.
pub uninterp spec fn decodes_as_image(bytes: Seq<u8>) -> bool;

/// The width and height of the image the image crate decodes from `bytes`.
pub uninterp spec fn decoded_size(bytes: Seq<u8>) -> (u32, u32);

/// Whether `r` is the size that `DynamicImage::resize` gives an image of
/// size `src` scaled into a `bound` box: each side between 1 and the box,
/// and, for an image that is not empty, one side filling the box and the
/// other the source side scaled by the same ratio, up to rounding (so the
/// cross products of the two aspect ratios differ by less than the longer
/// source side).
pub open spec fn is_fitted_size(src: (u32, u32), bound: (u32, u32), r: (u32, u32)) -> bool {
    &&& 1 <= r.0 <= bound.0
    &&& 1 <= r.1 <= bound.1
    &&& src.0 > 0 && src.1 > 0 ==> {
        &&& r.0 == bound.0 || r.1 == bound.1
        &&& -(if src.0 >= src.1 { src.0 as int } else { src.1 as int })
            < (r.0 as int) * (src.1 as int) - (r.1 as int) * (src.0 as int)
            < (if src.0 >= src.1 { src.0 as int } else { src.1 as int })
    }
}

/// Calls `image::guess_format` on `bytes`, which reads their magic bytes,
/// then `image::load_from_memory_with_format` with that format, and
/// `GenericImageView::dimensions` on the image. Neither call consults the
/// crate's registries of format hooks, so the outcome depends on the bytes
/// alone. The contract claims that the decoding succeeds exactly when
/// `decodes_as_image` holds of the bytes, and that the image has the size
/// `decoded_size` of them.
#[verifier::external_body]
pub(crate) fn decode_picture(bytes: &[u8]) -> (r: Option<Picture>)
    ensures
        r is Some <==> decodes_as_image(bytes@),
        r matches Some(p) ==> p@ == (PictureView {
            width: decoded_size(bytes@).0,
            height: decoded_size(bytes@).1,
            origin: PictureOrigin::Decoded(bytes@),
        }),
{
    match image::guess_format(bytes) {
        Ok(format) => match image::load_from_memory_with_format(bytes, format) {
            Ok(image) => {
                let (width, height) = image.dimensions();
                Some(Picture { image, width, height, origin: Ghost(PictureOrigin::Decoded(bytes@)) })
            },
            Err(_) => None,
        },
        Err(_) => None,
    }
}

/// Calls `DynamicImage::crop_imm`: the cut-out of `p` with top-left corner
/// (`x`, `y`), `width` wide and `height` high. The crate clamps the
/// rectangle to the image; one that lies inside it comes out at exactly the
/// size asked for.
#[verifier::external_body]
pub(crate) fn crop_picture(p: &Picture, x: u32, y: u32, width: u32, height: u32) -> (r: Picture)
    requires
        x + width <= p@.width,
        y + height <= p@.height,
    ensures
        r@ == (PictureView {
            width,
            height,
            origin: PictureOrigin::Cut(Box::new(p@.origin), x, y, width, height),
        }),
{
    let image = p.image.crop_imm(x, y, width, height);
    let (w, h) = image.dimensions();
    Picture { image, width: w, height: h, origin: Ghost(PictureOrigin::Cut(Box::new(p.origin@), x, y, width, height)) }
}

/// Calls `DynamicImage::resize` with the Lanczos filter
/// (`FilterType::Lanczos3`): `p` scaled to the largest size that fits in a
/// `width` by `height` box, keeping its aspect ratio (the crate rounds each
/// side to a whole number of at least 1).
#[verifier::external_body]
pub(crate) fn resize_picture_lanczos3(p: &Picture, width: u32, height: u32) -> (r: Picture)
    requires
        width >= 1,
        height >= 1,
    ensures
        is_fitted_size((p@.width, p@.height), (width, height), (r@.width, r@.height)),
        r@.origin == PictureOrigin::Resized(Box::new(p@.origin), width, height),
{
    let image = p.image.resize(width, height, FilterType::Lanczos3);
    let (w, h) = image.dimensions();
    Picture { image, width: w, height: h, origin: Ghost(PictureOrigin::Resized(Box::new(p.origin@), width, height)) }
}

impl Picture {
    /// Decode an image from `bytes`, guessing its format from them; `None`
    /// when they hold no image that can be decoded.
    pub fn decode(bytes: &[u8]) -> (r: Option<Picture>)
        ensures
            r is Some <==> decodes_as_image(bytes@),
            r matches Some(p) ==> p@ == (PictureView {
                width: decoded_size(bytes@).0,
                height: decoded_size(bytes@).1,
                origin: PictureOrigin::Decoded(bytes@),
            }),
    {
        decode_picture(bytes)
    }

    /// The width of the image.
    pub fn width(&self) -> (w: u32)
        ensures
            w == self@.width,
    {
        self.width
    }

    /// The height of the image.
    pub fn height(&self) -> (h: u32)
        ensures
            h == self@.height,
    {
        self.height
    }

    /// The image itself.
    pub fn image(&self) -> &DynamicImage {
        &self.image
    }

    /// The image itself, taken out of the picture.
    pub fn into_image(self) -> DynamicImage {
        self.image
    }
}

} // verus!
