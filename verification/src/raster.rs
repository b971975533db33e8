//! Decoded images as plain values: the pixel bytes and their shape.

use vstd::prelude::*;

verus! {

/// A decoded image: its pixel bytes, row by row, and its shape.
pub struct Raster {
    pub bytes: Vec<u8>,
    pub width: u32,
    pub height: u32,
    pub bytes_per_pixel: u8,
}

impl Raster {
    /// The pixel bytes are as many as the shape asks for.
    pub open spec fn well_formed(&self) -> bool {
        self.bytes@.len() == self.width * self.height * self.bytes_per_pixel
    }

    /// Width, height, bytes per pixel and the number of pixel bytes.
    pub open spec fn shape(&self) -> (u32, u32, u8, nat) {
        (self.width, self.height, self.bytes_per_pixel, self.bytes@.len())
    }
}

/// What the image decoder makes of `data` read in the format that `extension`
/// names: width, height, bytes per pixel and the number of pixel bytes, or
/// `None` where it refuses the data or the extension.
///
/// The pixel bytes themselves are left out: samples wider than a byte come in
/// the byte order of the machine.
pub uninterp spec fn decoded_shape(data: Seq<u8>, extension: Seq<char>) -> Option<(u32, u32, u8, nat)>;

/// The shape that the decoder reports agrees with its count of pixel bytes.
pub open spec fn shape_is_consistent(shape: (u32, u32, u8, nat)) -> bool {
    shape.3 == shape.0 * shape.1 * shape.2
}

/// Decodes `data` with `image::load_from_memory_with_format`, in the format
/// that `image::ImageFormat::from_extension` gives for `extension`, and takes
/// from the image its bytes (`as_bytes`), `width`, `height` and the bytes per
/// pixel of its colour type.
///
/// Assumed: whether the decoder accepts the data, and the shape of what it
/// returns, depend on `data` and `extension` alone. Nothing is assumed of the
/// pixel bytes but their number.
#[verifier::external_body]
fn decode_pixels(data: &[u8], extension: &str) -> (r: Option<Raster>)
    ensures
        match r {
            Some(x) => decoded_shape(data@, extension@) == Some(x.shape()),
            None => decoded_shape(data@, extension@) is None,
        },
{
    let format = image::ImageFormat::from_extension(extension)?;
    let img = image::load_from_memory_with_format(data, format).ok()?;
    Some(
        Raster {
            bytes: img.as_bytes().to_vec(),
            width: img.width(),
            height: img.height(),
            bytes_per_pixel: img.color().bytes_per_pixel(),
        },
    )
}

impl Raster {
    /// Says whether the pixel bytes are as many as the shape asks for.
    pub fn is_well_formed(&self) -> (b: bool)
        ensures
            b == self.well_formed(),
    {
        let w: u128 = self.width as u128;
        let h: u128 = self.height as u128;
        let p: u128 = self.bytes_per_pixel as u128;
        assert(w * h <= 0xffff_ffff * 0xffff_ffff) by (nonlinear_arith)
            requires
                w <= 0xffff_ffff,
                h <= 0xffff_ffff,
        ;
        assert(w * h * p <= 0xffff_ffff * 0xffff_ffff * 0xff) by (nonlinear_arith)
            requires
                w * h <= 0xffff_ffff * 0xffff_ffff,
                p <= 0xff,
        ;
        w * h * p == self.bytes.len() as u128
    }

    /// Decodes the contents of an image file, in the format that the file's
    /// extension names.
    ///
    /// Returns the image where the decoder accepts the data and hands out as
    /// many pixel bytes as the shape asks for, and `None` otherwise.
    pub fn decode(data: &[u8], extension: &str) -> (r: Option<Raster>)
        ensures
            r is Some <==> (decoded_shape(data@, extension@) matches Some(shape)
                && shape_is_consistent(shape)),
            r matches Some(x) ==> x.well_formed() && decoded_shape(data@, extension@) == Some(
                x.shape(),
            ),
    {
        match decode_pixels(data, extension) {
            Some(x) => if x.is_well_formed() {
                Some(x)
            } else {
                None
            },
            None => None,
        }
    }
}

/// Two images that the decoder made of the same data under the same extension
/// have the same width, the same height, as many bytes per pixel and as many
/// pixel bytes.
pub proof fn lemma_decoding_repeats(a: Raster, b: Raster, data: Seq<u8>, extension: Seq<char>)
    ensures
        decoded_shape(data, extension) == Some(a.shape()) && decoded_shape(data, extension)
            == Some(b.shape()) ==> a.width == b.width && a.height == b.height && a.bytes_per_pixel
            == b.bytes_per_pixel && a.bytes@.len() == b.bytes@.len(),
{
}

} // verus!
