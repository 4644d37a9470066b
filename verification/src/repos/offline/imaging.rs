//! Decoding, scaling and encoding of pictures, done by the `image` crate.
//!
//! Nothing here is proved: each function hands its arguments to `image` and
//! its result back. What `image` makes of given bytes takes pages to say, so
//! the results carry names, and the contracts tell which call gives which.

use vstd::prelude::*;

verus! {

/// `image::ImageError`: why a picture could not be decoded or encoded.
#[verifier::external_type_specification]
#[verifier::external_body]
pub struct ExImageError(image::ImageError);

/// The eight bytes that every PNG stream begins with.
pub open spec fn png_signature() -> Seq<u8> {
    seq![137u8, 80u8, 78u8, 71u8, 13u8, 10u8, 26u8, 10u8]
}

/// Whether `bytes` begin as a PNG stream begins.
pub open spec fn is_png(bytes: Seq<u8>) -> bool {
    bytes.len() >= 8 && bytes.take(8) == png_signature()
}

/// Width and height of the picture that `bytes` hold in the format that the
/// file extension `extension` stands for, as `image` decodes it. `None` where
/// the extension stands for no format, and where the bytes do not decode.
pub uninterp spec fn decoded_size(bytes: Seq<u8>, extension: Seq<char>) -> Option<(u32, u32)>;

/// The PNG stream of the picture that `bytes` hold in the format of
/// `extension`, scaled by `image` with the Lanczos filter to fit into `width`
/// by `height`. `None` where there is no such picture, and where the encoder
/// fails.
pub uninterp spec fn scaled_png(
    bytes: Seq<u8>,
    extension: Seq<char>,
    width: u32,
    height: u32,
) -> Option<Seq<u8>>;

/// `image::ImageFormat::from_extension`, `image::load_from_memory_with_format`
/// and `image::GenericImageView::dimensions`: width and height of the picture
/// that `bytes` hold in the format that `extension` stands for, or the error
/// of the decoder; nothing for an extension that stands for no format. The
/// size is named [`decoded_size`].
#[verifier::external_body]
pub(crate) fn decode(bytes: &[u8], extension: &str) -> (size: Option<
    Result<(u32, u32), image::ImageError>,
>)
    ensures
        match size {
            Some(Ok(found)) => decoded_size(bytes@, extension@) == Some(found),
            _ => decoded_size(bytes@, extension@) is None,
        },
{
    let format = image::ImageFormat::from_extension(extension)?;
    let picture = image::load_from_memory_with_format(bytes, format);
    Some(picture.map(|picture| image::GenericImageView::dimensions(&picture)))
}

/// `image::ImageFormat::from_extension`, `image::load_from_memory_with_format`,
/// `image::DynamicImage::resize` with the Lanczos filter, and
/// `image::DynamicImage::write_to` with the PNG format, into memory: the
/// picture that `bytes` hold, scaled to fit into `width` by `height` and
/// encoded, or the error of the decoder or the encoder; nothing for an
/// extension that stands for no format. The stream is named [`scaled_png`].
/// The encoder writes the PNG signature before anything else, so the stream
/// begins with it. The box is no larger than 256 by 256, which keeps the
/// buffers of the scaler small.
#[verifier::external_body]
pub(crate) fn scale_and_encode(bytes: &[u8], extension: &str, width: u32, height: u32) -> (png:
    Option<Result<Vec<u8>, image::ImageError>>)
    requires
        width <= 256,
        height <= 256,
    ensures
        match png {
            Some(Ok(written)) => scaled_png(bytes@, extension@, width, height) == Some(written@)
                && is_png(written@),
            _ => scaled_png(bytes@, extension@, width, height) is None,
        },
{
    let format = image::ImageFormat::from_extension(extension)?;
    Some(image::load_from_memory_with_format(bytes, format).and_then(|picture| {
        let scaled = picture.resize(width, height, image::imageops::FilterType::Lanczos3);
        let mut buffer = std::io::Cursor::new(Vec::new());
        scaled.write_to(&mut buffer, image::ImageFormat::Png)?;
        Ok(buffer.into_inner())
    }))
}

/// The text of an `image::ImageError`, as its `Display` gives it.
#[verifier::external_body]
pub(crate) fn error_text(error: &image::ImageError) -> (text: String) {
    error.to_string()
}

} // verus!
