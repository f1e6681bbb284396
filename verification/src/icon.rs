//! Pictures: the icon of the window and the logo in its header.
use vstd::prelude::*;

verus! {

/// A picture: its pixels row by row, each with one byte for red, green, blue
/// and opacity.
#[derive(Debug)]
pub struct Picture {
    pub width: u32,
    pub height: u32,
    pub rgba: Vec<u8>,
}

/// There are four bytes for each pixel.
pub open spec fn is_complete(p: Picture) -> bool {
    p.rgba@.len() == 4 * p.width * p.height
}

/// The width, the height and the pixels of a picture, if there is one.
pub open spec fn pixels_of(p: Option<Picture>) -> Option<(u32, u32, Seq<u8>)> {
    match p {
        Some(p) => Some((p.width, p.height, p.rgba@)),
        None => None,
    }
}

/// What `load_from_memory` of the crate `image`, followed by `to_rgba8`, makes
/// of the content of a picture file: the width, the height and the pixels, or
/// nothing where it is none that the crate can read.
pub uninterp spec fn decoded(bytes: Seq<u8>) -> Option<(u32, u32, Seq<u8>)>;

/// Calls `image::load_from_memory`, and brings the picture that it gives into
/// the form of `Picture` with `DynamicImage::to_rgba8`. The result depends on
/// the bytes alone and is named `decoded`; `to_rgba8` fills a buffer of four
/// bytes for each pixel.
#[verifier::external_body]
pub(crate) fn decode(bytes: &[u8]) -> (r: Option<Picture>)
    ensures
        pixels_of(r) == decoded(bytes@),
        r matches Some(p) ==> is_complete(p),
{
    match image::load_from_memory(bytes) {
        Ok(picture) => {
            let rgba = picture.to_rgba8();
            let (width, height) = rgba.dimensions();
            Some(Picture { width, height, rgba: rgba.into_raw() })
        },
        Err(_) => None,
    }
}

/// The picture in the content of a file, if there is one that can be read.
pub fn load_icon(bytes: &[u8]) -> (r: Option<Picture>)
    ensures
        pixels_of(r) == decoded(bytes@),
        r matches Some(p) ==> is_complete(p),
{
    decode(bytes)
}

} // verus!
