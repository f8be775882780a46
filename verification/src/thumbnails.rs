//! Cover art: what becomes of a picture once its bytes are here, or did not
//! come.

use vstd::prelude::*;

use crate::text::concat2;

verus! {

/// A picture, four bytes for every pixel: red, green, blue and opacity.
#[derive(Debug)]
pub struct Picture {
    pub width: u32,
    pub height: u32,
    pub rgba: Vec<u8>,
}

impl Picture {
    /// There are four bytes for every pixel.
    pub open spec fn wf(self) -> bool {
        self.rgba@.len() == 4 * (self.width * self.height)
    }
}

/// What a worker reports of a picture.
#[derive(Debug)]
pub enum ImageMessage {
    Loaded { url: String, image: Picture },
    Failed { url: String, error: String },
}

/// What became of the request for a picture.
#[derive(Debug)]
pub enum Fetched {
    /// All of its bytes came.
    Bytes(Vec<u8>),
    /// The server could not be asked, or refused.
    NoAnswer(String),
    /// The answer broke off.
    BrokeOff(String),
}

/// What `image` makes of some bytes: the width, the height and the pixels of a
/// picture, or the message of the error.
pub uninterp spec fn decoded_picture(bytes: Seq<u8>) -> Result<(u32, u32, Seq<u8>), Seq<char>>;

/// Decodes a picture with `image::load_from_memory` and turns it into eight
/// bits for each of red, green, blue and opacity with `DynamicImage::to_rgba8`.
/// What comes out follows from the bytes alone, and a picture has four bytes for
/// every pixel. The error is the text of the `ImageError`.
#[verifier::external_body]
fn decode_picture(bytes: &Vec<u8>) -> (r: Result<Picture, String>)
    ensures
        match r {
            Ok(p) => p.wf() && decoded_picture(bytes@) == Ok::<(u32, u32, Seq<u8>), Seq<char>>(
                (p.width, p.height, p.rgba@),
            ),
            Err(e) => decoded_picture(bytes@) == Err::<(u32, u32, Seq<u8>), Seq<char>>(e@),
        },
{
    match image::load_from_memory(bytes.as_slice()) {
        Ok(i) => {
            let rgba = i.to_rgba8();
            Ok(Picture { width: rgba.width(), height: rgba.height(), rgba: rgba.into_raw() })
        },
        Err(e) => Err(e.to_string()),
    }
}

/// The report on a picture that was, or was not, decoded.
pub open spec fn is_decode_report(
    m: ImageMessage,
    url: String,
    decoded: Result<Picture, String>,
) -> bool {
    match decoded {
        Ok(p) => m == (ImageMessage::Loaded { url, image: p }),
        Err(e) => m matches ImageMessage::Failed { url: u, error } && u == url && error@
            == "decode: "@ + e@,
    }
}

/// Reports on a picture that was, or was not, decoded.
pub fn decode_report(url: String, decoded: Result<Picture, String>) -> (r: ImageMessage)
    ensures
        is_decode_report(r, url, decoded),
{
    match decoded {
        Ok(p) => ImageMessage::Loaded { url, image: p },
        Err(e) => ImageMessage::Failed { url, error: concat2("decode: ", e.as_str()) },
    }
}

/// Turns the outcome of a request for a picture into a report. A request that
/// failed, and an answer that broke off, are reported as such; bytes are
/// decoded, and the report says what came of that.
pub fn run_fetch(url: String, fetched: Fetched) -> (r: ImageMessage)
    ensures
        match fetched {
            Fetched::NoAnswer(e) => r matches ImageMessage::Failed { url: u, error } && u == url
                && error@ == "download: "@ + e@,
            Fetched::BrokeOff(e) => r matches ImageMessage::Failed { url: u, error } && u == url
                && error@ == "read: "@ + e@,
            Fetched::Bytes(b) => match decoded_picture(b@) {
                Ok((w, h, pixels)) => r matches ImageMessage::Loaded { url: u, image } && u == url
                    && image.wf() && image.width == w && image.height == h && image.rgba@ == pixels,
                Err(e) => r matches ImageMessage::Failed { url: u, error } && u == url && error@
                    == "decode: "@ + e,
            },
        },
{
    match fetched {
        Fetched::NoAnswer(e) => ImageMessage::Failed { url, error: concat2("download: ", e.as_str()) },
        Fetched::BrokeOff(e) => ImageMessage::Failed { url, error: concat2("read: ", e.as_str()) },
        Fetched::Bytes(b) => decode_report(url, decode_picture(&b)),
    }
}

/// A picture that was decoded is reported whole, and one that was not with the
/// reason; either way under its own address.
pub proof fn lemma_decode_report(m: ImageMessage, url: String, decoded: Result<Picture, String>)
    requires
        is_decode_report(m, url, decoded),
    ensures
        m is Loaded <==> decoded is Ok,
        m matches ImageMessage::Loaded { url: u, image } ==> u == url && decoded == Ok::<
            Picture,
            String,
        >(image),
        m matches ImageMessage::Failed { url: u, error } ==> u == url && (decoded matches Err(e)
            && error@ == "decode: "@ + e@),
{
}

} // verus!
