//! Image uploads: format sniffing and stored-filename generation.
//!
//! A stored filename is a fixed-length random alphanumeric stem plus an
//! extension inferred from the payload's magic bytes — never from the
//! name the uploader gave the file.

use vstd::prelude::*;
use rand::distributions::DistString;

verus! {

/// An image payload ready to be written to the image store under its
/// generated unique filename.
#[derive(Debug, Clone, PartialEq)]
pub struct InsertImage {
    pub bytes: Vec<u8>,
    pub filename: String,
}

/// Recognizes an image format from its leading magic bytes and returns
/// the file extension to store it under, or `None` when the bytes match
/// no supported format (PNG, JPEG, GIF, WEBP).
pub fn imghdr(buf: &[u8]) -> (r: Option<&'static str>)
    ensures
        r == spec_imghdr(buf@),
{
    if buf.len() >= 8 && buf[0] == 0x89 && buf[1] == 0x50 && buf[2] == 0x4e && buf[3] == 0x47
        && buf[4] == 0x0d && buf[5] == 0x0a && buf[6] == 0x1a && buf[7] == 0x0a {
        Some(".png")
    } else if buf.len() >= 10 && ((buf[6] == 0x4a && buf[7] == 0x46 && buf[8] == 0x49 && buf[9] == 0x46)
        || (buf[6] == 0x45 && buf[7] == 0x78 && buf[8] == 0x69 && buf[9] == 0x66)) {
        Some(".jpg")
    } else if buf.len() >= 6 && buf[0] == 0x47 && buf[1] == 0x49 && buf[2] == 0x46
        && buf[3] == 0x38 && ((buf[4] == 0x37 && buf[5] == 0x61) || (buf[4] == 0x39 && buf[5] == 0x61)) {
        Some(".gif")
    } else if buf.len() >= 12 && buf[0] == 0x52 && buf[1] == 0x49 && buf[2] == 0x46 && buf[3] == 0x46
        && buf[8] == 0x57 && buf[9] == 0x45 && buf[10] == 0x42 && buf[11] == 0x50 {
        Some(".webp")
    } else {
        None
    }
}

/// What `imghdr` recognizes, stated over the byte sequence.
pub open spec fn spec_imghdr(b: Seq<u8>) -> Option<&'static str> {
    if is_png(b) {
        Some(".png")
    } else if is_jpg(b) {
        Some(".jpg")
    } else if is_gif(b) {
        Some(".gif")
    } else if is_webp(b) {
        Some(".webp")
    } else {
        None
    }
}

pub open spec fn is_png(b: Seq<u8>) -> bool {
    b.len() >= 8 && b.subrange(0, 8) =~= seq![0x89u8, 0x50, 0x4e, 0x47, 0x0d, 0x0a, 0x1a, 0x0a]
}

pub open spec fn is_jpg(b: Seq<u8>) -> bool {
    b.len() >= 10 && (b.subrange(6, 10) =~= seq![0x4au8, 0x46, 0x49, 0x46]
        || b.subrange(6, 10) =~= seq![0x45u8, 0x78, 0x69, 0x66])
}

pub open spec fn is_gif(b: Seq<u8>) -> bool {
    b.len() >= 6 && (b.subrange(0, 6) =~= seq![0x47u8, 0x49, 0x46, 0x38, 0x37, 0x61]
        || b.subrange(0, 6) =~= seq![0x47u8, 0x49, 0x46, 0x38, 0x39, 0x61])
}

pub open spec fn is_webp(b: Seq<u8>) -> bool {
    b.len() >= 12 && b.subrange(0, 4) =~= seq![0x52u8, 0x49, 0x46, 0x46]
        && b.subrange(8, 12) =~= seq![0x57u8, 0x45, 0x42, 0x50]
}

/// Holds of every character the random stem generator can emit.
pub open spec fn is_alnum_char(c: char) -> bool {
    ('a' <= c && c <= 'z') || ('A' <= c && c <= 'Z') || ('0' <= c && c <= '9')
}

/// The length of the random stem of a generated filename.
pub const STEM_LEN: usize = 32;

/// Relies on rand's `Alphanumeric` distribution: `sample_string` with a
/// `thread_rng` appends exactly `STEM_LEN` characters, each drawn from
/// `A-Z`, `a-z`, `0-9`. Nothing else is assumed of the outcome.
#[verifier::external_body]
fn random_stem() -> (r: String)
    ensures
        r@.len() == STEM_LEN,
        forall|i: int| 0 <= i < r@.len() ==> is_alnum_char(#[trigger] r@[i]),
{
    rand::distributions::Alphanumeric.sample_string(&mut rand::thread_rng(), STEM_LEN)
}

/// Turns an uploaded payload into an `InsertImage` with a fresh random
/// filename, or `None` when the payload is not a recognized image.
pub fn prepare_image(bytes: Vec<u8>) -> (r: Option<InsertImage>)
    ensures
        spec_imghdr(bytes@) is Some ==> (r matches Some(img)
            && img.bytes@ == bytes@
            && img.filename@.len() == STEM_LEN + spec_imghdr(bytes@)->0@.len()
            && img.filename@.subrange(STEM_LEN as int, img.filename@.len() as int)
                == spec_imghdr(bytes@)->0@
            && (forall|i: int| 0 <= i < STEM_LEN ==> is_alnum_char(#[trigger] img.filename@[i]))),
        spec_imghdr(bytes@) is None ==> r is None,
{
    match imghdr(bytes.as_slice()) {
        Some(ext) => {
            let mut filename = random_stem();
            filename.append(ext);
            assert(filename@.subrange(STEM_LEN as int, filename@.len() as int) =~= ext@);
            Some(InsertImage { bytes, filename })
        },
        None => None,
    }
}

} // verus!
