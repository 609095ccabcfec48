//! MIME type guessing from a file name's extension, and assembly of the
//! base64 `data:` URLs handed to the presentation layer.

use vstd::prelude::*;
use base64::Engine;

verus! {

/// ASCII lowercase folding at the code-point level.
pub open spec fn lower_u32(c: char) -> int {
    if 65 <= c as u32 <= 90 {
        c as u32 + 32
    } else {
        c as u32 as int
    }
}

pub open spec fn eq_ignore_ascii(a: char, b: char) -> bool {
    lower_u32(a) == lower_u32(b)
}

/// Whether `s` ends with `suf`, ignoring ASCII case.
pub open spec fn suffix_matches(s: Seq<char>, suf: Seq<char>) -> bool {
    s.len() >= suf.len() && forall|i: int|
        0 <= i < suf.len() ==> eq_ignore_ascii(s[s.len() - suf.len() + i], suf[i])
}

pub fn ends_with_ignore_case(s: &str, suf: &str) -> (r: bool)
    ensures
        r == suffix_matches(s@, suf@),
{
    let n = s.unicode_len();
    let m = suf.unicode_len();
    if n < m {
        return false;
    }
    let mut i: usize = 0;
    while i < m
        invariant
            i <= m,
            m == suf@.len(),
            n == s@.len(),
            m <= n,
            forall|k: int| 0 <= k < i ==> eq_ignore_ascii(s@[n - m + k], suf@[k]),
        decreases m - i,
    {
        let av = s.get_char(n - m + i) as u32;
        let bv = suf.get_char(i) as u32;
        let al = if 65 <= av && av <= 90 {
            av + 32
        } else {
            av
        };
        let bl = if 65 <= bv && bv <= 90 {
            bv + 32
        } else {
            bv
        };
        if al != bl {
            return false;
        }
        i = i + 1;
    }
    true
}

/// The MIME type for a path, by its extension, ignoring case; anything
/// unrecognized is a plain octet stream.
pub open spec fn mime_spec(path: Seq<char>) -> Seq<char> {
    if suffix_matches(path, ".png"@) {
        "image/png"@
    } else if suffix_matches(path, ".jpg"@) || suffix_matches(path, ".jpeg"@) {
        "image/jpeg"@
    } else if suffix_matches(path, ".gif"@) {
        "image/gif"@
    } else if suffix_matches(path, ".bmp"@) {
        "image/bmp"@
    } else if suffix_matches(path, ".webp"@) {
        "image/webp"@
    } else if suffix_matches(path, ".tif"@) || suffix_matches(path, ".tiff"@) {
        "image/tiff"@
    } else if suffix_matches(path, ".mp4"@) {
        "video/mp4"@
    } else if suffix_matches(path, ".m4v"@) {
        "video/mp4"@
    } else if suffix_matches(path, ".mov"@) {
        "video/quicktime"@
    } else if suffix_matches(path, ".webm"@) {
        "video/webm"@
    } else if suffix_matches(path, ".mkv"@) {
        "video/x-matroska"@
    } else if suffix_matches(path, ".avi"@) {
        "video/x-msvideo"@
    } else {
        "application/octet-stream"@
    }
}

/// Guess the MIME type of a local file from its extension.
pub fn mime_from_path(path: &str) -> (r: &'static str)
    ensures
        r@ == mime_spec(path@),
{
    if ends_with_ignore_case(path, ".png") {
        "image/png"
    } else if ends_with_ignore_case(path, ".jpg") || ends_with_ignore_case(path, ".jpeg") {
        "image/jpeg"
    } else if ends_with_ignore_case(path, ".gif") {
        "image/gif"
    } else if ends_with_ignore_case(path, ".bmp") {
        "image/bmp"
    } else if ends_with_ignore_case(path, ".webp") {
        "image/webp"
    } else if ends_with_ignore_case(path, ".tif") || ends_with_ignore_case(path, ".tiff") {
        "image/tiff"
    } else if ends_with_ignore_case(path, ".mp4") {
        "video/mp4"
    } else if ends_with_ignore_case(path, ".m4v") {
        "video/mp4"
    } else if ends_with_ignore_case(path, ".mov") {
        "video/quicktime"
    } else if ends_with_ignore_case(path, ".webm") {
        "video/webm"
    } else if ends_with_ignore_case(path, ".mkv") {
        "video/x-matroska"
    } else if ends_with_ignore_case(path, ".avi") {
        "video/x-msvideo"
    } else {
        "application/octet-stream"
    }
}

/// The standard, padded base64 rendering of a byte sequence.
pub uninterp spec fn base64_of(bytes: Seq<u8>) -> Seq<char>;

/// Relies on base64's `Engine::encode` with the `STANDARD` engine (standard
/// alphabet, padded): the output is a function of the bytes alone, four
/// characters for every started group of three bytes.
#[verifier::external_body]
fn base64_encode(bytes: &Vec<u8>) -> (r: String)
    ensures
        r@ == base64_of(bytes@),
        r@.len() == ((bytes@.len() + 2) / 3) * 4,
{
    base64::engine::general_purpose::STANDARD.encode(bytes.as_slice())
}

/// The base64 `data:` URL carrying raw bytes of the given MIME type.
pub fn data_url(mime: &str, bytes: &Vec<u8>) -> (r: String)
    ensures
        r@ == "data:"@ + mime@ + ";base64,"@ + base64_of(bytes@),
{
    let mut s = "data:".to_owned();
    s.append(mime);
    s.append(";base64,");
    let encoded = base64_encode(bytes);
    s.append(encoded.as_str());
    proof {
        assert(s@ =~= "data:"@ + mime@ + ";base64,"@ + base64_of(bytes@));
    }
    s
}

} // verus!
