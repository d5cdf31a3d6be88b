//! Turning the bytes of a metadata file into text.
//!
//! UTF-8 (with or without a byte order mark) is taken as it is; other files go
//! through statistical encoding detection, and GBK is the last resort.

use vstd::prelude::*;
use vstd::utf8::{decode_utf8, valid_utf8};
use chardetng::EncodingDetector;
use encoding_rs::GBK;

verus! {

/// The text that `encoding_rs::GBK.decode` gives for the bytes: it sniffs a
/// UTF-8 or UTF-16 byte order mark first (which then decides the encoding), and
/// otherwise decodes as GBK, malformed sequences becoming U+FFFD.
pub uninterp spec fn gbk_of(b: Seq<u8>) -> Seq<char>;

/// Relies on `std::str::from_utf8`: text exactly for valid UTF-8, decoded as such.
#[verifier::external_body]
pub(crate) fn utf8_text(bytes: &[u8]) -> (r: Option<String>)
    ensures
        r is Some <==> valid_utf8(bytes@),
        r matches Some(s) ==> s@ == decode_utf8(bytes@),
{
    match std::str::from_utf8(bytes) {
        Ok(s) => Some(s.to_string()),
        Err(_) => None,
    }
}

/// What statistical encoding detection decodes from the bytes without errors,
/// if anything: the encoding that `chardetng` guesses for the whole input, then
/// `encoding_rs` decoding in it. A function of the bytes alone.
pub uninterp spec fn detected_of(b: Seq<u8>) -> Option<Seq<char>>;

/// Relies on `chardetng::EncodingDetector` (a fresh detector, `feed` with the
/// whole input as last, then `guess` without a top-level domain, UTF-8 allowed)
/// and on `encoding_rs::Encoding::decode` in the guessed encoding: the decoded
/// text where decoding met no malformed input.
#[verifier::external_body]
fn detect_text(bytes: &[u8]) -> (r: Option<String>)
    ensures
        crate::types::opt_str(r) == detected_of(bytes@),
{
    let mut detector = EncodingDetector::new();
    detector.feed(bytes, true);
    let (decoded, _, had_errors) = detector.guess(None, true).decode(bytes);
    if had_errors { None } else { Some(decoded.into_owned()) }
}

/// Relies on `encoding_rs::Encoding::decode` on `GBK`: a function of the bytes alone.
#[verifier::external_body]
fn gbk_decode(bytes: &[u8]) -> (r: String)
    ensures
        r@ == gbk_of(bytes@),
{
    GBK.decode(bytes).0.into_owned()
}

/// The UTF-8 byte order mark.
pub open spec fn has_bom(b: Seq<u8>) -> bool {
    b.len() >= 3 && b[0] == 0xEF && b[1] == 0xBB && b[2] == 0xBF
}

/// Whether the bytes decode as UTF-8 text on their own: valid UTF-8 after a byte
/// order mark, or valid UTF-8 without replacement characters.
pub open spec fn utf8_ok(b: Seq<u8>) -> bool {
    (has_bom(b) && valid_utf8(b.skip(3))) || (valid_utf8(b) && !decode_utf8(b).contains('\u{FFFD}'))
}

/// The text of a metadata file: UTF-8 where `utf8_ok` holds; else the text the
/// encoding detector decoded without errors (`detected`), if any; else GBK.
pub open spec fn decoded_text(b: Seq<u8>, detected: Option<Seq<char>>) -> Seq<char> {
    if has_bom(b) && valid_utf8(b.skip(3)) {
        decode_utf8(b.skip(3))
    } else if valid_utf8(b) && !decode_utf8(b).contains('\u{FFFD}') {
        decode_utf8(b)
    } else {
        match detected {
            Some(t) => t,
            None => gbk_of(b),
        }
    }
}

fn utf8_decoding(bytes: &[u8]) -> (r: Option<String>)
    ensures
        r is Some <==> utf8_ok(bytes@),
        r matches Some(s) ==> s@ == decoded_text(bytes@, None),
{
    if bytes.len() >= 3 && bytes[0] == 0xEF && bytes[1] == 0xBB && bytes[2] == 0xBF {
        let rest = vstd::slice::slice_subrange(bytes, 3, bytes.len());
        proof {
            assert(rest@ =~= bytes@.skip(3));
        }
        match utf8_text(rest) {
            Some(s) => {
                return Some(s);
            },
            None => {},
        }
    }
    match utf8_text(bytes) {
        Some(s) => {
            let c = crate::text::chars_of(s.as_str());
            let mut clean = true;
            let mut i: usize = 0;
            while i < c.len()
                invariant
                    i <= c.len(),
                    clean == forall|q: int| 0 <= q < i ==> c@[q] != '\u{FFFD}',
                decreases c.len() - i,
            {
                if c[i] == '\u{FFFD}' {
                    clean = false;
                }
                i = i + 1;
            }
            if clean {
                return Some(s);
            }
            proof {
                let q = choose|q: int| 0 <= q < c.len() && c@[q] == '\u{FFFD}';
                assert(c@.contains(c@[q]));
            }
            None
        },
        None => None,
    }
}

/// Decodes the bytes of a metadata file given what the encoding detector
/// decoded (`None` where its decoding met errors); see `decoded_text`.
pub fn decode_with_detection(bytes: &[u8], detected: Option<String>) -> (r: String)
    ensures
        r@ == decoded_text(bytes@, crate::types::opt_str(detected)),
{
    match utf8_decoding(bytes) {
        Some(s) => s,
        None => match detected {
            Some(t) => t,
            None => gbk_decode(bytes),
        },
    }
}

/// Decodes the bytes of a metadata file: UTF-8 where it is (after a byte order
/// mark, or without replacement characters), else what statistical encoding
/// detection decodes without errors, else GBK.
pub fn decode_bytes_to_string(bytes: &[u8]) -> (r: String)
    ensures
        r@ == decoded_text(bytes@, detected_of(bytes@)),
{
    match utf8_decoding(bytes) {
        Some(s) => s,
        None => decode_with_detection(bytes, detect_text(bytes)),
    }
}

} // verus!
