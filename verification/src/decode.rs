//! Bytes to text: what a child process printed, or the name of an archive
//! entry, decoded the way the host calls for.

use encoding::all::GBK;
use encoding::{DecoderTrap, Encoding};
use vstd::prelude::*;
use vstd::string::*;
use vstd::utf8::{decode_utf8, valid_utf8};

verus! {

/// The text that `String::from_utf8_lossy` makes of bytes: their UTF-8
/// decoding, with U+FFFD in place of what is not UTF-8.
pub uninterp spec fn utf8_lossy_of(bytes: Seq<u8>) -> Seq<char>;

/// What the GBK decoder of the `encoding` crate makes of bytes when it
/// replaces what it cannot decode: the text, or the cause of a failure.
pub uninterp spec fn gbk_decoding_of(bytes: Seq<u8>) -> Result<Seq<char>, Seq<char>>;

/// A decoding as contracts speak of it: the text or the message, by its
/// characters.
pub open spec fn decoding_view(r: Result<String, String>) -> Result<Seq<char>, Seq<char>> {
    match r {
        Ok(text) => Ok(text@),
        Err(message) => Err(message@),
    }
}

/// `String::from_utf8` on a copy of the bytes: `Some` exactly for valid
/// UTF-8, and then the text that the bytes encode.
#[verifier::external_body]
fn utf8_strict(bytes: &[u8]) -> (r: Option<String>)
    ensures
        r is Some <==> valid_utf8(bytes@),
        r matches Some(text) ==> text@ == decode_utf8(bytes@),
{
    String::from_utf8(bytes.to_vec()).ok()
}

/// `String::from_utf8_lossy`: the named lossy decoding, which for valid
/// UTF-8 is the text that the bytes encode.
#[verifier::external_body]
fn utf8_lossy(bytes: &[u8]) -> (r: String)
    ensures
        r@ == utf8_lossy_of(bytes@),
        valid_utf8(bytes@) ==> r@ == decode_utf8(bytes@),
{
    String::from_utf8_lossy(bytes).into_owned()
}

/// `GBK.decode` of the `encoding` crate with `DecoderTrap::Replace`: the
/// named decoding, its error text taken as a `String`.
#[verifier::external_body]
fn gbk_replacing(bytes: &[u8]) -> (r: Result<String, String>)
    ensures
        decoding_view(r) == gbk_decoding_of(bytes@),
{
    match GBK.decode(bytes, DecoderTrap::Replace) {
        Ok(text) => Ok(text),
        Err(cause) => Err(cause.into_owned()),
    }
}

/// The words that open the message of a failed GBK decoding.
pub open spec fn gbk_failure_prefix() -> Seq<char> {
    "GBK decoding failed: "@
}

/// Strict decoding: the UTF-8 text of the bytes where they are valid UTF-8,
/// otherwise their GBK decoding, otherwise a message with the cause.
pub open spec fn utf8_or_gbk(bytes: Seq<u8>) -> Result<Seq<char>, Seq<char>> {
    if valid_utf8(bytes) {
        Ok(decode_utf8(bytes))
    } else {
        match gbk_decoding_of(bytes) {
            Ok(text) => Ok(text),
            Err(cause) => Err(gbk_failure_prefix() + cause),
        }
    }
}

/// The text of bytes on a host. A Windows host reads them as UTF-8, then as
/// GBK, and only then lossily; any other host reads them lossily at once.
pub open spec fn text_of(bytes: Seq<u8>, windows: bool) -> Seq<char> {
    if windows {
        match utf8_or_gbk(bytes) {
            Ok(text) => text,
            Err(_) => utf8_lossy_of(bytes),
        }
    } else {
        utf8_lossy_of(bytes)
    }
}

/// Decodes bytes as UTF-8 and, where they are not, as GBK.
pub fn try_utf8_or_gbk_decode(s: &[u8]) -> (r: Result<String, String>)
    ensures
        decoding_view(r) == utf8_or_gbk(s@),
{
    match utf8_strict(s) {
        Some(text) => Ok(text),
        None => match gbk_replacing(s) {
            Ok(text) => Ok(text),
            Err(cause) => {
                let message = String::from_str("GBK decoding failed: ").concat(cause.as_str());
                Err(message)
            },
        },
    }
}

/// Decodes bytes to text on a host, never failing: what cannot be decoded
/// is replaced. Valid UTF-8 decodes to the text it encodes on every host.
pub fn utf8_or_gbk_to_string(s: &[u8], windows: bool) -> (r: String)
    ensures
        r@ == text_of(s@, windows),
        valid_utf8(s@) ==> r@ == decode_utf8(s@),
{
    if windows {
        match try_utf8_or_gbk_decode(s) {
            Ok(decoded) => decoded,
            Err(_) => utf8_lossy(s),
        }
    } else {
        utf8_lossy(s)
    }
}

} // verus!
