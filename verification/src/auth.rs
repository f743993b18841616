//! Reading the GitHub token that `gh auth token` prints.
use vstd::prelude::*;
use vstd::utf8::{decode_utf8, valid_utf8};

use crate::error::{Error, Result};
use crate::text::{trim, trim_str};

verus! {

/// What `String::from_utf8_lossy` decodes `bytes` to.
pub uninterp spec fn utf8_lossy(bytes: Seq<u8>) -> Seq<char>;

/// `String::from_utf8_lossy(bytes)`, as an owned string.
///
/// Trusted: the result is named `utf8_lossy(bytes)`; std documents that valid UTF-8 is
/// decoded as is. How invalid sequences are replaced by U+FFFD is not stated.
#[verifier::external_body]
fn decode_lossy(bytes: &[u8]) -> (s: String)
    ensures
        s@ == utf8_lossy(bytes@),
        valid_utf8(bytes@) ==> s@ == decode_utf8(bytes@),
{
    String::from_utf8_lossy(bytes).into_owned()
}

/// The token, from whether `gh auth token` succeeded and what it printed: the trimmed
/// output, or `AuthFailure` when the command failed or printed nothing but whitespace.
pub fn token_from_output(success: bool, stdout: &[u8]) -> (r: Result<String>)
    ensures
        r is Ok <==> success && stdout@.len() > 0 && trim(utf8_lossy(stdout@)).len() > 0,
        r matches Ok(t) ==> t@ == trim(utf8_lossy(stdout@)),
        r is Err ==> r == Err::<String, Error>(Error::AuthFailure),
{
    if !success || stdout.len() == 0 {
        return Err(Error::AuthFailure);
    }
    let text = decode_lossy(stdout);
    token_from_text(text.as_str())
}

/// The token in the decoded output `text`: `text` trimmed, or `AuthFailure` when nothing
/// but whitespace is left.
pub fn token_from_text(text: &str) -> (r: Result<String>)
    ensures
        r is Ok <==> trim(text@).len() > 0,
        r matches Ok(t) ==> t@ == trim(text@),
        r is Err ==> r == Err::<String, Error>(Error::AuthFailure),
{
    let token = trim_str(text);
    if token.as_str().unicode_len() == 0 {
        return Err(Error::AuthFailure);
    }
    Ok(token)
}

} // verus!
