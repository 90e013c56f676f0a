//! UTF-8 decoding and trailing-NUL stripping for name fields.

use vstd::prelude::*;

verus! {

/// What `String::from_utf8` makes of a byte sequence: `Some` of the decoded
/// characters exactly when the bytes are valid UTF-8, `None` otherwise.
/// The result depends on the bytes alone.
pub uninterp spec fn utf8_decoding(b: Seq<u8>) -> Option<Seq<char>>;

/// `s` with every trailing NUL character removed.
pub open spec fn strip_trailing_nuls(s: Seq<char>) -> Seq<char>
    decreases s.len(),
{
    if s.len() > 0 && s.last() == '\0' {
        strip_trailing_nuls(s.drop_last())
    } else {
        s
    }
}

/// Relies on `String::from_utf8`: it returns `Ok` exactly on valid UTF-8
/// input, and the resulting characters are a function of the bytes alone.
#[verifier::external_body]
pub fn bytes_to_string(bytes: Vec<u8>) -> (r: Option<String>)
    ensures
        r is Some <==> utf8_decoding(bytes@) is Some,
        r matches Some(s) ==> utf8_decoding(bytes@) == Some(s@),
{
    match String::from_utf8(bytes) {
        Ok(s) => Some(s),
        Err(_) => None,
    }
}

/// Relies on `str::trim_end_matches` with a `char` pattern: it removes every
/// trailing occurrence of that character and nothing else.
#[verifier::external_body]
pub fn trim_trailing_nuls(s: String) -> (r: String)
    ensures
        r@ == strip_trailing_nuls(s@),
{
    s.trim_end_matches('\0').to_string()
}

} // verus!
