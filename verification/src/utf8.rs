//! Reading bytes as text.

use vstd::prelude::*;
use vstd::string::*;
use vstd::utf8::*;

verus! {

/// What `std::str::from_utf8` says of bytes that are not UTF-8.
pub uninterp spec fn utf8_fault(bytes: Seq<u8>) -> Seq<char>;

/// `std::str::from_utf8`: the text that bytes encode, if they are valid UTF-8.
/// What is said of bytes that are not is named, not described.
#[verifier::external_body]
pub(crate) fn from_utf8(bytes: &[u8]) -> (out: Result<&str, String>)
    ensures
        match out {
            Ok(s) => valid_utf8(bytes@) && s@ == decode_utf8(bytes@),
            Err(message) => !valid_utf8(bytes@) && message@ == utf8_fault(bytes@),
        },
{
    std::str::from_utf8(bytes).map_err(|e| e.to_string())
}

} // verus!
