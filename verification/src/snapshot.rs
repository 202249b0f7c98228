//! Player snapshots: turning screenshot bytes into the inline image value
//! the delivery backend expects.

use vstd::prelude::*;
use crate::codec::json_safe;
use crate::wire::cat;

verus! {

/// The standard base64 rendering of a byte sequence, named here because its
/// definition is the base64 crate's business; it depends on the bytes alone.
pub uninterp spec fn base64_of(bytes: Seq<u8>) -> Seq<char>;

/// Relies on base64's `STANDARD` engine via `Engine::encode`: the rendering
/// is a function of the bytes alone, over an alphabet of letters, digits,
/// `+`, `/` and `=`, which is free of quotes and backslashes.
#[verifier::external_body]
fn encode_base64(bytes: &Vec<u8>) -> (r: String)
    ensures
        r@ == base64_of(bytes@),
        json_safe(r@),
{
    base64::Engine::encode(&base64::engine::general_purpose::STANDARD, bytes)
}

/// The inline PNG data URI carrying the screenshot bytes.
pub fn data_uri_png(bytes: &Vec<u8>) -> (r: String)
    ensures
        r@ == "data:image/png;base64,"@ + base64_of(bytes@),
        json_safe(r@),
{
    let r = cat("data:image/png;base64,", encode_base64(bytes));
    proof {
        reveal_strlit("data:image/png;base64,");
        assert forall|i: int| 0 <= i < r@.len() implies #[trigger] r@[i] != '"' && r@[i] != '\\' by {
            if i < "data:image/png;base64,"@.len() {
                assert(r@[i] == "data:image/png;base64,"@[i]);
            } else {
                assert(r@[i] == base64_of(bytes@)[i - "data:image/png;base64,"@.len()]);
            }
        }
    }
    r
}

} // verus!
