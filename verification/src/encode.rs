use vstd::prelude::*;

use crate::errors::CompileError;

verus! {

/// The standard base64 rendering (padded, not line-wrapped) of a byte
/// string.
pub uninterp spec fn base64_of(bytes: Seq<u8>) -> Seq<char>;

/// Relies on base64's `Engine::encode` with the `STANDARD` engine: the
/// rendering depends on the input bytes alone, and a padded rendering is
/// four characters for every started group of three bytes.
#[verifier::external_body]
fn base64_encode(bytes: &Vec<u8>) -> (r: String)
    requires
        4 * ((bytes@.len() + 2) / 3) <= usize::MAX as nat,
    ensures
        r@ == base64_of(bytes@),
        r@.len() == 4 * ((bytes@.len() + 2) / 3),
{
    base64::Engine::encode(&base64::engine::general_purpose::STANDARD, bytes.as_slice())
}

/// Encode a finished invocation's outcome for transport: harvested output
/// bytes become their standard base64 rendering, never empty unless the
/// output itself was empty; an error is returned as it is.
pub fn encode_outcome(outcome: Result<Vec<u8>, CompileError>) -> (r: Result<String, CompileError>)
    requires
        outcome matches Ok(b) ==> 4 * ((b@.len() + 2) / 3) <= usize::MAX as nat,
    ensures
        outcome matches Ok(b) ==> (r is Ok && r->Ok_0@ == base64_of(b@) && r->Ok_0@.len() == 4 * (
        (b@.len() + 2) / 3) && (b@.len() > 0 ==> r->Ok_0@.len() > 0)),
        outcome matches Err(e) ==> (r is Err && r->Err_0 == e),
{
    match outcome {
        Ok(bytes) => Ok(base64_encode(&bytes)),
        Err(e) => Err(e),
    }
}

} // verus!
