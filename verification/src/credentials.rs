//! Reading the generated root credential of an instance back out of its
//! secret.
use vstd::prelude::*;

verus! {

use vstd::string::StringExecFns;
use vstd::utf8::{decode_utf8, valid_utf8};

/// Why a credential could not be read.
#[derive(PartialEq, Eq, Structural, Debug)]
pub enum CredentialError {
    /// No secret value exists for the instance.
    NotFound,
    /// The stored value is not validly encoded text.
    Decode,
}

/// The name of the secret holding one instance's credential.
pub open spec fn instance_secret_name(instance: Seq<char>) -> Seq<char> {
    "moonscale-instance-"@ + instance
}

/// The name text of the secret holding one instance's credential.
pub fn instance_secret_name_text(instance: &str) -> (r: String)
    ensures
        r@ == instance_secret_name(instance@),
{
    let mut s: String = "moonscale-instance-".to_owned();
    s.append(instance);
    s
}

/// Relies on std's `String::from_utf8`: succeeds exactly on valid UTF-8,
/// and then decodes it.
#[verifier::external_body]
fn string_from_utf8(bytes: Vec<u8>) -> (r: Option<String>)
    ensures
        r is Some <==> valid_utf8(bytes@),
        r matches Some(s) ==> s@ == decode_utf8(bytes@),
{
    String::from_utf8(bytes).ok()
}

/// Decode an instance's root password from its stored secret value.
///
/// An absent secret is the distinguished not-found failure; a value that
/// is not valid text is a decode failure; anything else is returned as the
/// credential.
pub fn read_password(secret_value: Option<Vec<u8>>) -> (r: Result<String, CredentialError>)
    ensures
        match r {
            Ok(s) => secret_value matches Some(b) && valid_utf8(b@) && s@ == decode_utf8(b@),
            Err(CredentialError::NotFound) => secret_value is None,
            Err(CredentialError::Decode) => secret_value matches Some(b) && !valid_utf8(b@),
        },
{
    match secret_value {
        None => Err(CredentialError::NotFound),
        Some(bytes) => match string_from_utf8(bytes) {
            Some(s) => Ok(s),
            None => Err(CredentialError::Decode),
        },
    }
}

} // verus!
