//! Input rules for new accounts.
use vstd::prelude::*;
use vstd::utf8::encode_utf8;
use crate::models::RegisterRequest;
use crate::text::{lowercased, to_lowercase, trim, trimmed};

verus! {

/// The least length of a user name, in bytes, after trimming.
pub const MIN_USERNAME_BYTES: usize = 3;

/// The least length of a password, in bytes.
pub const MIN_PASSWORD_BYTES: usize = 6;

/// A registration that passed the input rules, normalized.
#[derive(Debug, Clone)]
pub struct NewAccount {
    pub username: String,
    pub email: String,
    pub display_name: String,
}

/// Why a registration was turned down.
#[derive(Debug, Clone, Copy, PartialEq, Eq)]
pub enum RegistrationError {
    /// The user name or the password is too short.
    TooShort,
}

/// The length in bytes of the UTF-8 encoding of `s`, as `str::len` gives it.
pub open spec fn byte_len(s: Seq<char>) -> usize {
    encode_utf8(s).len() as usize
}

/// Checks and normalizes a registration: the user name is trimmed and must
/// then hold at least 3 bytes, the password at least 6; the e-mail address
/// is trimmed and lower-cased; the display name defaults to the user name.
pub fn validate_registration(req: &RegisterRequest) -> (r: Result<NewAccount, RegistrationError>)
    ensures
        r is Err <==> byte_len(trimmed(req.username@)) < MIN_USERNAME_BYTES || byte_len(
            req.password@,
        ) < MIN_PASSWORD_BYTES,
        r matches Ok(a) ==> {
            &&& a.username@ == trimmed(req.username@)
            &&& a.email@ == lowercased(trimmed(req.email@))
            &&& a.display_name@ == match req.display_name {
                Some(d) => d@,
                None => trimmed(req.username@),
            }
        },
{
    let username = trim(req.username.as_str());
    if username.len() < MIN_USERNAME_BYTES || req.password.as_str().len() < MIN_PASSWORD_BYTES {
        return Err(RegistrationError::TooShort);
    }
    let email = to_lowercase(trim(req.email.as_str()));
    let display_name = match &req.display_name {
        Some(d) => d.clone(),
        None => username.to_owned(),
    };
    Ok(NewAccount { username: username.to_owned(), email, display_name })
}

} // verus!
