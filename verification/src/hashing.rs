//! The builtin `ARGON(password, salt)` hash: a pure, memory-hard password
//! hash computed by an outside crate.

use vstd::prelude::*;
use vstd::utf8::encode_utf8;

verus! {

/// The Argon2i hash of a password and salt.  The outside crate computes it;
/// the result depends on the two arguments alone.
pub uninterp spec fn argon_of(password: Seq<char>, salt: Seq<char>) -> Seq<u8>;

/// Relies on argon2rs::argon2i_simple: the 32-byte Argon2i hash of the
/// password and salt, a pure function of the two strings.  It panics unless
/// the salt is 8 to 2^32-1 bytes and the password at most 2^32-1 bytes, so
/// those inputs are excluded here.
#[verifier::external_body]
fn argon2i_hash(password: &str, salt: &str) -> (r: Vec<u8>)
    requires
        8 <= encode_utf8(salt@).len() <= 0xffff_ffff,
        encode_utf8(password@).len() <= 0xffff_ffff,
    ensures
        r@ == argon_of(password@, salt@),
        r@.len() == 32,
{
    argon2rs::argon2i_simple(password, salt).to_vec()
}

/// Whether `ARGON` accepts these arguments: the salt must be 8 to 2^32-1
/// bytes and the password at most 2^32-1 bytes.
pub open spec fn spec_argon_args_ok(password: Seq<char>, salt: Seq<char>) -> bool {
    &&& 8 <= encode_utf8(salt).len() <= 0xffff_ffff
    &&& encode_utf8(password).len() <= 0xffff_ffff
}

/// Compute the `ARGON(password, salt)` builtin: the 32-byte Argon2i hash,
/// or nothing when the argument lengths are out of range.
pub fn argon_hash(password: &str, salt: &str) -> (r: Option<Vec<u8>>)
    ensures
        r is Some <==> spec_argon_args_ok(password@, salt@),
        r matches Some(h) ==> h@ == argon_of(password@, salt@) && h@.len() == 32,
{
    let salt_len = salt.as_bytes().len();
    let password_len = password.as_bytes().len();
    if 8 <= salt_len && salt_len as u64 <= 0xffff_ffff && password_len as u64 <= 0xffff_ffff {
        Some(argon2i_hash(password, salt))
    } else {
        None
    }
}

} // verus!
