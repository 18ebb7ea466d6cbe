//! Password hashing, done by Argon2 with its default parameters and a
//! random salt. The hash is kept as a PHC string, which names the
//! algorithm and carries its parameters and the salt.

use argon2::password_hash::rand_core::OsRng;
use argon2::password_hash::SaltString;
use argon2::{Argon2, PasswordHash, PasswordHasher, PasswordVerifier};
use vstd::prelude::*;
use vstd::string::{StrSliceExecFns, StringExecFns, StringSliceAdditionalSpecFns};

verus! {

/// The longest password, in bytes of UTF-8, that the hasher takes.
pub const MAX_PASSWORD_BYTES: usize = 0xFFFF_FFFF;

/// How many characters the number of lanes in a hash may have. Argon2
/// writes the number in 1 to 8 digits.
pub const MAX_LANES_DIGITS: usize = 8;

/// How many characters the memory size in a hash may have. The size is in
/// KiB; with 6 digits it stays under 1 GiB, which every target can address.
pub const MAX_MEMORY_DIGITS: usize = 6;

/// The parameters that the PHC string `encoded` carries, each as its name
/// and its value, in the order in which they are written; `None` where the
/// string does not parse. It is what `PasswordHash::new` makes of the string
/// and `ParamsString::iter` then hands out.
pub uninterp spec fn hash_params(encoded: Seq<char>) -> Option<Seq<(Seq<char>, Seq<char>)>>;

/// Whether Argon2, run on `password` with the parameters and salt that the
/// PHC string `encoded` carries, arrives at the output that `encoded`
/// carries.
pub uninterp spec fn hash_matches(password: Seq<char>, encoded: Seq<char>) -> bool;

/// Whether a parameter asks for no more than the hasher is given: the
/// number of lanes, `p`, and the memory size, `m`, are short enough.
pub open spec fn param_in_bounds(name: Seq<char>, value: Seq<char>) -> bool {
    &&& name == "p"@ ==> value.len() <= MAX_LANES_DIGITS
    &&& name == "m"@ ==> value.len() <= MAX_MEMORY_DIGITS
}

/// Whether every one of `params` is in bounds. A name may occur more than
/// once; the hasher goes by the last, so all are held to the bound.
pub open spec fn params_in_bounds(params: Seq<(Seq<char>, Seq<char>)>) -> bool {
    forall|i: int| 0 <= i < params.len() ==> param_in_bounds((#[trigger] params[i]).0, params[i].1)
}

/// Whether `encoded` is a hash that can be verified against: it parses as
/// a PHC string, and its parameters are in bounds.
pub open spec fn hash_verifiable(encoded: Seq<char>) -> bool {
    hash_params(encoded) matches Some(params) && params_in_bounds(params)
}

/// Parameters that may be there, as contracts see them.
pub open spec fn params_view(params: Option<Vec<(String, String)>>) -> Option<
    Seq<(Seq<char>, Seq<char>)>,
> {
    match params {
        Some(params) => Some(params@.map_values(|pair: (String, String)| (pair.0@, pair.1@))),
        None => None,
    }
}

/// Calls `PasswordHash::new` and, where it accepts the string, hands out
/// what `ParamsString::iter` yields, each name and value as a string.
/// Believed, not proved: the answer is `hash_params` of the string.
#[verifier::external_body]
fn parse_hash_params(hashed_password: &str) -> (params: Option<Vec<(String, String)>>)
    ensures
        params_view(params) == hash_params(hashed_password@),
{
    match PasswordHash::new(hashed_password) {
        Ok(hash) => Some(
            hash.params.iter().map(
                |(name, value)| (name.as_str().to_string(), value.as_str().to_string()),
            ).collect(),
        ),
        Err(_) => None,
    }
}

/// Whether `hashed_password` is a hash that can be verified against.
pub fn hash_is_verifiable(hashed_password: &str) -> (ok: bool)
    ensures
        ok == hash_verifiable(hashed_password@),
{
    let params = match parse_hash_params(hashed_password) {
        Some(params) => params,
        None => {
            return false;
        },
    };
    let lanes = String::from_str("p");
    let memory = String::from_str("m");
    let ghost pairs = params@.map_values(|pair: (String, String)| (pair.0@, pair.1@));
    assert(hash_params(hashed_password@) == Some(pairs));
    let mut i: usize = 0;
    while i < params.len()
        invariant
            i <= params@.len(),
            lanes@ == "p"@,
            memory@ == "m"@,
            hash_params(hashed_password@) == Some(pairs),
            pairs == params@.map_values(|pair: (String, String)| (pair.0@, pair.1@)),
            forall|k: int| 0 <= k < i ==> param_in_bounds((#[trigger] pairs[k]).0, pairs[k].1),
        decreases params@.len() - i,
    {
        let length = params[i].1.as_str().unicode_len();
        if params[i].0 == lanes && length > MAX_LANES_DIGITS {
            assert(!param_in_bounds(pairs[i as int].0, pairs[i as int].1));
            return false;
        }
        if params[i].0 == memory && length > MAX_MEMORY_DIGITS {
            assert(!param_in_bounds(pairs[i as int].0, pairs[i as int].1));
            return false;
        }
        i += 1;
    }
    true
}

/// Calls `Argon2::verify_password` on the password and the parsed hash.
/// Believed, not proved: the answer is `hash_matches` of the two strings.
/// The precondition leaves out what the call cannot take: a string that
/// does not parse, a number of lanes that the hasher cannot multiply, and a
/// memory size that cannot be asked for on every target. See [`check_hash`]
/// for a caller that cannot know. Argon2 takes the memory and runs the
/// passes that the hash asks for.
#[verifier::external_body]
pub fn verify_password(password: &str, hashed_password: &str) -> (ok: bool)
    requires
        hash_verifiable(hashed_password@),
    ensures
        ok == hash_matches(password@, hashed_password@),
{
    let argon2 = Argon2::default();
    let stored_hash = PasswordHash::new(hashed_password).expect("stored hash is in invalid format");
    argon2.verify_password(password.as_bytes(), &stored_hash).is_ok()
}

/// Calls `SaltString::generate` for a fresh salt and `Argon2::hash_password`
/// with it, and returns the PHC string. Believed, not proved: whatever salt
/// was drawn, the string parses, carries Argon2's default parameters, which
/// are in bounds, and matches the password it was made from.
/// Argon2 refuses a password of more than `MAX_PASSWORD_BYTES` bytes, which
/// the precondition leaves out.
#[verifier::external_body]
pub fn generate_hash(password: &str) -> (hash: String)
    requires
        password.spec_bytes().len() <= MAX_PASSWORD_BYTES,
    ensures
        hash_verifiable(hash@),
        hash_matches(password@, hash@),
{
    let argon2 = Argon2::default();
    let salt = SaltString::generate(OsRng);
    argon2.hash_password(password.as_bytes(), &salt).expect("error whilst hashing password").to_string()
}

/// Verifies a password against a stored hash that may be damaged: `None`
/// where the hash cannot be verified against, else whether the password
/// matches.
pub fn check_hash(password: &str, hashed_password: &str) -> (verdict: Option<bool>)
    ensures
        verdict == (if hash_verifiable(hashed_password@) {
            Some(hash_matches(password@, hashed_password@))
        } else {
            None::<bool>
        }),
{
    if hash_is_verifiable(hashed_password) {
        Some(verify_password(password, hashed_password))
    } else {
        None
    }
}

} // verus!
