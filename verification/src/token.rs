//! Login tokens: short random strings that stand for a login.

use base64::Engine;
use rand::Rng;
use vstd::prelude::*;

verus! {

/// How many random bytes go into a token: 56 bits.
pub const TOKEN_ENTROPY_BYTES: usize = 7;

/// The opaque credential that a login hands out.
#[derive(Debug)]
pub struct LoginToken(pub String);

impl View for LoginToken {
    type V = Seq<char>;

    open spec fn view(&self) -> Seq<char> {
        self.0@
    }
}

impl Clone for LoginToken {
    fn clone(&self) -> (r: Self)
        ensures
            r == *self,
    {
        LoginToken(self.0.clone())
    }
}

impl PartialEq for LoginToken {
    fn eq(&self, other: &Self) -> (r: bool)
    {
        self.0 == other.0
    }
}

impl Eq for LoginToken {
}

impl vstd::std_specs::cmp::PartialEqSpecImpl for LoginToken {
    open spec fn obeys_eq_spec() -> bool {
        true
    }

    open spec fn eq_spec(&self, other: &Self) -> bool {
        self.0@ == other.0@
    }
}

/// The text that the standard base64 alphabet, without padding, gives for
/// `bytes`: what `STANDARD_NO_PAD.encode` returns.
pub uninterp spec fn base64_no_pad(bytes: Seq<u8>) -> Seq<char>;

/// How long the text for `count` bytes is: four characters for every three
/// bytes, and two or three for the one or two bytes that are left over.
pub open spec fn encoded_length(count: nat) -> nat {
    (count / 3) * 4 + (if count % 3 == 0 {
        0nat
    } else if count % 3 == 1 {
        2nat
    } else {
        3nat
    })
}

/// Whether `token` is the text of `TOKEN_ENTROPY_BYTES` bytes: the shape of
/// a token that was drawn.
pub open spec fn is_generated(token: Seq<char>) -> bool {
    exists|bytes: Seq<u8>|
        bytes.len() == TOKEN_ENTROPY_BYTES && token == #[trigger] base64_no_pad(bytes)
}

/// Calls `Rng::gen` on the thread's generator for one byte. Nothing is
/// claimed of the byte.
#[verifier::external_body]
fn random_byte() -> u8 {
    rand::thread_rng().gen()
}

/// Calls `Engine::encode` on `STANDARD_NO_PAD`. Believed, not proved: the
/// text is `base64_no_pad` of the bytes, and as long as the encoder sizes
/// its buffer. The encoder stops the program where
/// the length of the text would not fit in `usize`, which the precondition
/// leaves out.
#[verifier::external_body]
fn encode_no_pad(bytes: &Vec<u8>) -> (text: String)
    requires
        (bytes@.len() / 3) * 4 + 3 <= usize::MAX,
    ensures
        text@ == base64_no_pad(bytes@),
        text@.len() == encoded_length(bytes@.len()),
{
    base64::engine::general_purpose::STANDARD_NO_PAD.encode(bytes)
}

impl LoginToken {
    /// The token that stands for the given random bytes.
    pub fn from_entropy(bytes: &Vec<u8>) -> (token: LoginToken)
        requires
            (bytes@.len() / 3) * 4 + 3 <= usize::MAX,
        ensures
            token@ == base64_no_pad(bytes@),
            token@.len() == encoded_length(bytes@.len()),
    {
        LoginToken(encode_no_pad(bytes))
    }

    /// A token from `TOKEN_ENTROPY_BYTES` fresh random bytes.
    pub fn generate() -> (token: LoginToken)
        ensures
            is_generated(token@),
            token@.len() == 10,
    {
        let mut data: Vec<u8> = Vec::new();
        while data.len() < TOKEN_ENTROPY_BYTES
            invariant
                data@.len() <= TOKEN_ENTROPY_BYTES,
            decreases TOKEN_ENTROPY_BYTES - data@.len(),
        {
            data.push(random_byte());
        }
        LoginToken::from_entropy(&data)
    }
}

} // verus!
