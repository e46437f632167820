//! Random candidates for short identifiers.

use vstd::prelude::*;
use vstd::utf8::*;
use rand::Rng;
use crate::text::{ascii_chars, ascii_string, is_alphanumeric, is_ascii_bytes, is_short_id, lemma_ascii_text};

verus! {

/// The shortest identifier that is drawn.
pub const MIN_ID_LEN: usize = 3;

/// The longest identifier that is drawn.
pub const MAX_ID_LEN: usize = 8;

/// Draws a number between `low` and `high`, both included.
///
/// Calls `Rng::gen_range` on the thread's generator with the inclusive
/// range, which must not be empty.
#[verifier::external_body]
fn random_between(low: usize, high: usize) -> (n: usize)
    requires
        low <= high,
    ensures
        low <= n <= high,
{
    rand::thread_rng().gen_range(low..=high)
}

/// Draws an ASCII letter or digit.
///
/// Calls `Rng::sample` on the thread's generator with the distribution
/// `Alphanumeric`, which yields one of a-z, A-Z and 0-9.
#[verifier::external_body]
fn random_alphanumeric() -> (b: u8)
    ensures
        is_alphanumeric(b),
{
    rand::thread_rng().sample(rand::distributions::Alphanumeric)
}

/// Draws a candidate for a short identifier: three to eight letters and
/// digits.
pub fn random_short_id() -> (id: String)
    ensures
        is_short_id(encode_utf8(id@)),
{
    let len = random_between(MIN_ID_LEN, MAX_ID_LEN);
    let mut bytes: Vec<u8> = Vec::new();
    while bytes.len() < len
        invariant
            bytes@.len() <= len,
            forall|k: int| 0 <= k < bytes@.len() ==> is_alphanumeric(#[trigger] bytes@[k]),
        decreases len - bytes@.len(),
    {
        bytes.push(random_alphanumeric());
    }
    proof {
        assert(is_ascii_bytes(bytes@)) by {
            assert forall|k: int| 0 <= k < bytes@.len() implies #[trigger] bytes@[k] < 128 by {
                assert(is_alphanumeric(bytes@[k]));
            }
        }
        lemma_ascii_text(bytes@);
    }
    ascii_string(bytes.as_slice())
}

} // verus!
