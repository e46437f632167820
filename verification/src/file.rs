//! Uploaded files: the record of a staged upload and the checksum of its
//! content.

use vstd::prelude::*;
use std::sync::Arc;
use sha2::Digest;
use crate::error::UploadError;
use crate::text::{hex_lower, lemma_hex_digits, to_hex};
use crate::util::is_hex_digit;

verus! {

/// An upload that is being received: the filename that the client gave and
/// the random name under which its bytes are staged.
pub struct FileInfo {
    pub original_filename: Arc<str>,
    pub uuid: Arc<str>,
}

/// The SHA-256 digest of `data`.
pub uninterp spec fn sha256(data: Seq<u8>) -> Seq<u8>;

/// Computes the SHA-256 digest of `data`.
///
/// Calls `Sha256::digest` of the crate sha2. The digest is 32 bytes long.
#[verifier::external_body]
fn sha256_digest(data: &[u8]) -> (digest: Vec<u8>)
    ensures
        digest@ == sha256(data@),
        digest@.len() == 32,
{
    sha2::Sha256::digest(data).to_vec()
}

/// The checksum of content: its SHA-256 digest in lower-case hexadecimal.
pub open spec fn checksum_of(contents: Seq<u8>) -> Seq<char> {
    hex_lower(sha256(contents))
}

/// Computes the checksum of the content of a staged file. Content without
/// bytes is no upload and has no checksum.
pub fn get_sha256_of_file(contents: &[u8]) -> (r: Result<String, UploadError>)
    ensures
        contents@.len() == 0 <==> r is Err,
        r matches Err(reason) ==> reason == UploadError::EmptyUpload,
        r matches Ok(checksum) ==> checksum@ == checksum_of(contents@),
        r matches Ok(checksum) ==> checksum@.len() == 64,
        r matches Ok(checksum) ==> forall|i: int| 0 <= i < 64 ==> is_hex_digit(#[trigger] checksum@[i]),
{
    if contents.len() == 0 {
        return Err(UploadError::EmptyUpload);
    }
    let digest = sha256_digest(contents);
    proof {
        lemma_hex_digits(digest@);
    }
    Ok(to_hex(digest.as_slice()))
}

} // verus!
