use vstd::prelude::*;

verus! {

/// Why an upload or a lookup did not succeed.
#[derive(Clone, Copy, Debug, PartialEq, Eq, Structural)]
pub enum UploadError {
    /// The mapping store could not be opened, read or written.
    StoreUnavailable,
    /// Every candidate identifier that was tried is already taken.
    AllocationExhausted,
    /// A stored key or value is not valid text.
    EncodingError,
    /// The identifier or the filename is unknown.
    NotFound,
    /// Staging or publishing a file failed.
    IoError,
    /// The upload held no bytes.
    EmptyUpload,
}

impl UploadError {
    /// What went wrong, in words.
    pub fn describe(&self) -> (words: &'static str)
        ensures
            words@ == match *self {
                UploadError::StoreUnavailable => "the store is unavailable"@,
                UploadError::AllocationExhausted => "failed to find a free short id"@,
                UploadError::EncodingError => "failed to convert query result to string"@,
                UploadError::NotFound => "not found"@,
                UploadError::IoError => "failed to store the file"@,
                UploadError::EmptyUpload => "the upload is empty"@,
            },
    {
        match self {
            UploadError::StoreUnavailable => "the store is unavailable",
            UploadError::AllocationExhausted => "failed to find a free short id",
            UploadError::EncodingError => "failed to convert query result to string",
            UploadError::NotFound => "not found",
            UploadError::IoError => "failed to store the file",
            UploadError::EmptyUpload => "the upload is empty",
        }
    }
}

} // verus!
