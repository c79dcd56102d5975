//! The errors of the MangaDex service.
use vstd::prelude::*;

verus! {

/// Why a request to MangaDex, or the work around it, failed.
///
/// The library's own logic produces `ChapterDownloadError` and `InternalError`;
/// the other kinds stand for failures of the I/O around it (files, tasks, the
/// rate-limit semaphore, HTTP, and (de)serialisation).
#[derive(Clone, Copy, Debug, PartialEq, Eq, Structural)]
pub enum MangadexServiceError {
    ChapterDownloadError,
    InternalError,
    IoError,
    JoinError,
    PayloadError,
    AcquireError,
    SendRequestError,
    SerdeError,
    UrlEncodeError,
}

impl MangadexServiceError {
    /// The human-readable text of each error kind.
    pub open spec fn spec_message(self) -> Seq<char> {
        match self {
            MangadexServiceError::ChapterDownloadError => "chapter download error"@,
            MangadexServiceError::InternalError => "internal error"@,
            MangadexServiceError::IoError => "io error"@,
            MangadexServiceError::JoinError => "join error"@,
            MangadexServiceError::PayloadError => "failed to retrieve payload"@,
            MangadexServiceError::AcquireError => "failed to acquire semaphore"@,
            MangadexServiceError::SendRequestError => "failed to send request"@,
            MangadexServiceError::SerdeError => "failed to deserialize"@,
            MangadexServiceError::UrlEncodeError => "failed to serialize error"@,
        }
    }

    /// The text shown for this error.
    pub fn message(&self) -> (res: String)
        ensures
            res@ == self.spec_message(),
    {
        match self {
            MangadexServiceError::ChapterDownloadError => "chapter download error".to_owned(),
            MangadexServiceError::InternalError => "internal error".to_owned(),
            MangadexServiceError::IoError => "io error".to_owned(),
            MangadexServiceError::JoinError => "join error".to_owned(),
            MangadexServiceError::PayloadError => "failed to retrieve payload".to_owned(),
            MangadexServiceError::AcquireError => "failed to acquire semaphore".to_owned(),
            MangadexServiceError::SendRequestError => "failed to send request".to_owned(),
            MangadexServiceError::SerdeError => "failed to deserialize".to_owned(),
            MangadexServiceError::UrlEncodeError => "failed to serialize error".to_owned(),
        }
    }
}

} // verus!
