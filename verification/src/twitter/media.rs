//! What the answer to an upload of media means.

use crate::twitter::is_success;
use vstd::prelude::*;

verus! {

/// Why media could not be uploaded.
#[derive(Debug)]
pub struct UploadMediaError {
    pub message: String,
}

/// What is said of a file that the API refused.
pub open spec fn refusal_text() -> Seq<char> {
    "Please provide a valid image file. Videos are not supported"@
}

/// What the answer to an upload means, for its status and for what its body
/// was read as: the id of the media, or the message of the reader that could
/// not read it. A status of success with a body that was read gives the id,
/// one with a body that was not read gives the reader's message, and any
/// other status is a refusal of the file.
pub fn upload_outcome(status: u16, parsed: Result<String, String>) -> (r: Result<
    String,
    UploadMediaError,
>)
    ensures
        match r {
            Ok(id) => is_success(status) && (parsed matches Ok(read) && id@ == read@),
            Err(error) => if is_success(status) {
                (parsed matches Err(message) && error.message@ == message@)
            } else {
                error.message@ == refusal_text()
            },
        },
{
    if is_success(status) {
        match parsed {
            Ok(id) => Ok(id),
            Err(message) => Err(UploadMediaError { message }),
        }
    } else {
        Err(
            UploadMediaError {
                message: "Please provide a valid image file. Videos are not supported".to_owned(),
            },
        )
    }
}

} // verus!
