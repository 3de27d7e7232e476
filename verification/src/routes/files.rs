//! Requests on scanned files: download, rename, delete, thumbnail.

use vstd::prelude::*;
use crate::error::{AppError, ErrorView};
use crate::files::{
    FileInfo, extension_of, extension_text, file_info, file_view, modified_text, rfc3339_text,
    writable_time,
};

verus! {

/// A request to give a file a new name.
#[derive(Debug, PartialEq, Eq)]
pub struct RenameRequest {
    pub new_name: String,
}

/// The message for a file that does not exist.
pub open spec fn missing_file_message(filename: Seq<char>) -> Seq<char> {
    "File '"@ + filename + "' does not exist"@
}

/// The answer for a file that does not exist.
pub fn missing_file(filename: &str) -> (e: AppError)
    ensures
        e@ == ErrorView::NotFound(missing_file_message(filename@)),
{
    let mut m = String::from_str("File '");
    m.append(filename);
    m.append("' does not exist");
    AppError::NotFound(m)
}

/// The answer for a thumbnail that does not exist.
pub fn missing_thumbnail() -> (e: AppError)
    ensures
        e@ == ErrorView::NotFound("Thumbnail not found"@),
{
    AppError::NotFound(String::from_str("Thumbnail not found"))
}

/// The media type that `mime_guess` guesses from the extension of a path.
pub uninterp spec fn mime_for_path(path: Seq<char>) -> Seq<char>;

/// The media type of the file at `path`, guessed from its extension:
/// `mime_guess::from_path`, then `first_or_octet_stream`, written as text.
/// The contract names the result and claims nothing more.
#[verifier::external_body]
fn guess_mime(path: &str) -> (m: String)
    ensures
        m@ == mime_for_path(path@),
{
    mime_guess::from_path(path).first_or_octet_stream().to_string()
}

/// The header value that offers `filename` as an attachment.
pub open spec fn attachment_text(filename: Seq<char>) -> Seq<char> {
    "attachment; filename=\""@ + filename + "\""@
}

/// The headers of a download of file `filename` stored at `path`: its
/// media type, and the disposition that offers it as an attachment.
pub fn download_headers(path: &str, filename: &str) -> (h: (String, String))
    ensures
        h.0@ == mime_for_path(path@),
        h.1@ == attachment_text(filename@),
{
    let mime = guess_mime(path);
    let mut disposition = String::from_str("attachment; filename=\"");
    disposition.append(filename);
    disposition.append("\"");
    (mime, disposition)
}

/// The description of file `filename`, stored at `path` in directory `dir`,
/// as a delete request reports it.
pub fn removed_file_info(
    dir: &str,
    filename: &str,
    path: &str,
    size: u64,
    modified_secs: i64,
    modified_nanos: u32,
) -> (f: FileInfo)
    requires
        writable_time(modified_secs, modified_nanos),
    ensures
        f@ == file_view(
            path@,
            filename@,
            extension_text(filename@),
            dir@,
            size,
            rfc3339_text(modified_secs, modified_nanos),
        ),
{
    file_info(
        String::from_str(path),
        String::from_str(filename),
        extension_of(filename),
        String::from_str(dir),
        size,
        modified_text(modified_secs, modified_nanos),
    )
}

} // verus!
