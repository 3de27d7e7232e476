//! Scans and previews: preparing the scanner's command, reading what it
//! reports, and answering the client.

use vstd::prelude::*;
use crate::device::{epson_v600, epson_v600_model};
use crate::error::{AppError, ErrorView, unit_outcome};
use crate::files::{
    FileInfo, extension_of, extension_text, file_info, file_view, joined, join_path, modified_text,
    path_file_name, path_parent, rfc3339_text, writable_time,
};
use crate::scanner::{ScanParams, ScanParamsView};
use crate::scanner::command::{
    build_scan_command, flag_with, scan_command, scan_picture_settings, scan_settings, texts,
};
use crate::scanner::request::{params_problem, validate_params};
use crate::text::{push_signed_decimal, signed_decimal};

verus! {

/// The answer to a scan: the file it produced.
#[derive(Debug, PartialEq, Eq)]
pub struct ScanResponse {
    pub file_info: FileInfo,
}

/// The answer to a preview request: the preview image in base64, or empty.
#[derive(Debug, PartialEq, Eq)]
pub struct PreviewResponse {
    pub content: String,
}

/// What the scanning program reports when it finishes: where it put the
/// scan, the preview and the thumbnail.
#[derive(Debug, PartialEq, Eq)]
pub struct WrapperOutput {
    pub scan_path: Option<String>,
    pub preview_path: Option<String>,
    pub thumbnail_path: Option<String>,
}

/// The command line for a scan with `params` using program `command`, once
/// the Epson Perfection V600 accepts the settings; else why it refuses them.
pub fn scan_arguments(command: &str, params: &ScanParams) -> (r: Result<Vec<String>, AppError>)
    requires
        params.well_formed(),
    ensures
        match params_problem(params@, epson_v600_model()) {
            Some(m) => r matches Err(e) && e@ == ErrorView::BadRequest(m),
            None => r matches Ok(args) && texts(args@) == scan_command(command@, params@),
        },
{
    let device = epson_v600();
    match validate_params(params, &device) {
        Err(e) => Err(e),
        Ok(()) => Ok(build_scan_command(command, params)),
    }
}

/// The message when the scanning program ends in failure with exit code
/// `code` (-1 when it has none) and error output `stderr`.
pub open spec fn exit_message(code: Option<i32>, stderr: Seq<char>) -> Seq<char> {
    let c: int = match code {
        Some(c) => c as int,
        None => -1,
    };
    "scanimage exited with code "@ + signed_decimal(c) + ": "@ + stderr
}

/// Whether the scanning program's end is a success: it is unless it
/// reported failure, in which case the answer names its exit code and error
/// output.
pub fn check_exit(success: bool, code: Option<i32>, stderr: &str) -> (r: Result<(), AppError>)
    ensures
        unit_outcome(r) == (if success {
            None
        } else {
            Some(ErrorView::Internal(exit_message(code, stderr@)))
        }),
{
    if success {
        return Ok(());
    }
    let c: i32 = match code {
        Some(c) => c,
        None => -1,
    };
    let mut m = String::from_str("scanimage exited with code ");
    push_signed_decimal(&mut m, c);
    m.append(": ");
    m.append(stderr);
    Err(AppError::Internal(m))
}

/// The answer when a scan takes longer than allowed.
pub fn scan_timed_out() -> (e: AppError)
    ensures
        e@ == ErrorView::Internal("Scan timed out"@),
{
    AppError::Internal(String::from_str("Scan timed out"))
}

/// The answer when the scanning program cannot be started, for the reason `reason`.
pub fn scan_not_started(reason: &str) -> (e: AppError)
    ensures
        e@ == ErrorView::Internal("Failed to execute scanimage: "@ + reason@),
{
    let mut m = String::from_str("Failed to execute scanimage: ");
    m.append(reason);
    AppError::Internal(m)
}

/// The answer when the scanning program's report `stdout` cannot be read,
/// for the reason `reason`.
pub fn scan_output_unreadable(reason: &str, stdout: &str) -> (e: AppError)
    ensures
        e@ == ErrorView::Internal("Failed to parse scanimage output: "@ + reason@ + ": "@ + stdout@),
{
    let mut m = String::from_str("Failed to parse scanimage output: ");
    m.append(reason);
    m.append(": ");
    m.append(stdout);
    AppError::Internal(m)
}

/// Where the scan is, as the scanning program reported it.
pub fn scan_path_of(output: &WrapperOutput) -> (r: Result<String, AppError>)
    ensures
        match output.scan_path {
            Some(p) => r matches Ok(q) && q@ == p@,
            None => r matches Err(e) && e@ == ErrorView::Internal("No scanPath in output"@),
        },
{
    match &output.scan_path {
        Some(p) => Ok(p.clone()),
        None => Err(AppError::Internal(String::from_str("No scanPath in output"))),
    }
}

/// An optional text, or the empty text.
pub open spec fn or_empty(t: Option<Seq<char>>) -> Seq<char> {
    match t {
        Some(s) => s,
        None => Seq::empty(),
    }
}

/// The description of the scan stored at `scan_path`: its file name,
/// extension and directory taken from the path.
pub fn scanned_file_info(scan_path: String, size: u64, modified_secs: i64, modified_nanos: u32) -> (f:
    FileInfo)
    requires
        writable_time(modified_secs, modified_nanos),
    ensures
        f@ == file_view(
            scan_path@,
            or_empty(path_file_name(scan_path@)),
            extension_text(scan_path@),
            or_empty(path_parent(scan_path@)),
            size,
            rfc3339_text(modified_secs, modified_nanos),
        ),
{
    let name = match crate::files::file_name_of(scan_path.as_str()) {
        Some(n) => n,
        None => String::new(),
    };
    let dir = match crate::files::parent_of(scan_path.as_str()) {
        Some(d) => d,
        None => String::new(),
    };
    let ext = extension_of(scan_path.as_str());
    let modified = modified_text(modified_secs, modified_nanos);
    file_info(scan_path, name, ext, dir, size, modified)
}

/// The settings of a preview: those of `params` with the preview switch on
/// and the preview resolution.
pub fn preview_params(params: ScanParams, preview_resolution: u32) -> (p: ScanParams)
    ensures
        p@ == (ScanParamsView { is_preview: Some(true), resolution: preview_resolution, ..params@ }),
        p.well_formed() == params.well_formed(),
{
    let mut p = params;
    p.is_preview = Some(true);
    p.resolution = preview_resolution;
    p
}

/// A preview's command line asks for a preview, at the preview resolution,
/// with every other setting as the client sent it.
pub proof fn lemma_preview_command(base: Seq<char>, p: ScanParamsView, preview_resolution: u32)
    ensures
        ({
            let q = ScanParamsView { is_preview: Some(true), resolution: preview_resolution, ..p };
            let c = scan_command(base, q);
            &&& c.last() == "--preview"@
            &&& c == seq![base, "-d"@, p.device_id] + scan_settings(q) + seq!["--preview"@]
            &&& scan_picture_settings(q).subrange(
                scan_picture_settings(q).len() - 2,
                scan_picture_settings(q).len() as int,
            ) == seq!["--resolution"@, crate::text::decimal(preview_resolution as nat)]
        }),
{
    let q = ScanParamsView { is_preview: Some(true), resolution: preview_resolution, ..p };
    let pic = scan_picture_settings(q);
    let pre = flag_with("--source"@, q.source) + flag_with("--mode"@, q.mode) + flag_with(
        "--gamma-correction"@,
        q.gamma_correction,
    ) + flag_with("--color-correction"@, q.color_correction) + flag_with(
        "--color-space"@,
        q.color_space,
    );
    assert(pic == pre + seq!["--resolution"@, crate::text::decimal(preview_resolution as nat)]);
    assert(pic.subrange(pic.len() - 2, pic.len() as int) =~= seq![
        "--resolution"@,
        crate::text::decimal(preview_resolution as nat),
    ]);
}

/// Where the current preview image is kept in directory `preview_dir`.
pub fn preview_file(preview_dir: &str) -> (p: String)
    ensures
        p@ == joined(preview_dir@, "preview.jpg"@),
{
    join_path(preview_dir, "preview.jpg")
}

/// The base64 character for the six bits `v`, in the standard alphabet.
pub open spec fn base64_char(v: nat) -> char {
    if v < 26 {
        (v + 65) as char
    } else if v < 52 {
        (v - 26 + 97) as char
    } else if v < 62 {
        (v - 52 + 48) as char
    } else if v == 62 {
        '+'
    } else {
        '/'
    }
}

/// `d` in standard base64 with padding: each group of three bytes becomes
/// four characters, and a final group of one or two bytes is padded with `=`.
pub open spec fn base64_text(d: Seq<u8>) -> Seq<char>
    decreases d.len(),
{
    if d.len() == 0 {
        Seq::empty()
    } else if d.len() == 1 {
        seq![base64_char(d[0] as nat / 4), base64_char((d[0] as nat % 4) * 16), '=', '=']
    } else if d.len() == 2 {
        seq![
            base64_char(d[0] as nat / 4),
            base64_char((d[0] as nat % 4) * 16 + d[1] as nat / 16),
            base64_char((d[1] as nat % 16) * 4),
            '=',
        ]
    } else {
        seq![
            base64_char(d[0] as nat / 4),
            base64_char((d[0] as nat % 4) * 16 + d[1] as nat / 16),
            base64_char((d[1] as nat % 16) * 4 + d[2] as nat / 64),
            base64_char(d[2] as nat % 64),
        ] + base64_text(d.skip(3))
    }
}

/// The length of the base64 text of `n` bytes fits in memory.
pub open spec fn encodable_len(n: nat) -> bool {
    (n + 2) / 3 * 4 <= usize::MAX
}

/// `data` in standard base64 with padding: base64's `STANDARD.encode`.
/// The contract claims the encoding that the standard alphabet and padding
/// define, which is what the crate documents.
#[verifier::external_body]
fn base64_encode(data: &[u8]) -> (t: String)
    requires
        encodable_len(data@.len()),
    ensures
        t@ == base64_text(data@),
{
    base64::Engine::encode(&base64::engine::general_purpose::STANDARD, data)
}

/// The answer to a preview request: the preview image `data` in base64, or
/// empty when there is no preview image.
pub fn preview_response(data: Option<Vec<u8>>) -> (r: PreviewResponse)
    requires
        data matches Some(d) ==> encodable_len(d@.len()),
    ensures
        r.content@ == (match data {
            Some(d) => base64_text(d@),
            None => Seq::empty(),
        }),
{
    match data {
        None => PreviewResponse { content: String::new() },
        Some(d) => PreviewResponse { content: base64_encode(d.as_slice()) },
    }
}

} // verus!
