use app_server::config::{
    default_client_dir, default_log, default_log_level, default_preview_dir,
    default_preview_resolution, default_thumbnail_dir, default_timeout,
};
use app_server::error::AppError;
use app_server::number::Number;
use app_server::routes::context::{context_response, paper_sizes};
use app_server::routes::files::{download_headers, missing_file, missing_thumbnail, removed_file_info};
use app_server::routes::scan::{
    check_exit, preview_file, preview_params, preview_response, scan_arguments, scan_not_started,
    scan_output_unreadable, scan_path_of, scan_timed_out, scanned_file_info, WrapperOutput,
};
use app_server::scanner::command::build_scan_command;
use app_server::scanner::ScanParams;

fn params() -> ScanParams {
    ScanParams {
        device_id: "EpsonPerfectionV600".to_string(),
        resolution: 400,
        mode: Some("Gray".to_string()),
        format: None,
        source: None,
        top: None,
        left: None,
        width: Some(Number::parse("100").unwrap()),
        height: None,
        brightness: None,
        contrast: None,
        gamma_correction: None,
        color_correction: None,
        color_space: None,
        depth: None,
        dynamic_lineart: None,
        is_preview: None,
    }
}

#[test]
fn defaults_match_the_documented_settings() {
    assert_eq!(default_timeout(), 600);
    assert_eq!(default_preview_resolution(), 200);
    assert_eq!(default_log_level(), "info");
    assert_eq!(default_thumbnail_dir(), "/data/thumbnails");
    assert_eq!(default_preview_dir(), "/data/preview");
    assert_eq!(default_client_dir(), "./client");
    assert_eq!(default_log().level, "info");
}

#[test]
fn context_offers_one_device_and_paper_sizes() {
    let c = context_response("1.2.3".to_string());
    assert_eq!(c.devices.len(), 1);
    assert_eq!(c.devices[0].id, "EpsonPerfectionV600");
    assert_eq!(c.version, "1.2.3");
    assert!(c.actions.is_empty());
    let sizes = paper_sizes();
    assert_eq!(sizes.len(), 24);
    assert_eq!(sizes[1].name, "A4 (@:paper-size.portrait)");
    assert_eq!((sizes[1].dimensions.x, sizes[1].dimensions.y), (210, 297));
    assert_eq!(sizes[23].name, "@:paper-size.half-letter (@:paper-size.portrait)");
}

#[test]
fn download_headers_name_type_and_attachment() {
    let (mime, disposition) = download_headers("/data/scans/scan.jpg", "scan.jpg");
    assert_eq!(mime, "image/jpeg");
    assert_eq!(disposition, "attachment; filename=\"scan.jpg\"");
    let (mime, _) = download_headers("/data/scans/scan", "scan");
    assert_eq!(mime, "application/octet-stream");
    let (mime, _) = download_headers("/data/scans/scan.png", "scan.png");
    assert_eq!(mime, "image/png");
}

#[test]
fn not_found_answers() {
    assert_eq!(
        missing_file("x.jpg"),
        AppError::NotFound("File 'x.jpg' does not exist".to_string())
    );
    assert_eq!(missing_thumbnail(), AppError::NotFound("Thumbnail not found".to_string()));
}

#[test]
fn deleted_file_is_described() {
    let f = removed_file_info("/data/scans", "scan.jpeg", "/data/scans/scan.jpeg", 3 << 20, 1_642_281_269, 0);
    assert_eq!(f.fullname, "/data/scans/scan.jpeg");
    assert_eq!(f.name, "scan.jpeg");
    assert_eq!(f.extension, ".jpeg");
    assert_eq!(f.path, "/data/scans");
    assert_eq!(f.size_string, "3 MB");
    assert_eq!(f.last_modified, "2022-01-15T21:14:29+00:00");
}

#[test]
fn scan_file_is_described_from_its_path() {
    let f = scanned_file_info("/data/scans/scan_1.tif".to_string(), 10, 0, 0);
    assert_eq!(f.name, "scan_1.tif");
    assert_eq!(f.extension, ".tif");
    assert_eq!(f.path, "/data/scans");
    assert_eq!(f.fullname, "/data/scans/scan_1.tif");
    let g = scanned_file_info("scan".to_string(), 10, 0, 0);
    assert_eq!(g.name, "scan");
    assert_eq!(g.extension, "");
    assert_eq!(g.path, "");
}

#[test]
fn scan_arguments_refuse_or_build() {
    let p = params();
    assert_eq!(scan_arguments("scanimage", &p), Ok(build_scan_command("scanimage", &p)));
    let mut q = params();
    q.mode = Some("HDR".to_string());
    assert!(matches!(scan_arguments("scanimage", &q), Err(AppError::BadRequest(_))));
}

#[test]
fn scanner_failures_are_reported() {
    assert_eq!(check_exit(true, Some(0), ""), Ok(()));
    assert_eq!(
        check_exit(false, Some(3), "no device"),
        Err(AppError::Internal("scanimage exited with code 3: no device".to_string()))
    );
    assert_eq!(
        check_exit(false, None, "killed"),
        Err(AppError::Internal("scanimage exited with code -1: killed".to_string()))
    );
    assert_eq!(scan_timed_out(), AppError::Internal("Scan timed out".to_string()));
    assert_eq!(
        scan_not_started("not found"),
        AppError::Internal("Failed to execute scanimage: not found".to_string())
    );
    assert_eq!(
        scan_output_unreadable("eof", "{"),
        AppError::Internal("Failed to parse scanimage output: eof: {".to_string())
    );
    let none = WrapperOutput { scan_path: None, preview_path: None, thumbnail_path: None };
    assert_eq!(
        scan_path_of(&none),
        Err(AppError::Internal("No scanPath in output".to_string()))
    );
    let some = WrapperOutput { scan_path: Some("/s.tif".to_string()), preview_path: None, thumbnail_path: None };
    assert_eq!(scan_path_of(&some), Ok("/s.tif".to_string()));
}

#[test]
fn previews_use_the_preview_switch_and_resolution() {
    let p = preview_params(params(), 200);
    assert_eq!(p.is_preview, Some(true));
    assert_eq!(p.resolution, 200);
    let args = build_scan_command("scanimage", &p);
    assert_eq!(args.last().unwrap(), "--preview");
    assert!(args.contains(&"200".to_string()));
    assert_eq!(preview_file("/data/preview"), "/data/preview/preview.jpg");
}

#[test]
fn preview_content_is_base64() {
    assert_eq!(preview_response(None).content, "");
    assert_eq!(preview_response(Some(b"hello world~".to_vec())).content, "aGVsbG8gd29ybGR+");
    assert_eq!(preview_response(Some(vec![0xff])).content, "/w==");
    assert_eq!(preview_response(Some(vec![0, 1])).content, "AAE=");
    assert_eq!(preview_response(Some(Vec::new())).content, "");
}
