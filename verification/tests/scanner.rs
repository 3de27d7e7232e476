use app_server::device::epson_v600;
use app_server::error::AppError;
use app_server::number::Number;
use app_server::scanner::command::build_scan_command;
use app_server::scanner::request::{validate_option, validate_params, validate_range};
use app_server::scanner::{resolution_from_number, resolution_from_text, ScanParams};

fn num(v: f64) -> Number {
    Number::parse(&v.to_string()).unwrap()
}

fn base_params() -> ScanParams {
    ScanParams {
        device_id: "EpsonPerfectionV600".to_string(),
        resolution: 400,
        mode: Some("Color".to_string()),
        format: Some("tiff".to_string()),
        source: Some("Flatbed".to_string()),
        top: Some(num(0.0)),
        left: Some(num(0.0)),
        width: Some(num(215.9)),
        height: Some(num(297.18)),
        brightness: None,
        contrast: None,
        gamma_correction: Some("2.2".to_string()),
        color_correction: Some("yes".to_string()),
        color_space: Some("sRGB IEC61966-2.1".to_string()),
        depth: Some("8".to_string()),
        dynamic_lineart: None,
        is_preview: None,
    }
}

fn empty_params(resolution: u32) -> ScanParams {
    ScanParams {
        device_id: "EpsonPerfectionV600".to_string(),
        resolution,
        mode: None,
        format: None,
        source: None,
        top: None,
        left: None,
        width: None,
        height: None,
        brightness: None,
        contrast: None,
        gamma_correction: None,
        color_correction: None,
        color_space: None,
        depth: None,
        dynamic_lineart: None,
        is_preview: None,
    }
}

#[test]
fn basic_scan_command() {
    let params = base_params();
    let args = build_scan_command("/usr/bin/scanservjs-epsonv600-scanimage", &params);

    assert_eq!(args[0], "/usr/bin/scanservjs-epsonv600-scanimage");
    assert_eq!(args[1], "-d");
    assert_eq!(args[2], "EpsonPerfectionV600");
    assert!(args.contains(&"--resolution".to_string()));
    assert!(args.contains(&"400".to_string()));
    assert!(args.contains(&"--format".to_string()));
    assert!(args.contains(&"tiff".to_string()));
    assert!(args.contains(&"-o".to_string()));
}

#[test]
fn preview_uses_preview_flag() {
    let mut params = base_params();
    params.is_preview = Some(true);
    let args = build_scan_command("scanimage", &params);

    assert!(args.contains(&"--preview".to_string()));
    assert!(!args.contains(&"-o".to_string()));
}

#[test]
fn lineart_mode_disables_contrast() {
    let mut params = base_params();
    params.mode = Some("Lineart".to_string());
    params.contrast = Some(50);
    params.dynamic_lineart = Some(false);
    let args = build_scan_command("scanimage", &params);

    assert!(!args.contains(&"--contrast".to_string()));
    assert!(args.contains(&"--disable-dynamic-lineart=yes".to_string()));
}

#[test]
fn omits_optional_params_when_none() {
    let params = empty_params(200);
    let args = build_scan_command("scanimage", &params);

    assert!(!args.contains(&"--mode".to_string()));
    assert!(!args.contains(&"--source".to_string()));
    assert!(!args.contains(&"--brightness".to_string()));
    assert!(args.contains(&"-d".to_string()));
    assert!(args.contains(&"--resolution".to_string()));
    assert!(args.contains(&"-o".to_string()));
}

#[test]
fn scan_command_lists_every_setting_in_order() {
    let mut params = base_params();
    params.brightness = Some(-20);
    params.contrast = Some(15);
    let args = build_scan_command("scanimage", &params);
    let expected: Vec<&str> = vec![
        "scanimage", "-d", "EpsonPerfectionV600", "--source", "Flatbed", "--mode", "Color",
        "--gamma-correction", "2.2", "--color-correction", "yes", "--color-space",
        "sRGB IEC61966-2.1", "--resolution", "400", "-l", "0", "-t", "0", "-x", "215.9", "-y",
        "297.18", "--format", "tiff", "--depth", "8", "--brightness", "-20", "--contrast", "15",
        "-o", "output",
    ];
    assert_eq!(args, expected);
}

#[test]
fn valid_params_pass() {
    let device = epson_v600();
    assert!(validate_params(&base_params(), &device).is_ok());
}

#[test]
fn wrong_device_id_fails() {
    let device = epson_v600();
    let mut params = base_params();
    params.device_id = "WrongDevice".to_string();
    assert!(validate_params(&params, &device).is_err());
}

#[test]
fn invalid_resolution_fails() {
    let device = epson_v600();
    let mut params = base_params();
    params.resolution = 999;
    assert!(validate_params(&params, &device).is_err());
}

#[test]
fn invalid_mode_fails() {
    let device = epson_v600();
    let mut params = base_params();
    params.mode = Some("HDR".to_string());
    assert!(validate_params(&params, &device).is_err());
}

#[test]
fn geometry_out_of_range_fails() {
    let device = epson_v600();
    let mut params = base_params();
    params.width = Some(num(300.0));
    assert!(validate_params(&params, &device).is_err());
}

#[test]
fn none_optionals_pass() {
    let device = epson_v600();
    let params = empty_params(200);
    assert!(validate_params(&params, &device).is_ok());
}

#[test]
fn refusals_name_the_problem() {
    let device = epson_v600();
    let mut params = base_params();
    params.device_id = "WrongDevice".to_string();
    assert_eq!(
        validate_params(&params, &device),
        Err(AppError::BadRequest("Device WrongDevice not found".to_string()))
    );
    let mut params = base_params();
    params.mode = Some("HDR".to_string());
    assert_eq!(
        validate_params(&params, &device),
        Err(AppError::BadRequest(
            "Invalid --mode: 'HDR' not in '[String(\"Binary\"), String(\"Gray\"), String(\"Color\")]'"
                .to_string()
        ))
    );
    let mut params = base_params();
    params.resolution = 999;
    assert_eq!(
        validate_params(&params, &device),
        Err(AppError::BadRequest(
            "Invalid --resolution: '999' not in '[Number(200), Number(400), Number(800), Number(1600), Number(3200), Number(6400)]'"
                .to_string()
        ))
    );
    let mut params = base_params();
    params.width = Some(num(300.0));
    assert_eq!(
        validate_params(&params, &device),
        Err(AppError::BadRequest("-x: 300 out of range [0, 215.9]".to_string()))
    );
    let mut params = base_params();
    params.left = Some(num(-0.5));
    assert_eq!(
        validate_params(&params, &device),
        Err(AppError::BadRequest("-l: -0.5 out of range [0, 215.9]".to_string()))
    );
}

#[test]
fn range_checks_compare_exact_values() {
    let device = epson_v600();
    let mut params = base_params();
    params.width = Some(num(215.90000000000003));
    assert!(validate_params(&params, &device).is_err());
    params.width = Some(num(215.9));
    assert!(validate_params(&params, &device).is_ok());
    params.left = Some(num(-0.0));
    assert!(validate_params(&params, &device).is_ok());
    params.height = Some(num(297.17999999999995));
    assert!(validate_params(&params, &device).is_ok());
}

#[test]
fn resolution_text_is_read_like_a_u32() {
    assert_eq!(resolution_from_text("400"), Ok(400));
    assert_eq!(resolution_from_text("+7"), Ok(7));
    assert_eq!(resolution_from_text("4294967295"), Ok(u32::MAX));
    for s in ["", "+", "-5", "4a", "4294967296", "99999999999a", " 1"] {
        assert_eq!(resolution_from_text(s), s.parse::<u32>().map_err(|e| e.to_string()));
    }
    assert_eq!(resolution_from_number(6400), Ok(6400));
    assert_eq!(
        resolution_from_number(1 << 40),
        Err(u32::try_from(1u64 << 40).unwrap_err().to_string())
    );
}

#[test]
fn v600_accepts_exactly_its_resolutions() {
    let device = epson_v600();
    for r in [200, 400, 800, 1600, 3200, 6400] {
        assert!(validate_params(&empty_params(r), &device).is_ok(), "{r}");
    }
    for r in [0, 100, 300, 12800, u32::MAX] {
        assert!(validate_params(&empty_params(r), &device).is_err(), "{r}");
    }
}

#[test]
fn resolutions_read_back_from_their_decimal_text() {
    for r in [0u32, 7, 200, 6400, 4_000_000_000, u32::MAX] {
        assert_eq!(resolution_from_text(&r.to_string()), Ok(r));
    }
}

#[test]
fn option_check_follows_the_feature() {
    let device = epson_v600();
    assert_eq!(validate_option("--mode", &None, &device), Ok(()));
    assert_eq!(validate_option("--mode", &Some("Gray".to_string()), &device), Ok(()));
    assert_eq!(validate_option("--resolution", &Some("800".to_string()), &device), Ok(()));
    assert_eq!(
        validate_option("--lamp", &Some("on".to_string()), &device),
        Err(AppError::BadRequest("--lamp is missing from device".to_string()))
    );
    assert_eq!(validate_option("-l", &Some("anything".to_string()), &device), Ok(()));
    assert_eq!(
        validate_option("--depth", &Some("12".to_string()), &device),
        Err(AppError::BadRequest(
            "Invalid --depth: '12' not in '[String(\"8\"), String(\"16\")]'".to_string()
        ))
    );
}

#[test]
fn range_check_includes_both_limits() {
    let device = epson_v600();
    assert_eq!(validate_range("-x", &num(0.0), &device), Ok(()));
    assert_eq!(validate_range("-x", &Number::parse("215.9").unwrap(), &device), Ok(()));
    assert_eq!(validate_range("-y", &Number::parse("297.18").unwrap(), &device), Ok(()));
    assert_eq!(
        validate_range("-y", &Number::parse("297.19").unwrap(), &device),
        Err(AppError::BadRequest("-y: 297.19 out of range [0, 297.18]".to_string()))
    );
    assert_eq!(validate_range("--mode", &num(5.0), &device), Ok(()));
    assert_eq!(
        validate_range("--lamp", &num(5.0), &device),
        Err(AppError::BadRequest("--lamp is missing from device".to_string()))
    );
}

#[test]
fn v600_accepts_every_listed_choice() {
    let device = epson_v600();
    for r in [200u32, 400, 800, 1600, 3200, 6400] {
        let mut p = base_params();
        p.resolution = r;
        assert_eq!(validate_params(&p, &device), Ok(()));
    }
    let mut p = base_params();
    p.resolution = 300;
    assert!(matches!(validate_params(&p, &device), Err(AppError::BadRequest(_))));
    let mut p = base_params();
    p.color_space = Some("Adobe RGB (1998)".to_string());
    p.gamma_correction = Some("2.8".to_string());
    p.left = Some(Number::parse("215.9").unwrap());
    p.height = Some(Number::parse("297.18").unwrap());
    assert_eq!(validate_params(&p, &device), Ok(()));
    p.source = Some("ADF".to_string());
    assert!(matches!(validate_params(&p, &device), Err(AppError::BadRequest(_))));
}
