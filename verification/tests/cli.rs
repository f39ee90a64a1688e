use image_processor::cli::{
    eq_ignore_ascii_case, is_blank, is_png_extension, is_whitespace, plugin_file_name, Args,
    PathChecks, TargetOs,
};
use image_processor::error::{AppError, IoErrorKind};

fn base_args() -> Args {
    Args {
        plugin: "mirror_plugin".to_string(),
        input: "/tmp/in.png".to_string(),
        output: "/tmp/out.png".to_string(),
        plugin_path: "/tmp/plugins".to_string(),
        params: "/tmp/params.json".to_string(),
    }
}

fn all_present() -> PathChecks {
    PathChecks {
        input_is_file: true,
        params_is_file: true,
        plugin_path_is_dir: true,
        output_parent_exists: true,
    }
}

#[test]
fn png_detection_works() {
    assert!(Args::output_is_png_path("out.png"));
    assert!(Args::output_is_png_path("out.PNG"));
    assert!(!Args::output_is_png_path("out.jpg"));
    assert!(!Args::output_is_png_path("out"));
}

#[test]
fn png_detection_uses_the_final_extension() {
    assert!(Args::output_is_png_path("/a/b.c/out.Png"));
    assert!(!Args::output_is_png_path("out.png.jpg"));
    assert!(!Args::output_is_png_path(".png"));
    assert!(!Args::output_is_png_path("png"));
    assert!(Args::output_is_png_path("dir.jpg/x.png"));
}

#[test]
fn plugin_lib_path_uses_platform_extension() {
    let args = Args {
        plugin: "mirror_plugin".to_string(),
        input: "in.png".to_string(),
        output: "out.png".to_string(),
        plugin_path: "/tmp/plugins".to_string(),
        params: "params.json".to_string(),
    };

    let path = args.plugin_lib_path(TargetOs::Linux);
    assert!(path.ends_with("libmirror_plugin.so"));
    let path = args.plugin_lib_path(TargetOs::MacOs);
    assert!(path.ends_with("libmirror_plugin.dylib"));
    let path = args.plugin_lib_path(TargetOs::Windows);
    assert!(path.ends_with("mirror_plugin.dll"));
}

#[test]
fn plugin_lib_path_joins_directory_and_file_name() {
    let args = base_args();
    assert_eq!(args.plugin_lib_path(TargetOs::Linux), "/tmp/plugins/libmirror_plugin.so");
    let mut args = base_args();
    args.plugin_path = "plugins/".to_string();
    assert_eq!(args.plugin_lib_path(TargetOs::Linux), "plugins/libmirror_plugin.so");
}

#[test]
fn plugin_file_name_per_platform() {
    assert_eq!(plugin_file_name("blur", TargetOs::Windows), "blur.dll");
    assert_eq!(plugin_file_name("blur", TargetOs::Linux), "libblur.so");
    assert_eq!(plugin_file_name("blur", TargetOs::MacOs), "libblur.dylib");
}

#[test]
fn validate_passes_for_existing_files_and_dirs() {
    assert!(base_args().validate(&all_present()).is_ok());
}

#[test]
fn validate_refuses_blank_plugin_name() {
    let mut args = base_args();
    args.plugin = " \t\n".to_string();
    assert!(matches!(args.validate(&all_present()), Err(AppError::InvalidParams)));
    args.plugin = "\u{3000}".to_string();
    assert!(matches!(args.validate(&all_present()), Err(AppError::InvalidParams)));
}

#[test]
fn validate_fails_when_input_missing() {
    let checks = PathChecks { input_is_file: false, ..all_present() };
    match base_args().validate(&checks) {
        Err(AppError::Io(e)) => {
            assert_eq!(e.kind, IoErrorKind::NotFound);
            assert_eq!(e.message, "input file not found: /tmp/in.png");
        }
        other => panic!("unexpected {:?}", other),
    }
}

#[test]
fn validate_fails_when_params_missing() {
    let checks = PathChecks { params_is_file: false, ..all_present() };
    let res = base_args().validate(&checks);
    match res {
        Err(AppError::Io(e)) => {
            assert_eq!(e.kind, IoErrorKind::NotFound);
            assert_eq!(e.message, "params file not found: /tmp/params.json");
        }
        other => panic!("unexpected {:?}", other),
    }
}

#[test]
fn validate_fails_when_plugin_path_is_not_directory() {
    let checks = PathChecks { plugin_path_is_dir: false, ..all_present() };
    assert!(matches!(base_args().validate(&checks), Err(AppError::InvalidPluginPath)));
}

#[test]
fn validate_reports_missing_output_directory() {
    let checks = PathChecks { output_parent_exists: false, ..all_present() };
    match base_args().validate(&checks) {
        Err(AppError::Io(e)) => {
            assert_eq!(e.kind, IoErrorKind::NotFound);
            assert_eq!(e.message, "output directory not found: /tmp");
        }
        other => panic!("unexpected {:?}", other),
    }
}

#[test]
fn validate_fails_for_non_png_output() {
    let mut args = base_args();
    args.output = "/tmp/out.jpg".to_string();
    assert!(matches!(args.validate(&all_present()), Err(AppError::InvalidParams)));
}

#[test]
fn validate_reports_the_first_failing_check() {
    let mut args = base_args();
    args.output = "/tmp/out.jpg".to_string();
    let nothing = PathChecks {
        input_is_file: false,
        params_is_file: false,
        plugin_path_is_dir: false,
        output_parent_exists: false,
    };
    match args.validate(&nothing) {
        Err(AppError::Io(e)) => assert_eq!(e.message, "input file not found: /tmp/in.png"),
        other => panic!("unexpected {:?}", other),
    }
    let checks = PathChecks { input_is_file: true, ..nothing };
    match args.validate(&checks) {
        Err(AppError::Io(e)) => assert_eq!(e.message, "params file not found: /tmp/params.json"),
        other => panic!("unexpected {:?}", other),
    }
    let checks = PathChecks { input_is_file: true, params_is_file: true, ..nothing };
    assert!(matches!(args.validate(&checks), Err(AppError::InvalidPluginPath)));
}

#[test]
fn validate_with_skips_parent_check_without_parent() {
    let args = base_args();
    let checks = PathChecks { output_parent_exists: false, ..all_present() };
    assert!(args.validate_with(&checks, None, Some("png".to_string())).is_ok());
    assert!(matches!(
        args.validate_with(&checks, None, Some("jpg".to_string())),
        Err(AppError::InvalidParams)
    ));
    assert!(matches!(args.validate_with(&checks, None, None), Err(AppError::InvalidParams)));
}

#[test]
fn output_is_png_checks_output() {
    assert!(base_args().output_is_png().is_ok());
    let mut args = base_args();
    args.output = "/tmp/out".to_string();
    assert!(matches!(args.output_is_png(), Err(AppError::InvalidParams)));
}

#[test]
fn whitespace_matches_std() {
    for v in 0..=0x10ffffu32 {
        if let Some(c) = char::from_u32(v) {
            assert_eq!(is_whitespace(c), c.is_whitespace(), "code point {:#x}", v);
        }
    }
}

#[test]
fn blank_matches_trim() {
    for s in ["", " ", "\t\r\n", " a ", "x", "\u{2003}\u{a0}", "\u{200b}"] {
        assert_eq!(is_blank(s), s.trim().is_empty(), "{:?}", s);
    }
}

#[test]
fn ascii_case_matches_std() {
    let words = ["png", "PNG", "pNg", "pn", "pngg", "", "Ä", "ä", "a@", "A`", "z[", "Z{"];
    for a in words {
        for b in words {
            assert_eq!(eq_ignore_ascii_case(a, b), a.eq_ignore_ascii_case(b), "{:?} {:?}", a, b);
        }
    }
}

#[test]
fn png_extension_ignores_ascii_case_only() {
    assert!(is_png_extension(Some("PnG")));
    assert!(!is_png_extension(Some("pn")));
    assert!(!is_png_extension(Some("pnq")));
    assert!(!is_png_extension(None));
}
