use wallflow::appearance::{AccentColor, AppearanceMode};
use wallflow::config::{Config, LoggingConfig, PicsumConfig, TransitionType};
use wallflow::detect::{resolution_from_output, ResolutionSource};
use wallflow::display::{Resolution, ResolutionError};
use wallflow::duration::{format_duration, parse_duration, DurationError};
use wallflow::logging::{normalize_log_level, resolve_logging_config, LogLevelError};
use wallflow::updater::get_asset_name;

#[test]
fn test_config_default() {
    let config = Config::default();

    assert_eq!(config.transition.fps, 30);
    assert_eq!(config.transition.duration, 5);
    assert_eq!(config.timer.interval, 30);
    assert_eq!(config.timer.randomize, "5m");
    assert_eq!(config.sources.default, "wallhaven");
    assert_eq!(config.sources.category, "nature");
    assert_eq!(config.cleanup.keep_count, 10);
    assert!(config.cleanup.auto_cleanup);

    assert_eq!(config.advanced.parallel_downloads, 0);
    assert_eq!(config.advanced.retry_attempts, 0);
    assert_eq!(config.advanced.timeout, 0);

    assert!(!config.integration.pywal.enabled);
    assert!(!config.integration.desktop.notify_completion);
    assert_eq!(config.sources.wallhaven.quality, "");
    assert_eq!(config.sources.local.formats, Vec::<String>::new());
    assert!(matches!(config.transition.transition_type, TransitionType::Single(ref t) if t == "random"));
    assert!(config.paths.local.ends_with("Wallpapers"));
    assert!(config.paths.downloads.ends_with("downloads"));
}

#[test]
fn test_picsum_config_defaults() {
    let config = PicsumConfig::default();

    assert!(config.width.is_none());
    assert!(config.height.is_none());
}

#[test]
fn test_expand_paths() {
    let mut config = Config::default();
    config.paths.local = "~/Pictures".to_string();
    config.paths.downloads = "$HOME/Downloads".to_string();

    let result = config.expand_paths();

    assert!(result.is_ok());
    assert!(!config.paths.local.contains('~'));
    assert!(!config.paths.downloads.contains('$'));
}

#[test]
fn test_expand_paths_invalid() {
    let mut config = Config::default();
    config.paths.local = "${NONEXISTENT_VAR}/path".to_string();

    let result = config.expand_paths();

    // Both outcomes are acceptable for an undefined variable; the call must return.
    let _result = result;
}

#[test]
fn undefined_variables_keep_the_path() {
    let mut config = Config::default();
    config.paths.local = "${WALLFLOW_SURELY_UNDEFINED_VAR}/path".to_string();
    assert!(config.expand_paths().is_ok());
    assert_eq!(config.paths.local, "${WALLFLOW_SURELY_UNDEFINED_VAR}/path");
}

#[test]
fn configured_resolutions() {
    let mut config = Config::default();
    assert!(config.get_wallhaven_resolution().is_none());
    config.sources.wallhaven.resolution = Some("2560x1440".to_string());
    assert_eq!(config.get_wallhaven_resolution(), Some(Ok(Resolution::new(2560, 1440))));
    config.sources.wallhaven.resolution = Some("big".to_string());
    assert_eq!(config.get_wallhaven_resolution(), Some(Err(ResolutionError::Format)));
    assert_eq!(config.get_picsum_resolution(), None);
    config.sources.picsum.width = Some(800);
    assert_eq!(config.get_picsum_resolution(), None);
    config.sources.picsum.height = Some(600);
    assert_eq!(config.get_picsum_resolution(), Some(Resolution::new(800, 600)));
}

#[test]
fn test_parse_duration() {
    assert_eq!(parse_duration("30s").unwrap(), 30);
    assert_eq!(parse_duration("5m").unwrap(), 300);
    assert_eq!(parse_duration("2h").unwrap(), 7200);
    assert_eq!(parse_duration("1d").unwrap(), 86400);
    assert_eq!(parse_duration("0").unwrap(), 0);
    assert_eq!(parse_duration("").unwrap(), 0);

    assert!(parse_duration("invalid").is_err());
    assert!(parse_duration("5x").is_err());
}

#[test]
fn duration_errors_and_forms() {
    assert_eq!(parse_duration("  10 "), Ok(10));
    assert_eq!(parse_duration("3minutes"), Ok(180));
    assert_eq!(parse_duration("+4hr"), Ok(14400));
    assert_eq!(parse_duration("12a4"), Err(DurationError::UnknownUnit));
    assert_eq!(parse_duration("5x"), Err(DurationError::UnknownUnit));
    assert_eq!(parse_duration("invalid"), Err(DurationError::InvalidNumber));
    assert_eq!(parse_duration("-5"), Err(DurationError::InvalidFormat));
    assert_eq!(parse_duration("99999999999999999999"), Err(DurationError::InvalidFormat));
    assert_eq!(parse_duration("9999999999999999999d"), Err(DurationError::Overflow));
}

#[test]
fn duration_text() {
    assert_eq!(format_duration(3725), "1h 2m 5s");
    assert_eq!(format_duration(3600), "1h 0m 0s");
    assert_eq!(format_duration(125), "2m 5s");
    assert_eq!(format_duration(7), "7s");
    assert_eq!(format_duration(0), "0s");
}

#[test]
fn test_resolution_from_string() {
    assert!(Resolution::from_string("1920x1080").is_ok());
    assert!(Resolution::from_string("2560x1440").is_ok());
    assert!(Resolution::from_string("3840x2160").is_ok());

    let res = Resolution::from_string("1920x1080").unwrap();
    assert_eq!(res.width, 1920);
    assert_eq!(res.height, 1080);
    assert_eq!(res.as_string(), "1920x1080");

    assert!(Resolution::from_string("invalid").is_err());
    assert!(Resolution::from_string("1920").is_err());
    assert!(Resolution::from_string("1920x").is_err());
}

#[test]
fn resolution_errors() {
    assert_eq!(Resolution::from_string("1x2x3"), Err(ResolutionError::Format));
    assert_eq!(Resolution::from_string("ax2"), Err(ResolutionError::Width));
    assert_eq!(Resolution::from_string("4294967296x2"), Err(ResolutionError::Width));
    assert_eq!(Resolution::from_string("2x"), Err(ResolutionError::Height));
    assert_eq!(Resolution::from_string("4294967295x0"), Ok(Resolution::new(4294967295, 0)));
    assert_eq!(Resolution::default(), Resolution::new(2560, 1440));
}

#[test]
fn test_accent_color_from_str() {
    assert_eq!(AccentColor::from_str("red"), Some(AccentColor::Red));
    assert_eq!(AccentColor::from_str("RED"), Some(AccentColor::Red));
    assert_eq!(AccentColor::from_str("Blue"), Some(AccentColor::Blue));
    assert_eq!(AccentColor::from_str("multicolor"), Some(AccentColor::Multicolor));
    assert_eq!(AccentColor::from_str("invalid"), None);
}

#[test]
fn accent_names() {
    assert_eq!(AccentColor::from_str("Violet"), Some(AccentColor::Purple));
    assert_eq!(AccentColor::from_str("MAGENTA"), Some(AccentColor::Pink));
    assert_eq!(AccentColor::from_lowercase("Graphite"), None);
    assert_eq!(AccentColor::Orange.name(), "orange");
    assert_eq!(AccentColor::Multicolor.name(), "multicolor");
}

#[test]
fn test_accent_color_from_dominant_color() {
    assert_eq!(AccentColor::from_dominant_color(255, 50, 50), AccentColor::Red);
    assert_eq!(AccentColor::from_dominant_color(50, 200, 50), AccentColor::Green);
    assert_eq!(AccentColor::from_dominant_color(50, 100, 255), AccentColor::Blue);
    assert_eq!(AccentColor::from_dominant_color(128, 128, 128), AccentColor::Multicolor);
}

#[test]
fn accent_hue_ranges() {
    assert_eq!(AccentColor::from_dominant_color(255, 128, 0), AccentColor::Orange);
    assert_eq!(AccentColor::from_dominant_color(255, 255, 0), AccentColor::Yellow);
    assert_eq!(AccentColor::from_dominant_color(140, 0, 255), AccentColor::Purple);
    assert_eq!(AccentColor::from_dominant_color(255, 0, 160), AccentColor::Pink);
    assert_eq!(AccentColor::from_dominant_color(255, 0, 20), AccentColor::Red);
}

#[test]
fn test_appearance_mode_from_str() {
    assert_eq!(AppearanceMode::from_str("dark"), Some(AppearanceMode::Dark));
    assert_eq!(AppearanceMode::from_str("LIGHT"), Some(AppearanceMode::Light));
    assert_eq!(AppearanceMode::from_str("auto"), Some(AppearanceMode::Auto));
    assert_eq!(AppearanceMode::from_str("invalid"), None);
}

#[test]
fn test_normalize_log_level() {
    assert_eq!(normalize_log_level("debug").unwrap(), "debug");
    assert_eq!(normalize_log_level("DEBUG").unwrap(), "debug");
    assert_eq!(normalize_log_level("Info").unwrap(), "info");
    assert_eq!(normalize_log_level("warn").unwrap(), "warn");
    assert_eq!(normalize_log_level("warning").unwrap(), "warn");
    assert_eq!(normalize_log_level("ERROR").unwrap(), "error");

    assert!(normalize_log_level("invalid").is_err());
    assert_eq!(normalize_log_level("nope"), Err(LogLevelError::Invalid));
}

#[test]
fn test_resolve_logging_config() {
    let config = LoggingConfig {
        enabled: true,
        level: "info".to_string(),
        file: Some("/tmp/test.log".to_string()),
        timestamp: true,
    };

    let effective = resolve_logging_config(&config, false);
    assert_eq!(effective.level, "info");
    assert!(!effective.verbose_override);

    let effective = resolve_logging_config(&config, true);
    assert_eq!(effective.level, "debug");
    assert!(effective.verbose_override);
}

#[test]
fn test_resolve_logging_config_empty_file_path() {
    let config = LoggingConfig {
        enabled: true,
        level: "info".to_string(),
        file: Some("".to_string()),
        timestamp: true,
    };
    let effective = resolve_logging_config(&config, false);
    assert!(effective.file.is_none());

    let config = LoggingConfig {
        enabled: true,
        level: "info".to_string(),
        file: Some("   ".to_string()),
        timestamp: true,
    };
    let effective = resolve_logging_config(&config, false);
    assert!(effective.file.is_none());

    let config = LoggingConfig {
        enabled: true,
        level: "info".to_string(),
        file: Some("/tmp/test.log".to_string()),
        timestamp: true,
    };
    let effective = resolve_logging_config(&config, false);
    assert_eq!(effective.file, Some("/tmp/test.log".to_string()));
}

#[test]
fn test_get_asset_name() {
    let name = get_asset_name("linux", "x86_64");
    println!("Asset name for this platform: {}", name);
    assert!(!name.is_empty());
}

#[test]
fn asset_names() {
    assert_eq!(get_asset_name("linux", "aarch64"), "wallflow-aarch64-unknown-linux-gnu");
    assert_eq!(get_asset_name("macos", "x86_64"), "wallflow-x86_64-apple-darwin");
    assert_eq!(get_asset_name("windows", "aarch64"), "wallflow-x86_64-pc-windows-msvc.exe");
    assert_eq!(get_asset_name("freebsd", "x86_64"), "wallflow");
}

#[test]
fn plain_paths_are_kept() {
    let mut config = Config::default();
    config.paths.local = "/srv/walls".to_string();
    config.paths.downloads = "/srv/walls/new".to_string();
    assert!(config.expand_paths().is_ok());
    assert_eq!(config.paths.local, "/srv/walls");
    assert_eq!(config.paths.downloads, "/srv/walls/new");
}

#[test]
fn unicode_blank_log_file_is_none() {
    let config = LoggingConfig {
        enabled: true,
        level: "info".to_string(),
        file: Some("\u{3000}\u{2003}\t".to_string()),
        timestamp: true,
    };
    assert!(resolve_logging_config(&config, false).file.is_none());
    assert_eq!(parse_duration("\u{00A0}2h\n"), Ok(7200));
}

fn lines(text: &str) -> Vec<String> {
    text.lines().map(String::from).collect()
}

#[test]
fn display_tool_outputs() {
    let xr = lines("Screen 0: minimum 320 x 200, current 2560 x 1440\nHDMI-1 disconnected (normal)\nDP-1 connected primary 2560x1440+0+0 (normal left) 597mm x 336mm\n   2560x1440     59.95*+");
    assert_eq!(resolution_from_output(ResolutionSource::Xrandr, &xr), Some(Resolution::new(2560, 1440)));
    let sway = lines("[\n  {\n    \"current_mode\": {\"width\":1920,\"height\":1080,\"refresh\":60000}\n  }\n]");
    assert_eq!(resolution_from_output(ResolutionSource::Sway, &sway), Some(Resolution::new(1920, 1080)));
    let wlr = lines("DP-1 \"Dell\"\n  Modes:\n    1920x1080 px, 60.000000 Hz\n    3840x2160 @ 59.997 Hz (current)");
    assert_eq!(resolution_from_output(ResolutionSource::WlrRandr, &wlr), Some(Resolution::new(3840, 2160)));
    let ks = lines("{\n \"enabled\": true,\n \"size\": {\"width\": 2880, \"height\": 1800}\n}");
    assert_eq!(resolution_from_output(ResolutionSource::Kscreen, &ks), Some(Resolution::new(2880, 1800)));
    let ks_off = lines("{\n \"enabled\": false,\n \"size\": {\"width\": 2880, \"height\": 1800}\n}");
    assert_eq!(resolution_from_output(ResolutionSource::Kscreen, &ks_off), None);
    assert_eq!(resolution_from_output(ResolutionSource::Xrandr, &lines("HDMI-1 disconnected")), None);
}
