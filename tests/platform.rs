use wallflow::backends::{
    choose_backend,
    build_wallpaper_options, AwwwBackend, BackendError, BackendKind, BackendRegistry, MonitorSelection,
    WallpaperOptions, WallpaperScaling,
};
use wallflow::config::{Config, TransitionType};
use wallflow::downloaders::{list_sources, RedditDownloader, WallhavenDownloader};
use wallflow::platform::{detect_platform, LinuxDisplayServer, Platform, PlatformError, SessionInfo, WaylandCompositor};
use wallflow::tui::format_file_size;

fn session(os: &str, wayland: bool, desktop: Option<&str>) -> SessionInfo {
    SessionInfo {
        os: os.to_string(),
        wayland_display: wayland,
        x_display: !wayland,
        session_type: None,
        current_desktop: desktop.map(|d| d.to_string()),
        sway_socket: false,
        hyprland_signature: false,
    }
}

#[test]
fn platform_detection() {
    assert_eq!(detect_platform(&session("linux", false, None)), Ok(Platform::Linux(LinuxDisplayServer::X11)));
    assert_eq!(
        detect_platform(&session("linux", true, Some("Hyprland"))),
        Ok(Platform::Linux(LinuxDisplayServer::Wayland(WaylandCompositor::Hyprland)))
    );
    assert_eq!(
        detect_platform(&session("linux", true, Some("ubuntu:GNOME"))),
        Ok(Platform::Linux(LinuxDisplayServer::Wayland(WaylandCompositor::Gnome)))
    );
    let mut s = session("linux", false, None);
    s.session_type = Some("wayland".to_string());
    s.sway_socket = true;
    assert_eq!(detect_platform(&s), Ok(Platform::Linux(LinuxDisplayServer::Wayland(WaylandCompositor::Sway))));
    assert_eq!(detect_platform(&session("macos", false, None)), Ok(Platform::MacOS));
    assert_eq!(detect_platform(&session("plan9", false, None)), Err(PlatformError::Unsupported));
    assert_eq!(
        Platform::Linux(LinuxDisplayServer::Wayland(WaylandCompositor::KDE)).describe(),
        "Linux (Wayland - KDE)"
    );
}

#[test]
fn registry_on_unknown_platform_is_empty() {
    let registry = BackendRegistry::new(session("plan9", false, None));
    assert!(registry.backends.is_empty());
    assert_eq!(registry.get_best_backend(), Err(BackendError::NoneAvailable));
    assert!(registry.list_backends().is_empty());
    assert!(registry.available_backend_names().is_empty());
}

#[test]
fn registry_orders_by_priority() {
    let registry = BackendRegistry {
        backends: vec![BackendKind::Feh, BackendKind::Hyprpaper, BackendKind::Xwallpaper],
        session: session("linux", false, None),
    };
    assert_eq!(registry.by_priority(), vec![BackendKind::Hyprpaper, BackendKind::Xwallpaper, BackendKind::Feh]);
    assert_eq!(BackendKind::Awww.supported_transitions().len(), 8);
    assert_eq!(BackendKind::Swaybg.name(), "swaybg");
    assert_eq!(BackendKind::Swaybg.priority(), 85);
}

#[test]
fn sources_are_sorted() {
    assert_eq!(list_sources(), vec!["apod", "picsum", "wallhaven"]);
}

#[test]
fn reddit_urls() {
    assert!(RedditDownloader::is_image_url("https://x.org/A.JPG"));
    assert!(!RedditDownloader::is_image_url("https://x.org/a.gif"));
    assert_eq!(RedditDownloader::normalize_imgur_url("https://imgur.com/abc"), "https://i.imgur.com/abc.jpg");
    assert_eq!(RedditDownloader::normalize_imgur_url("http://imgur.com/abc.png"), "http://i.imgur.com/abc.png");
    assert_eq!(RedditDownloader::normalize_imgur_url("https://example.com/x"), "https://example.com/x");
}

#[test]
fn wallhaven_masks_and_query() {
    let v = |xs: &[&str]| xs.iter().map(|s| s.to_string()).collect::<Vec<_>>();
    assert_eq!(WallhavenDownloader::purity_to_bitmask(&v(&[])), "100");
    assert_eq!(WallhavenDownloader::purity_to_bitmask(&v(&["SFW", "nsfw"])), "101");
    assert_eq!(WallhavenDownloader::categories_to_bitmask(&v(&["anime", "People"])), "011");
    assert_eq!(WallhavenDownloader::build_search_query("", &v(&["nature", "General", "city"])), "nature city");
    assert_eq!(WallhavenDownloader::build_search_query("sky", &v(&["anime"])), "sky");
    assert_eq!(WallhavenDownloader::build_search_query("", &v(&[])), "");
}

#[test]
fn file_sizes() {
    assert_eq!(format_file_size(0), "0 B");
    assert_eq!(format_file_size(512), "512 B");
    assert_eq!(format_file_size(1024), "1.0 KB");
    assert_eq!(format_file_size(1536), "1.5 KB");
    assert_eq!(format_file_size(1126), "1.1 KB");
    assert_eq!(format_file_size(5 * 1024 * 1024), "5.0 MB");
    assert_eq!(format_file_size(3 * 1024 * 1024 * 1024 * 1024), "3072.0 GB");
}

#[test]
fn platform_report() {
    let info = wallflow::backends::platform_info(session("linux", false, None)).ok().unwrap();
    assert!(info.starts_with("Platform: Linux (X11)\nStatus: "));
    assert!(info.contains("Available backends: ["));
    assert_eq!(
        wallflow::backends::platform_info(session("plan9", false, None)).err(),
        Some(PlatformError::Unsupported)
    );
}

#[test]
fn wallpaper_options_from_config() {
    let mut config = Config::default();
    let o = build_wallpaper_options(&config);
    assert_eq!(o.transition, Some("random".to_string()));
    assert_eq!(o.duration, Some(5));
    assert_eq!(o.fps, Some(30));
    assert_eq!(o.scaling, WallpaperScaling::Fill);
    assert_eq!(o.monitor, MonitorSelection::All);
    config.transition.transition_type = TransitionType::Multiple(vec!["fade".to_string(), "wipe".to_string()]);
    let t = build_wallpaper_options(&config).transition.unwrap();
    assert!(t == "fade" || t == "wipe");
    config.transition.transition_type = TransitionType::Multiple(vec![]);
    assert_eq!(build_wallpaper_options(&config).transition, None);
}

#[test]
fn awww_arguments() {
    let mut o = WallpaperOptions::default();
    assert_eq!(
        AwwwBackend::new().build_awww_args("/w.png", &o),
        vec!["img", "/w.png", "--transition-type", "random", "--transition-step", "90"]
    );
    o.transition = Some("wipe".to_string());
    o.fps = Some(60);
    assert_eq!(
        AwwwBackend::new().build_awww_args("/w.png", &o),
        vec!["img", "/w.png", "--transition-type", "wipe", "--transition-fps", "60", "--transition-step", "90"]
    );
}

#[test]
fn backend_listing_is_sorted_by_name() {
    let registry = BackendRegistry {
        backends: vec![BackendKind::Xwallpaper, BackendKind::Feh, BackendKind::Awww],
        session: session("linux", false, None),
    };
    assert_eq!(registry.by_name(), vec![BackendKind::Awww, BackendKind::Feh, BackendKind::Xwallpaper]);
    let lines = registry.list_backends();
    assert_eq!(lines.len(), 3);
    assert!(lines[0].starts_with("awww (priority: 75, available: "));
    assert!(lines[1].starts_with("feh (priority: 50, available: "));
    assert!(lines[2].starts_with("xwallpaper (priority: 55, available: "));
}

#[test]
fn backend_choice_takes_first_yes() {
    let q = vec![BackendKind::Hyprpaper, BackendKind::Swaybg, BackendKind::Awww];
    assert_eq!(choose_backend(&q, &vec![false, true]), Ok(BackendKind::Swaybg));
    assert_eq!(choose_backend(&q, &vec![false, false, false]), Err(BackendError::NoneWorking));
    assert_eq!(choose_backend(&q, &vec![]), Err(BackendError::NoneWorking));
    assert_eq!(choose_backend(&vec![], &vec![true]), Err(BackendError::NoneAvailable));
}

#[test]
fn stable_priority_order() {
    let registry = BackendRegistry {
        backends: vec![BackendKind::MacOSWallpaper, BackendKind::Feh, BackendKind::WindowsSystemParameters],
        session: session("linux", false, None),
    };
    assert_eq!(
        registry.by_priority(),
        vec![BackendKind::MacOSWallpaper, BackendKind::WindowsSystemParameters, BackendKind::Feh]
    );
}
