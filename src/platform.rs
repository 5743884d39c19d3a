//! Platform and display server detection from the session environment.

use vstd::prelude::*;
use vstd::string::*;
use crate::text::{contains_str, lower_of, lowercase, occurs_in, str_eq};

verus! {

/// Supported platforms for wallpaper management.
#[derive(Clone, Copy, Debug, PartialEq, Eq, Structural)]
pub enum Platform {
    Linux(LinuxDisplayServer),
    MacOS,
    Windows,
}

/// Linux display server types.
#[derive(Clone, Copy, Debug, PartialEq, Eq, Structural)]
pub enum LinuxDisplayServer {
    X11,
    Wayland(WaylandCompositor),
}

/// Wayland compositors told apart.
#[derive(Clone, Copy, Debug, PartialEq, Eq, Structural)]
pub enum WaylandCompositor {
    Sway,
    Hyprland,
    Gnome,
    KDE,
    Generic,
}

/// Whether wallpapers can be set on this system.
pub enum PlatformStatus {
    Ready,
    MissingDependency(String),
    UnsupportedPlatform,
}

/// The platform is none of the supported ones.
#[derive(Clone, Copy, Debug, PartialEq, Eq, Structural)]
pub enum PlatformError {
    Unsupported,
}

/// What the environment says about the running session.
pub struct SessionInfo {
    /// The operating system name (`linux`, `macos`, `windows`, ...).
    pub os: String,
    /// `WAYLAND_DISPLAY` is set.
    pub wayland_display: bool,
    /// `DISPLAY` is set.
    pub x_display: bool,
    /// The value of `XDG_SESSION_TYPE`.
    pub session_type: Option<String>,
    /// The value of `XDG_CURRENT_DESKTOP`.
    pub current_desktop: Option<String>,
    /// `SWAYSOCK` is set.
    pub sway_socket: bool,
    /// `HYPRLAND_INSTANCE_SIGNATURE` is set.
    pub hyprland_signature: bool,
}

pub open spec fn is_some_text(o: Option<String>, t: Seq<char>) -> bool {
    o matches Some(s) && s@ == t
}

/// The compositor, judged first by the desktop name, then by
/// compositor-specific variables.
pub open spec fn compositor_of(s: SessionInfo) -> WaylandCompositor {
    let named = match s.current_desktop {
        Some(d) => {
            let l = lower_of(d@);
            if occurs_in(l, "sway"@) {
                Some(WaylandCompositor::Sway)
            } else if occurs_in(l, "hyprland"@) {
                Some(WaylandCompositor::Hyprland)
            } else if occurs_in(l, "gnome"@) {
                Some(WaylandCompositor::Gnome)
            } else if occurs_in(l, "kde"@) {
                Some(WaylandCompositor::KDE)
            } else {
                None
            }
        },
        None => None,
    };
    match named {
        Some(c) => c,
        None => if s.sway_socket {
            WaylandCompositor::Sway
        } else if s.hyprland_signature {
            WaylandCompositor::Hyprland
        } else {
            WaylandCompositor::Generic
        },
    }
}

/// Wayland when its display or session type says so, X11 otherwise.
pub open spec fn linux_platform_of(s: SessionInfo) -> Platform {
    if s.wayland_display || is_some_text(s.session_type, "wayland"@) {
        Platform::Linux(LinuxDisplayServer::Wayland(compositor_of(s)))
    } else {
        Platform::Linux(LinuxDisplayServer::X11)
    }
}

pub open spec fn platform_of(s: SessionInfo) -> Result<Platform, PlatformError> {
    if s.os@ == "linux"@ {
        Ok(linux_platform_of(s))
    } else if s.os@ == "macos"@ {
        Ok(Platform::MacOS)
    } else if s.os@ == "windows"@ {
        Ok(Platform::Windows)
    } else {
        Err(PlatformError::Unsupported)
    }
}

fn text_is(o: &Option<String>, t: &str) -> (r: bool)
    ensures
        r == is_some_text(*o, t@),
{
    match o {
        Some(s) => str_eq(s.as_str(), t),
        None => false,
    }
}

/// Which Wayland compositor the session runs.
pub fn detect_wayland_compositor(session: &SessionInfo) -> (c: WaylandCompositor)
    ensures
        c == compositor_of(*session),
{
    if let Some(d) = &session.current_desktop {
        let l = lowercase(d.as_str());
        if contains_str(l.as_str(), "sway") {
            return WaylandCompositor::Sway;
        }
        if contains_str(l.as_str(), "hyprland") {
            return WaylandCompositor::Hyprland;
        }
        if contains_str(l.as_str(), "gnome") {
            return WaylandCompositor::Gnome;
        }
        if contains_str(l.as_str(), "kde") {
            return WaylandCompositor::KDE;
        }
    }
    if session.sway_socket {
        WaylandCompositor::Sway
    } else if session.hyprland_signature {
        WaylandCompositor::Hyprland
    } else {
        WaylandCompositor::Generic
    }
}

/// The Linux display server (X11 when nothing says Wayland).
pub fn detect_linux_platform(session: &SessionInfo) -> (p: Platform)
    ensures
        p == linux_platform_of(*session),
{
    if session.wayland_display || text_is(&session.session_type, "wayland") {
        Platform::Linux(LinuxDisplayServer::Wayland(detect_wayland_compositor(session)))
    } else {
        Platform::Linux(LinuxDisplayServer::X11)
    }
}

/// The platform the session runs on.
pub fn detect_platform(session: &SessionInfo) -> (r: Result<Platform, PlatformError>)
    ensures
        r == platform_of(*session),
{
    if str_eq(session.os.as_str(), "linux") {
        Ok(detect_linux_platform(session))
    } else if str_eq(session.os.as_str(), "macos") {
        Ok(Platform::MacOS)
    } else if str_eq(session.os.as_str(), "windows") {
        Ok(Platform::Windows)
    } else {
        Err(PlatformError::Unsupported)
    }
}

impl WaylandCompositor {
    pub open spec fn name_spec(&self) -> Seq<char> {
        match self {
            WaylandCompositor::Sway => "Sway"@,
            WaylandCompositor::Hyprland => "Hyprland"@,
            WaylandCompositor::Gnome => "GNOME"@,
            WaylandCompositor::KDE => "KDE"@,
            WaylandCompositor::Generic => "Generic"@,
        }
    }

    /// Display name of the compositor.
    pub fn name(&self) -> (r: &'static str)
        ensures
            r@ == self.name_spec(),
    {
        match self {
            WaylandCompositor::Sway => "Sway",
            WaylandCompositor::Hyprland => "Hyprland",
            WaylandCompositor::Gnome => "GNOME",
            WaylandCompositor::KDE => "KDE",
            WaylandCompositor::Generic => "Generic",
        }
    }
}

impl Platform {
    pub open spec fn describe_spec(&self) -> Seq<char> {
        match self {
            Platform::Linux(LinuxDisplayServer::X11) => "Linux (X11)"@,
            Platform::Linux(LinuxDisplayServer::Wayland(c)) => "Linux (Wayland - "@ + c.name_spec()
                + ")"@,
            Platform::MacOS => "macOS"@,
            Platform::Windows => "Windows"@,
        }
    }

    /// Display name of the platform, e.g. `Linux (Wayland - Sway)`.
    pub fn describe(&self) -> (r: String)
        ensures
            r@ == self.describe_spec(),
    {
        match self {
            Platform::Linux(LinuxDisplayServer::X11) => String::from_str("Linux (X11)"),
            Platform::Linux(LinuxDisplayServer::Wayland(c)) => {
                let mut s = String::from_str("Linux (Wayland - ");
                s.append(c.name());
                s.append(")");
                s
            },
            Platform::MacOS => String::from_str("macOS"),
            Platform::Windows => String::from_str("Windows"),
        }
    }
}

/// Relies on `which::which`: whether a program of that name is found on the
/// search path. The answer depends on the machine, so nothing is promised.
#[verifier::external_body]
pub(crate) fn command_available(program: &str) -> (r: bool) {
    which::which(program).is_ok()
}

/// Programs whose presence makes a Linux system ready.
pub fn linux_setters() -> (r: Vec<&'static str>)
    ensures
        r@.map_values(|p: &'static str| p@) == seq![
            "swww"@,
            "awww"@,
            "swaybg"@,
            "hyprpaper"@,
            "feh"@,
            "nitrogen"@,
            "xwallpaper"@,
        ],
{
    let mut v: Vec<&'static str> = Vec::new();
    v.push("swww");
    v.push("awww");
    v.push("swaybg");
    v.push("hyprpaper");
    v.push("feh");
    v.push("nitrogen");
    v.push("xwallpaper");
    assert(v@.map_values(|p: &'static str| p@) =~= seq![
        "swww"@,
        "awww"@,
        "swaybg"@,
        "hyprpaper"@,
        "feh"@,
        "nitrogen"@,
        "xwallpaper"@,
    ]);
    v
}

/// Whether wallpapers can be set: the platform must be supported and, on
/// macOS and Linux, a wallpaper program must be installed.
pub fn check_platform_dependencies(session: &SessionInfo) -> (r: PlatformStatus)
    ensures
        platform_of(*session) is Err ==> r is UnsupportedPlatform,
        platform_of(*session) == Ok::<Platform, PlatformError>(Platform::Windows) ==> r is Ready,
        platform_of(*session) is Ok ==> !(r is UnsupportedPlatform),
{
    match detect_platform(session) {
        Ok(Platform::MacOS) => {
            if command_available("wallpaper") {
                PlatformStatus::Ready
            } else {
                PlatformStatus::MissingDependency(
                    String::from_str("macOS wallpaper CLI not installed. Run: brew install wallpaper"),
                )
            }
        },
        Ok(Platform::Linux(_)) => {
            let setters = linux_setters();
            let mut found = false;
            let mut i: usize = 0;
            while i < setters.len()
                invariant
                    0 <= i <= setters.len(),
                decreases setters.len() - i,
            {
                if command_available(setters[i]) {
                    found = true;
                }
                i = i + 1;
            }
            if found {
                PlatformStatus::Ready
            } else {
                PlatformStatus::MissingDependency(
                    String::from_str(
                        "No wallpaper backends found. Install one of: swww, awww, feh, nitrogen",
                    ),
                )
            }
        },
        Ok(Platform::Windows) => PlatformStatus::Ready,
        Err(_) => PlatformStatus::UnsupportedPlatform,
    }
}

} // verus!
