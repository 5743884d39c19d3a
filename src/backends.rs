//! Wallpaper setter backends: their identities and priorities, the options
//! passed to them, and the registry that picks one for the platform.

use vstd::prelude::*;
use vstd::string::*;
use crate::platform::{
    command_available, detect_platform, LinuxDisplayServer, Platform, SessionInfo,
    WaylandCompositor, platform_of,
};
use crate::config::{Config, TransitionType};
use crate::random::random_below;
use crate::text::{contains_str, decimal, lowercase, occurs_in, lower_of, push_decimal, push_str};

verus! {

/// Request parameters for downloading a wallpaper.
pub struct DownloadRequest {
    pub category: Option<String>,
    pub resolution: Option<(u32, u32)>,
    pub quality: Option<String>,
}

/// How to scale or position the wallpaper.
#[derive(Clone, Copy, Debug, PartialEq, Eq, Structural)]
pub enum WallpaperScaling {
    /// Scale to fill the screen, cropping if needed.
    Fill,
    /// Scale to fit the screen, keeping the aspect ratio.
    Fit,
    /// Stretch to the screen, distorting if needed.
    Stretch,
    /// Center without scaling.
    Center,
    /// Repeat across the screen.
    Tile,
}

/// Which monitors to apply the wallpaper to.
#[derive(Clone, Copy, Debug, PartialEq, Eq, Structural)]
pub enum MonitorSelection {
    Primary,
    All,
    Specific(u32),
}

/// Options for applying a wallpaper.
pub struct WallpaperOptions {
    pub transition: Option<String>,
    pub duration: Option<u32>,
    pub fps: Option<u32>,
    pub scaling: WallpaperScaling,
    pub monitor: MonitorSelection,
}

impl Default for WallpaperScaling {
    fn default() -> (s: WallpaperScaling)
        ensures
            s == WallpaperScaling::Fill,
    {
        WallpaperScaling::Fill
    }
}

impl Default for MonitorSelection {
    fn default() -> (m: MonitorSelection)
        ensures
            m == MonitorSelection::All,
    {
        MonitorSelection::All
    }
}

impl Default for WallpaperOptions {
    fn default() -> (o: WallpaperOptions)
        ensures
            o.transition is None,
            o.duration is None,
            o.fps is None,
            o.scaling == WallpaperScaling::Fill,
            o.monitor == MonitorSelection::All,
    {
        WallpaperOptions {
            transition: None,
            duration: None,
            fps: None,
            scaling: WallpaperScaling::Fill,
            monitor: MonitorSelection::All,
        }
    }
}

/// The wallpaper setters known to the registry.
#[derive(Clone, Copy, Debug, PartialEq, Eq, Structural)]
pub enum BackendKind {
    Awww,
    Gnome,
    Swaybg,
    Hyprpaper,
    Feh,
    Nitrogen,
    Xwallpaper,
    MacOSWallpaper,
    AppleScript,
    WindowsSystemParameters,
}

impl BackendKind {
    pub open spec fn name_spec(&self) -> Seq<char> {
        match self {
            BackendKind::Awww => "awww"@,
            BackendKind::Gnome => "gnome-gsettings"@,
            BackendKind::Swaybg => "swaybg"@,
            BackendKind::Hyprpaper => "hyprpaper"@,
            BackendKind::Feh => "feh"@,
            BackendKind::Nitrogen => "nitrogen"@,
            BackendKind::Xwallpaper => "xwallpaper"@,
            BackendKind::MacOSWallpaper => "macos-wallpaper"@,
            BackendKind::AppleScript => "applescript"@,
            BackendKind::WindowsSystemParameters => "windows-systemparameters"@,
        }
    }

    pub open spec fn priority_spec(&self) -> int {
        match self {
            BackendKind::Awww => 75,
            BackendKind::Gnome => 80,
            BackendKind::Swaybg => 85,
            BackendKind::Hyprpaper => 90,
            BackendKind::Feh => 50,
            BackendKind::Nitrogen => 45,
            BackendKind::Xwallpaper => 55,
            BackendKind::MacOSWallpaper => 100,
            BackendKind::AppleScript => 40,
            BackendKind::WindowsSystemParameters => 100,
        }
    }

    /// Name for logging and identification.
    pub fn name(&self) -> (r: &'static str)
        ensures
            r@ == self.name_spec(),
    {
        match self {
            BackendKind::Awww => "awww",
            BackendKind::Gnome => "gnome-gsettings",
            BackendKind::Swaybg => "swaybg",
            BackendKind::Hyprpaper => "hyprpaper",
            BackendKind::Feh => "feh",
            BackendKind::Nitrogen => "nitrogen",
            BackendKind::Xwallpaper => "xwallpaper",
            BackendKind::MacOSWallpaper => "macos-wallpaper",
            BackendKind::AppleScript => "applescript",
            BackendKind::WindowsSystemParameters => "windows-systemparameters",
        }
    }

    /// Preference among available backends; higher wins.
    pub fn priority(&self) -> (p: u32)
        ensures
            p == self.priority_spec(),
    {
        match self {
            BackendKind::Awww => 75,
            BackendKind::Gnome => 80,
            BackendKind::Swaybg => 85,
            BackendKind::Hyprpaper => 90,
            BackendKind::Feh => 50,
            BackendKind::Nitrogen => 45,
            BackendKind::Xwallpaper => 55,
            BackendKind::MacOSWallpaper => 100,
            BackendKind::AppleScript => 40,
            BackendKind::WindowsSystemParameters => 100,
        }
    }

    /// Transition effects the backend can play.
    pub fn supported_transitions(&self) -> (r: Vec<String>)
        ensures
            *self == BackendKind::Awww ==> r.len() == 8,
            *self != BackendKind::Awww ==> r.len() == 0,
    {
        let mut v: Vec<String> = Vec::new();
        if let BackendKind::Awww = self {
            v.push(String::from_str("random"));
            v.push(String::from_str("fade"));
            v.push(String::from_str("slideIn"));
            v.push(String::from_str("slideOut"));
            v.push(String::from_str("wipe"));
            v.push(String::from_str("grow"));
            v.push(String::from_str("outer"));
            v.push(String::from_str("any"));
        }
        v
    }

    pub open spec fn program_spec(&self) -> Seq<char> {
        match self {
            BackendKind::Awww => "awww"@,
            BackendKind::Gnome => "gsettings"@,
            BackendKind::Swaybg => "swaybg"@,
            BackendKind::Hyprpaper => "hyprctl"@,
            BackendKind::Feh => "feh"@,
            BackendKind::Nitrogen => "nitrogen"@,
            BackendKind::Xwallpaper => "xwallpaper"@,
            BackendKind::MacOSWallpaper => "wallpaper"@,
            BackendKind::AppleScript => "osascript"@,
            BackendKind::WindowsSystemParameters => "powershell"@,
        }
    }

    /// Position of the name in alphabetical order.
    pub open spec fn name_rank(&self) -> int {
        match self {
            BackendKind::AppleScript => 0,
            BackendKind::Awww => 1,
            BackendKind::Feh => 2,
            BackendKind::Gnome => 3,
            BackendKind::Hyprpaper => 4,
            BackendKind::MacOSWallpaper => 5,
            BackendKind::Nitrogen => 6,
            BackendKind::Swaybg => 7,
            BackendKind::WindowsSystemParameters => 8,
            BackendKind::Xwallpaper => 9,
        }
    }

    /// Position of the name in alphabetical order.
    pub fn rank(&self) -> (r: u32)
        ensures
            r == self.name_rank(),
    {
        match self {
            BackendKind::AppleScript => 0,
            BackendKind::Awww => 1,
            BackendKind::Feh => 2,
            BackendKind::Gnome => 3,
            BackendKind::Hyprpaper => 4,
            BackendKind::MacOSWallpaper => 5,
            BackendKind::Nitrogen => 6,
            BackendKind::Swaybg => 7,
            BackendKind::WindowsSystemParameters => 8,
            BackendKind::Xwallpaper => 9,
        }
    }

    /// The program whose presence makes the backend usable.
    pub fn program(&self) -> (r: &'static str)
        ensures
            r@ == self.program_spec(),
    {
        match self {
            BackendKind::Awww => "awww",
            BackendKind::Gnome => "gsettings",
            BackendKind::Swaybg => "swaybg",
            BackendKind::Hyprpaper => "hyprctl",
            BackendKind::Feh => "feh",
            BackendKind::Nitrogen => "nitrogen",
            BackendKind::Xwallpaper => "xwallpaper",
            BackendKind::MacOSWallpaper => "wallpaper",
            BackendKind::AppleScript => "osascript",
            BackendKind::WindowsSystemParameters => "powershell",
        }
    }

    /// Whether the backend can be used in this session: its program is
    /// installed and, for GNOME, the desktop is GNOME-based.
    pub fn is_available(&self, session: &SessionInfo) -> (r: bool)
        ensures
            *self == BackendKind::Gnome && !gnome_desktop(*session) ==> !r,
    {
        if let BackendKind::Gnome = self {
            if !is_gnome_desktop(session) {
                return false;
            }
        }
        command_available(self.program())
    }
}

/// The desktop is GNOME or derived from it.
pub open spec fn gnome_desktop(s: SessionInfo) -> bool {
    match s.current_desktop {
        Some(d) => {
            let l = lower_of(d@);
            occurs_in(l, "gnome"@) || occurs_in(l, "unity"@) || occurs_in(l, "budgie"@)
        },
        None => false,
    }
}

/// Whether the desktop is GNOME or derived from it.
pub fn is_gnome_desktop(session: &SessionInfo) -> (r: bool)
    ensures
        r == gnome_desktop(*session),
{
    match &session.current_desktop {
        Some(d) => {
            let l = lowercase(d.as_str());
            contains_str(l.as_str(), "gnome") || contains_str(l.as_str(), "unity")
                || contains_str(l.as_str(), "budgie")
        },
        None => false,
    }
}

/// awww backend (Wayland, with transitions).
pub struct AwwwBackend;

/// GNOME backend through gsettings.
pub struct GnomeBackend;

/// swaybg backend for Sway.
pub struct SwaybgBackend;

/// hyprpaper backend for Hyprland.
pub struct HyprpaperBackend;

/// feh backend for X11.
pub struct FehBackend;

/// nitrogen backend for X11.
pub struct NitrogenBackend;

/// xwallpaper backend for X11.
pub struct XwallpaperBackend;

/// macOS `wallpaper` command line tool.
pub struct MacOSWallpaperBackend;

/// macOS AppleScript fallback.
pub struct AppleScriptBackend;

/// Windows `SystemParametersInfo` backend.
pub struct WindowsSystemParametersBackend;

/// A backend that can set wallpapers; `kind` says which one it is.
pub trait WallpaperBackend {
    fn kind(&self) -> BackendKind;
}

impl AwwwBackend {
    pub fn new() -> AwwwBackend {
        AwwwBackend
    }
}

impl GnomeBackend {
    pub fn new() -> GnomeBackend {
        GnomeBackend
    }
}

impl SwaybgBackend {
    pub fn new() -> SwaybgBackend {
        SwaybgBackend
    }
}

impl HyprpaperBackend {
    pub fn new() -> HyprpaperBackend {
        HyprpaperBackend
    }
}

impl FehBackend {
    pub fn new() -> FehBackend {
        FehBackend
    }
}

impl NitrogenBackend {
    pub fn new() -> NitrogenBackend {
        NitrogenBackend
    }
}

impl XwallpaperBackend {
    pub fn new() -> XwallpaperBackend {
        XwallpaperBackend
    }
}

impl MacOSWallpaperBackend {
    pub fn new() -> MacOSWallpaperBackend {
        MacOSWallpaperBackend
    }
}

impl AppleScriptBackend {
    pub fn new() -> AppleScriptBackend {
        AppleScriptBackend
    }
}

impl WindowsSystemParametersBackend {
    pub fn new() -> WindowsSystemParametersBackend {
        WindowsSystemParametersBackend
    }
}

impl WallpaperBackend for AwwwBackend {
    fn kind(&self) -> BackendKind {
        BackendKind::Awww
    }
}

impl WallpaperBackend for GnomeBackend {
    fn kind(&self) -> BackendKind {
        BackendKind::Gnome
    }
}

impl WallpaperBackend for SwaybgBackend {
    fn kind(&self) -> BackendKind {
        BackendKind::Swaybg
    }
}

impl WallpaperBackend for HyprpaperBackend {
    fn kind(&self) -> BackendKind {
        BackendKind::Hyprpaper
    }
}

impl WallpaperBackend for FehBackend {
    fn kind(&self) -> BackendKind {
        BackendKind::Feh
    }
}

impl WallpaperBackend for NitrogenBackend {
    fn kind(&self) -> BackendKind {
        BackendKind::Nitrogen
    }
}

impl WallpaperBackend for XwallpaperBackend {
    fn kind(&self) -> BackendKind {
        BackendKind::Xwallpaper
    }
}

impl WallpaperBackend for MacOSWallpaperBackend {
    fn kind(&self) -> BackendKind {
        BackendKind::MacOSWallpaper
    }
}

impl WallpaperBackend for AppleScriptBackend {
    fn kind(&self) -> BackendKind {
        BackendKind::AppleScript
    }
}

impl WallpaperBackend for WindowsSystemParametersBackend {
    fn kind(&self) -> BackendKind {
        BackendKind::WindowsSystemParameters
    }
}

/// Backends tried for a Linux display server, in order.
pub open spec fn linux_candidates(ds: LinuxDisplayServer) -> Seq<BackendKind> {
    match ds {
        LinuxDisplayServer::Wayland(WaylandCompositor::Sway) => seq![
            BackendKind::Awww,
            BackendKind::Swaybg,
        ],
        LinuxDisplayServer::Wayland(WaylandCompositor::Hyprland) => seq![
            BackendKind::Awww,
            BackendKind::Hyprpaper,
        ],
        LinuxDisplayServer::Wayland(_) => seq![BackendKind::Awww],
        LinuxDisplayServer::X11 => seq![
            BackendKind::Feh,
            BackendKind::Nitrogen,
            BackendKind::Xwallpaper,
        ],
    }
}

pub open spec fn macos_candidates() -> Seq<BackendKind> {
    seq![BackendKind::MacOSWallpaper, BackendKind::AppleScript]
}

pub open spec fn windows_candidates() -> Seq<BackendKind> {
    seq![BackendKind::WindowsSystemParameters]
}

/// Backends tried in a session, in order: those of the detected platform
/// that this system can run, or every one this system can run when the
/// platform is unknown.
pub open spec fn candidates_for(s: SessionInfo) -> Seq<BackendKind> {
    let linux = s.os@ == "linux"@;
    let macos = s.os@ == "macos"@;
    let windows = s.os@ == "windows"@;
    match platform_of(s) {
        Ok(Platform::Linux(ds)) => if linux {
            linux_candidates(ds)
        } else {
            Seq::empty()
        },
        Ok(Platform::MacOS) => if macos {
            macos_candidates()
        } else {
            Seq::empty()
        },
        Ok(Platform::Windows) => if windows {
            windows_candidates()
        } else {
            Seq::empty()
        },
        Err(_) => Seq::empty(),
    }
}

/// The listing line of a backend.
pub open spec fn backend_line(k: BackendKind, available: bool) -> Seq<char> {
    k.name_spec() + " (priority: "@ + decimal(k.priority_spec() as nat) + ", available: "@ + if available {
        "true)"@
    } else {
        "false)"@
    }
}

/// Why no backend could be picked.
#[derive(Clone, Copy, Debug, PartialEq, Eq, Structural)]
pub enum BackendError {
    /// No backend was registered.
    NoneAvailable,
    /// Every registered backend failed validation.
    NoneWorking,
}

/// Sort key: name rank when `by_name`, otherwise descending priority.
pub open spec fn kind_key(k: BackendKind, by_name: bool) -> int {
    if by_name {
        k.name_rank()
    } else {
        -k.priority_spec()
    }
}

/// Where an item with key `key` goes: before the first entry with a greater key.
pub open spec fn kind_insert_pos(s: Seq<BackendKind>, by_name: bool, key: int) -> int
    decreases s.len(),
{
    if s.len() == 0 {
        0
    } else if kind_key(s[0], by_name) > key {
        0
    } else {
        1 + kind_insert_pos(s.drop_first(), by_name, key)
    }
}

/// Stable insertion sort of backends by `kind_key`.
pub open spec fn kinds_sorted(s: Seq<BackendKind>, by_name: bool) -> Seq<BackendKind>
    decreases s.len(),
{
    if s.len() == 0 {
        Seq::empty()
    } else {
        let rest = kinds_sorted(s.drop_last(), by_name);
        rest.insert(kind_insert_pos(rest, by_name, kind_key(s.last(), by_name)), s.last())
    }
}

pub open spec fn keys_ascending(s: Seq<BackendKind>, by_name: bool) -> bool {
    forall|i: int, j: int| 0 <= i <= j < s.len() ==> kind_key(s[i], by_name) <= kind_key(s[j], by_name)
}

proof fn lemma_kind_insert_pos_is(s: Seq<BackendKind>, by_name: bool, key: int, p: int)
    requires
        0 <= p <= s.len(),
        forall|j: int| 0 <= j < p ==> kind_key(#[trigger] s[j], by_name) <= key,
        p == s.len() || kind_key(s[p], by_name) > key,
    ensures
        kind_insert_pos(s, by_name, key) == p,
    decreases p,
{
    if p > 0 {
        let t = s.drop_first();
        assert forall|j: int| 0 <= j < p - 1 implies kind_key(#[trigger] t[j], by_name) <= key by {
            assert(t[j] == s[j + 1]);
        }
        if p < s.len() {
            assert(t[p - 1] == s[p]);
        }
        lemma_kind_insert_pos_is(t, by_name, key, p - 1);
    }
}

proof fn lemma_kind_insert_pos_bounds(s: Seq<BackendKind>, by_name: bool, key: int)
    ensures
        0 <= kind_insert_pos(s, by_name, key) <= s.len(),
    decreases s.len(),
{
    if s.len() > 0 && kind_key(s[0], by_name) <= key {
        lemma_kind_insert_pos_bounds(s.drop_first(), by_name, key);
    }
}

proof fn lemma_kind_insert_sorted(s: Seq<BackendKind>, by_name: bool, x: BackendKind)
    requires
        keys_ascending(s, by_name),
    ensures
        keys_ascending(s.insert(kind_insert_pos(s, by_name, kind_key(x, by_name)), x), by_name),
    decreases s.len(),
{
    let key = kind_key(x, by_name);
    lemma_kind_insert_pos_bounds(s, by_name, key);
    let p = kind_insert_pos(s, by_name, key);
    if s.len() > 0 && kind_key(s[0], by_name) <= key {
        let t = s.drop_first();
        assert(keys_ascending(t, by_name)) by {
            assert forall|i: int, j: int| 0 <= i <= j < t.len() implies kind_key(t[i], by_name)
                <= kind_key(t[j], by_name) by {
                assert(t[i] == s[i + 1] && t[j] == s[j + 1]);
            }
        }
        lemma_kind_insert_pos_bounds(t, by_name, key);
        lemma_kind_insert_sorted(t, by_name, x);
        let ti = t.insert(p - 1, x);
        assert(s.insert(p, x) =~= seq![s[0]] + ti);
        assert forall|j: int| 0 <= j < ti.len() implies kind_key(s[0], by_name) <= kind_key(
            ti[j],
            by_name,
        ) by {
            if j < p - 1 {
                assert(ti[j] == s[j + 1]);
            } else if j > p - 1 {
                assert(ti[j] == s[j]);
            }
        }
    } else {
        assert(s.insert(p, x) =~= seq![x] + s);
    }
}

/// The order is ascending by key and holds the same backends.
pub proof fn lemma_kinds_sorted(s: Seq<BackendKind>, by_name: bool)
    ensures
        keys_ascending(kinds_sorted(s, by_name), by_name),
        kinds_sorted(s, by_name).to_multiset() == s.to_multiset(),
        kinds_sorted(s, by_name).len() == s.len(),
    decreases s.len(),
{
    if s.len() > 0 {
        let rest = kinds_sorted(s.drop_last(), by_name);
        lemma_kinds_sorted(s.drop_last(), by_name);
        lemma_kind_insert_sorted(rest, by_name, s.last());
        lemma_kind_insert_pos_bounds(rest, by_name, kind_key(s.last(), by_name));
        assert(s.drop_last().push(s.last()) =~= s);
        vstd::seq_lib::to_multiset_insert(
            rest,
            kind_insert_pos(rest, by_name, kind_key(s.last(), by_name)),
            s.last(),
        );
        vstd::seq_lib::to_multiset_build(s.drop_last(), s.last());
        assert(kinds_sorted(s, by_name).to_multiset() == s.drop_last().push(s.last()).to_multiset());
    } else {
        assert(s =~= kinds_sorted(s, by_name));
    }
}

fn key_of(k: BackendKind, by_name: bool) -> (r: i64)
    ensures
        r == kind_key(k, by_name),
{
    if by_name {
        k.rank() as i64
    } else {
        -(k.priority() as i64)
    }
}

/// Backends sorted stably by name (`by_name`) or by descending priority.
#[verifier::rlimit(40)]
pub fn sort_kinds(items: &Vec<BackendKind>, by_name: bool) -> (r: Vec<BackendKind>)
    ensures
        r@ == kinds_sorted(items@, by_name),
{
    let mut out: Vec<BackendKind> = Vec::new();
    let mut i: usize = 0;
    while i < items.len()
        invariant
            0 <= i <= items.len(),
            out@ == kinds_sorted(items@.subrange(0, i as int), by_name),
        decreases items.len() - i,
    {
        let x = items[i];
        let kx = key_of(x, by_name);
        let mut p: usize = 0;
        while p < out.len() && key_of(out[p], by_name) <= kx
            invariant
                0 <= p <= out.len(),
                forall|j: int| 0 <= j < p ==> kind_key(#[trigger] out@[j], by_name) <= kx,
            decreases out.len() - p,
        {
            p = p + 1;
        }
        proof {
            lemma_kind_insert_pos_is(out@, by_name, kx as int, p as int);
            let s = items@.subrange(0, i + 1);
            assert(s.drop_last() =~= items@.subrange(0, i as int));
            assert(s.last() == x);
        }
        out.insert(p, x);
        i = i + 1;
    }
    assert(items@.subrange(0, items.len() as int) =~= items@);
    out
}

/// Index of the first yes among the first `min(flags.len(), n)` answers
/// from `i` on, or -1.
pub open spec fn first_yes(flags: Seq<bool>, n: int, i: int) -> int
    decreases flags.len() - i,
{
    if i < 0 || i >= flags.len() || i >= n {
        -1
    } else if flags[i] {
        i
    } else {
        first_yes(flags, n, i + 1)
    }
}

/// The outcome of picking a backend from `q` (in priority order) given the
/// validation answers `flags` of its first entries: the first backend
/// answered yes.
pub open spec fn choice(q: Seq<BackendKind>, flags: Seq<bool>) -> Result<BackendKind, BackendError> {
    let f = first_yes(flags, q.len() as int, 0);
    if q.len() == 0 {
        Err(BackendError::NoneAvailable)
    } else if f >= 0 {
        Ok(q[f])
    } else {
        Err(BackendError::NoneWorking)
    }
}

proof fn lemma_first_yes_bounds(flags: Seq<bool>, n: int, i: int)
    ensures
        first_yes(flags, n, i) == -1 || (0 <= i <= first_yes(flags, n, i) < n && first_yes(flags, n, i)
            < flags.len()),
    decreases flags.len() - i,
{
    if 0 <= i < flags.len() && i < n && !flags[i] {
        lemma_first_yes_bounds(flags, n, i + 1);
    }
}

proof fn lemma_first_yes_from(flags: Seq<bool>, n: int, j: int, p: int)
    requires
        0 <= j <= p < flags.len(),
        p < n,
        flags[p],
        forall|m: int| 0 <= m < p ==> !#[trigger] flags[m],
    ensures
        first_yes(flags, n, j) == p,
    decreases p - j,
{
    if j < p {
        lemma_first_yes_from(flags, n, j + 1, p);
    }
}

/// The first backend of `q` whose answer in `flags` is yes.
pub fn choose_backend(q: &Vec<BackendKind>, flags: &Vec<bool>) -> (r: Result<BackendKind, BackendError>)
    ensures
        r == choice(q@, flags@),
{
    proof {
        lemma_first_yes_bounds(flags@, q.len() as int, 0);
    }
    if q.len() == 0 {
        return Err(BackendError::NoneAvailable);
    }
    let mut i: usize = 0;
    while i < flags.len() && i < q.len()
        invariant
            0 <= i <= flags.len(),
            i <= q.len(),
            first_yes(flags@, q.len() as int, 0) == first_yes(flags@, q.len() as int, i as int),
        decreases flags.len() - i,
    {
        if flags[i] {
            return Ok(q[i]);
        }
        i = i + 1;
    }
    Err(BackendError::NoneWorking)
}

/// Names of the first `n` backends whose flag is set, in order.
pub open spec fn names_where(ks: Seq<BackendKind>, flags: Seq<bool>, n: int) -> Seq<Seq<char>>
    decreases n,
{
    if n <= 0 {
        Seq::empty()
    } else if flags[n - 1] {
        names_where(ks, flags, n - 1).push(ks[n - 1].name_spec())
    } else {
        names_where(ks, flags, n - 1)
    }
}

proof fn lemma_names_where_prefix(ks: Seq<BackendKind>, flags: Seq<bool>, x: bool, n: int)
    requires
        0 <= n <= flags.len(),
    ensures
        names_where(ks, flags.push(x), n) == names_where(ks, flags, n),
    decreases n,
{
    if n > 0 {
        lemma_names_where_prefix(ks, flags, x, n - 1);
        assert(flags.push(x)[n - 1] == flags[n - 1]);
    }
}

/// The listing lines of `ks` with the availability answers `flags`.
pub open spec fn lines_of(ks: Seq<BackendKind>, flags: Seq<bool>) -> Seq<Seq<char>> {
    Seq::new(ks.len(), |i: int| backend_line(ks[i], flags[i]))
}

pub open spec fn names_view(v: Seq<String>) -> Seq<Seq<char>> {
    v.map_values(|s: String| s@)
}

/// The registered backends of a session, in registration order.
pub struct BackendRegistry {
    pub backends: Vec<BackendKind>,
    pub session: SessionInfo,
}

fn push_all(v: &mut Vec<BackendKind>, more: &Vec<BackendKind>, session: &SessionInfo)
    ensures
        forall|i: int|
            0 <= i < final(v).len() ==> old(v)@.contains(#[trigger] final(v)@[i]) || more@.contains(
                final(v)@[i],
            ),
{
    let ghost start = v@;
    let mut i: usize = 0;
    while i < more.len()
        invariant
            0 <= i <= more.len(),
            forall|j: int|
                0 <= j < v.len() ==> start.contains(#[trigger] v@[j]) || more@.contains(v@[j]),
        decreases more.len() - i,
    {
        if more[i].is_available(session) {
            let ghost before = v@;
            v.push(more[i]);
            proof {
                assert(more@.contains(more@[i as int]));
                assert forall|j: int| 0 <= j < v.len() implies start.contains(#[trigger] v@[j])
                    || more@.contains(v@[j]) by {
                    if j < before.len() {
                        assert(v@[j] == before[j]);
                    }
                }
            }
        }
        i = i + 1;
    }
}

fn linux_list(ds: LinuxDisplayServer) -> (r: Vec<BackendKind>)
    ensures
        r@ == linux_candidates(ds),
{
    let mut v: Vec<BackendKind> = Vec::new();
    match ds {
        LinuxDisplayServer::Wayland(c) => {
            v.push(BackendKind::Awww);
            match c {
                WaylandCompositor::Sway => v.push(BackendKind::Swaybg),
                WaylandCompositor::Hyprland => v.push(BackendKind::Hyprpaper),
                _ => {},
            }
        },
        LinuxDisplayServer::X11 => {
            v.push(BackendKind::Feh);
            v.push(BackendKind::Nitrogen);
            v.push(BackendKind::Xwallpaper);
        },
    }
    assert(v@ =~= linux_candidates(ds));
    v
}

impl BackendRegistry {
    /// Registers, in order, the backends of the session's platform that
    /// are available (all platforms' when detection fails).
    pub fn new(session: SessionInfo) -> (r: BackendRegistry)
        ensures
            platform_of(session) is Ok ==> forall|i: int|
                0 <= i < r.backends.len() ==> candidates_for(session).contains(
                    #[trigger] r.backends@[i],
                ),
    {
        let mut backends: Vec<BackendKind> = Vec::new();
        let linux = crate::text::str_eq(session.os.as_str(), "linux");
        let macos = crate::text::str_eq(session.os.as_str(), "macos");
        let windows = crate::text::str_eq(session.os.as_str(), "windows");
        match detect_platform(&session) {
            Ok(Platform::Linux(ds)) => {
                if linux {
                    push_all(&mut backends, &linux_list(ds), &session);
                }
            },
            Ok(Platform::MacOS) => {
                if macos {
                    let mut l: Vec<BackendKind> = Vec::new();
                    l.push(BackendKind::MacOSWallpaper);
                    l.push(BackendKind::AppleScript);
                    assert(l@ =~= macos_candidates());
                    push_all(&mut backends, &l, &session);
                }
            },
            Ok(Platform::Windows) => {
                if windows {
                    let mut l: Vec<BackendKind> = Vec::new();
                    l.push(BackendKind::WindowsSystemParameters);
                    assert(l@ =~= windows_candidates());
                    push_all(&mut backends, &l, &session);
                }
            },
            Err(_) => {
                if linux {
                    push_all(&mut backends, &linux_list(LinuxDisplayServer::X11), &session);
                    push_all(
                        &mut backends,
                        &linux_list(LinuxDisplayServer::Wayland(WaylandCompositor::Generic)),
                        &session,
                    );
                    let mut l: Vec<BackendKind> = Vec::new();
                    l.push(BackendKind::Awww);
                    push_all(&mut backends, &l, &session);
                }
                if macos {
                    let mut l: Vec<BackendKind> = Vec::new();
                    l.push(BackendKind::MacOSWallpaper);
                    l.push(BackendKind::AppleScript);
                    push_all(&mut backends, &l, &session);
                }
                if windows {
                    let mut l: Vec<BackendKind> = Vec::new();
                    l.push(BackendKind::WindowsSystemParameters);
                    push_all(&mut backends, &l, &session);
                }
            },
        }
        BackendRegistry { backends, session }
    }

    /// The registered backends by descending priority; equal priorities
    /// keep their registration order.
    pub fn by_priority(&self) -> (r: Vec<BackendKind>)
        ensures
            r@ == kinds_sorted(self.backends@, false),
    {
        sort_kinds(&self.backends, false)
    }

    /// The registered backends ordered by name; equal names keep their
    /// registration order.
    pub fn by_name(&self) -> (r: Vec<BackendKind>)
        ensures
            r@ == kinds_sorted(self.backends@, true),
    {
        sort_kinds(&self.backends, true)
    }

    /// The highest-priority registered backend that still validates.
    /// Backends are validated one by one in priority order until one passes;
    /// `flags` below are the answers of those checks.
    pub fn get_best_backend(&self) -> (r: Result<BackendKind, BackendError>)
        ensures
            exists|flags: Seq<bool>|
                {
                    &&& flags.len() <= self.backends.len()
                    &&& forall|j: int| 0 <= j < flags.len() - 1 ==> !#[trigger] flags[j]
                    &&& r == choice(kinds_sorted(self.backends@, false), flags)
                    &&& (r is Err && self.backends.len() > 0) ==> (flags.len()
                        == self.backends.len() && forall|j: int|
                        0 <= j < flags.len() ==> !#[trigger] flags[j])
                },
            self.backends.len() == 0 <==> r == Err::<BackendKind, BackendError>(
                BackendError::NoneAvailable,
            ),
    {
        let sorted = self.by_priority();
        proof {
            lemma_kinds_sorted(self.backends@, false);
        }
        let mut flags: Vec<bool> = Vec::new();
        let mut i: usize = 0;
        let mut found = false;
        while i < sorted.len() && !found
            invariant
                0 <= i <= sorted.len(),
                flags.len() == i,
                !found ==> forall|j: int| 0 <= j < flags.len() ==> !#[trigger] flags@[j],
                found ==> i >= 1 && flags@[i - 1] && forall|j: int|
                    0 <= j < flags.len() - 1 ==> !#[trigger] flags@[j],
            decreases sorted.len() - i,
        {
            let ok = sorted[i].is_available(&self.session);
            flags.push(ok);
            found = ok;
            i = i + 1;
        }
        let r = choose_backend(&sorted, &flags);
        proof {
            lemma_first_yes_bounds(flags@, sorted.len() as int, 0);
            if found {
                assert(first_yes(flags@, sorted.len() as int, (i - 1) as int) == i - 1);
                assert forall|j: int| 0 <= j <= i - 1 implies first_yes(flags@, sorted.len() as int, j)
                    == i - 1 by {
                    lemma_first_yes_from(flags@, sorted.len() as int, j, i - 1);
                }
            }
        }
        r
    }

    /// Names of the registered backends that are available now, in
    /// registration order.
    pub fn available_backend_names(&self) -> (r: Vec<String>)
        ensures
            exists|flags: Seq<bool>|
                flags.len() == self.backends.len() && names_view(r@) == names_where(
                    self.backends@,
                    flags,
                    self.backends.len() as int,
                ),
    {
        let mut out: Vec<String> = Vec::new();
        let ghost mut flags: Seq<bool> = Seq::empty();
        let mut i: usize = 0;
        while i < self.backends.len()
            invariant
                0 <= i <= self.backends.len(),
                flags.len() == i,
                names_view(out@) == names_where(self.backends@, flags, i as int),
            decreases self.backends.len() - i,
        {
            let k = self.backends[i];
            let ok = k.is_available(&self.session);
            let ghost before = flags;
            proof {
                flags = flags.push(ok);
                lemma_names_where_prefix(self.backends@, before, ok, i as int);
            }
            if ok {
                let name = String::from_str(k.name());
                let ghost o = out@;
                out.push(name);
                assert(names_view(out@) =~= names_view(o).push(k.name_spec()));
            }
            i = i + 1;
        }
        out
    }

    /// One line per registered backend, `name (priority: P, available: B)`,
    /// ordered by name; `flags` below are the availability answers.
    pub fn list_backends(&self) -> (r: Vec<String>)
        ensures
            exists|flags: Seq<bool>|
                flags.len() == self.backends.len() && names_view(r@) == lines_of(
                    kinds_sorted(self.backends@, true),
                    flags,
                ),
    {
        let sorted = self.by_name();
        proof {
            lemma_kinds_sorted(self.backends@, true);
        }
        let mut out: Vec<String> = Vec::new();
        let ghost mut flags: Seq<bool> = Seq::empty();
        let mut i: usize = 0;
        while i < sorted.len()
            invariant
                0 <= i <= sorted.len(),
                flags.len() == i,
                out.len() == i,
                names_view(out@) == lines_of(sorted@.subrange(0, i as int), flags),
            decreases sorted.len() - i,
        {
            let k = sorted[i];
            let available = k.is_available(&self.session);
            let mut s = String::from_str(k.name());
            push_str(&mut s, " (priority: ");
            push_decimal(&mut s, k.priority() as u64);
            push_str(&mut s, ", available: ");
            if available {
                push_str(&mut s, "true)");
            } else {
                push_str(&mut s, "false)");
            }
            let ghost old_flags = flags;
            proof {
                assert(s@ =~= backend_line(k, available));
                flags = flags.push(available);
            }
            let ghost o = out@;
            out.push(s);
            proof {
                let want = lines_of(sorted@.subrange(0, i + 1), flags);
                assert forall|j: int| 0 <= j < i + 1 implies names_view(out@)[j] == want[j] by {
                    if j < i {
                        assert(out@[j] == o[j]);
                        assert(names_view(o)[j] == lines_of(sorted@.subrange(0, i as int), old_flags)[j]);
                        assert(flags[j] == old_flags[j]);
                    }
                }
                assert(names_view(out@) =~= want);
            }
            i = i + 1;
        }
        assert(sorted@.subrange(0, sorted.len() as int) =~= sorted@);
        out
    }
}

/// One line per backend registered for the session, ordered by name.
pub fn list_backends(session: SessionInfo) -> (r: Vec<String>)
    ensures
        exists|registered: Seq<BackendKind>, flags: Seq<bool>|
            {
                &&& flags.len() == registered.len()
                &&& names_view(r@) == lines_of(kinds_sorted(registered, true), flags)
                &&& (platform_of(session) is Ok ==> forall|i: int|
                    0 <= i < registered.len() ==> candidates_for(session).contains(
                        #[trigger] registered[i],
                    ))
            },
{
    let registry = BackendRegistry::new(session);
    registry.list_backends()
}

fn push_quoted_list(s: &mut String, items: &Vec<String>) {
    push_str(s, "[");
    let mut i: usize = 0;
    while i < items.len()
        invariant
            0 <= i <= items.len(),
        decreases items.len() - i,
    {
        if i > 0 {
            push_str(s, ", ");
        }
        push_str(s, "\"");
        push_str(s, items[i].as_str());
        push_str(s, "\"");
        i = i + 1;
    }
    push_str(s, "]");
}

/// A report on the platform, its readiness and its backends; fails when the
/// platform is not supported.
pub fn platform_info(session: SessionInfo) -> (r: Result<String, crate::platform::PlatformError>)
    ensures
        r is Err <==> platform_of(session) is Err,
        r matches Ok(t) ==> platform_of(session) matches Ok(p) && t@.len() >= 10 + p.describe_spec().len()
            && t@.subrange(0, 10 + p.describe_spec().len() as int) == "Platform: "@ + p.describe_spec(),
{
    let platform = match detect_platform(&session) {
        Ok(p) => p,
        Err(e) => {
            return Err(e);
        },
    };
    let status = crate::platform::check_platform_dependencies(&session);
    let registry = BackendRegistry::new(session);
    let available = registry.available_backend_names();
    let mut rest = String::from_str("\nStatus: ");
    match status {
        crate::platform::PlatformStatus::Ready => push_str(&mut rest, "Ready"),
        crate::platform::PlatformStatus::MissingDependency(m) => {
            push_str(&mut rest, "MissingDependency(\"");
            push_str(&mut rest, m.as_str());
            push_str(&mut rest, "\")");
        },
        crate::platform::PlatformStatus::UnsupportedPlatform => push_str(
            &mut rest,
            "UnsupportedPlatform",
        ),
    }
    push_str(&mut rest, "\nAvailable backends: ");
    push_quoted_list(&mut rest, &available);
    push_str(&mut rest, "\n");
    match registry.get_best_backend() {
        Ok(best) => {
            push_str(&mut rest, "Best backend: ");
            push_str(&mut rest, best.name());
            push_str(&mut rest, "\nSupported transitions: ");
            push_quoted_list(&mut rest, &best.supported_transitions());
            push_str(&mut rest, "\n");
        },
        Err(_) => push_str(&mut rest, "No working backends found\n"),
    }
    let mut info = String::from_str("Platform: ");
    push_str(&mut info, platform.describe().as_str());
    let ghost head = info@;
    push_str(&mut info, rest.as_str());
    proof {
        reveal_strlit("Platform: ");
        assert(head == "Platform: "@ + platform.describe_spec());
        assert(info@.subrange(0, head.len() as int) =~= head);
    }
    Ok(info)
}

/// Options for applying a wallpaper under a configuration: its transition
/// (one drawn at random when several are listed), duration and frame rate,
/// filling all monitors.
pub fn build_wallpaper_options(config: &Config) -> (o: WallpaperOptions)
    ensures
        o.duration == Some(config.transition.duration),
        o.fps == Some(config.transition.fps),
        o.scaling == WallpaperScaling::Fill,
        o.monitor == MonitorSelection::All,
        config.transition.transition_type matches TransitionType::Single(t) ==> o.transition
            == Some(t),
        config.transition.transition_type matches TransitionType::Multiple(v) ==> (v.len() == 0
            <==> o.transition is None),
        config.transition.transition_type matches TransitionType::Multiple(v) ==> (
        o.transition matches Some(t) ==> exists|i: int| 0 <= i < v.len() && v@[i] == t),
{
    let transition = match &config.transition.transition_type {
        TransitionType::Single(t) => Some(t.clone()),
        TransitionType::Multiple(types) => {
            if types.len() == 0 {
                None
            } else {
                let i = random_below(types.len() as u128) as usize;
                Some(types[i].clone())
            }
        },
    };
    WallpaperOptions {
        transition,
        duration: Some(config.transition.duration),
        fps: Some(config.transition.fps),
        scaling: WallpaperScaling::Fill,
        monitor: MonitorSelection::All,
    }
}

/// The arguments of an `awww img` call: transition type (`random` unless
/// one is set), frame rate when set, and a fixed transition step of 90.
pub open spec fn awww_args_spec(image: Seq<char>, o: WallpaperOptions) -> Seq<Seq<char>> {
    let t = match o.transition {
        Some(t) => t@,
        None => "random"@,
    };
    let fps = match o.fps {
        Some(f) => seq!["--transition-fps"@, decimal(f as nat)],
        None => Seq::empty(),
    };
    seq!["img"@, image, "--transition-type"@, t] + fps + seq!["--transition-step"@, "90"@]
}

fn push_arg(args: &mut Vec<String>, a: String)
    ensures
        final(args)@.map_values(|s: String| s@) == old(args)@.map_values(|s: String| s@).push(a@),
{
    args.push(a);
    assert(final(args)@.map_values(|s: String| s@) =~= old(args)@.map_values(|s: String| s@).push(a@));
}

impl AwwwBackend {
    /// The arguments passed to `awww` to show `image_path`.
    pub fn build_awww_args(&self, image_path: &str, options: &WallpaperOptions) -> (r: Vec<String>)
        ensures
            r@.map_values(|s: String| s@) == awww_args_spec(image_path@, *options),
    {
        let mut args: Vec<String> = Vec::new();
        push_arg(&mut args, String::from_str("img"));
        push_arg(&mut args, String::from_str(image_path));
        push_arg(&mut args, String::from_str("--transition-type"));
        match &options.transition {
            Some(t) => push_arg(&mut args, t.clone()),
            None => push_arg(&mut args, String::from_str("random")),
        }
        if let Some(fps) = options.fps {
            push_arg(&mut args, String::from_str("--transition-fps"));
            let mut f = String::new();
            push_decimal(&mut f, fps as u64);
            push_arg(&mut args, f);
        }
        push_arg(&mut args, String::from_str("--transition-step"));
        push_arg(&mut args, String::from_str("90"));
        assert(args@.map_values(|s: String| s@) =~= awww_args_spec(image_path@, *options));
        args
    }
}

} // verus!
