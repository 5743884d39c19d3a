//! Configuration records and their default values.

use vstd::prelude::*;
use vstd::string::*;
use crate::display::{Resolution, ResolutionError};

verus! {

/// Main configuration.
pub struct Config {
    pub paths: PathsConfig,
    pub transition: TransitionConfig,
    pub timer: TimerConfig,
    pub sources: SourcesConfig,
    pub cleanup: CleanupConfig,
    pub integration: IntegrationConfig,
    pub logging: LoggingConfig,
    pub advanced: AdvancedConfig,
}

pub struct PathsConfig {
    pub local: String,
    pub downloads: String,
}

pub struct TransitionConfig {
    pub transition_type: TransitionType,
    pub duration: u32,
    pub fps: u32,
}

/// One transition effect, or a list to pick from.
pub enum TransitionType {
    Single(String),
    Multiple(Vec<String>),
}

pub struct TimerConfig {
    pub interval: u32,
    pub randomize: String,
    pub start_delay: Option<String>,
}

pub struct SourcesConfig {
    pub default: String,
    pub category: String,
    pub wallhaven: WallhavenConfig,
    pub picsum: PicsumConfig,
    pub local: LocalConfig,
    pub apod: ApodConfig,
}

pub struct WallhavenConfig {
    pub api_key: Option<String>,
    pub url: String,
    pub q: String,
    /// Detected from the display when absent.
    pub resolution: Option<String>,
    pub quality: String,
    pub purity: Vec<String>,
}

pub struct PicsumConfig {
    /// Detected from the display when absent.
    pub width: Option<u32>,
    /// Detected from the display when absent.
    pub height: Option<u32>,
}

pub struct ApodConfig {
    pub url: String,
    pub api_key: String,
}

pub struct LocalConfig {
    pub recursive: bool,
    pub formats: Vec<String>,
}

pub struct CleanupConfig {
    pub keep_count: u32,
    pub auto_cleanup: bool,
}

pub struct IntegrationConfig {
    pub pywal: PywalConfig,
    pub desktop: DesktopConfig,
}

pub struct PywalConfig {
    pub enabled: bool,
    pub backend: Option<String>,
    pub notify_apps: Vec<String>,
}

pub struct DesktopConfig {
    pub notify_completion: bool,
    pub icon_theme_sync: bool,
    pub update_terminal_colors: bool,
}

pub struct LoggingConfig {
    pub enabled: bool,
    pub level: String,
    pub file: Option<String>,
    pub timestamp: bool,
}

pub struct AdvancedConfig {
    pub parallel_downloads: u32,
    pub retry_attempts: u32,
    pub timeout: u32,
    pub user_agent: String,
}

/// Default frame rate of transitions, for a configuration that names none.
pub fn default_fps() -> (r: u32)
    ensures
        r == 30,
{
    30
}

/// Default wallhaven image quality, for a configuration that names none.
pub fn default_quality() -> (r: String)
    ensures
        r@ == "large"@,
{
    String::from_str("large")
}

/// Default for switches that are on unless turned off.
pub fn default_true() -> (r: bool)
    ensures
        r,
{
    true
}

/// Image formats collected from local folders by default.
pub fn default_formats() -> (r: Vec<String>)
    ensures
        r.len() == 4,
        r[0]@ == "jpg"@,
        r[1]@ == "jpeg"@,
        r[2]@ == "png"@,
        r[3]@ == "webp"@,
{
    let mut v: Vec<String> = Vec::new();
    v.push(String::from_str("jpg"));
    v.push(String::from_str("jpeg"));
    v.push(String::from_str("png"));
    v.push(String::from_str("webp"));
    v
}

/// Default log level.
pub fn default_log_level() -> (r: String)
    ensures
        r@ == "info"@,
{
    String::from_str("info")
}

/// Default NASA APOD endpoint.
pub fn default_apod_api_url() -> (r: String)
    ensures
        r@ == "https://api.nasa.gov/planetary/apod"@,
{
    String::from_str("https://api.nasa.gov/planetary/apod")
}

/// Default NASA API key.
pub fn default_apod_api_key() -> (r: String)
    ensures
        r@ == "DEMO_KEY"@,
{
    String::from_str("DEMO_KEY")
}

/// Default HTTP user agent.
pub fn default_user_agent() -> (r: String)
    ensures
        r@ == "Wallflow/1.0 (+https://github.com/MKSG-MugunthKumar/wallflow)"@,
{
    String::from_str("Wallflow/1.0 (+https://github.com/MKSG-MugunthKumar/wallflow)")
}

/// Default number of parallel downloads.
pub fn default_parallel_downloads() -> (r: u32)
    ensures
        r == 3,
{
    3
}

/// Default number of download retries.
pub fn default_retry_attempts() -> (r: u32)
    ensures
        r == 3,
{
    3
}

/// Default network timeout in seconds.
pub fn default_timeout() -> (r: u32)
    ensures
        r == 30,
{
    30
}

impl Default for WallhavenConfig {
    fn default() -> (c: WallhavenConfig)
        ensures
            c.api_key is None,
            c.url@.len() == 0,
            c.q@.len() == 0,
            c.resolution is None,
            c.quality@.len() == 0,
            c.purity.len() == 0,
    {
        WallhavenConfig {
            api_key: None,
            url: String::new(),
            q: String::new(),
            resolution: None,
            quality: String::new(),
            purity: Vec::new(),
        }
    }
}

impl Default for PicsumConfig {
    fn default() -> (c: PicsumConfig)
        ensures
            c.width is None,
            c.height is None,
    {
        PicsumConfig { width: None, height: None }
    }
}

impl Default for ApodConfig {
    fn default() -> (c: ApodConfig)
        ensures
            c.url@.len() == 0,
            c.api_key@.len() == 0,
    {
        ApodConfig { url: String::new(), api_key: String::new() }
    }
}

impl Default for LocalConfig {
    fn default() -> (c: LocalConfig)
        ensures
            !c.recursive,
            c.formats.len() == 0,
    {
        LocalConfig { recursive: false, formats: Vec::new() }
    }
}

impl Default for PywalConfig {
    fn default() -> (c: PywalConfig)
        ensures
            !c.enabled,
            c.backend is None,
            c.notify_apps.len() == 0,
    {
        PywalConfig { enabled: false, backend: None, notify_apps: Vec::new() }
    }
}

impl Default for DesktopConfig {
    fn default() -> (c: DesktopConfig)
        ensures
            !c.notify_completion,
            !c.icon_theme_sync,
            !c.update_terminal_colors,
    {
        DesktopConfig { notify_completion: false, icon_theme_sync: false, update_terminal_colors: false }
    }
}

impl Default for IntegrationConfig {
    fn default() -> (c: IntegrationConfig)
        ensures
            !c.pywal.enabled,
            c.pywal.backend is None,
            c.pywal.notify_apps.len() == 0,
            !c.desktop.notify_completion,
            !c.desktop.icon_theme_sync,
            !c.desktop.update_terminal_colors,
    {
        IntegrationConfig { pywal: PywalConfig::default(), desktop: DesktopConfig::default() }
    }
}

impl Default for LoggingConfig {
    fn default() -> (c: LoggingConfig)
        ensures
            !c.enabled,
            c.level@.len() == 0,
            c.file is None,
            !c.timestamp,
    {
        LoggingConfig { enabled: false, level: String::new(), file: None, timestamp: false }
    }
}

impl Default for AdvancedConfig {
    fn default() -> (c: AdvancedConfig)
        ensures
            c.parallel_downloads == 0,
            c.retry_attempts == 0,
            c.timeout == 0,
            c.user_agent@.len() == 0,
    {
        AdvancedConfig { parallel_downloads: 0, retry_attempts: 0, timeout: 0, user_agent: String::new() }
    }
}

/// Relies on `dirs::home_dir`: the user's home directory, when it is known.
#[verifier::external_body]
fn home_dir() -> (r: Option<String>) {
    dirs::home_dir().map(|p| p.to_string_lossy().to_string())
}

/// Relies on `dirs::picture_dir`: the user's pictures directory, when it is known.
#[verifier::external_body]
fn picture_dir() -> (r: Option<String>) {
    dirs::picture_dir().map(|p| p.to_string_lossy().to_string())
}

/// What `std::path::Path::join` makes of a base path and a further part.
pub uninterp spec fn joined_path(base: Seq<char>, part: Seq<char>) -> Seq<char>;

/// Relies on `std::path::Path::join`: `part` appended to `base` as a path
/// component; the result depends on the two texts alone.
#[verifier::external_body]
fn join_path(base: &str, part: &str) -> (r: String)
    ensures
        r@ == joined_path(base@, part@),
{
    std::path::Path::new(base).join(part).to_string_lossy().to_string()
}

/// Relies on `shellexpand::full`: `~` and environment variables expanded;
/// `None` when a variable cannot be looked up. Text with no `$` that does not
/// start with `~` comes back unchanged.
#[verifier::external_body]
fn expand_path(path: &str) -> (r: Option<String>)
    ensures
        plain_path(path@) ==> r is Some && r->0@ == path@,
{
    shellexpand::full(path).ok().map(|s| s.into_owned())
}

/// A path with nothing to expand: no `$`, and no leading `~`.
pub open spec fn plain_path(p: Seq<char>) -> bool {
    (forall|i: int| 0 <= i < p.len() ==> p[i] != '$') && (p.len() == 0 || p[0] != '~')
}

/// Errors of configuration updates. Path expansion keeps a path it cannot
/// expand, so it returns none of these.
pub enum ConfigError {
    /// A variable in the path is not defined.
    Expand(String),
}

/// The expanded path, or the path itself when a variable in it is undefined.
fn expanded_or_kept(path: &String) -> (r: String)
    ensures
        plain_path(path@) ==> r@ == path@,
{
    match expand_path(path.as_str()) {
        Some(p) => p,
        None => path.clone(),
    }
}

impl Default for Config {
    /// The built-in configuration; wallpapers live in `Wallpapers` under the
    /// user's pictures directory (or `~/Pictures`, or `./Pictures`).
    fn default() -> (c: Config)
        ensures
            c.transition.transition_type matches TransitionType::Single(t) && t@ == "random"@,
            c.transition.duration == 5,
            c.transition.fps == 30,
            c.timer.interval == 30,
            c.timer.randomize@ == "5m"@,
            c.timer.start_delay matches Some(d) && d@ == "1m"@,
            c.sources.default@ == "wallhaven"@,
            c.sources.category@ == "nature"@,
            c.sources.wallhaven.quality@.len() == 0,
            c.sources.wallhaven.resolution is None,
            c.sources.picsum.width is None && c.sources.picsum.height is None,
            c.sources.local.formats.len() == 0,
            c.cleanup.keep_count == 10,
            c.cleanup.auto_cleanup,
            !c.integration.pywal.enabled,
            !c.integration.desktop.notify_completion,
            !c.logging.enabled,
            c.advanced.parallel_downloads == 0,
            c.advanced.retry_attempts == 0,
            c.advanced.timeout == 0,
    {
        let pictures = match picture_dir() {
            Some(p) => p,
            None => {
                let home = match home_dir() {
                    Some(h) => h,
                    None => String::from_str("."),
                };
                join_path(home.as_str(), "Pictures")
            },
        };
        let wallpapers = join_path(pictures.as_str(), "Wallpapers");
        let downloads = join_path(wallpapers.as_str(), "downloads");
        Config {
            paths: PathsConfig { local: wallpapers, downloads },
            transition: TransitionConfig {
                transition_type: TransitionType::Single(String::from_str("random")),
                duration: 5,
                fps: 30,
            },
            timer: TimerConfig {
                interval: 30,
                randomize: String::from_str("5m"),
                start_delay: Some(String::from_str("1m")),
            },
            sources: SourcesConfig {
                default: String::from_str("wallhaven"),
                category: String::from_str("nature"),
                wallhaven: WallhavenConfig::default(),
                picsum: PicsumConfig::default(),
                local: LocalConfig::default(),
                apod: ApodConfig::default(),
            },
            cleanup: CleanupConfig { keep_count: 10, auto_cleanup: true },
            integration: IntegrationConfig::default(),
            logging: LoggingConfig::default(),
            advanced: AdvancedConfig::default(),
        }
    }
}

impl Config {
    /// Expands `~` and environment variables in both paths. A path that
    /// cannot be expanded (an undefined variable) is kept as it is, so the
    /// call always succeeds.
    pub fn expand_paths(&mut self) -> (r: Result<(), ConfigError>)
        ensures
            r is Ok,
            plain_path(old(self).paths.local@) ==> final(self).paths.local@ == old(self).paths.local@,
            plain_path(old(self).paths.downloads@) ==> final(self).paths.downloads@
                == old(self).paths.downloads@,
            final(self).transition == old(self).transition,
            final(self).timer == old(self).timer,
            final(self).sources == old(self).sources,
            final(self).cleanup == old(self).cleanup,
            final(self).integration == old(self).integration,
            final(self).logging == old(self).logging,
            final(self).advanced == old(self).advanced,
    {
        self.paths.local = expanded_or_kept(&self.paths.local);
        self.paths.downloads = expanded_or_kept(&self.paths.downloads);
        Ok(())
    }

    /// The configured wallhaven resolution, parsed; `None` when the display
    /// should be asked instead.
    pub fn get_wallhaven_resolution(&self) -> (r: Option<Result<Resolution, ResolutionError>>)
        ensures
            self.sources.wallhaven.resolution is None <==> r is None,
            self.sources.wallhaven.resolution matches Some(s) ==> r == Some(
                Resolution::parse_spec(s@),
            ),
    {
        match &self.sources.wallhaven.resolution {
            Some(s) => Some(Resolution::from_string(s.as_str())),
            None => None,
        }
    }

    /// The configured picsum resolution; `None` (ask the display) unless
    /// both width and height are set.
    pub fn get_picsum_resolution(&self) -> (r: Option<Resolution>)
        ensures
            r == (match (self.sources.picsum.width, self.sources.picsum.height) {
                (Some(w), Some(h)) => Some(Resolution { width: w, height: h }),
                _ => None,
            }),
    {
        match (self.sources.picsum.width, self.sources.picsum.height) {
            (Some(w), Some(h)) => Some(Resolution::new(w, h)),
            _ => None,
        }
    }
}

} // verus!
