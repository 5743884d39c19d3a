//! The logging settings that take effect, and log level names.

use vstd::prelude::*;
use vstd::string::*;
use crate::config::LoggingConfig;
use crate::text::{lower_of, lowercase, str_eq, trim, trimmed};

verus! {

/// Logging settings after command-line overrides.
pub struct EffectiveLoggingConfig {
    pub enabled: bool,
    pub level: String,
    /// The log file; absent when none is configured or the path is blank.
    pub file: Option<String>,
    pub timestamp: bool,
    pub verbose_override: bool,
}

/// A log level name that is none of the known ones.
#[derive(Clone, Copy, Debug, PartialEq, Eq, Structural)]
pub enum LogLevelError {
    Invalid,
}

/// The canonical level for a lowercase level name.
pub open spec fn level_named(l: Seq<char>) -> Option<Seq<char>> {
    if l == "trace"@ {
        Some("trace"@)
    } else if l == "debug"@ {
        Some("debug"@)
    } else if l == "info"@ {
        Some("info"@)
    } else if l == "warn"@ || l == "warning"@ {
        Some("warn"@)
    } else if l == "error"@ {
        Some("error"@)
    } else {
        None
    }
}

/// The effective settings: the verbose flag forces the `debug` level, and a
/// blank file path means no file.
pub fn resolve_logging_config(config: &LoggingConfig, verbose_override: bool) -> (r:
    EffectiveLoggingConfig)
    ensures
        r.enabled == config.enabled,
        r.timestamp == config.timestamp,
        r.verbose_override == verbose_override,
        verbose_override ==> r.level@ == "debug"@,
        !verbose_override ==> r.level@ == config.level@,
        r.file == (match config.file {
            Some(f) => if trimmed(f@).len() == 0 {
                None
            } else {
                Some(f)
            },
            None => None,
        }),
{
    let file = match &config.file {
        Some(f) => if trim(f.as_str()).as_str().unicode_len() == 0 {
            None
        } else {
            Some(f.clone())
        },
        None => None,
    };
    EffectiveLoggingConfig {
        enabled: config.enabled,
        level: if verbose_override {
            String::from_str("debug")
        } else {
            config.level.clone()
        },
        file,
        timestamp: config.timestamp,
        verbose_override,
    }
}

/// The canonical level for an already lowercased level name.
pub fn level_from_lowercase(l: &str) -> (r: Result<&'static str, LogLevelError>)
    ensures
        r matches Ok(v) ==> level_named(l@) == Some(v@),
        r is Err <==> level_named(l@) is None,
{
    if str_eq(l, "trace") {
        Ok("trace")
    } else if str_eq(l, "debug") {
        Ok("debug")
    } else if str_eq(l, "info") {
        Ok("info")
    } else if str_eq(l, "warn") || str_eq(l, "warning") {
        Ok("warn")
    } else if str_eq(l, "error") {
        Ok("error")
    } else {
        Err(LogLevelError::Invalid)
    }
}

/// The canonical level (`trace`, `debug`, `info`, `warn`, `error`) for a
/// level name in any case; `warning` is `warn`.
pub fn normalize_log_level(level: &str) -> (r: Result<&'static str, LogLevelError>)
    ensures
        r matches Ok(v) ==> level_named(lower_of(level@)) == Some(v@),
        r is Err <==> level_named(lower_of(level@)) is None,
{
    let l = lowercase(level);
    level_from_lowercase(l.as_str())
}

} // verus!
