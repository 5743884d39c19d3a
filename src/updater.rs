//! Release assets and version checks.

use vstd::prelude::*;
use vstd::string::*;

verus! {

/// The outcome of a version check.
pub struct UpdateCheck {
    pub current: String,
    pub latest: String,
    pub update_available: bool,
}

/// The release asset built for an operating system and architecture.
pub open spec fn asset_for(os: Seq<char>, arch: Seq<char>) -> Seq<char> {
    if os == "linux"@ && arch == "x86_64"@ {
        "wallflow-x86_64-unknown-linux-gnu"@
    } else if os == "linux"@ && arch == "aarch64"@ {
        "wallflow-aarch64-unknown-linux-gnu"@
    } else if os == "macos"@ && arch == "x86_64"@ {
        "wallflow-x86_64-apple-darwin"@
    } else if os == "macos"@ && arch == "aarch64"@ {
        "wallflow-aarch64-apple-darwin"@
    } else if os == "windows"@ {
        "wallflow-x86_64-pc-windows-msvc.exe"@
    } else {
        "wallflow"@
    }
}

/// The release asset name for an operating system (`linux`, `macos`,
/// `windows`) and architecture (`x86_64`, `aarch64`).
pub fn get_asset_name(os: &str, arch: &str) -> (r: String)
    ensures
        r@ == asset_for(os@, arch@),
{
    let linux = crate::text::str_eq(os, "linux");
    let macos = crate::text::str_eq(os, "macos");
    let x86 = crate::text::str_eq(arch, "x86_64");
    let arm = crate::text::str_eq(arch, "aarch64");
    if linux && x86 {
        String::from_str("wallflow-x86_64-unknown-linux-gnu")
    } else if linux && arm {
        String::from_str("wallflow-aarch64-unknown-linux-gnu")
    } else if macos && x86 {
        String::from_str("wallflow-x86_64-apple-darwin")
    } else if macos && arm {
        String::from_str("wallflow-aarch64-apple-darwin")
    } else if crate::text::str_eq(os, "windows") {
        String::from_str("wallflow-x86_64-pc-windows-msvc.exe")
    } else {
        String::from_str("wallflow")
    }
}

} // verus!
