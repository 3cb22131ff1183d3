//! Where the store file lives by default. The platform names a directory
//! through an environment variable; reading that variable is the caller's
//! part, choosing it and the directories below it is decided here.

use vstd::prelude::*;
use vstd::string::*;

verus! {

/// A directory given as the environment variable that holds its root and the
/// path segments to append to that root, in order.
#[derive(Debug)]
pub struct ConfigDir {
    /// The environment variable whose value is the root directory.
    pub variable: String,
    /// The segments below the root.
    pub segments: Vec<String>,
}

/// The environment variable that holds the root of the configuration
/// directory on the operating system `os`.
pub open spec fn config_variable(os: Seq<char>) -> Seq<char> {
    if os == "windows"@ {
        "APPDATA"@
    } else {
        "HOME"@
    }
}

/// The segments of the configuration directory below its root on `os`.
pub open spec fn config_segments(os: Seq<char>) -> Seq<Seq<char>> {
    if os == "windows"@ {
        Seq::empty()
    } else if os == "macos"@ {
        seq!["Library"@, "Application Support"@]
    } else {
        seq![".config"@]
    }
}

/// The segments of the default store file below the configuration directory.
pub open spec fn store_file_segments() -> Seq<Seq<char>> {
    seq!["wwt"@, "store.json"@]
}

/// Whether two texts are the same.
fn same_text(left: &str, right: &str) -> (same: bool)
    ensures
        same == (left@ == right@),
{
    String::from_str(left) == String::from_str(right)
}

/// The system configuration directory on the operating system `os`.
pub fn get_config_dir(os: &str) -> (dir: ConfigDir)
    ensures
        dir.variable@ == config_variable(os@),
        dir.segments.deep_view() == config_segments(os@),
{
    let mut segments: Vec<String> = Vec::new();
    let variable = if same_text(os, "windows") {
        String::from_str("APPDATA")
    } else {
        if same_text(os, "macos") {
            segments.push(String::from_str("Library"));
            segments.push(String::from_str("Application Support"));
        } else {
            segments.push(String::from_str(".config"));
        }
        String::from_str("HOME")
    };
    proof {
        assert(segments.deep_view() =~= config_segments(os@));
    }
    ConfigDir { variable, segments }
}

/// The default store file on `os`: `wwt/store.json` below the configuration
/// directory.
pub fn default_store_file(os: &str) -> (file: ConfigDir)
    ensures
        file.variable@ == config_variable(os@),
        file.segments.deep_view() == config_segments(os@) + store_file_segments(),
{
    let mut file = get_config_dir(os);
    let ghost below = file.segments.deep_view();
    file.segments.push(String::from_str("wwt"));
    file.segments.push(String::from_str("store.json"));
    proof {
        assert(file.segments.deep_view() =~= below + store_file_segments());
    }
    file
}

} // verus!
