//! Where the user level configuration lives.
use vstd::prelude::*;

verus! {

/// The environment variable corresponding to the user configuration directory:
/// `APPDATA` on Windows, `XDG_CONFIG_HOME` elsewhere.
///
/// Used in integration and unit tests to set custom config directory locations.
pub fn user_config_directory_env_var(is_windows: bool) -> (r: &'static str)
    ensures
        is_windows ==> r@ == "APPDATA"@,
        !is_windows ==> r@ == "XDG_CONFIG_HOME"@,
{
    if is_windows {
        "APPDATA"
    } else {
        "XDG_CONFIG_HOME"
    }
}

} // verus!
