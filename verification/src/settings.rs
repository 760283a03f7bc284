//! User-facing configuration consumed by the pipeline, with its defaults,
//! and the persisted window position. The API key is not part of the
//! settings; it comes from a secret store owned by the surrounding shell.
use vstd::prelude::*;
use vstd::string::StringExecFns;

verus! {

/// Settings that steer a translation request.
#[derive(Debug, Clone)]
pub struct Settings {
    /// Selected model identifier
    pub model: String,
    /// Send error reports to the telemetry sink (opt-out: on by default)
    pub send_telemetry: bool,
    /// Use the translation cache (on by default)
    pub cache_enabled: bool,
}

/// The model chosen when none is configured.
pub fn default_model() -> (r: String)
    ensures
        r@ == "cheap-tier-4-5"@,
{
    String::from_str("cheap-tier-4-5")
}

/// Telemetry is on unless the user opts out.
pub fn default_send_telemetry() -> (r: bool)
    ensures
        r == true,
{
    true
}

/// The cache is on unless the user turns it off.
pub fn default_cache_enabled() -> (r: bool)
    ensures
        r == true,
{
    true
}

impl Default for Settings {
    /// The settings used before the user has saved any.
    fn default() -> (r: Settings)
        ensures
            r.model@ == "cheap-tier-4-5"@,
            r.send_telemetry == true,
            r.cache_enabled == true,
    {
        Settings {
            model: default_model(),
            send_telemetry: default_send_telemetry(),
            cache_enabled: default_cache_enabled(),
        }
    }
}

/// A window's saved screen position.
#[derive(Debug, Clone, PartialEq, Eq, Structural)]
pub struct WindowPosition {
    pub x: i32,
    pub y: i32,
}

} // verus!
