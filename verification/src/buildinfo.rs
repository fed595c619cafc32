//! Plugin build information.
//!
//! A small struct describing the plugin's identity and version, which Grafana
//! surfaces in its plugin catalogue.
use vstd::prelude::*;

verus! {

/// Build information about a plugin.
///
/// Construct one with [`BuildInfo::new`].
#[derive(Clone, Debug, Default, PartialEq, Eq)]
#[non_exhaustive]
pub struct BuildInfo {
    /// The time the plugin was built, as Unix milliseconds (`0` if unknown).
    pub time: i64,
    /// The plugin ID.
    pub plugin_id: String,
    /// The plugin version.
    pub version: String,
}

impl BuildInfo {
    /// Create a [`BuildInfo`] with the given plugin ID and version, and an
    /// unknown (`0`) build time.
    pub fn new(plugin_id: &str, version: &str) -> (b: Self)
        ensures
            b.time == 0,
            b.plugin_id@ == plugin_id@,
            b.version@ == version@,
    {
        BuildInfo { time: 0, plugin_id: plugin_id.to_owned(), version: version.to_owned() }
    }

    /// Set the build time, as Unix milliseconds.
    pub fn with_time(self, time_ms: i64) -> (b: Self)
        ensures
            b.time == time_ms,
            b.plugin_id == self.plugin_id,
            b.version == self.version,
    {
        let mut b = self;
        b.time = time_ms;
        b
    }
}

} // verus!
