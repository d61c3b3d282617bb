//! Session settings: where the cache lives, whether to stay offline, and
//! how long one transfer may take.

use vstd::prelude::*;
use vstd::string::*;
use core::time::Duration;
use crate::text::owned;

verus! {

/// A span of `secs` whole seconds.
pub uninterp spec fn seconds(secs: u64) -> Duration;

/// Relies on `Duration::from_secs`: the span of whole seconds given.
#[verifier::external_body]
fn duration_from_secs(secs: u64) -> (r: Duration)
    ensures
        r == seconds(secs),
{
    Duration::from_secs(secs)
}

/// The default transfer timeout, in seconds.
pub const DEFAULT_TIMEOUT_SECS: u64 = 120;

/// The settings a builder holds.
pub ghost struct Settings {
    pub cache_dir: Option<Seq<char>>,
    pub offline: bool,
    pub timeout: Duration,
}

/// The settings of a new builder: the platform cache directory, online,
/// a two-minute timeout.
pub open spec fn default_settings() -> Settings {
    Settings { cache_dir: None, offline: false, timeout: seconds(DEFAULT_TIMEOUT_SECS) }
}

/// Configures and then constructs a session.
pub struct MtgjsonSdkBuilder {
    cache_dir: Option<String>,
    offline: bool,
    timeout: Duration,
}

/// Configures and then constructs a session served on a blocking pool.
pub struct AsyncMtgjsonSdkBuilder {
    cache_dir: Option<String>,
    offline: bool,
    timeout: Duration,
}

impl View for MtgjsonSdkBuilder {
    type V = Settings;

    closed spec fn view(&self) -> Settings {
        Settings {
            cache_dir: match self.cache_dir { Some(s) => Some(s@), None => None },
            offline: self.offline,
            timeout: self.timeout,
        }
    }
}

impl View for AsyncMtgjsonSdkBuilder {
    type V = Settings;

    closed spec fn view(&self) -> Settings {
        Settings {
            cache_dir: match self.cache_dir { Some(s) => Some(s@), None => None },
            offline: self.offline,
            timeout: self.timeout,
        }
    }
}

impl Default for MtgjsonSdkBuilder {
    fn default() -> (r: Self)
        ensures
            r@ == default_settings(),
    {
        MtgjsonSdkBuilder { cache_dir: None, offline: false, timeout: duration_from_secs(DEFAULT_TIMEOUT_SECS) }
    }
}

impl Default for AsyncMtgjsonSdkBuilder {
    fn default() -> (r: Self)
        ensures
            r@ == default_settings(),
    {
        AsyncMtgjsonSdkBuilder { cache_dir: None, offline: false, timeout: duration_from_secs(DEFAULT_TIMEOUT_SECS) }
    }
}

impl MtgjsonSdkBuilder {
    /// Sets the cache directory (by default the platform cache directory).
    pub fn cache_dir(self, path: &str) -> (r: Self)
        ensures
            r@ == (Settings { cache_dir: Some(path@), ..self@ }),
    {
        MtgjsonSdkBuilder { cache_dir: Some(owned(path)), ..self }
    }

    /// Enables or disables offline mode: offline, nothing is fetched.
    pub fn offline(self, offline: bool) -> (r: Self)
        ensures
            r@ == (Settings { offline, ..self@ }),
    {
        MtgjsonSdkBuilder { offline, ..self }
    }

    /// Sets the timeout of each transfer.
    pub fn timeout(self, timeout: Duration) -> (r: Self)
        ensures
            r@ == (Settings { timeout, ..self@ }),
    {
        MtgjsonSdkBuilder { timeout, ..self }
    }

    /// The cache directory set, if any.
    pub fn cache_dir_setting(&self) -> (r: Option<String>)
        ensures
            match r { Some(s) => self@.cache_dir == Some(s@), None => self@.cache_dir is None },
    {
        match &self.cache_dir {
            Some(s) => Some(s.clone()),
            None => None,
        }
    }

    /// Whether offline mode is set.
    pub fn is_offline(&self) -> (r: bool)
        ensures
            r == self@.offline,
    {
        self.offline
    }

    /// The transfer timeout.
    pub fn timeout_setting(&self) -> (r: Duration)
        ensures
            r == self@.timeout,
    {
        self.timeout
    }
}

impl AsyncMtgjsonSdkBuilder {
    /// Sets the cache directory (by default the platform cache directory).
    pub fn cache_dir(self, path: &str) -> (r: Self)
        ensures
            r@ == (Settings { cache_dir: Some(path@), ..self@ }),
    {
        AsyncMtgjsonSdkBuilder { cache_dir: Some(owned(path)), ..self }
    }

    /// Enables or disables offline mode: offline, nothing is fetched.
    pub fn offline(self, offline: bool) -> (r: Self)
        ensures
            r@ == (Settings { offline, ..self@ }),
    {
        AsyncMtgjsonSdkBuilder { offline, ..self }
    }

    /// Sets the timeout of each transfer.
    pub fn timeout(self, timeout: Duration) -> (r: Self)
        ensures
            r@ == (Settings { timeout, ..self@ }),
    {
        AsyncMtgjsonSdkBuilder { timeout, ..self }
    }

    /// The same settings, for a blocking session.
    pub fn blocking(&self) -> (r: MtgjsonSdkBuilder)
        ensures
            r@ == self@,
    {
        MtgjsonSdkBuilder {
            cache_dir: match &self.cache_dir { Some(s) => Some(s.clone()), None => None },
            offline: self.offline,
            timeout: self.timeout,
        }
    }
}

} // verus!
