use vstd::prelude::*;

use crate::launch::{parsed_url2, try_parse_url2};
use crate::update::AppInfo;

verus! {

/// The WAN network that the runtime joins: its bootstrap and signal servers, each kept as the
/// serialization of its parsed URL.
pub struct WANNetworkConfig {
    pub bootstrap_url: String,
    pub signal_url: String,
}

/// The configuration with which the Holochain runtime is launched.
pub struct HolochainManagerConfig {
    /// `None` for no WAN networking: only peers on the same LAN, found over mDNS, connect.
    pub wan_network_config: Option<WANNetworkConfig>,
    /// The folder where the runtime keeps its data.
    pub holochain_dir: String,
}

/// The configuration of the runtime as the foreign-function interface hands it over.
pub struct HolochainRuntimeFFIConfig {
    /// URL of bootstrap server
    pub bootstrap_url: String,
    /// URL of signal server
    pub signal_url: String,
    /// Path to directory where conductor data will be stored
    pub holochain_dir: String,
}

/// Why a configuration handed over through the foreign-function interface was refused.
pub enum HolochainRuntimeFFIConfigError {
    /// One of its URLs does not parse.
    Url2Error(url2::Url2Error),
}

impl HolochainRuntimeFFIConfig {
    /// The runtime configuration: the WAN network at the two URLs, once both parse, and the
    /// given folder. The bootstrap URL is parsed first.
    pub fn try_into(self) -> (r: Result<HolochainManagerConfig, HolochainRuntimeFFIConfigError>)
        ensures
            parsed_url2(self.bootstrap_url@) is None ==> r is Err,
            parsed_url2(self.bootstrap_url@) is Some && parsed_url2(self.signal_url@) is None
                ==> r is Err,
            parsed_url2(self.bootstrap_url@) is Some && parsed_url2(self.signal_url@) is Some
                ==> (r matches Ok(c) && c.holochain_dir@ == self.holochain_dir@ && (
            c.wan_network_config matches Some(w) && Some(w.bootstrap_url@) == parsed_url2(
                self.bootstrap_url@,
            ) && Some(w.signal_url@) == parsed_url2(self.signal_url@))),
    {
        let bootstrap_url = match try_parse_url2(self.bootstrap_url.as_str()) {
            Ok(u) => u,
            Err(e) => {
                return Err(HolochainRuntimeFFIConfigError::Url2Error(e));
            },
        };
        let signal_url = match try_parse_url2(self.signal_url.as_str()) {
            Ok(u) => u,
            Err(e) => {
                return Err(HolochainRuntimeFFIConfigError::Url2Error(e));
            },
        };
        Ok(
            HolochainManagerConfig {
                wan_network_config: Some(WANNetworkConfig { bootstrap_url, signal_url }),
                holochain_dir: self.holochain_dir,
            },
        )
    }
}

/// What the foreign-function interface hands out of an installed app.
pub struct AppInfoFFI {
    /// The unique identifier for an installed app in this conductor
    pub installed_app_id: String,
}

impl From<AppInfo> for AppInfoFFI {
    fn from(value: AppInfo) -> (r: Self) {
        AppInfoFFI { installed_app_id: value.installed_app_id }
    }
}

impl vstd::std_specs::convert::FromSpecImpl<AppInfo> for AppInfoFFI {
    open spec fn obeys_from_spec() -> bool {
        true
    }

    open spec fn from_spec(v: AppInfo) -> AppInfoFFI {
        AppInfoFFI { installed_app_id: v.installed_app_id }
    }
}

/// The installed apps as the foreign-function interface hands them out, in order.
pub fn apps_to_ffi(apps: Vec<AppInfo>) -> (r: Vec<AppInfoFFI>)
    ensures
        r@.len() == apps@.len(),
        forall|i: int| 0 <= i < r@.len() ==> #[trigger] r@[i].installed_app_id == apps@[i].installed_app_id,
{
    let ghost input = apps@;
    let mut apps = apps;
    let mut rev: Vec<AppInfoFFI> = Vec::new();
    while apps.len() > 0
        invariant
            apps@.len() + rev@.len() == input.len(),
            apps@ == input.take(apps@.len() as int),
            forall|k: int|
                0 <= k < rev@.len() ==> #[trigger] rev@[k].installed_app_id == input[input.len()
                    - 1 - k].installed_app_id,
        decreases apps@.len(),
    {
        let a = apps.pop().unwrap();
        assert(a == input[apps@.len() as int]);
        rev.push(AppInfoFFI::from(a));
        assert(apps@ =~= input.take(apps@.len() as int));
    }
    let mut r: Vec<AppInfoFFI> = Vec::new();
    while rev.len() > 0
        invariant
            r@.len() + rev@.len() == input.len(),
            forall|k: int|
                0 <= k < rev@.len() ==> #[trigger] rev@[k].installed_app_id == input[input.len()
                    - 1 - k].installed_app_id,
            forall|k: int| 0 <= k < r@.len() ==> #[trigger] r@[k].installed_app_id == input[k].installed_app_id,
        decreases rev@.len(),
    {
        let a = rev.pop().unwrap();
        r.push(a);
    }
    r
}

} // verus!
