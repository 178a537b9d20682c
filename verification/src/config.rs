use vstd::prelude::*;

use crate::filesystem::FileSystem;
use crate::origins::{origins_view, AllowedOrigins};
use crate::paths::path_join;

verus! {

/// The admin interface that the conductor opens.
pub struct AdminInterfaceConfig {
    /// The port of its websocket.
    pub port: u16,
    /// The origins from which it accepts connections.
    pub allowed_origins: AllowedOrigins,
}

/// What the runtime sets in the configuration of the Holochain conductor; everything else
/// keeps the conductor's defaults.
pub struct ConductorConfig {
    /// The folder where the conductor keeps its data.
    pub data_root_path: Option<String>,
    /// The folder of the in-process Lair keystore.
    pub lair_root: Option<String>,
    /// The gossip arc clamping of the network tuning, where it is not the default.
    pub gossip_arc_clamping: Option<String>,
    /// The bootstrap service of the network, if any.
    pub bootstrap_service: Option<String>,
    /// The signal servers of the WebRTC transports, in order.
    pub signal_urls: Vec<String>,
    /// The admin interfaces.
    pub admin_interfaces: Vec<AdminInterfaceConfig>,
}

pub open spec fn opt_str(o: Option<String>) -> Option<Seq<char>> {
    match o {
        Some(s) => Some(s@),
        None => None,
    }
}

/// The configuration of the conductor: its data in the file system's conductor folder, an
/// in-process keystore at `lair_root`, the given network services, and one admin interface
/// on `admin_port` that accepts any origin.
pub fn conductor_config(
    fs: &FileSystem,
    admin_port: u16,
    lair_root: String,
    bootstrap_url: Option<String>,
    signal_urls: Vec<String>,
    override_gossip_arc_clamping: Option<String>,
) -> (r: ConductorConfig)
    ensures
        opt_str(r.data_root_path) == Some(path_join(fs.app_data_dir@, "conductor"@)),
        opt_str(r.lair_root) == Some(lair_root@),
        opt_str(r.gossip_arc_clamping) == opt_str(override_gossip_arc_clamping),
        opt_str(r.bootstrap_service) == opt_str(bootstrap_url),
        r.signal_urls@ == signal_urls@,
        r.admin_interfaces@.len() == 1,
        r.admin_interfaces@[0].port == admin_port,
        origins_view(&r.admin_interfaces@[0].allowed_origins) is None,
{
    let mut admin_interfaces: Vec<AdminInterfaceConfig> = Vec::new();
    admin_interfaces.push(
        AdminInterfaceConfig { port: admin_port, allowed_origins: AllowedOrigins::Any },
    );
    ConductorConfig {
        data_root_path: Some(fs.conductor_dir()),
        lair_root: Some(lair_root),
        gossip_arc_clamping: override_gossip_arc_clamping,
        bootstrap_service: bootstrap_url,
        signal_urls,
        admin_interfaces,
    }
}

} // verus!
