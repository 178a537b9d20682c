use p2p_shipyard::config::conductor_config;
use p2p_shipyard::error::Error;
use p2p_shipyard::filesystem::FileSystem;
use p2p_shipyard::launch::{
    admin_websocket_address, gossip_arc_from_features, local_signal_url,
    needs_device_seed, needs_local_signal_server, override_gossip_arc_clamping,
    runtime_needs_local_signal_server, signal_urls, AdminWsStep, AdminWsWait, GossipArc,
    GossipArcFeatureError, ADMIN_WS_MAX_ATTEMPTS, ADMIN_WS_RETRY_INTERVAL_MS,
    DEVICE_SEED_LAIR_KEYSTORE_TAG,
};
use p2p_shipyard::origins::AllowedOrigins;

#[test]
fn gossip_arc_of_one_feature() {
    assert_eq!(gossip_arc_from_features(true, false, false), Ok(GossipArc::Empty));
    assert_eq!(gossip_arc_from_features(false, true, false), Ok(GossipArc::Full));
    assert_eq!(gossip_arc_from_features(false, false, true), Ok(GossipArc::Normal));
}

#[test]
fn gossip_arc_of_conflicting_features() {
    assert_eq!(
        gossip_arc_from_features(true, true, false),
        Err(GossipArcFeatureError::EmptyAndFull)
    );
    assert_eq!(
        gossip_arc_from_features(true, true, true),
        Err(GossipArcFeatureError::EmptyAndFull)
    );
    assert_eq!(
        gossip_arc_from_features(true, false, true),
        Err(GossipArcFeatureError::EmptyAndNormal)
    );
    assert_eq!(
        gossip_arc_from_features(false, true, true),
        Err(GossipArcFeatureError::FullAndNormal)
    );
    assert_eq!(
        gossip_arc_from_features(false, false, false),
        Err(GossipArcFeatureError::NoneEnabled)
    );
}

#[test]
fn gossip_arc_error_messages() {
    assert_eq!(
        GossipArcFeatureError::EmptyAndFull.message(),
        "The `gossip_arc_empty` and `gossip_arc_full` features are both enabled, which is an error. Please enable only one."
    );
    assert_eq!(
        GossipArcFeatureError::NoneEnabled.message(),
        "All of the `gossip_arc_empty`, `gossip_arc_full`, and `gossip_arc_normal` features are disabled. Please enable one of them."
    );
}

#[test]
fn gossip_arc_clamping_overrides() {
    assert_eq!(override_gossip_arc_clamping(GossipArc::Empty), Some(String::from("empty")));
    assert_eq!(override_gossip_arc_clamping(GossipArc::Full), Some(String::from("full")));
    assert_eq!(override_gossip_arc_clamping(GossipArc::Normal), None);
}

#[test]
fn admin_address() {
    assert_eq!(admin_websocket_address(1234), "localhost:1234");
    assert_eq!(admin_websocket_address(65535), "localhost:65535");
}

#[test]
fn local_signal_server_decisions() {
    assert!(needs_local_signal_server(false, true));
    assert!(needs_local_signal_server(true, false));
    assert!(!needs_local_signal_server(true, true));
    assert!(runtime_needs_local_signal_server(false, true));
    assert!(!runtime_needs_local_signal_server(false, false));
    assert!(!runtime_needs_local_signal_server(true, true));
}

#[test]
fn local_signal_url_is_normalized() {
    assert_eq!(
        local_signal_url(&String::from("192.168.1.2"), 8888),
        Some(String::from("ws://192.168.1.2:8888/"))
    );
    assert_eq!(local_signal_url(&String::from("bad host name"), 8888), None);
}

#[test]
fn signal_urls_put_the_local_server_first() {
    assert_eq!(
        signal_urls(Some(String::from("ws://l/")), Some(String::from("wss://w/"))),
        vec![String::from("ws://l/"), String::from("wss://w/")]
    );
    assert_eq!(signal_urls(None, Some(String::from("wss://w/"))), vec![String::from("wss://w/")]);
    assert_eq!(signal_urls(Some(String::from("ws://l/")), None), vec![String::from("ws://l/")]);
    assert!(signal_urls(None, None).is_empty());
}

#[test]
fn admin_websocket_wait_gives_up_after_the_limit() {
    let mut wait = AdminWsWait::new();
    for _ in 0..(ADMIN_WS_MAX_ATTEMPTS - 1) {
        assert_eq!(wait.after_attempt(false), AdminWsStep::PauseThenRetry);
    }
    assert_eq!(wait.after_attempt(false), AdminWsStep::PauseThenGiveUp);
    assert_eq!(ADMIN_WS_MAX_ATTEMPTS, 200);
    assert_eq!(ADMIN_WS_RETRY_INTERVAL_MS, 200);
    match AdminWsWait::give_up_error() {
        Error::AdminWebsocketError(m) => assert_eq!(m, "Can't connect to holochain"),
        _ => panic!("wrong error"),
    }
}

#[test]
fn admin_websocket_wait_stops_when_connected() {
    let mut wait = AdminWsWait::new();
    assert_eq!(wait.after_attempt(false), AdminWsStep::PauseThenRetry);
    assert_eq!(wait.after_attempt(true), AdminWsStep::Available);
}

#[test]
fn device_seed() {
    assert!(needs_device_seed(false));
    assert!(!needs_device_seed(true));
    assert_eq!(DEVICE_SEED_LAIR_KEYSTORE_TAG, "DEVICE_SEED");
}

#[test]
fn conductor_config_fields() {
    let fs = FileSystem::new(String::from("/data"), &vec![]);
    let c = conductor_config(
        &fs,
        4444,
        String::from("/data/keystore"),
        Some(String::from("https://bootstrap/")),
        vec![String::from("ws://l/")],
        override_gossip_arc_clamping(GossipArc::Empty),
    );
    assert_eq!(c.data_root_path, Some(String::from("/data/conductor")));
    assert_eq!(c.lair_root, Some(String::from("/data/keystore")));
    assert_eq!(c.gossip_arc_clamping, Some(String::from("empty")));
    assert_eq!(c.bootstrap_service, Some(String::from("https://bootstrap/")));
    assert_eq!(c.signal_urls, vec![String::from("ws://l/")]);
    assert_eq!(c.admin_interfaces.len(), 1);
    assert_eq!(c.admin_interfaces[0].port, 4444);
    assert!(matches!(c.admin_interfaces[0].allowed_origins, AllowedOrigins::Any));
}
