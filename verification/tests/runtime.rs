use p2p_shipyard::auth;
use p2p_shipyard::mdns::{
    mdns_service_names, mdns_space_service_type, new_spaces, should_add_remote_agent, AgentInfo,
    MdnsBootstrap, MDNS_BROADCAST_INTERVAL_SECS,
};
use p2p_shipyard::origins::{allowed_origins_eq, AllowedOrigins};
use p2p_shipyard::runtime;
use p2p_shipyard::update::{AppInfo, AppStatus};

fn manager_auth(app_id: &str, main_window: bool, port: u16) -> auth::AppWebsocketAuth {
    auth::AppWebsocketAuth {
        app_id: String::from(app_id),
        main_window,
        app_websocket_port: port,
        token: vec![port as u8],
    }
}

fn runtime_auth(app_id: &str, origins: AllowedOrigins, port: u16) -> runtime::AppWebsocketAuth {
    runtime::AppWebsocketAuth {
        app_id: String::from(app_id),
        app_websocket_port: port,
        allowed_origins: origins,
        token: vec![port as u8],
    }
}

fn one_origin(o: &str) -> AllowedOrigins {
    AllowedOrigins::Origins(vec![String::from(o)])
}

#[test]
fn manager_auth_is_found_by_app_and_window() {
    let auths = vec![
        manager_auth("a", true, 1),
        manager_auth("a", false, 2),
        manager_auth("a", false, 3),
    ];
    let found = auth::find_app_websocket_auth(&auths, &String::from("a"), false).unwrap();
    assert_eq!(found.app_websocket_port, 2);
    assert_eq!(found.token, vec![2]);
    let found = auth::find_app_websocket_auth(&auths, &String::from("a"), true).unwrap();
    assert_eq!(found.app_websocket_port, 1);
    assert!(auth::find_app_websocket_auth(&auths, &String::from("b"), true).is_none());
}

#[test]
fn manager_auth_found_after_kept() {
    let mut auths = vec![manager_auth("a", true, 1)];
    assert!(auth::find_app_websocket_auth(&auths, &String::from("b"), false).is_none());
    auths.push(manager_auth("b", false, 7));
    let found = auth::find_app_websocket_auth(&auths, &String::from("b"), false).unwrap();
    assert_eq!(found.app_websocket_port, 7);
    assert_eq!(auth::APP_AUTH_TOKEN_EXPIRY_SECONDS, 999999999);
    assert_eq!(auth::ATTACH_ANY_PORT, 0);
}

#[test]
fn runtime_auth_is_found_by_app_and_origins() {
    let auths = vec![
        runtime_auth("a", AllowedOrigins::Any, 1),
        runtime_auth("a", one_origin("happ://a"), 2),
        runtime_auth("b", one_origin("happ://a"), 3),
    ];
    let found =
        runtime::find_app_websocket_auth(&auths, &String::from("a"), &one_origin("happ://a"))
            .unwrap();
    assert_eq!(found.app_websocket_port, 2);
    let found =
        runtime::find_app_websocket_auth(&auths, &String::from("a"), &AllowedOrigins::Any)
            .unwrap();
    assert_eq!(found.app_websocket_port, 1);
    assert!(runtime::find_app_websocket_auth(
        &auths,
        &String::from("b"),
        &one_origin("happ://b")
    )
    .is_none());
}

#[test]
fn runtime_auth_compares_origins_as_sets() {
    let auths = vec![runtime_auth(
        "a",
        AllowedOrigins::Origins(vec![String::from("x"), String::from("y")]),
        5,
    )];
    let wanted = AllowedOrigins::Origins(vec![String::from("y"), String::from("x")]);
    let found = runtime::find_app_websocket_auth(&auths, &String::from("a"), &wanted).unwrap();
    assert_eq!(found.app_websocket_port, 5);
}

#[test]
fn app_websocket_origins_of_one_origin() {
    let o = runtime::app_websocket_allowed_origins(&String::from("happ://a"));
    assert!(allowed_origins_eq(&o, &one_origin("happ://a")));
    assert_eq!(runtime::ADMIN_REQUEST_TIMEOUT_SECONDS, 300);
}

#[test]
fn installed_apps_by_id() {
    let apps = vec![AppInfo {
        installed_app_id: String::from("a"),
        status: AppStatus::Running,
        cell_info: vec![],
    }];
    assert!(runtime::is_app_installed(&apps, &String::from("a")));
    assert!(!runtime::is_app_installed(&apps, &String::from("b")));
    assert!(!runtime::is_app_installed(&vec![], &String::from("a")));
}

#[test]
fn new_spaces_are_distinct_and_not_listened_yet() {
    let infos = vec![
        AgentInfo { space: vec![1], agent: vec![10] },
        AgentInfo { space: vec![2], agent: vec![11] },
        AgentInfo { space: vec![1], agent: vec![12] },
        AgentInfo { space: vec![3], agent: vec![13] },
    ];
    let listened = vec![vec![2]];
    assert_eq!(new_spaces(&listened, &infos), vec![vec![1], vec![3]]);
    assert!(new_spaces(&vec![vec![1], vec![2], vec![3]], &infos).is_empty());
}

#[test]
fn remote_agents_are_added_once() {
    let infos = vec![AgentInfo { space: vec![1], agent: vec![10] }];
    assert!(should_add_remote_agent(&vec![11], &infos));
    assert!(!should_add_remote_agent(&vec![10], &infos));
}

#[test]
fn mdns_names_are_url_safe_base64() {
    let info = AgentInfo { space: vec![0xfb, 0xff], agent: b"hi".to_vec() };
    let (space, agent) = mdns_service_names(&info);
    assert_eq!(space, "-_8");
    assert_eq!(agent, "aGk");
    assert_eq!(mdns_space_service_type(&vec![0xfb, 0xff]), "-_8");
    assert_eq!(MDNS_BROADCAST_INTERVAL_SECS, 5);
}

#[test]
fn manager_auth_is_kept_once_per_key() {
    let mut auths = vec![manager_auth("a", true, 1)];
    auth::keep_app_websocket_auth(&mut auths, manager_auth("a", true, 9));
    assert_eq!(auths.len(), 1);
    assert_eq!(auths[0].app_websocket_port, 1);
    auth::keep_app_websocket_auth(&mut auths, manager_auth("a", false, 2));
    assert_eq!(auths.len(), 2);
    let found = auth::find_app_websocket_auth(&auths, &String::from("a"), false).unwrap();
    assert_eq!(found.app_websocket_port, 2);
}

#[test]
fn runtime_auth_is_kept_once_per_key() {
    let mut auths = vec![runtime_auth("a", one_origin("x"), 1)];
    runtime::keep_app_websocket_auth(&mut auths, runtime_auth("a", one_origin("x"), 9));
    assert_eq!(auths.len(), 1);
    runtime::keep_app_websocket_auth(&mut auths, runtime_auth("a", AllowedOrigins::Any, 2));
    assert_eq!(auths.len(), 2);
    let found =
        runtime::find_app_websocket_auth(&auths, &String::from("a"), &AllowedOrigins::Any).unwrap();
    assert_eq!(found.app_websocket_port, 2);
}

#[test]
fn mdns_spaces_are_listened_once_and_retried_after_failure() {
    let infos = vec![
        AgentInfo { space: vec![1], agent: vec![10] },
        AgentInfo { space: vec![2], agent: vec![11] },
    ];
    let mut state = MdnsBootstrap::new();
    assert_eq!(state.spaces_to_listen(&infos), vec![vec![1], vec![2]]);
    state.listen_result(vec![1], true);
    state.listen_result(vec![2], false);
    assert_eq!(state.spaces_to_listen(&infos), vec![vec![2]]);
    state.listen_result(vec![2], true);
    assert!(state.spaces_to_listen(&infos).is_empty());
}

#[test]
fn mdns_broadcast_stops_the_previous_one_of_a_pair() {
    let mut state = MdnsBootstrap::new();
    assert!(!state.start_broadcast(&vec![1], &vec![10]));
    assert!(!state.start_broadcast(&vec![1], &vec![11]));
    assert!(state.start_broadcast(&vec![1], &vec![10]));
    assert!(state.start_broadcast(&vec![1], &vec![11]));
}

#[test]
fn manager_auth_call_gives_the_kept_one_or_keeps_the_issued_one() {
    let mut auths = vec![manager_auth("a", true, 1)];
    let found = auth::app_websocket_auth_step(&mut auths, &String::from("a"), true, None).unwrap();
    assert_eq!(found.app_websocket_port, 1);
    assert!(auth::app_websocket_auth_step(&mut auths, &String::from("a"), false, None).is_none());
    let kept = auth::app_websocket_auth_step(
        &mut auths,
        &String::from("a"),
        false,
        Some(manager_auth("a", false, 5)),
    )
    .unwrap();
    assert_eq!(kept.app_websocket_port, 5);
    assert_eq!(auths.len(), 2);
    let again = auth::app_websocket_auth_step(
        &mut auths,
        &String::from("a"),
        false,
        Some(manager_auth("a", false, 9)),
    )
    .unwrap();
    assert_eq!(again.app_websocket_port, 5);
    assert_eq!(auths.len(), 2);
}

#[test]
fn runtime_auth_call_gives_the_kept_one_or_keeps_the_issued_one() {
    let mut auths = vec![];
    assert!(runtime::app_websocket_auth_step(&mut auths, &String::from("a"), &one_origin("x"), None)
        .is_none());
    let kept = runtime::app_websocket_auth_step(
        &mut auths,
        &String::from("a"),
        &one_origin("x"),
        Some(runtime_auth("a", one_origin("x"), 3)),
    )
    .unwrap();
    assert_eq!(kept.app_websocket_port, 3);
    let again =
        runtime::app_websocket_auth_step(&mut auths, &String::from("a"), &one_origin("x"), None)
            .unwrap();
    assert_eq!(again.app_websocket_port, 3);
    assert_eq!(auths.len(), 1);
    let copy = one_origin("x").duplicate();
    assert!(allowed_origins_eq(&copy, &one_origin("x")));
}
