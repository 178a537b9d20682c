use p2p_shipyard::origins::{allowed_origins_eq, AllowedOrigins};
use p2p_shipyard::plugin::{
    admin_interface_init_script, app_installed_event, app_interface_init_script,
    app_updated_event, asset_content_type, asset_status, get_allowed_origins, happ_origin,
    happ_window_url, is_ping_request, parse_happ_uri, ping_content_type, setup_completed_event,
    setup_failed_event, AssetOutcome, PING_STATUS,
};

fn origins(list: &[&str]) -> AllowedOrigins {
    AllowedOrigins::Origins(list.iter().map(|s| String::from(*s)).collect())
}

#[test]
fn happ_origin_per_platform() {
    assert_eq!(happ_origin(&String::from("myapp"), false), "happ://myapp");
    assert_eq!(happ_origin(&String::from("myapp"), true), "http://happ.myapp");
}

#[test]
fn allowed_origins_in_development_are_any() {
    let o = get_allowed_origins(&String::from("myapp"), true, true, false);
    assert!(matches!(o, AllowedOrigins::Any));
}

#[test]
fn allowed_origins_of_main_window_include_tauri() {
    let o = get_allowed_origins(&String::from("myapp"), true, false, false);
    assert!(allowed_origins_eq(
        &o,
        &origins(&["tauri://localhost", "happ://myapp", "http://tauri.localhost"])
    ));
    assert!(!allowed_origins_eq(&o, &origins(&["happ://myapp"])));
}

#[test]
fn allowed_origins_of_app_window_are_its_own() {
    let o = get_allowed_origins(&String::from("myapp"), false, false, true);
    assert!(allowed_origins_eq(&o, &origins(&["http://happ.myapp"])));
    assert!(!allowed_origins_eq(&o, &AllowedOrigins::Any));
}

#[test]
fn app_interface_script() {
    let s = app_interface_init_script(8888, &vec![1, 20, 255], &String::from("myapp"));
    assert_eq!(
        s,
        "\n            if (!window.__HC_LAUNCHER_ENV__) window.__HC_LAUNCHER_ENV__ = {};\n            window.__HC_LAUNCHER_ENV__.APP_INTERFACE_PORT = 8888;\n            window.__HC_LAUNCHER_ENV__.APP_INTERFACE_TOKEN = [1,20,255];\n            window.__HC_LAUNCHER_ENV__.INSTALLED_APP_ID = \"myapp\";\n        "
    );
}

#[test]
fn app_interface_script_with_empty_token() {
    let s = app_interface_init_script(0, &vec![], &String::from("a"));
    assert!(s.contains("APP_INTERFACE_PORT = 0;"));
    assert!(s.contains("APP_INTERFACE_TOKEN = [];"));
}

#[test]
fn admin_interface_script() {
    assert_eq!(
        admin_interface_init_script(1234),
        "\n            if (!window.__HC_LAUNCHER_ENV__) window.__HC_LAUNCHER_ENV__ = {};\n            window.__HC_LAUNCHER_ENV__.ADMIN_INTERFACE_PORT = 1234;\n                        \n                    "
    );
}

#[test]
fn window_url_of_web_app() {
    let u = happ_window_url(&String::from("myapp"), None, false).unwrap();
    assert_eq!(u, "happ://myapp/");
    let u = happ_window_url(&String::from("myapp"), Some(String::from("a b")), false).unwrap();
    assert_eq!(u, "happ://myapp/a%20b");
}

#[test]
fn window_url_over_http_lowercases_the_host() {
    let u = happ_window_url(&String::from("MyApp"), Some(String::from("index.html")), true)
        .unwrap();
    assert_eq!(u, "http://happ.myapp/index.html");
}

#[test]
fn window_url_that_does_not_parse() {
    assert!(happ_window_url(&String::from("my app"), None, true).is_err());
}

#[test]
fn ping_requests() {
    assert!(is_ping_request(&String::from("happ://ping")));
    assert!(is_ping_request(&String::from("happ://ping/index.html")));
    assert!(!is_ping_request(&String::from("happ://myapp/")));
    assert!(!is_ping_request(&String::from("http://ping")));
}

#[test]
fn happ_uri_with_asset_path() {
    let r = parse_happ_uri(&String::from("happ://myapp/assets/index.js?x=1")).unwrap();
    assert_eq!(r.app_id, "myapp");
    assert_eq!(r.asset_path, "assets/index.js");
}

#[test]
fn happ_uri_without_asset_path() {
    let r = parse_happ_uri(&String::from("happ://myapp")).unwrap();
    assert_eq!(r.app_id, "myapp");
    assert_eq!(r.asset_path, "");
    let r = parse_happ_uri(&String::from("happ://myapp/")).unwrap();
    assert_eq!(r.app_id, "myapp");
    assert_eq!(r.asset_path, "");
}

#[test]
fn happ_uri_with_empty_components() {
    let r = parse_happ_uri(&String::from("happ://app/a//b/")).unwrap();
    assert_eq!(r.app_id, "app");
    assert_eq!(r.asset_path, "a/b/");
}

#[test]
fn happ_uri_stops_at_second_protocol_separator() {
    let r = parse_happ_uri(&String::from("happ://app/x://y")).unwrap();
    assert_eq!(r.app_id, "app");
    assert_eq!(r.asset_path, "x");
}

#[test]
fn happ_uri_without_protocol() {
    assert!(parse_happ_uri(&String::from("myapp/index.html")).is_none());
}

#[test]
fn window_url_resolves_to_its_app() {
    let u = happ_window_url(&String::from("myapp"), Some(String::from("a/b.html")), false)
        .unwrap();
    let r = parse_happ_uri(&u).unwrap();
    assert_eq!(r.app_id, "myapp");
    assert_eq!(r.asset_path, "a/b.html");
    assert!(!is_ping_request(&u));
}

#[test]
fn content_types() {
    assert_eq!(
        asset_content_type(&Some(String::from("text/html"))),
        "text/html;charset=utf-8"
    );
    assert_eq!(asset_content_type(&None), "charset=utf-8");
    assert_eq!(ping_content_type(), "text/html;charset=utf-8");
}

#[test]
fn statuses() {
    assert_eq!(asset_status(&AssetOutcome::Found), 202);
    assert_eq!(asset_status(&AssetOutcome::NotFound), 404);
    assert_eq!(asset_status(&AssetOutcome::Failed), 500);
    assert_eq!(PING_STATUS, 202);
}

#[test]
fn events() {
    assert_eq!(app_installed_event(), "holochain://app-installed");
    assert_eq!(app_updated_event(), "holochain://app-updated");
    assert_eq!(setup_completed_event(), "holochain://setup-completed");
    assert_eq!(setup_failed_event(), "holochain://setup-failed");
}
