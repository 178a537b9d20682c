use p2p_shipyard::ffi::{
    apps_to_ffi, AppInfoFFI, HolochainRuntimeFFIConfig, HolochainRuntimeFFIConfigError,
};
use p2p_shipyard::pilot::{dev_url, network_urls, PilotArgsError};
use p2p_shipyard::update::{AppInfo, AppStatus};

fn app(id: &str) -> AppInfo {
    AppInfo { installed_app_id: String::from(id), status: AppStatus::Running, cell_info: vec![] }
}

#[test]
fn ffi_config_with_valid_urls() {
    let c = HolochainRuntimeFFIConfig {
        bootstrap_url: String::from("https://bootstrap.example.org"),
        signal_url: String::from("wss://signal.example.org"),
        holochain_dir: String::from("/data"),
    };
    let m = c.try_into().ok().unwrap();
    assert_eq!(m.holochain_dir, "/data");
    let w = m.wan_network_config.unwrap();
    assert_eq!(w.bootstrap_url, "https://bootstrap.example.org/");
    assert_eq!(w.signal_url, "wss://signal.example.org/");
}

#[test]
fn ffi_config_with_invalid_bootstrap_url() {
    let c = HolochainRuntimeFFIConfig {
        bootstrap_url: String::from("not a url"),
        signal_url: String::from("wss://signal.example.org"),
        holochain_dir: String::from("/data"),
    };
    assert!(matches!(c.try_into(), Err(HolochainRuntimeFFIConfigError::Url2Error(_))));
}

#[test]
fn ffi_config_with_invalid_signal_url() {
    let c = HolochainRuntimeFFIConfig {
        bootstrap_url: String::from("https://bootstrap.example.org"),
        signal_url: String::from("::"),
        holochain_dir: String::from("/data"),
    };
    assert!(matches!(c.try_into(), Err(HolochainRuntimeFFIConfigError::Url2Error(_))));
}

#[test]
fn app_info_ffi_keeps_the_id() {
    let f = AppInfoFFI::from(app("a"));
    assert_eq!(f.installed_app_id, "a");
    let all = apps_to_ffi(vec![app("a"), app("b"), app("c")]);
    let ids: Vec<String> = all.into_iter().map(|f| f.installed_app_id).collect();
    assert_eq!(ids, vec![String::from("a"), String::from("b"), String::from("c")]);
    assert!(apps_to_ffi(vec![]).is_empty());
}

#[test]
fn pilot_network_urls() {
    assert_eq!(
        network_urls(Some(String::from("s")), Some(String::from("b"))),
        Ok(Some((String::from("s"), String::from("b"))))
    );
    assert_eq!(network_urls(None, None), Ok(None));
    assert_eq!(
        network_urls(Some(String::from("s")), None),
        Err(PilotArgsError::SignalUrlWithoutBootstrapUrl)
    );
    assert_eq!(
        network_urls(None, Some(String::from("b"))),
        Err(PilotArgsError::BootstrapUrlWithoutSignalUrl)
    );
}

#[test]
fn pilot_error_messages() {
    assert_eq!(
        PilotArgsError::SignalUrlWithoutBootstrapUrl.message(),
        "Invalid arguments: --signal-url was provided without --bootstrap-url"
    );
    assert_eq!(
        PilotArgsError::BootstrapUrlWithoutSignalUrl.message(),
        "Invalid arguments: --bootstrap-url was provided without --signal-url"
    );
}

#[test]
fn pilot_dev_url() {
    assert_eq!(dev_url(&String::from("1420")), Some(String::from("http://localhost:1420/")));
    assert_eq!(dev_url(&String::from("notaport")), None);
}
