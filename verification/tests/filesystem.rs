use p2p_shipyard::error::{Error, UpdateAppError};
use p2p_shipyard::filesystem::{
    zip_entry_action, AppBundleStore, BundleStore, FileSystem, InstalledAppInfo,
    InstalledAppsStore, InstalledWebAppInfo, UiStore, ZipEntryAction,
};
use p2p_shipyard::http_server::{
    normalize_asset_name, pong_iframe, read_asset_plan, read_asset_result,
};
use p2p_shipyard::paths::join;

const HELLO_SHA256: &str = "2cf24dba5fb0a30e26e83b2ac5b9e29e1b161e5c1fa7425e73043362938b9824";

fn web_app_info(ui: &str, web: &str) -> Option<InstalledWebAppInfo> {
    Some(InstalledWebAppInfo {
        ui_hash: String::from(ui),
        web_happ_bundle_hash: String::from(web),
    })
}

#[test]
fn paths_join_like_pathbuf() {
    assert_eq!(join("a", "b"), "a/b");
    assert_eq!(join("a/", "b"), "a/b");
    assert_eq!(join("", "b"), "b");
    assert_eq!(join("a", "/b"), "/b");
    assert_eq!(join("a", ""), "a/");
}

#[test]
fn file_system_folders() {
    let fs = FileSystem::new(String::from("/data"), &vec![]);
    assert_eq!(fs.keystore_dir(), "/data/keystore");
    assert_eq!(fs.keystore_config_path(), "/data/keystore/lair-keystore-config.yaml");
    assert_eq!(fs.keystore_store_path(), "/data/keystore/store_file");
    assert_eq!(fs.conductor_dir(), "/data/conductor");
    assert_eq!(FileSystem::bundle_store_path(&String::from("/data")), "/data/bundles");
    assert_eq!(
        fs.bundle_store.installed_apps_store.json_config_path(),
        "/data/bundles/installed-apps.json"
    );
}

#[test]
fn app_bundles_are_stored_by_hash() {
    let store = BundleStore::new(String::from("/b"), &vec![]);
    assert_eq!(AppBundleStore::app_bundle_hash(b"hello"), HELLO_SHA256);
    let (hash, path) = store.happ_bundle_store().store_app_bundle(b"hello");
    assert_eq!(hash, HELLO_SHA256);
    assert_eq!(path, format!("/b/happs/{HELLO_SHA256}.happ"));
    assert_eq!(BundleStore::web_app_bundle_hash(b"hello"), HELLO_SHA256);
    assert_eq!(UiStore::ui_hash(b"hello"), HELLO_SHA256);
    assert_eq!(store.ui_store().ui_zip_path(), "/b/uis/ui.zip");
    assert_eq!(store.ui_store().folder(), "/b/uis");
    assert_eq!(store.happ_bundle_store().folder(), "/b/happs");
    assert_eq!(
        store.ui_store().get_path_for_ui_with_hash(&String::from("abc")),
        "/b/uis/abc"
    );
}

#[test]
fn installed_apps_read_back_what_was_stored() {
    let mut apps = InstalledAppsStore::new(String::from("/b/installed-apps.json"));
    assert!(apps.get_app(&String::from("a")).is_none());
    apps.insert(
        String::from("a"),
        InstalledAppInfo { happ_bundle_hash: String::from("h1"), web_app_info: None },
    );
    apps.insert(
        String::from("b"),
        InstalledAppInfo { happ_bundle_hash: String::from("h2"), web_app_info: None },
    );
    apps.insert(
        String::from("a"),
        InstalledAppInfo { happ_bundle_hash: String::from("h3"), web_app_info: web_app_info("u", "w") },
    );
    let a = apps.get_app(&String::from("a")).unwrap();
    assert_eq!(a.happ_bundle_hash, "h3");
    assert_eq!(a.web_app_info.unwrap().ui_hash, "u");
    assert_eq!(apps.get_app(&String::from("b")).unwrap().happ_bundle_hash, "h2");
    assert_eq!(apps.entries().len(), 2);
}

#[test]
fn installed_apps_read_from_entries_keep_the_last_entry() {
    let entries = vec![
        (String::from("a"), InstalledAppInfo { happ_bundle_hash: String::from("h1"), web_app_info: None }),
        (String::from("a"), InstalledAppInfo { happ_bundle_hash: String::from("h2"), web_app_info: None }),
    ];
    let apps = InstalledAppsStore::from_entries(String::from("x.json"), &entries);
    assert_eq!(apps.get_app(&String::from("a")).unwrap().happ_bundle_hash, "h2");
    assert_eq!(apps.entries().len(), 1);
}

#[test]
fn ui_path_of_installed_web_app() {
    let mut store = BundleStore::new(String::from("/b"), &vec![]);
    match store.get_ui_path(&String::from("a")) {
        Err(Error::AppDoesNotExist(id)) => assert_eq!(id, "a"),
        _ => panic!("expected AppDoesNotExist"),
    }
    store.store_happ_bundle(String::from("a"), String::from("h"));
    match store.get_ui_path(&String::from("a")) {
        Err(Error::AppDoesNotHaveUIError(id)) => assert_eq!(id, "a"),
        _ => panic!("expected AppDoesNotHaveUIError"),
    }
    store.store_web_happ_bundle(
        String::from("a"),
        String::from("h"),
        String::from("w"),
        String::from("ui1"),
    );
    assert_eq!(store.get_ui_path(&String::from("a")).unwrap(), "/b/uis/ui1");
}

#[test]
fn update_needed_only_for_another_bundle() {
    let mut store = BundleStore::new(String::from("/b"), &vec![]);
    match store.app_update_needed(&String::from("a"), &String::from("h")) {
        Err(UpdateAppError::AppNotFound(id)) => assert_eq!(id, "a"),
        _ => panic!("expected AppNotFound"),
    }
    store.store_happ_bundle(String::from("a"), String::from("h"));
    assert_eq!(store.app_update_needed(&String::from("a"), &String::from("h")).unwrap(), false);
    assert_eq!(store.app_update_needed(&String::from("a"), &String::from("h2")).unwrap(), true);
    // An app installed without a UI always takes a web-app update.
    assert_eq!(store.web_app_update_needed(&String::from("a"), &String::from("h")).unwrap(), true);
    store.store_web_happ_bundle(
        String::from("a"),
        String::from("h"),
        String::from("w"),
        String::from("u"),
    );
    assert_eq!(store.web_app_update_needed(&String::from("a"), &String::from("w")).unwrap(), false);
    assert_eq!(store.web_app_update_needed(&String::from("a"), &String::from("w2")).unwrap(), true);
    match store.web_app_update_needed(&String::from("z"), &String::from("w")) {
        Err(UpdateAppError::AppNotFound(id)) => assert_eq!(id, "z"),
        _ => panic!("expected AppNotFound"),
    }
}

#[test]
fn pong_iframe_page() {
    assert_eq!(
        pong_iframe(),
        "<html><head></head><body><script>window.onload = () => window.parent.postMessage('pong', '*') </script></body></html>"
    );
}

#[test]
fn asset_names() {
    assert_eq!(normalize_asset_name(String::from("/main.js")), "main.js");
    assert_eq!(normalize_asset_name(String::from("")), "index.html");
    assert_eq!(normalize_asset_name(String::from("/")), "index.html");
    assert_eq!(normalize_asset_name(String::from("//x")), "/x");
    assert_eq!(normalize_asset_name(String::from("a/b.css")), "a/b.css");
}

#[test]
fn asset_plan_of_web_app() {
    let mut fs = FileSystem::new(String::from("/d"), &vec![]);
    fs.bundle_store.store_web_happ_bundle(
        String::from("app"),
        String::from("h"),
        String::from("w"),
        String::from("ui"),
    );
    let plan = read_asset_plan(&fs, &String::from("app"), String::from("/assets/main.js")).unwrap();
    assert_eq!(plan.asset_file, "/d/bundles/uis/ui/assets/main.js");
    assert_eq!(plan.mime_type, Some(String::from("text/javascript")));
    assert_eq!(plan.fallback_file, "/d/bundles/uis/ui/index.html");
    assert_eq!(plan.fallback_mime_type, Some(String::from("text/html")));
    let none = read_asset_plan(&fs, &String::from("app"), String::from("/LICENSE")).unwrap();
    assert_eq!(none.mime_type, None);
    match read_asset_plan(&fs, &String::from("other"), String::from("x")) {
        Err(Error::AppDoesNotExist(id)) => assert_eq!(id, "other"),
        _ => panic!("expected AppDoesNotExist"),
    }
}

#[test]
fn asset_falls_back_to_index() {
    let mut fs = FileSystem::new(String::from("/d"), &vec![]);
    fs.bundle_store.store_web_happ_bundle(
        String::from("app"),
        String::from("h"),
        String::from("w"),
        String::from("ui"),
    );
    let plan = || read_asset_plan(&fs, &String::from("app"), String::from("route")).unwrap();
    assert_eq!(read_asset_result(plan(), Some(vec![1]), None), Some((vec![1], None)));
    assert_eq!(
        read_asset_result(plan(), None, Some(vec![2])),
        Some((vec![2], Some(String::from("text/html"))))
    );
    assert_eq!(read_asset_result(plan(), None, None), None);
}

#[test]
fn zip_entries() {
    let out = String::from("/ui");
    assert!(matches!(
        zip_entry_action(&out, &String::from("../x"), None),
        ZipEntryAction::Skip
    ));
    match zip_entry_action(&out, &String::from("assets/"), Some(String::from("assets"))) {
        ZipEntryAction::CreateDir(d) => assert_eq!(d, "/ui/assets"),
        _ => panic!("expected a folder"),
    }
    match zip_entry_action(&out, &String::from("index.html"), Some(String::from("index.html"))) {
        ZipEntryAction::WriteFile(f) => assert_eq!(f, "/ui/index.html"),
        _ => panic!("expected a file"),
    }
}

#[test]
fn installed_apps_round_trip_through_entries() {
    let mut store = InstalledAppsStore::new(String::from("/b/installed-apps.json"));
    store.insert(
        String::from("a"),
        InstalledAppInfo { happ_bundle_hash: String::from("h1"), web_app_info: None },
    );
    store.insert(
        String::from("b"),
        InstalledAppInfo {
            happ_bundle_hash: String::from("h2"),
            web_app_info: web_app_info("u", "w"),
        },
    );
    store.insert(
        String::from("a"),
        InstalledAppInfo { happ_bundle_hash: String::from("h3"), web_app_info: None },
    );
    let entries = store.entries();
    assert_eq!(entries.len(), 2);
    let back = InstalledAppsStore::from_entries(store.json_config_path(), &entries);
    assert_eq!(back.get_app(&String::from("a")).unwrap().happ_bundle_hash, "h3");
    let b = back.get_app(&String::from("b")).unwrap();
    assert_eq!(b.happ_bundle_hash, "h2");
    assert_eq!(b.web_app_info.unwrap().ui_hash, "u");
    assert!(back.get_app(&String::from("c")).is_none());
    assert_eq!(back.json_config_path(), "/b/installed-apps.json");
}

#[test]
fn installed_apps_update_gives_the_entries_to_save() {
    let mut store = InstalledAppsStore::new(String::from("/b/installed-apps.json"));
    store.insert(
        String::from("a"),
        InstalledAppInfo { happ_bundle_hash: String::from("h1"), web_app_info: None },
    );
    let saved = store.update(
        String::from("a"),
        InstalledAppInfo { happ_bundle_hash: String::from("h2"), web_app_info: None },
    );
    assert_eq!(saved.len(), 1);
    let back = InstalledAppsStore::from_entries(store.json_config_path(), &saved);
    assert_eq!(back.get_app(&String::from("a")).unwrap().happ_bundle_hash, "h2");
    let mut bundles = BundleStore::new(String::from("/b"), &vec![]);
    let saved = bundles.store_happ_bundle(String::from("x"), String::from("hx"));
    assert_eq!(saved.len(), 1);
    assert_eq!(saved[0].0, "x");
    assert_eq!(saved[0].1.happ_bundle_hash, "hx");
}
