use vstd::prelude::*;
use vstd::string::*;

use crate::strings::{
    comma_separated_decimals, decimal, decimal_string, join_decimals, split_chars, split_parts,
    starts_with, str_starts_with,
};
use crate::text::{chars_of, string_from_chars};
use crate::paths::{join, path_join};
use crate::origins::{origins_view, AllowedOrigins};

verus! {

/// The origin from which the UI of app `app_id` is served: `http://happ.{app_id}` on the
/// platforms whose webviews cannot use custom schemes (Windows and Android), else
/// `happ://{app_id}`.
pub open spec fn happ_origin_spec(app_id: Seq<char>, http_scheme: bool) -> Seq<char> {
    if http_scheme {
        "http://happ."@ + app_id
    } else {
        "happ://"@ + app_id
    }
}

/// The origin from which the UI of app `app_id` is served; `http_scheme` tells whether the
/// platform is one on which custom schemes are served over `http` (Windows and Android).
pub fn happ_origin(app_id: &String, http_scheme: bool) -> (r: String)
    ensures
        r@ == happ_origin_spec(app_id@, http_scheme),
{
    let mut r = if http_scheme {
        String::from_str("http://happ.")
    } else {
        String::from_str("happ://")
    };
    r.append(app_id.as_str());
    r
}

/// The origins that the app interface of `app_id` accepts: any in development, else the
/// app's own origin and, for the main window, the origins of the Tauri app itself.
pub open spec fn allowed_origins_spec(
    app_id: Seq<char>,
    main_window: bool,
    is_dev: bool,
    http_scheme: bool,
) -> Option<Set<Seq<char>>> {
    if is_dev {
        None
    } else if main_window {
        Some(
            set![happ_origin_spec(app_id, http_scheme), "http://tauri.localhost"@, "tauri://localhost"@],
        )
    } else {
        Some(set![happ_origin_spec(app_id, http_scheme)])
    }
}

/// The origins that the app interface of `app_id` accepts. `is_dev` tells whether the Tauri
/// app runs in development, where any origin is allowed so that the UI can be served from
/// the development server.
pub fn get_allowed_origins(app_id: &String, main_window: bool, is_dev: bool, http_scheme: bool) -> (r:
    AllowedOrigins)
    ensures
        origins_view(&r) == allowed_origins_spec(app_id@, main_window, is_dev, http_scheme),
{
    if is_dev {
        return AllowedOrigins::Any;
    }
    let mut origins: Vec<String> = Vec::new();
    origins.push(happ_origin(app_id, http_scheme));
    if main_window {
        origins.push(String::from_str("http://tauri.localhost"));
        origins.push(String::from_str("tauri://localhost"));
    }
    let r = AllowedOrigins::Origins(origins);
    proof {
        let m = origins@.map_values(|s: String| s@);
        if main_window {
            assert(m =~= seq![
                happ_origin_spec(app_id@, http_scheme),
                "http://tauri.localhost"@,
                "tauri://localhost"@,
            ]);
            assert(m.to_set() =~= set![
                happ_origin_spec(app_id@, http_scheme),
                "http://tauri.localhost"@,
                "tauri://localhost"@,
            ]) by {
                assert forall|x: Seq<char>| m.to_set().contains(x) <==> (x == m[0] || x == m[1] || x
                    == m[2]) by {
                    if m.contains(x) {
                        let k = choose|k: int| 0 <= k < m.len() && m[k] == x;
                    }
                    if x == m[0] {
                        assert(m.contains(m[0]));
                    }
                    if x == m[1] {
                        assert(m.contains(m[1]));
                    }
                    if x == m[2] {
                        assert(m.contains(m[2]));
                    }
                }
            }
        } else {
            assert(m =~= seq![happ_origin_spec(app_id@, http_scheme)]);
            assert(m.to_set() =~= set![happ_origin_spec(app_id@, http_scheme)]) by {
                assert forall|x: Seq<char>| m.to_set().contains(x) <==> x == m[0] by {
                    if m.contains(x) {
                        let k = choose|k: int| 0 <= k < m.len() && m[k] == x;
                    }
                    if x == m[0] {
                        assert(m.contains(m[0]));
                    }
                }
            }
        }
    }
    r
}

/// The script that gives the UI of an app the port and token of its app interface.
pub open spec fn app_interface_script_spec(port: u16, token: Seq<u8>, app_id: Seq<char>) -> Seq<
    char,
> {
    "\n            if (!window.__HC_LAUNCHER_ENV__) window.__HC_LAUNCHER_ENV__ = {};\n            window.__HC_LAUNCHER_ENV__.APP_INTERFACE_PORT = "@
        + decimal(port as nat)
        + ";\n            window.__HC_LAUNCHER_ENV__.APP_INTERFACE_TOKEN = ["@
        + comma_separated_decimals(token)
        + "];\n            window.__HC_LAUNCHER_ENV__.INSTALLED_APP_ID = \""@ + app_id
        + "\";\n        "@
}

/// The initialization script that gives a window the port and token of the app interface
/// of app `app_id`.
pub fn app_interface_init_script(port: u16, token: &Vec<u8>, app_id: &String) -> (r: String)
    ensures
        r@ == app_interface_script_spec(port, token@, app_id@),
{
    let mut r = String::from_str(
        "\n            if (!window.__HC_LAUNCHER_ENV__) window.__HC_LAUNCHER_ENV__ = {};\n            window.__HC_LAUNCHER_ENV__.APP_INTERFACE_PORT = ",
    );
    r.append(decimal_string(port as u64).as_str());
    r.append(";\n            window.__HC_LAUNCHER_ENV__.APP_INTERFACE_TOKEN = [");
    r.append(join_decimals(token).as_str());
    r.append("];\n            window.__HC_LAUNCHER_ENV__.INSTALLED_APP_ID = \"");
    r.append(app_id.as_str());
    r.append("\";\n        ");
    r
}

/// The script that gives the main window the port of the admin interface.
pub open spec fn admin_interface_script_spec(port: u16) -> Seq<char> {
    "\n            if (!window.__HC_LAUNCHER_ENV__) window.__HC_LAUNCHER_ENV__ = {};\n            window.__HC_LAUNCHER_ENV__.ADMIN_INTERFACE_PORT = "@
        + decimal(port as nat) + ";\n                        \n                    "@
}

/// The initialization script that gives a window the port of the admin interface.
pub fn admin_interface_init_script(port: u16) -> (r: String)
    ensures
        r@ == admin_interface_script_spec(port),
{
    let mut r = String::from_str(
        "\n            if (!window.__HC_LAUNCHER_ENV__) window.__HC_LAUNCHER_ENV__ = {};\n            window.__HC_LAUNCHER_ENV__.ADMIN_INTERFACE_PORT = ",
    );
    r.append(decimal_string(port as u64).as_str());
    r.append(";\n                        \n                    ");
    r
}

/// What `url::Url::parse` gives back for `s`: the serialization of the parsed URL, or
/// `None` where `s` is no valid URL.
pub uninterp spec fn parsed_url(s: Seq<char>) -> Option<Seq<char>>;

#[verifier::external_type_specification]
#[verifier::external_body]
pub struct ExUrlParseError(url::ParseError);

/// `url::Url::parse`, giving back the serialization of the parsed URL.
#[verifier::external_body]
fn parse_url(s: &str) -> (r: Result<String, url::ParseError>)
    ensures
        r is Ok <==> parsed_url(s@) is Some,
        r matches Ok(u) ==> parsed_url(s@) == Some(u@),
{
    url::Url::parse(s).map(|u| u.as_str().to_string())
}

/// The text of the URL that the window of web-app `app_id` opens at `url_path`.
pub open spec fn happ_window_url_text(app_id: Seq<char>, url_path: Seq<char>, http_scheme: bool) -> Seq<
    char,
> {
    happ_origin_spec(app_id, http_scheme) + "/"@ + url_path
}

/// The URL that the window of web-app `app_id` opens, at `url_path` (empty when none is
/// given).
pub fn happ_window_url(app_id: &String, url_path: Option<String>, http_scheme: bool) -> (r: Result<
    String,
    url::ParseError,
>)
    ensures
        ({
            let path = match url_path {
                Some(p) => p@,
                None => Seq::<char>::empty(),
            };
            &&& r is Ok <==> parsed_url(happ_window_url_text(app_id@, path, http_scheme)) is Some
            &&& r matches Ok(u) ==> parsed_url(happ_window_url_text(app_id@, path, http_scheme))
                == Some(u@)
        }),
{
    let path = match url_path {
        Some(p) => p,
        None => String::new(),
    };
    let mut text = happ_origin(app_id, http_scheme);
    text.append("/");
    text.append(path.as_str());
    parse_url(text.as_str())
}

/// A request made to the `happ` protocol: the app whose UI is asked for, and the path of the
/// asset within it.
pub struct HappRequest {
    pub app_id: String,
    pub asset_path: String,
}

/// `base` with each of `components` pushed onto it in turn.
pub open spec fn pushed_components(base: Seq<char>, components: Seq<Seq<char>>) -> Seq<char>
    decreases components.len(),
{
    if components.len() == 0 {
        base
    } else {
        pushed_components(path_join(base, components[0]), components.skip(1))
    }
}

/// `PathBuf::new()` with each of `components` pushed onto it.
pub open spec fn joined_components(components: Seq<Seq<char>>) -> Seq<char> {
    pushed_components(Seq::empty(), components)
}

/// Pushing one more component onto the result of pushing `components`.
pub proof fn lemma_pushed_components_push(base: Seq<char>, components: Seq<Seq<char>>, c: Seq<char>)
    ensures
        pushed_components(base, components.push(c)) == path_join(
            pushed_components(base, components),
            c,
        ),
    decreases components.len(),
{
    let cs = components.push(c);
    if components.len() == 0 {
        assert(cs.skip(1) =~= Seq::<Seq<char>>::empty());
        assert(cs[0] == c);
        assert(pushed_components(path_join(base, c), cs.skip(1)) == path_join(base, c));
    } else {
        assert(cs.skip(1) =~= components.skip(1).push(c));
        assert(cs[0] == components[0]);
        lemma_pushed_components_push(path_join(base, components[0]), components.skip(1), c);
    }
}

/// The request that a `happ` URI stands for: what follows the first `://` up to the next
/// one, cut at the first `?`; its first `/`-separated component is the app id, the others
/// make the asset's path. `None` where the URI has no `://`.
pub open spec fn happ_request_spec(uri: Seq<char>) -> Option<(Seq<char>, Seq<char>)> {
    let parts = split_parts(uri, "://"@);
    if parts.len() < 2 {
        None
    } else {
        let without_query = split_parts(parts[1], "?"@)[0];
        let components = split_parts(without_query, "/"@);
        Some((components[0], joined_components(components.skip(1))))
    }
}

proof fn lemma_split_nonempty(s: Seq<char>, sep: Seq<char>)
    ensures
        split_parts(s, sep).len() >= 1,
    decreases s.len(),
{
    reveal_with_fuel(split_parts, 1);
}

/// Whether a request to the `happ` protocol is a ping.
pub fn is_ping_request(uri: &String) -> (r: bool)
    ensures
        r == starts_with(uri@, "happ://ping"@),
{
    str_starts_with(uri.as_str(), "happ://ping")
}

/// The app and asset that a request to the `happ` protocol asks for; `None` where the URI
/// holds no `://`.
pub fn parse_happ_uri(uri: &String) -> (r: Option<HappRequest>)
    ensures
        match (r, happ_request_spec(uri@)) {
            (Some(req), Some((app_id, asset))) => req.app_id@ == app_id && req.asset_path@ == asset,
            (None, None) => true,
            _ => false,
        },
{
    proof {
        reveal_strlit("://");
        reveal_strlit("?");
        reveal_strlit("/");
    }
    let uri_chars = chars_of(uri.as_str());
    let protocol_sep = chars_of("://");
    let parts = split_chars(&uri_chars, &protocol_sep);
    let ghost mparts = parts@.map_values(|v: Vec<char>| v@);
    if parts.len() < 2 {
        return None;
    }
    assert(mparts[1] == parts@[1]@);
    let query_sep = chars_of("?");
    let pieces = split_chars(&parts[1], &query_sep);
    proof {
        lemma_split_nonempty(parts@[1]@, "?"@);
    }
    let ghost mpieces = pieces@.map_values(|v: Vec<char>| v@);
    assert(mpieces[0] == pieces@[0]@);
    let path_sep = chars_of("/");
    let components = split_chars(&pieces[0], &path_sep);
    let ghost mcomp = components@.map_values(|v: Vec<char>| v@);
    proof {
        lemma_split_nonempty(pieces@[0]@, "/"@);
    }
    assert(mcomp[0] == components@[0]@);
    let app_id = string_from_chars(&components[0]);
    let mut asset = String::new();
    let mut i: usize = 1;
    while i < components.len()
        invariant
            1 <= i <= components@.len(),
            mcomp == components@.map_values(|v: Vec<char>| v@),
            asset@ == joined_components(mcomp.subrange(1, i as int)),
        decreases components@.len() - i,
    {
        let c = string_from_chars(&components[i]);
        asset = join(asset.as_str(), c.as_str());
        proof {
            assert(mcomp.subrange(1, i + 1) =~= mcomp.subrange(1, i as int).push(
                components@[i as int]@,
            ));
            lemma_pushed_components_push(
                Seq::empty(),
                mcomp.subrange(1, i as int),
                components@[i as int]@,
            );
        }
        i = i + 1;
    }
    assert(mcomp.subrange(1, components@.len() as int) =~= mcomp.skip(1));
    Some(HappRequest { app_id, asset_path: asset })
}

/// The `Content-Type` header of an asset of the given MIME type.
pub open spec fn asset_content_type_spec(mime_type: Option<Seq<char>>) -> Seq<char> {
    match mime_type {
        Some(m) => m + ";charset=utf-8"@,
        None => "charset=utf-8"@,
    }
}

/// The `Content-Type` header with which an asset is served.
pub fn asset_content_type(mime_type: &Option<String>) -> (r: String)
    ensures
        r@ == asset_content_type_spec(
            match mime_type {
                Some(m) => Some(m@),
                None => None,
            },
        ),
{
    match mime_type {
        Some(m) => {
            let mut r = m.clone();
            r.append(";charset=utf-8");
            r
        },
        None => String::from_str("charset=utf-8"),
    }
}

/// The outcome of reading an asset for the `happ` protocol.
pub enum AssetOutcome {
    /// The asset was read.
    Found,
    /// Neither the asset nor the app's `index.html` exists.
    NotFound,
    /// Reading failed.
    Failed,
}

/// The HTTP status with which the `happ` protocol answers each outcome.
pub open spec fn asset_status_spec(outcome: AssetOutcome) -> u16 {
    match outcome {
        AssetOutcome::Found => 202,
        AssetOutcome::NotFound => 404,
        AssetOutcome::Failed => 500,
    }
}

/// The HTTP status with which the `happ` protocol answers.
pub fn asset_status(outcome: &AssetOutcome) -> (r: u16)
    ensures
        r == asset_status_spec(*outcome),
{
    match outcome {
        AssetOutcome::Found => 202,
        AssetOutcome::NotFound => 404,
        AssetOutcome::Failed => 500,
    }
}

/// The status with which a ping of the `happ` protocol is answered.
pub const PING_STATUS: u16 = 202;

/// The `Content-Type` with which a ping of the `happ` protocol is answered.
pub fn ping_content_type() -> (r: String)
    ensures
        r@ == "text/html;charset=utf-8"@,
{
    String::from_str("text/html;charset=utf-8")
}

/// The event emitted once an app is installed.
pub fn app_installed_event() -> (r: String)
    ensures
        r@ == "holochain://app-installed"@,
{
    String::from_str("holochain://app-installed")
}

/// The event emitted once an app is updated.
pub fn app_updated_event() -> (r: String)
    ensures
        r@ == "holochain://app-updated"@,
{
    String::from_str("holochain://app-updated")
}

/// The event emitted once holochain was launched and the plugin set up.
pub fn setup_completed_event() -> (r: String)
    ensures
        r@ == "holochain://setup-completed"@,
{
    String::from_str("holochain://setup-completed")
}

/// The event emitted when launching holochain in the background failed.
pub fn setup_failed_event() -> (r: String)
    ensures
        r@ == "holochain://setup-failed"@,
{
    String::from_str("holochain://setup-failed")
}

} // verus!
