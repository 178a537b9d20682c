use vstd::prelude::*;
use vstd::string::*;

use crate::error::Error;
use crate::filesystem::FileSystem;
use crate::paths::{join, path_join};
use crate::strings::{starts_with, str_starts_with};

verus! {

/// The page served at `happ://ping`: once loaded it posts `pong` to its parent window.
pub open spec fn pong_iframe_text() -> Seq<char> {
    "<html><head></head><body><script>window.onload = () => window.parent.postMessage('pong', '*') </script></body></html>"@
}

/// Returns the HTML document served to answer a ping of the `happ` protocol.
pub fn pong_iframe() -> (page: String)
    ensures
        page@ == pong_iframe_text(),
{
    String::from_str("<html><head></head><body><script>window.onload = () => window.parent.postMessage('pong', '*') </script></body></html>")
}


/// The file of a UI that a request for `asset_name` reads: the name without its leading
/// `/`, or `index.html` when that leaves nothing.
pub open spec fn asset_file_name(asset_name: Seq<char>) -> Seq<char> {
    let stripped = if starts_with(asset_name, "/"@) {
        asset_name.skip(1)
    } else {
        asset_name
    };
    if stripped.len() == 0 {
        "index.html"@
    } else {
        stripped
    }
}

/// The file of a UI that a request for `asset_name` reads.
pub fn normalize_asset_name(asset_name: String) -> (r: String)
    ensures
        r@ == asset_file_name(asset_name@),
{
    proof {
        reveal_strlit("/");
    }
    let stripped = if str_starts_with(asset_name.as_str(), "/") {
        let s = asset_name.as_str();
        let n = s.unicode_len();
        String::from_str(s.substring_char(1, n))
    } else {
        asset_name
    };
    if stripped.as_str().unicode_len() == 0 {
        String::from_str("index.html")
    } else {
        stripped
    }
}

/// What `mime_guess` gives back as the first guess for the file at `path`, judged by its
/// extension: the essence of the MIME type, or `None` when it has no guess.
pub uninterp spec fn guessed_mime_type(path: Seq<char>) -> Option<Seq<char>>;

/// `mime_guess::from_path(path).first()`, giving back the essence of the MIME type.
#[verifier::external_body]
fn guess_mime_type(path: &str) -> (r: Option<String>)
    ensures
        match r {
            Some(m) => guessed_mime_type(path@) == Some(m@),
            None => guessed_mime_type(path@) is None,
        },
{
    mime_guess::from_path(path).first().map(|m| m.essence_str().to_string())
}

/// Where an asset of a UI is read, and the file read in its place when it does not exist.
pub struct AssetPlan {
    /// The file of the asset.
    pub asset_file: String,
    /// Its MIME type.
    pub mime_type: Option<String>,
    /// The `index.html` of the UI, served when the asset does not exist so that the UI can
    /// route on its own.
    pub fallback_file: String,
    /// Its MIME type.
    pub fallback_mime_type: Option<String>,
}

pub open spec fn opt_view(o: Option<String>) -> Option<Seq<char>> {
    match o {
        Some(s) => Some(s@),
        None => None,
    }
}

/// Where the asset `asset_name` of the UI of app `app_id` is read.
pub fn read_asset_plan(fs: &FileSystem, app_id: &String, asset_name: String) -> (r: Result<
    AssetPlan,
    Error,
>)
    requires
        fs.well_formed(),
    ensures
        !fs.bundle_store.apps().contains_key(app_id@) ==> (r matches Err(Error::AppDoesNotExist(id))
            && id@ == app_id@),
        fs.bundle_store.apps().contains_key(app_id@) && fs.bundle_store.apps()[app_id@].web_app is None
            ==> (r matches Err(Error::AppDoesNotHaveUIError(id)) && id@ == app_id@),
        fs.bundle_store.apps().contains_key(app_id@) && fs.bundle_store.apps()[app_id@].web_app is Some
            ==> (r matches Ok(plan) && {
            let ui = path_join(
                path_join(fs.bundle_store.dir(), "uis"@),
                fs.bundle_store.apps()[app_id@].web_app->0.ui_hash,
            );
            &&& plan.asset_file@ == path_join(ui, asset_file_name(asset_name@))
            &&& opt_view(plan.mime_type) == guessed_mime_type(plan.asset_file@)
            &&& plan.fallback_file@ == path_join(ui, "index.html"@)
            &&& opt_view(plan.fallback_mime_type) == guessed_mime_type(plan.fallback_file@)
        }),
{
    let name = normalize_asset_name(asset_name);
    let assets_path = match fs.bundle_store.get_ui_path(app_id) {
        Ok(p) => p,
        Err(e) => {
            return Err(e);
        },
    };
    let asset_file = join(assets_path.as_str(), name.as_str());
    let mime_type = guess_mime_type(asset_file.as_str());
    let fallback_file = join(assets_path.as_str(), "index.html");
    let fallback_mime_type = guess_mime_type(fallback_file.as_str());
    Ok(AssetPlan { asset_file, mime_type, fallback_file, fallback_mime_type })
}

/// The asset served, given what reading the asset's file and, when that failed, reading
/// the fallback file gave.
pub fn read_asset_result(
    plan: AssetPlan,
    asset: Option<Vec<u8>>,
    fallback: Option<Vec<u8>>,
) -> (r: Option<(Vec<u8>, Option<String>)>)
    ensures
        match asset {
            Some(a) => r matches Some((b, m)) && b@ == a@ && opt_view(m) == opt_view(plan.mime_type),
            None => match fallback {
                Some(f) => r matches Some((b, m)) && b@ == f@ && opt_view(m) == opt_view(
                    plan.fallback_mime_type,
                ),
                None => r is None,
            },
        },
{
    match asset {
        Some(a) => Some((a, plan.mime_type)),
        None => match fallback {
            Some(f) => Some((f, plan.fallback_mime_type)),
            None => None,
        },
    }
}

} // verus!
