use vstd::prelude::*;
use vstd::string::*;

use crate::error::{Error, UpdateAppError};
use crate::hashing::{sha256_digest, sha256_hex};
use crate::paths::{join, path_join};

verus! {

/// What is kept of an installed web-app: the hash of its UI and of its web-hApp bundle.
pub struct InstalledWebAppInfo {
    pub ui_hash: String,
    pub web_happ_bundle_hash: String,
}

/// What is kept of an installed app: the hash of its hApp bundle and, for a web-app, of
/// its UI and web-hApp bundle.
pub struct InstalledAppInfo {
    pub happ_bundle_hash: String,
    pub web_app_info: Option<InstalledWebAppInfo>,
}

/// The abstract value of an [`InstalledWebAppInfo`].
pub struct WebAppRecord {
    pub ui_hash: Seq<char>,
    pub web_happ_bundle_hash: Seq<char>,
}

/// The abstract value of an [`InstalledAppInfo`].
pub struct AppRecord {
    pub happ_bundle_hash: Seq<char>,
    pub web_app: Option<WebAppRecord>,
}

impl View for InstalledWebAppInfo {
    type V = WebAppRecord;

    open spec fn view(&self) -> WebAppRecord {
        WebAppRecord { ui_hash: self.ui_hash@, web_happ_bundle_hash: self.web_happ_bundle_hash@ }
    }
}

impl View for InstalledAppInfo {
    type V = AppRecord;

    open spec fn view(&self) -> AppRecord {
        AppRecord {
            happ_bundle_hash: self.happ_bundle_hash@,
            web_app: match self.web_app_info {
                Some(w) => Some(w@),
                None => None,
            },
        }
    }
}

impl InstalledWebAppInfo {
    /// A copy of this record.
    pub fn duplicate(&self) -> (r: Self)
        ensures
            r@ == self@,
    {
        InstalledWebAppInfo {
            ui_hash: self.ui_hash.clone(),
            web_happ_bundle_hash: self.web_happ_bundle_hash.clone(),
        }
    }
}

impl InstalledAppInfo {
    /// A copy of this record.
    pub fn duplicate(&self) -> (r: Self)
        ensures
            r@ == self@,
    {
        InstalledAppInfo {
            happ_bundle_hash: self.happ_bundle_hash.clone(),
            web_app_info: match &self.web_app_info {
                Some(w) => Some(w.duplicate()),
                None => None,
            },
        }
    }
}

/// `s` holds an entry for app `k`.
pub open spec fn has_app(s: Seq<(String, InstalledAppInfo)>, k: Seq<char>) -> bool {
    exists|i: int| 0 <= i < s.len() && #[trigger] s[i].0@ == k
}

/// The position of the entry for app `k` in `s`.
pub open spec fn app_index(s: Seq<(String, InstalledAppInfo)>, k: Seq<char>) -> int {
    choose|i: int| 0 <= i < s.len() && #[trigger] s[i].0@ == k
}

/// No two entries of `s` are for the same app.
pub open spec fn distinct_apps(s: Seq<(String, InstalledAppInfo)>) -> bool {
    forall|i: int, j: int|
        0 <= i < s.len() && 0 <= j < s.len() && i != j ==> #[trigger] s[i].0@ != #[trigger] s[j].0@
}

/// The map from app ids to what is kept of them that a list of entries holds.
pub open spec fn apps_map(s: Seq<(String, InstalledAppInfo)>) -> Map<Seq<char>, AppRecord> {
    Map::new(|k: Seq<char>| has_app(s, k), |k: Seq<char>| s[app_index(s, k)].1@)
}

proof fn lemma_app_index(s: Seq<(String, InstalledAppInfo)>, i: int)
    requires
        distinct_apps(s),
        0 <= i < s.len(),
    ensures
        has_app(s, s[i].0@),
        app_index(s, s[i].0@) == i,
        apps_map(s).contains_key(s[i].0@),
        apps_map(s)[s[i].0@] == s[i].1@,
{
    assert(has_app(s, s[i].0@));
    let j = app_index(s, s[i].0@);
    assert(s[j].0@ == s[i].0@);
}

/// The map that a list of entries gives when they are recorded one after the other.
pub open spec fn entries_map(s: Seq<(String, InstalledAppInfo)>) -> Map<Seq<char>, AppRecord>
    decreases s.len(),
{
    if s.len() == 0 {
        Map::empty()
    } else {
        entries_map(s.drop_last()).insert(s.last().0@, s.last().1@)
    }
}

/// Entries with no app twice give the same map whether they are read as a whole or recorded
/// one after the other.
pub proof fn lemma_entries_map_distinct(s: Seq<(String, InstalledAppInfo)>)
    requires
        distinct_apps(s),
    ensures
        entries_map(s) == apps_map(s),
    decreases s.len(),
{
    if s.len() > 0 {
        let t = s.drop_last();
        let n = s.len() - 1;
        assert(distinct_apps(t)) by {
            assert forall|i: int, j: int|
                0 <= i < t.len() && 0 <= j < t.len() && i != j implies #[trigger] t[i].0@
                != #[trigger] t[j].0@ by {
                assert(t[i] == s[i] && t[j] == s[j]);
            }
        }
        lemma_entries_map_distinct(t);
        lemma_app_index(s, n);
        assert forall|k: Seq<char>| #![trigger apps_map(s).contains_key(k)]
            k != s[n].0@ implies (apps_map(s).contains_key(k) == apps_map(t).contains_key(k) && (
        apps_map(s).contains_key(k) ==> apps_map(s)[k] == apps_map(t)[k])) by {
            if has_app(s, k) {
                let i = choose|i: int| 0 <= i < s.len() && #[trigger] s[i].0@ == k;
                assert(i < n);
                lemma_app_index(s, i);
                assert(t[i] == s[i]);
                lemma_app_index(t, i);
            }
            if has_app(t, k) {
                let i = choose|i: int| 0 <= i < t.len() && #[trigger] t[i].0@ == k;
                assert(t[i] == s[i]);
                assert(has_app(s, k));
            }
        }
        assert(apps_map(s) =~= apps_map(t).insert(s.last().0@, s.last().1@));
    }
}

/// The record of the apps installed in the runtime, kept in memory and saved as a JSON file.
pub struct InstalledAppsStore {
    json_config_path: String,
    installed_apps: Vec<(String, InstalledAppInfo)>,
}

impl View for InstalledAppsStore {
    type V = Map<Seq<char>, AppRecord>;

    closed spec fn view(&self) -> Map<Seq<char>, AppRecord> {
        apps_map(self.installed_apps@)
    }
}

impl InstalledAppsStore {
    /// No app has two entries.
    pub closed spec fn well_formed(&self) -> bool {
        distinct_apps(self.installed_apps@)
    }

    /// The path of the JSON file in which the record is saved.
    pub closed spec fn json_path(&self) -> Seq<char> {
        self.json_config_path@
    }

    /// An empty record saved at `json_config_path`.
    pub fn new(json_config_path: String) -> (r: Self)
        ensures
            r.well_formed(),
            r@ == Map::<Seq<char>, AppRecord>::empty(),
            r.json_path() == json_config_path@,
    {
        let r = InstalledAppsStore { json_config_path, installed_apps: Vec::new() };
        assert(r@ =~= Map::<Seq<char>, AppRecord>::empty());
        r
    }

    /// The record read from its JSON file: the entries one after the other, a later entry
    /// for an app replacing an earlier one.
    pub fn from_entries(json_config_path: String, entries: &Vec<(String, InstalledAppInfo)>) -> (r:
        Self)
        ensures
            r.well_formed(),
            r@ == entries_map(entries@),
            r.json_path() == json_config_path@,
    {
        let mut r = Self::new(json_config_path);
        let mut i: usize = 0;
        while i < entries.len()
            invariant
                i <= entries@.len(),
                r.well_formed(),
                r@ == entries_map(entries@.take(i as int)),
                r.json_path() == json_config_path@,
            decreases entries@.len() - i,
        {
            let key = entries[i].0.clone();
            let info = entries[i].1.duplicate();
            r.insert(key, info);
            assert(entries@.take(i + 1).drop_last() =~= entries@.take(i as int));
            i = i + 1;
        }
        assert(entries@.take(entries@.len() as int) =~= entries@);
        r
    }

    /// What is kept of app `app_id`, if it is installed.
    pub fn get_app(&self, app_id: &String) -> (r: Option<InstalledAppInfo>)
        requires
            self.well_formed(),
        ensures
            match r {
                Some(info) => self@.contains_key(app_id@) && info@ == self@[app_id@],
                None => !self@.contains_key(app_id@),
            },
    {
        let mut i: usize = 0;
        while i < self.installed_apps.len()
            invariant
                self.well_formed(),
                i <= self.installed_apps@.len(),
                forall|j: int| 0 <= j < i ==> #[trigger] self.installed_apps@[j].0@ != app_id@,
            decreases self.installed_apps@.len() - i,
        {
            if self.installed_apps[i].0 == *app_id {
                proof {
                    lemma_app_index(self.installed_apps@, i as int);
                }
                return Some(self.installed_apps[i].1.duplicate());
            }
            i = i + 1;
        }
        None
    }

    /// Records `info` for app `app_id`, replacing what was kept of it before.
    pub fn insert(&mut self, app_id: String, info: InstalledAppInfo)
        requires
            old(self).well_formed(),
        ensures
            final(self).well_formed(),
            final(self)@ == old(self)@.insert(app_id@, info@),
            final(self).json_path() == old(self).json_path(),
    {
        let ghost old_apps = self.installed_apps@;
        let mut i: usize = 0;
        while i < self.installed_apps.len()
            invariant
                self.installed_apps@ == old_apps,
                self.json_config_path@ == old(self).json_config_path@,
                old(self).installed_apps@ == old_apps,
                distinct_apps(old_apps),
                i <= old_apps.len(),
                forall|j: int| 0 <= j < i ==> #[trigger] old_apps[j].0@ != app_id@,
            decreases old_apps.len() - i,
        {
            if self.installed_apps[i].0 == app_id {
                let ghost iv = i as int;
                self.installed_apps[i] = (app_id, info);
                proof {
                    let s = self.installed_apps@;
                    assert(s == old_apps.update(iv, s[iv]));
                    assert(distinct_apps(s)) by {
                        assert forall|a: int, b: int|
                            0 <= a < s.len() && 0 <= b < s.len() && a != b implies #[trigger] s[a].0@
                            != #[trigger] s[b].0@ by {
                            if a != iv && b != iv {
                                assert(s[a] == old_apps[a]);
                                assert(s[b] == old_apps[b]);
                            } else if a == iv {
                                assert(s[b] == old_apps[b]);
                                assert(old_apps[iv].0@ == s[iv].0@);
                            } else {
                                assert(s[a] == old_apps[a]);
                                assert(old_apps[iv].0@ == s[iv].0@);
                            }
                        }
                    }
                    lemma_app_index(s, iv);
                    assert forall|k: Seq<char>| k != s[iv].0@ implies (has_app(s, k) == has_app(
                        old_apps,
                        k,
                    )) && (has_app(s, k) ==> apps_map(s)[k] == apps_map(old_apps)[k]) by {
                        if has_app(s, k) {
                            let j = app_index(s, k);
                            assert(j != iv);
                            assert(old_apps[j] == s[j]);
                            lemma_app_index(s, j);
                            lemma_app_index(old_apps, j);
                        }
                        if has_app(old_apps, k) {
                            let j = app_index(old_apps, k);
                            assert(j != iv);
                            assert(old_apps[j] == s[j]);
                        }
                    }
                    assert(apps_map(s) =~= apps_map(old_apps).insert(app_id@, info@));
                }
                return;
            }
            i = i + 1;
        }
        self.installed_apps.push((app_id, info));
        proof {
            let s = self.installed_apps@;
            let last = (s.len() - 1) as int;
            assert(s == old_apps.push(s[last]));
            assert(distinct_apps(s)) by {
                assert forall|a: int, b: int|
                    0 <= a < s.len() && 0 <= b < s.len() && a != b implies #[trigger] s[a].0@
                    != #[trigger] s[b].0@ by {
                    if a != last && b != last {
                        assert(s[a] == old_apps[a]);
                        assert(s[b] == old_apps[b]);
                    } else if a == last {
                        assert(s[b] == old_apps[b]);
                    } else {
                        assert(s[a] == old_apps[a]);
                    }
                }
            }
            lemma_app_index(s, last);
            assert forall|k: Seq<char>| k != s[last].0@ implies (has_app(s, k) == has_app(
                old_apps,
                k,
            )) && (has_app(s, k) ==> apps_map(s)[k] == apps_map(old_apps)[k]) by {
                if has_app(s, k) {
                    let j = app_index(s, k);
                    assert(j != last);
                    assert(old_apps[j] == s[j]);
                    lemma_app_index(s, j);
                    lemma_app_index(old_apps, j);
                }
                if has_app(old_apps, k) {
                    let j = app_index(old_apps, k);
                    assert(s[j] == old_apps[j]);
                }
            }
            assert(apps_map(s) =~= apps_map(old_apps).insert(app_id@, info@));
        }
    }
    /// Records `info` for app `app_id` and gives back the entries to save in the JSON file:
    /// read back with `from_entries`, they give the record as it now stands.
    pub fn update(&mut self, app_id: String, info: InstalledAppInfo) -> (entries: Vec<
        (String, InstalledAppInfo),
    >)
        requires
            old(self).well_formed(),
        ensures
            final(self).well_formed(),
            final(self)@ == old(self)@.insert(app_id@, info@),
            final(self).json_path() == old(self).json_path(),
            distinct_apps(entries@),
            apps_map(entries@) == final(self)@,
            entries_map(entries@) == final(self)@,
    {
        self.insert(app_id, info);
        let entries = self.entries();
        proof {
            lemma_entries_map_distinct(entries@);
        }
        entries
    }

    /// The path of the JSON file in which the record is saved.
    pub fn json_config_path(&self) -> (r: String)
        ensures
            r@ == self.json_path(),
    {
        self.json_config_path.clone()
    }

    /// The entries of the record, one per installed app, as they are saved in its JSON file.
    pub fn entries(&self) -> (r: Vec<(String, InstalledAppInfo)>)
        requires
            self.well_formed(),
        ensures
            distinct_apps(r@),
            apps_map(r@) == self@,
    {
        let mut r: Vec<(String, InstalledAppInfo)> = Vec::new();
        let mut i: usize = 0;
        while i < self.installed_apps.len()
            invariant
                i <= self.installed_apps@.len(),
                r@.len() == i,
                forall|j: int|
                    0 <= j < i ==> #[trigger] r@[j].0@ == self.installed_apps@[j].0@ && r@[j].1@
                        == self.installed_apps@[j].1@,
            decreases self.installed_apps@.len() - i,
        {
            let key = self.installed_apps[i].0.clone();
            let info = self.installed_apps[i].1.duplicate();
            r.push((key, info));
            i = i + 1;
        }
        proof {
            let s = self.installed_apps@;
            assert(distinct_apps(r@)) by {
                assert forall|a: int, b: int|
                    0 <= a < r@.len() && 0 <= b < r@.len() && a != b implies #[trigger] r@[a].0@
                    != #[trigger] r@[b].0@ by {
                    assert(r@[a].0@ == s[a].0@);
                    assert(r@[b].0@ == s[b].0@);
                }
            }
            assert forall|k: Seq<char>| has_app(r@, k) == has_app(s, k) && (has_app(r@, k)
                ==> apps_map(r@)[k] == apps_map(s)[k]) by {
                if has_app(r@, k) {
                    let j = app_index(r@, k);
                    assert(r@[j].0@ == s[j].0@);
                    lemma_app_index(r@, j);
                    lemma_app_index(s, j);
                }
                if has_app(s, k) {
                    let j = app_index(s, k);
                    assert(r@[j].0@ == s[j].0@);
                }
            }
            assert(apps_map(r@) =~= apps_map(s));
        }
        r
    }

}


/// The folder where hApp bundles are kept, one file per bundle, named by its hash.
pub struct AppBundleStore {
    path: String,
}

impl AppBundleStore {
    /// The folder of the store.
    pub closed spec fn dir(&self) -> Seq<char> {
        self.path@
    }

    /// The folder of the store, as a path.
    pub fn folder(&self) -> (r: String)
        ensures
            r@ == self.dir(),
    {
        self.path.clone()
    }

    /// The hash by which an encoded hApp bundle is known.
    pub fn app_bundle_hash(app_bundle_bytes: &[u8]) -> (r: String)
        ensures
            r@ == sha256_hex(app_bundle_bytes@),
    {
        sha256_digest(app_bundle_bytes)
    }

    /// The file in which the bundle with the given hash is kept.
    pub fn app_bundle_path(&self, happ_bundle_hash: &String) -> (r: String)
        ensures
            r@ == path_join(self.dir(), happ_bundle_hash@ + ".happ"@),
    {
        let mut name = happ_bundle_hash.clone();
        name.append(".happ");
        join(self.path.as_str(), name.as_str())
    }

    /// The hash of an encoded hApp bundle and the file in which it is to be stored.
    pub fn store_app_bundle(&self, app_bundle_bytes: &[u8]) -> (r: (String, String))
        ensures
            r.0@ == sha256_hex(app_bundle_bytes@),
            r.1@ == path_join(self.dir(), r.0@ + ".happ"@),
    {
        let hash = Self::app_bundle_hash(app_bundle_bytes);
        let path = self.app_bundle_path(&hash);
        (hash, path)
    }
}

/// The folder where the UIs of web-apps are kept, one folder per UI, named by its hash.
pub struct UiStore {
    path: String,
}

impl UiStore {
    /// The folder of the store.
    pub closed spec fn dir(&self) -> Seq<char> {
        self.path@
    }

    /// The folder of the store, as a path.
    pub fn folder(&self) -> (r: String)
        ensures
            r@ == self.dir(),
    {
        self.path.clone()
    }

    /// The hash by which the zipped files of a UI are known.
    pub fn ui_hash(ui_zip_bytes: &[u8]) -> (r: String)
        ensures
            r@ == sha256_hex(ui_zip_bytes@),
    {
        sha256_digest(ui_zip_bytes)
    }

    /// The folder in which the UI with the given hash is unzipped.
    pub fn get_path_for_ui_with_hash(&self, ui_hash: &String) -> (r: String)
        ensures
            r@ == path_join(self.dir(), ui_hash@),
    {
        join(self.path.as_str(), ui_hash.as_str())
    }

    /// The file in which the zipped UI is written while it is extracted.
    pub fn ui_zip_path(&self) -> (r: String)
        ensures
            r@ == path_join(self.dir(), "ui.zip"@),
    {
        join(self.path.as_str(), "ui.zip")
    }
}

/// The store of the bundles installed in the runtime and of the record of the installed apps.
pub struct BundleStore {
    path: String,
    pub installed_apps_store: InstalledAppsStore,
}

/// Whether an app has to be updated: the hash of its installed bundle differs from the new one.
pub open spec fn app_update_needed_spec(apps: Map<Seq<char>, AppRecord>, app_id: Seq<char>, hash: Seq<
    char,
>) -> Option<bool> {
    if apps.contains_key(app_id) {
        Some(apps[app_id].happ_bundle_hash != hash)
    } else {
        None
    }
}

/// Whether a web-app has to be updated: the hash of its installed web-hApp bundle differs from
/// the new one (an app installed without a UI always has to be).
pub open spec fn web_app_update_needed_spec(
    apps: Map<Seq<char>, AppRecord>,
    app_id: Seq<char>,
    hash: Seq<char>,
) -> Option<bool> {
    if apps.contains_key(app_id) {
        Some(
            match apps[app_id].web_app {
                Some(w) => w.web_happ_bundle_hash != hash,
                None => true,
            },
        )
    } else {
        None
    }
}

impl BundleStore {
    /// The folder of the store.
    pub closed spec fn dir(&self) -> Seq<char> {
        self.path@
    }

    /// The record of installed apps is well formed.
    pub closed spec fn well_formed(&self) -> bool {
        self.installed_apps_store.well_formed()
    }

    /// What is recorded of the installed apps.
    pub closed spec fn apps(&self) -> Map<Seq<char>, AppRecord> {
        self.installed_apps_store@
    }

    /// The JSON file in which the record of installed apps is saved.
    pub closed spec fn apps_json_path(&self) -> Seq<char> {
        self.installed_apps_store.json_path()
    }

    /// The store in folder `path`, with the record of installed apps read from its JSON file.
    pub fn new(path: String, installed_apps: &Vec<(String, InstalledAppInfo)>) -> (r: Self)
        ensures
            r.well_formed(),
            r.dir() == path@,
            r.apps() == entries_map(installed_apps@),
            r.apps_json_path() == path_join(path@, "installed-apps.json"@),
    {
        let json = join(path.as_str(), "installed-apps.json");
        let installed_apps_store = InstalledAppsStore::from_entries(json, installed_apps);
        BundleStore { path, installed_apps_store }
    }

    /// The store of hApp bundles, in the `happs` folder.
    pub fn happ_bundle_store(&self) -> (r: AppBundleStore)
        ensures
            r.dir() == path_join(self.dir(), "happs"@),
    {
        AppBundleStore { path: join(self.path.as_str(), "happs") }
    }

    /// The store of UIs, in the `uis` folder.
    pub fn ui_store(&self) -> (r: UiStore)
        ensures
            r.dir() == path_join(self.dir(), "uis"@),
    {
        UiStore { path: join(self.path.as_str(), "uis") }
    }

    /// The folder holding the UI of the installed web-app `app_id`.
    pub fn get_ui_path(&self, app_id: &String) -> (r: Result<String, Error>)
        requires
            self.well_formed(),
        ensures
            !self.apps().contains_key(app_id@) ==> (r matches Err(
                Error::AppDoesNotExist(id),
            ) && id@ == app_id@),
            self.apps().contains_key(app_id@)
                && self.apps()[app_id@].web_app is None ==> (r matches Err(
                Error::AppDoesNotHaveUIError(id),
            ) && id@ == app_id@),
            self.apps().contains_key(app_id@)
                && self.apps()[app_id@].web_app is Some ==> (r matches Ok(p) && p@
                == path_join(
                path_join(self.dir(), "uis"@),
                self.apps()[app_id@].web_app->0.ui_hash,
            )),
    {
        let info = match self.installed_apps_store.get_app(app_id) {
            Some(info) => info,
            None => {
                return Err(Error::AppDoesNotExist(app_id.clone()));
            },
        };
        let web = match &info.web_app_info {
            Some(w) => w,
            None => {
                return Err(Error::AppDoesNotHaveUIError(app_id.clone()));
            },
        };
        Ok(self.ui_store().get_path_for_ui_with_hash(&web.ui_hash))
    }

    /// Records that app `app_id` was installed from the hApp bundle with the given hash, and
    /// gives back the entries of the record to save.
    pub fn store_happ_bundle(&mut self, app_id: String, happ_bundle_hash: String) -> (entries: Vec<
        (String, InstalledAppInfo),
    >)
        requires
            old(self).well_formed(),
        ensures
            final(self).well_formed(),
            final(self).dir() == old(self).dir(),
            final(self).apps() == old(self).apps().insert(
                app_id@,
                AppRecord { happ_bundle_hash: happ_bundle_hash@, web_app: None },
            ),
            final(self).apps_json_path() == old(self).apps_json_path(),
            entries_map(entries@) == final(self).apps(),
    {
        self.installed_apps_store.update(
            app_id,
            InstalledAppInfo { happ_bundle_hash, web_app_info: None },
        )
    }

    /// The hash by which an encoded web-hApp bundle is known.
    pub fn web_app_bundle_hash(web_app_bundle_bytes: &[u8]) -> (r: String)
        ensures
            r@ == sha256_hex(web_app_bundle_bytes@),
    {
        sha256_digest(web_app_bundle_bytes)
    }

    /// Records that app `app_id` was installed from a web-hApp bundle: the hashes of its hApp
    /// bundle, of the web-hApp bundle itself and of its UI; gives back the entries of the
    /// record to save.
    pub fn store_web_happ_bundle(
        &mut self,
        app_id: String,
        happ_bundle_hash: String,
        web_happ_bundle_hash: String,
        ui_hash: String,
    ) -> (entries: Vec<(String, InstalledAppInfo)>)
        requires
            old(self).well_formed(),
        ensures
            final(self).well_formed(),
            final(self).dir() == old(self).dir(),
            final(self).apps() == old(self).apps().insert(
                app_id@,
                AppRecord {
                    happ_bundle_hash: happ_bundle_hash@,
                    web_app: Some(
                        WebAppRecord {
                            ui_hash: ui_hash@,
                            web_happ_bundle_hash: web_happ_bundle_hash@,
                        },
                    ),
                },
            ),
            final(self).apps_json_path() == old(self).apps_json_path(),
            entries_map(entries@) == final(self).apps(),
    {
        self.installed_apps_store.update(
            app_id,
            InstalledAppInfo {
                happ_bundle_hash,
                web_app_info: Some(InstalledWebAppInfo { ui_hash, web_happ_bundle_hash }),
            },
        )
    }

    /// Whether app `app_id` has to be updated to the hApp bundle with hash `current_hash`.
    pub fn app_update_needed(&self, app_id: &String, current_hash: &String) -> (r: Result<
        bool,
        UpdateAppError,
    >)
        requires
            self.well_formed(),
        ensures
            match app_update_needed_spec(self.apps(), app_id@, current_hash@) {
                Some(b) => r == Ok::<bool, UpdateAppError>(b),
                None => r matches Err(UpdateAppError::AppNotFound(id)) && id@ == app_id@,
            },
    {
        match self.installed_apps_store.get_app(app_id) {
            None => Err(UpdateAppError::AppNotFound(app_id.clone())),
            Some(info) => Ok(!(info.happ_bundle_hash == *current_hash)),
        }
    }

    /// Whether web-app `app_id` has to be updated to the web-hApp bundle with hash
    /// `current_hash`.
    pub fn web_app_update_needed(&self, app_id: &String, current_hash: &String) -> (r: Result<
        bool,
        UpdateAppError,
    >)
        requires
            self.well_formed(),
        ensures
            match web_app_update_needed_spec(self.apps(), app_id@, current_hash@) {
                Some(b) => r == Ok::<bool, UpdateAppError>(b),
                None => r matches Err(UpdateAppError::AppNotFound(id)) && id@ == app_id@,
            },
    {
        match self.installed_apps_store.get_app(app_id) {
            None => Err(UpdateAppError::AppNotFound(app_id.clone())),
            Some(info) => match &info.web_app_info {
                Some(w) => Ok(!(w.web_happ_bundle_hash == *current_hash)),
                None => Ok(true),
            },
        }
    }
}

/// The folders in which the runtime keeps its data.
pub struct FileSystem {
    pub app_data_dir: String,
    pub bundle_store: BundleStore,
}

impl FileSystem {
    /// The record of installed apps is well formed.
    pub open spec fn well_formed(&self) -> bool {
        self.bundle_store.well_formed()
    }

    /// The file system rooted at `app_data_dir`, with the record of installed apps read from
    /// its JSON file.
    pub fn new(app_data_dir: String, installed_apps: &Vec<(String, InstalledAppInfo)>) -> (r: Self)
        ensures
            r.well_formed(),
            r.app_data_dir@ == app_data_dir@,
            r.bundle_store.dir() == path_join(app_data_dir@, "bundles"@),
            r.bundle_store.apps() == entries_map(installed_apps@),
    {
        let bundle_store_path = Self::bundle_store_path(&app_data_dir);
        let bundle_store = BundleStore::new(bundle_store_path, installed_apps);
        FileSystem { app_data_dir, bundle_store }
    }

    /// The folder of the bundle store under the given data folder.
    pub fn bundle_store_path(app_data_dir: &String) -> (r: String)
        ensures
            r@ == path_join(app_data_dir@, "bundles"@),
    {
        join(app_data_dir.as_str(), "bundles")
    }

    /// The folder of the keystore.
    pub fn keystore_dir(&self) -> (r: String)
        ensures
            r@ == path_join(self.app_data_dir@, "keystore"@),
    {
        join(self.app_data_dir.as_str(), "keystore")
    }

    /// The configuration file of the keystore.
    pub fn keystore_config_path(&self) -> (r: String)
        ensures
            r@ == path_join(path_join(self.app_data_dir@, "keystore"@), "lair-keystore-config.yaml"@),
    {
        join(self.keystore_dir().as_str(), "lair-keystore-config.yaml")
    }

    /// The file in which the keystore keeps its keys.
    pub fn keystore_store_path(&self) -> (r: String)
        ensures
            r@ == path_join(path_join(self.app_data_dir@, "keystore"@), "store_file"@),
    {
        join(self.keystore_dir().as_str(), "store_file")
    }

    /// The folder of the conductor's data.
    pub fn conductor_dir(&self) -> (r: String)
        ensures
            r@ == path_join(self.app_data_dir@, "conductor"@),
    {
        join(self.app_data_dir.as_str(), "conductor")
    }
}


/// What extracting an entry of a UI's zip archive does.
pub enum ZipEntryAction {
    /// The entry's path leaves the destination folder: it is skipped.
    Skip,
    /// The entry is a folder, created at this path.
    CreateDir(String),
    /// The entry is a file, written at this path.
    WriteFile(String),
}

/// What extracting an entry does, given the destination folder `outpath`, the entry's name
/// in the archive and its path when that path stays inside the destination (as
/// `enclosed_name` of the `zip` crate gives it): names that end with `/` are folders.
pub fn zip_entry_action(outpath: &String, entry_name: &String, enclosed_name: Option<String>) -> (r:
    ZipEntryAction)
    ensures
        match enclosed_name {
            None => r is Skip,
            Some(p) => if entry_name@.len() > 0 && entry_name@.last() == '/' {
                r matches ZipEntryAction::CreateDir(d) && d@ == path_join(outpath@, p@)
            } else {
                r matches ZipEntryAction::WriteFile(f) && f@ == path_join(outpath@, p@)
            },
        },
{
    let p = match enclosed_name {
        None => {
            return ZipEntryAction::Skip;
        },
        Some(p) => p,
    };
    let path = join(outpath.as_str(), p.as_str());
    let n = entry_name.as_str().unicode_len();
    if n > 0 && entry_name.as_str().get_char(n - 1) == '/' {
        ZipEntryAction::CreateDir(path)
    } else {
        ZipEntryAction::WriteFile(path)
    }
}

} // verus!
