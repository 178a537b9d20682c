use vstd::prelude::*;

use crate::origins::{allowed_origins_eq, origins_view, AllowedOrigins};
use crate::update::AppInfo;

verus! {

/// How long, in seconds, a request on the admin websocket may take before it times out.
pub const ADMIN_REQUEST_TIMEOUT_SECONDS: u64 = 300;

/// What a window needs to connect to the app interface of an app, for the origins that the
/// interface accepts.
pub struct AppWebsocketAuth {
    pub app_id: String,
    pub app_websocket_port: u16,
    pub allowed_origins: AllowedOrigins,
    pub token: Vec<u8>,
}

/// The app id and allowed origins of an authentication, by which it is looked up.
pub open spec fn auth_key(a: AppWebsocketAuth) -> (Seq<char>, Option<Set<Seq<char>>>) {
    (a.app_id@, origins_view(&a.allowed_origins))
}

/// The position of the first authentication kept for `app_id` and these allowed origins.
pub open spec fn first_auth_for(
    auths: Seq<AppWebsocketAuth>,
    app_id: Seq<char>,
    origins: Option<Set<Seq<char>>>,
) -> Option<int>
    decreases auths.len(),
{
    if auths.len() == 0 {
        None
    } else {
        match first_auth_for(auths.drop_last(), app_id, origins) {
            Some(i) => Some(i),
            None => if auth_key(auths.last()) == (app_id, origins) {
                Some(auths.len() - 1)
            } else {
                None
            },
        }
    }
}

impl AppWebsocketAuth {
    /// A copy of this authentication.
    pub fn duplicate(&self) -> (r: Self)
        ensures
            r.app_id@ == self.app_id@,
            r.app_websocket_port == self.app_websocket_port,
            origins_view(&r.allowed_origins) == origins_view(&self.allowed_origins),
            r.token@ == self.token@,
    {
        AppWebsocketAuth {
            app_id: self.app_id.clone(),
            app_websocket_port: self.app_websocket_port,
            allowed_origins: self.allowed_origins.duplicate(),
            token: self.token.clone(),
        }
    }
}

/// The authentication kept for `app_id` and these allowed origins, if one was issued before.
pub fn find_app_websocket_auth(
    auths: &Vec<AppWebsocketAuth>,
    app_id: &String,
    allowed_origins: &AllowedOrigins,
) -> (r: Option<AppWebsocketAuth>)
    ensures
        match first_auth_for(auths@, app_id@, origins_view(allowed_origins)) {
            Some(i) => r matches Some(a) && a.app_id@ == auths@[i].app_id@ && a.app_websocket_port
                == auths@[i].app_websocket_port && origins_view(&a.allowed_origins) == origins_view(
                &auths@[i].allowed_origins,
            ) && a.token@ == auths@[i].token@,
            None => r is None,
        },
{
    let mut i: usize = 0;
    while i < auths.len()
        invariant
            i <= auths@.len(),
            first_auth_for(auths@.take(i as int), app_id@, origins_view(allowed_origins)) is None,
        decreases auths@.len() - i,
    {
        proof {
            assert(auths@.take(i + 1).drop_last() =~= auths@.take(i as int));
        }
        if allowed_origins_eq(&auths[i].allowed_origins, allowed_origins) && auths[i].app_id
            == *app_id {
            proof {
                lemma_first_auth_for_prefix(auths@, app_id@, origins_view(allowed_origins), i + 1);
            }
            return Some(auths[i].duplicate());
        }
        i = i + 1;
    }
    assert(auths@.take(auths@.len() as int) =~= auths@);
    None
}

/// A match in a prefix is the first match of the whole list.
pub proof fn lemma_first_auth_for_prefix(
    auths: Seq<AppWebsocketAuth>,
    app_id: Seq<char>,
    origins: Option<Set<Seq<char>>>,
    k: int,
)
    requires
        0 <= k <= auths.len(),
        first_auth_for(auths.take(k), app_id, origins) is Some,
    ensures
        first_auth_for(auths, app_id, origins) == first_auth_for(auths.take(k), app_id, origins),
    decreases auths.len() - k,
{
    if k < auths.len() {
        assert(auths.take(k + 1).drop_last() =~= auths.take(k));
        lemma_first_auth_for_prefix(auths, app_id, origins, k + 1);
    } else {
        assert(auths.take(k) =~= auths);
    }
}

/// No two authentications are kept for the same app and allowed origins.
pub open spec fn distinct_auth_for_keys(auths: Seq<AppWebsocketAuth>) -> bool {
    forall|i: int, j: int|
        0 <= i < auths.len() && 0 <= j < auths.len() && i != j ==> #[trigger] auth_key(auths[i])
            != #[trigger] auth_key(auths[j])
}

/// Where no authentication is found for a key, none of the kept ones has it.
pub proof fn lemma_first_auth_for_none(
    auths: Seq<AppWebsocketAuth>,
    app_id: Seq<char>,
    origins: Option<Set<Seq<char>>>,
)
    requires
        first_auth_for(auths, app_id, origins) is None,
    ensures
        forall|i: int| 0 <= i < auths.len() ==> #[trigger] auth_key(auths[i]) != (app_id, origins),
    decreases auths.len(),
{
    if auths.len() > 0 {
        lemma_first_auth_for_none(auths.drop_last(), app_id, origins);
        assert forall|i: int| 0 <= i < auths.len() - 1 implies auths[i] == auths.drop_last()[i] by {}
    }
}

/// Keeps a newly issued authentication, unless one for the same app and allowed origins is
/// kept already, in which case the list stays as it was.
pub fn keep_app_websocket_auth(auths: &mut Vec<AppWebsocketAuth>, auth: AppWebsocketAuth)
    ensures
        first_auth_for(old(auths)@, auth_key(auth).0, auth_key(auth).1) is None ==> final(auths)@
            == old(auths)@.push(auth),
        first_auth_for(old(auths)@, auth_key(auth).0, auth_key(auth).1) is Some ==> final(auths)@
            == old(auths)@,
{
    let found = find_app_websocket_auth(auths, &auth.app_id, &auth.allowed_origins);
    if found.is_none() {
        auths.push(auth);
    }
}

/// A found authentication is kept for the app and allowed origins asked for.
pub proof fn lemma_first_auth_for_some(
    auths: Seq<AppWebsocketAuth>,
    app_id: Seq<char>,
    origins: Option<Set<Seq<char>>>,
)
    ensures
        first_auth_for(auths, app_id, origins) matches Some(i) ==> 0 <= i < auths.len() && auth_key(
            auths[i],
        ) == (app_id, origins),
    decreases auths.len(),
{
    if auths.len() > 0 {
        lemma_first_auth_for_some(auths.drop_last(), app_id, origins);
    }
}

/// What asking for the authentication of app `app_id` with these allowed origins gives, with
/// the list of kept authentications afterwards: the first one kept for them, with the list
/// unchanged; else `issued`, the one newly issued for them, which is kept.
pub open spec fn auth_call_for(
    auths: Seq<AppWebsocketAuth>,
    app_id: Seq<char>,
    origins: Option<Set<Seq<char>>>,
    issued: AppWebsocketAuth,
) -> (AppWebsocketAuth, Seq<AppWebsocketAuth>) {
    match first_auth_for(auths, app_id, origins) {
        Some(i) => (auths[i], auths),
        None => (issued, auths.push(issued)),
    }
}

/// The two authentications carry the same app, port, allowed origins and token.
pub open spec fn same_auth(a: AppWebsocketAuth, b: AppWebsocketAuth) -> bool {
    &&& a.app_id@ == b.app_id@
    &&& a.app_websocket_port == b.app_websocket_port
    &&& origins_view(&a.allowed_origins) == origins_view(&b.allowed_origins)
    &&& a.token@ == b.token@
}

/// One step of asking for the authentication of app `app_id` with these allowed origins: the
/// one kept already, with the list unchanged; else, where one was `issued` for them, that
/// one, kept; else `None`, and one has to be issued before asking again.
pub fn app_websocket_auth_step(
    auths: &mut Vec<AppWebsocketAuth>,
    app_id: &String,
    allowed_origins: &AllowedOrigins,
    issued: Option<AppWebsocketAuth>,
) -> (r: Option<AppWebsocketAuth>)
    ensures
        match issued {
            Some(x) => r matches Some(a) && same_auth(
                a,
                auth_call_for(old(auths)@, app_id@, origins_view(allowed_origins), x).0,
            ) && final(auths)@ == auth_call_for(
                old(auths)@,
                app_id@,
                origins_view(allowed_origins),
                x,
            ).1,
            None => match first_auth_for(old(auths)@, app_id@, origins_view(allowed_origins)) {
                Some(i) => r matches Some(a) && same_auth(a, old(auths)@[i]) && final(auths)@
                    == old(auths)@,
                None => r is None && final(auths)@ == old(auths)@,
            },
        },
{
    proof {
        lemma_first_auth_for_some(auths@, app_id@, origins_view(allowed_origins));
    }
    match find_app_websocket_auth(auths, app_id, allowed_origins) {
        Some(a) => Some(a),
        None => match issued {
            Some(x) => {
                let kept = x.duplicate();
                auths.push(x);
                Some(kept)
            },
            None => None,
        },
    }
}

/// The origins that the app interface opened for a connection from `origin` accepts.
pub fn app_websocket_allowed_origins(origin: &String) -> (r: AllowedOrigins)
    ensures
        origins_view(&r) == Some(set![origin@]),
{
    let mut v: Vec<String> = Vec::new();
    v.push(origin.clone());
    let r = AllowedOrigins::Origins(v);
    proof {
        let m = v@.map_values(|s: String| s@);
        assert(m =~= seq![origin@]);
        assert(m.to_set() =~= set![origin@]) by {
            assert forall|x: Seq<char>| m.to_set().contains(x) <==> x == origin@ by {
                if x == origin@ {
                    assert(m.contains(m[0]));
                }
            }
        }
    }
    r
}

/// Whether an app with id `app_id` is among the installed apps.
pub fn is_app_installed(apps: &Vec<AppInfo>, app_id: &String) -> (r: bool)
    ensures
        r == exists|i: int| 0 <= i < apps@.len() && #[trigger] apps@[i].installed_app_id@ == app_id@,
{
    let mut i: usize = 0;
    while i < apps.len()
        invariant
            i <= apps@.len(),
            forall|k: int| 0 <= k < i ==> #[trigger] apps@[k].installed_app_id@ != app_id@,
        decreases apps@.len() - i,
    {
        if apps[i].installed_app_id == *app_id {
            return true;
        }
        i = i + 1;
    }
    false
}

} // verus!
