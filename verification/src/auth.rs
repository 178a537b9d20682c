use vstd::prelude::*;

verus! {

/// How long, in seconds, the app authentication tokens that the runtime asks for stay valid.
pub const APP_AUTH_TOKEN_EXPIRY_SECONDS: u64 = 999999999;

/// The port asked for when an app interface is attached: 0 lets the conductor choose one.
pub const ATTACH_ANY_PORT: u16 = 0;

/// What a window needs to connect to the app interface of an app.
pub struct AppWebsocketAuth {
    pub app_id: String,
    pub main_window: bool,
    pub app_websocket_port: u16,
    pub token: Vec<u8>,
}

/// The abstract value of an [`AppWebsocketAuth`].
pub struct AuthRecord {
    pub app_id: Seq<char>,
    pub main_window: bool,
    pub app_websocket_port: u16,
    pub token: Seq<u8>,
}

impl View for AppWebsocketAuth {
    type V = AuthRecord;

    open spec fn view(&self) -> AuthRecord {
        AuthRecord {
            app_id: self.app_id@,
            main_window: self.main_window,
            app_websocket_port: self.app_websocket_port,
            token: self.token@,
        }
    }
}

impl AppWebsocketAuth {
    /// A copy of this authentication.
    pub fn duplicate(&self) -> (r: Self)
        ensures
            r@ == self@,
    {
        AppWebsocketAuth {
            app_id: self.app_id.clone(),
            main_window: self.main_window,
            app_websocket_port: self.app_websocket_port,
            token: self.token.clone(),
        }
    }
}

/// The position of the first authentication kept for app `app_id` and window kind
/// `main_window`.
pub open spec fn first_auth(auths: Seq<AuthRecord>, app_id: Seq<char>, main_window: bool) -> Option<
    int,
>
    decreases auths.len(),
{
    if auths.len() == 0 {
        None
    } else {
        match first_auth(auths.drop_last(), app_id, main_window) {
            Some(i) => Some(i),
            None => if auths.last().main_window == main_window && auths.last().app_id == app_id {
                Some(auths.len() - 1)
            } else {
                None
            },
        }
    }
}

pub open spec fn auths_view(auths: Seq<AppWebsocketAuth>) -> Seq<AuthRecord> {
    auths.map_values(|a: AppWebsocketAuth| a@)
}

/// The authentication kept for app `app_id` and window kind `main_window`, if one was issued
/// before.
pub fn find_app_websocket_auth(auths: &Vec<AppWebsocketAuth>, app_id: &String, main_window: bool) -> (r:
    Option<AppWebsocketAuth>)
    ensures
        match first_auth(auths_view(auths@), app_id@, main_window) {
            Some(i) => r matches Some(a) && a@ == auths@[i]@,
            None => r is None,
        },
{
    let mut i: usize = 0;
    while i < auths.len()
        invariant
            i <= auths@.len(),
            first_auth(auths_view(auths@.take(i as int)), app_id@, main_window) is None,
        decreases auths@.len() - i,
    {
        proof {
            assert(auths_view(auths@.take(i + 1)).drop_last() =~= auths_view(auths@.take(i as int)));
        }
        if auths[i].main_window == main_window && auths[i].app_id == *app_id {
            proof {
                lemma_first_auth_prefix(auths_view(auths@), app_id@, main_window, i + 1);
                assert(auths_view(auths@).take(i + 1) =~= auths_view(auths@.take(i + 1)));
            }
            return Some(auths[i].duplicate());
        }
        i = i + 1;
    }
    assert(auths@.take(auths@.len() as int) =~= auths@);
    None
}

/// A match in a prefix is the first match of the whole list.
pub proof fn lemma_first_auth_prefix(auths: Seq<AuthRecord>, app_id: Seq<char>, main_window: bool, k: int)
    requires
        0 <= k <= auths.len(),
        first_auth(auths.take(k), app_id, main_window) is Some,
    ensures
        first_auth(auths, app_id, main_window) == first_auth(auths.take(k), app_id, main_window),
    decreases auths.len() - k,
{
    if k < auths.len() {
        assert(auths.take(k + 1).drop_last() =~= auths.take(k));
        lemma_first_auth_prefix(auths, app_id, main_window, k + 1);
    } else {
        assert(auths.take(k) =~= auths);
    }
}

/// No two authentications are kept for the same app and window kind.
pub open spec fn distinct_auth_keys(auths: Seq<AuthRecord>) -> bool {
    forall|i: int, j: int|
        0 <= i < auths.len() && 0 <= j < auths.len() && i != j ==> !(#[trigger] auths[i].app_id
            == #[trigger] auths[j].app_id && auths[i].main_window == auths[j].main_window)
}

/// Where no authentication is found for a key, none of the kept ones has it.
pub proof fn lemma_first_auth_none(auths: Seq<AuthRecord>, app_id: Seq<char>, main_window: bool)
    requires
        first_auth(auths, app_id, main_window) is None,
    ensures
        forall|i: int|
            0 <= i < auths.len() ==> !(#[trigger] auths[i].app_id == app_id && auths[i].main_window
                == main_window),
    decreases auths.len(),
{
    if auths.len() > 0 {
        lemma_first_auth_none(auths.drop_last(), app_id, main_window);
        assert forall|i: int| 0 <= i < auths.len() - 1 implies auths[i] == auths.drop_last()[i] by {}
    }
}

/// Keeps a newly issued authentication, unless one for the same app and window kind is kept
/// already, in which case the list stays as it was.
pub fn keep_app_websocket_auth(auths: &mut Vec<AppWebsocketAuth>, auth: AppWebsocketAuth)
    ensures
        first_auth(auths_view(old(auths)@), auth@.app_id, auth@.main_window) is None
            ==> auths_view(final(auths)@) == auths_view(old(auths)@).push(auth@),
        first_auth(auths_view(old(auths)@), auth@.app_id, auth@.main_window) is Some
            ==> final(auths)@ == old(auths)@,
{
    let found = find_app_websocket_auth(auths, &auth.app_id, auth.main_window);
    if found.is_none() {
        let ghost before = auths@;
        auths.push(auth);
        assert(auths_view(auths@) =~= auths_view(before).push(auth@));
    }
}

/// A found authentication is kept for the app and window kind asked for.
pub proof fn lemma_first_auth_some(auths: Seq<AuthRecord>, app_id: Seq<char>, main_window: bool)
    ensures
        first_auth(auths, app_id, main_window) matches Some(i) ==> 0 <= i < auths.len()
            && auths[i].app_id == app_id && auths[i].main_window == main_window,
    decreases auths.len(),
{
    if auths.len() > 0 {
        lemma_first_auth_some(auths.drop_last(), app_id, main_window);
    }
}

/// What asking for the authentication of app `app_id` and window kind `main_window` gives,
/// with the list of kept authentications afterwards: the first one kept for them, with the
/// list unchanged; else `issued`, the one newly issued for them, which is kept.
pub open spec fn auth_call(
    auths: Seq<AuthRecord>,
    app_id: Seq<char>,
    main_window: bool,
    issued: AuthRecord,
) -> (AuthRecord, Seq<AuthRecord>) {
    match first_auth(auths, app_id, main_window) {
        Some(i) => (auths[i], auths),
        None => (issued, auths.push(issued)),
    }
}

/// One step of asking for the authentication of app `app_id` and window kind `main_window`:
/// the one kept already, with the list unchanged; else, where one was `issued` for them, that
/// one, kept; else `None`, and one has to be issued before asking again.
pub fn app_websocket_auth_step(
    auths: &mut Vec<AppWebsocketAuth>,
    app_id: &String,
    main_window: bool,
    issued: Option<AppWebsocketAuth>,
) -> (r: Option<AppWebsocketAuth>)
    ensures
        match first_auth(auths_view(old(auths)@), app_id@, main_window) {
            Some(i) => r matches Some(a) && a@ == auths_view(old(auths)@)[i] && final(auths)@
                == old(auths)@,
            None => match issued {
                Some(x) => r matches Some(a) && a@ == x@ && auths_view(final(auths)@)
                    == auths_view(old(auths)@).push(x@),
                None => r is None && final(auths)@ == old(auths)@,
            },
        },
        match issued {
            Some(x) => x@.app_id == app_id@ && x@.main_window == main_window ==> (r matches Some(a)
                && (a@, auths_view(final(auths)@)) == auth_call(
                auths_view(old(auths)@),
                app_id@,
                main_window,
                x@,
            )),
            None => true,
        },
{
    proof {
        lemma_first_auth_some(auths_view(auths@), app_id@, main_window);
    }
    match find_app_websocket_auth(auths, app_id, main_window) {
        Some(a) => Some(a),
        None => match issued {
            Some(x) => {
                let ghost before = auths@;
                let kept = x.duplicate();
                auths.push(x);
                assert(auths_view(auths@) =~= auths_view(before).push(kept@));
                Some(kept)
            },
            None => None,
        },
    }
}

} // verus!
