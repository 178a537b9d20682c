use vstd::prelude::*;
use vstd::string::*;

use crate::auth::{
    auth_call, distinct_auth_keys, first_auth, lemma_first_auth_none, lemma_first_auth_some,
    AuthRecord,
};
use crate::runtime::{
    auth_call_for, auth_key, distinct_auth_for_keys, first_auth_for, lemma_first_auth_for_none,
    lemma_first_auth_for_some, AppWebsocketAuth,
};
use crate::filesystem::{
    app_update_needed_spec, apps_map, distinct_apps, entries_map, lemma_entries_map_distinct,
    web_app_update_needed_spec, AppRecord, InstalledAppInfo, InstalledAppsStore, WebAppRecord,
};
use crate::scope::{brace_balance, brace_delta, closes_scope, is_scope_close};
use crate::update::{
    first_named, needs_update, some_cell_updated, zomes_to_update_spec, CoordinatorZome,
};
use crate::plugin::{happ_request_spec, happ_window_url_text, joined_components, pushed_components};
use crate::strings::{chars_occur_at, find_chars_from, split_parts, starts_with};
use crate::paths::path_join;
use crate::mdns::{space_set, spaces_of, AgentInfo};

verus! {

/// The scope found for an opener ends on a `}`, and the depth of nesting stays above zero
/// everywhere before it: the text between the opener and that `}` is balanced.
pub proof fn law_scope_ends_on_closing_brace(chars: Seq<char>, start: int, n: int)
    requires
        is_scope_close(chars, start, n),
    ensures
        chars[n] == '}',
        brace_balance(chars.subrange(start + 1, n)) == 0,
        forall|m: int| start < m < n ==> 1 + brace_balance(#[trigger] chars.subrange(start + 1, m + 1)) > 0,
{
    assert(chars.subrange(start + 1, n + 1).drop_last() =~= chars.subrange(start + 1, n));
    assert(chars.subrange(start + 1, n + 1).last() == chars[n]);
    lemma_depth_positive_before(chars, start, n);
    if n > start + 1 {
        assert(!closes_scope(chars, start, n - 1));
        assert(1 + brace_balance(chars.subrange(start + 1, n)) > 0);
    } else {
        assert(chars.subrange(start + 1, n) =~= Seq::<char>::empty());
    }
    assert(brace_delta(chars[n]) == -1);
}

proof fn lemma_depth_positive_before(chars: Seq<char>, start: int, n: int)
    requires
        is_scope_close(chars, start, n),
    ensures
        forall|m: int| start < m < n ==> 1 + brace_balance(#[trigger] chars.subrange(start + 1, m + 1)) > 0,
{
    assert forall|m: int| start < m < n implies 1 + brace_balance(#[trigger] chars.subrange(
        start + 1,
        m + 1,
    )) > 0 by {
        lemma_depth_positive_at(chars, start, n, m);
    }
}

proof fn lemma_depth_positive_at(chars: Seq<char>, start: int, n: int, m: int)
    requires
        is_scope_close(chars, start, n),
        start < m < n,
    ensures
        1 + brace_balance(chars.subrange(start + 1, m + 1)) > 0,
    decreases m - start,
{
    assert(!closes_scope(chars, start, m));
    assert(chars.subrange(start + 1, m + 1).drop_last() =~= chars.subrange(start + 1, m));
    if m > start + 1 {
        lemma_depth_positive_at(chars, start, n, m - 1);
    } else {
        assert(chars.subrange(start + 1, m) =~= Seq::<char>::empty());
    }
}

/// What is recorded for an app is what was last stored for it, and storing it leaves what is
/// recorded for every other app as it was.
pub proof fn law_installed_app_read_after_write(
    apps: Map<Seq<char>, AppRecord>,
    app_id: Seq<char>,
    info: AppRecord,
    other: Seq<char>,
)
    requires
        other != app_id,
    ensures
        apps.insert(app_id, info).contains_key(app_id),
        apps.insert(app_id, info)[app_id] == info,
        apps.insert(app_id, info).contains_key(other) == apps.contains_key(other),
        apps.contains_key(other) ==> apps.insert(app_id, info)[other] == apps[other],
{
}

/// The entries that a record of installed apps gives, read back into a record, give the same
/// record: what `entries` gives, `from_entries` turns back into the map it came from.
pub proof fn law_installed_apps_round_trip(
    store: InstalledAppsStore,
    entries: Seq<(String, InstalledAppInfo)>,
)
    requires
        store.well_formed(),
        distinct_apps(entries),
        apps_map(entries) == store@,
    ensures
        entries_map(entries) == store@,
{
    lemma_entries_map_distinct(entries);
}

/// Updating the record of installed apps with `info` for `app_id` and saving the entries it
/// gives back: read back, they give the record before with that one update made once.
pub proof fn law_installed_apps_update_round_trip(
    before: InstalledAppsStore,
    app_id: Seq<char>,
    info: AppRecord,
    saved: Seq<(String, InstalledAppInfo)>,
)
    requires
        before.well_formed(),
        distinct_apps(saved),
        apps_map(saved) == before@.insert(app_id, info),
    ensures
        entries_map(saved) == before@.insert(app_id, info),
        entries_map(saved)[app_id] == info,
        forall|k: Seq<char>|
            k != app_id ==> (#[trigger] entries_map(saved).contains_key(k) == before@.contains_key(k)
                && (before@.contains_key(k) ==> entries_map(saved)[k] == before@[k])),
{
    lemma_entries_map_distinct(saved);
}

/// Once a web-app is stored, its UI is found in the folder named by the UI's hash; once an
/// app is stored from a bare hApp bundle, it has no UI to find.
pub proof fn law_ui_found_after_storing_web_happ(
    apps: Map<Seq<char>, AppRecord>,
    app_id: Seq<char>,
    happ_hash: Seq<char>,
    ui_hash: Seq<char>,
    web_hash: Seq<char>,
)
    ensures
        ({
            let stored = apps.insert(
                app_id,
                AppRecord {
                    happ_bundle_hash: happ_hash,
                    web_app: Some(WebAppRecord { ui_hash, web_happ_bundle_hash: web_hash }),
                },
            );
            &&& stored.contains_key(app_id)
            &&& stored[app_id].web_app matches Some(w) && w.ui_hash == ui_hash
        }),
        ({
            let stored = apps.insert(app_id, AppRecord { happ_bundle_hash: happ_hash, web_app: None });
            &&& stored.contains_key(app_id)
            &&& stored[app_id].web_app is None
        }),
{
}

/// Right after an app is stored from a hApp bundle, checking it against that same bundle's
/// hash finds no update to make.
pub proof fn law_no_update_after_storing_same_happ(
    apps: Map<Seq<char>, AppRecord>,
    app_id: Seq<char>,
    hash: Seq<char>,
    web_app: Option<WebAppRecord>,
)
    ensures
        app_update_needed_spec(
            apps.insert(app_id, AppRecord { happ_bundle_hash: hash, web_app }),
            app_id,
            hash,
        ) == Some(false),
{
}

/// Right after a web-app is stored from a web-hApp bundle, checking it against that same
/// bundle's hash finds no update to make; against another hash it finds one.
pub proof fn law_no_update_after_storing_same_web_happ(
    apps: Map<Seq<char>, AppRecord>,
    app_id: Seq<char>,
    happ_hash: Seq<char>,
    ui_hash: Seq<char>,
    web_hash: Seq<char>,
    other_hash: Seq<char>,
)
    requires
        other_hash != web_hash,
    ensures
        web_app_update_needed_spec(
            apps.insert(
                app_id,
                AppRecord {
                    happ_bundle_hash: happ_hash,
                    web_app: Some(WebAppRecord { ui_hash, web_happ_bundle_hash: web_hash }),
                },
            ),
            app_id,
            web_hash,
        ) == Some(false),
        web_app_update_needed_spec(
            apps.insert(
                app_id,
                AppRecord {
                    happ_bundle_hash: happ_hash,
                    web_app: Some(WebAppRecord { ui_hash, web_happ_bundle_hash: web_hash }),
                },
            ),
            app_id,
            other_hash,
        ) == Some(true),
{
}

/// Once an authentication is kept for an app and a kind of window that had none, looking it
/// up again finds that one.
pub proof fn law_auth_found_after_kept(auths: Seq<AuthRecord>, auth: AuthRecord)
    requires
        first_auth(auths, auth.app_id, auth.main_window) is None,
    ensures
        first_auth(auths.push(auth), auth.app_id, auth.main_window) == Some(auths.len() as int),
        auths.push(auth)[auths.len() as int] == auth,
{
    assert(auths.push(auth).drop_last() =~= auths);
}

/// Once an authentication was found for an app and a kind of window, keeping more of them
/// does not change which one is found.
pub proof fn law_auth_found_is_stable(
    auths: Seq<AuthRecord>,
    app_id: Seq<char>,
    main_window: bool,
    more: AuthRecord,
)
    requires
        first_auth(auths, app_id, main_window) is Some,
    ensures
        first_auth(auths.push(more), app_id, main_window) == first_auth(auths, app_id, main_window),
{
    assert(auths.push(more).drop_last() =~= auths);
}

/// Keeping an authentication only for an app and window kind that had none keeps the list free
/// of two authentications for the same app and window kind, and a later lookup finds the one
/// kept.
pub proof fn law_kept_auths_have_distinct_keys(auths: Seq<AuthRecord>, auth: AuthRecord)
    requires
        distinct_auth_keys(auths),
        first_auth(auths, auth.app_id, auth.main_window) is None,
    ensures
        distinct_auth_keys(auths.push(auth)),
        first_auth(auths.push(auth), auth.app_id, auth.main_window) == Some(auths.len() as int),
{
    lemma_first_auth_none(auths, auth.app_id, auth.main_window);
    let s = auths.push(auth);
    assert forall|i: int, j: int|
        0 <= i < s.len() && 0 <= j < s.len() && i != j implies !(#[trigger] s[i].app_id
        == #[trigger] s[j].app_id && s[i].main_window == s[j].main_window) by {
        if i < auths.len() && j < auths.len() {
            assert(s[i] == auths[i] && s[j] == auths[j]);
        } else if i < auths.len() {
            assert(s[i] == auths[i]);
        } else {
            assert(s[j] == auths[j]);
        }
    }
    assert(s.drop_last() =~= auths);
}

/// Keeping an authentication only for an app and set of allowed origins that had none keeps
/// the runtime's list free of two authentications for the same app and origins.
pub proof fn law_runtime_kept_auths_have_distinct_keys(
    auths: Seq<AppWebsocketAuth>,
    auth: AppWebsocketAuth,
)
    requires
        distinct_auth_for_keys(auths),
        first_auth_for(auths, auth_key(auth).0, auth_key(auth).1) is None,
    ensures
        distinct_auth_for_keys(auths.push(auth)),
{
    lemma_first_auth_for_none(auths, auth_key(auth).0, auth_key(auth).1);
    let s = auths.push(auth);
    assert forall|i: int, j: int|
        0 <= i < s.len() && 0 <= j < s.len() && i != j implies #[trigger] auth_key(s[i])
        != #[trigger] auth_key(s[j]) by {
        if i < auths.len() && j < auths.len() {
            assert(s[i] == auths[i] && s[j] == auths[j]);
        } else if i < auths.len() {
            assert(s[i] == auths[i]);
        } else {
            assert(s[j] == auths[j]);
        }
    }
}

/// Once the runtime keeps an authentication for an app and a set of allowed origins that had
/// none, looking it up again finds that one.
pub proof fn law_runtime_auth_found_after_kept(auths: Seq<AppWebsocketAuth>, auth: AppWebsocketAuth)
    requires
        first_auth_for(auths, auth_key(auth).0, auth_key(auth).1) is None,
    ensures
        first_auth_for(auths.push(auth), auth_key(auth).0, auth_key(auth).1) == Some(
            auths.len() as int,
        ),
        auths.push(auth)[auths.len() as int] == auth,
{
    assert(auths.push(auth).drop_last() =~= auths);
}

/// Once the runtime found an authentication for an app and a set of allowed origins, keeping
/// more of them does not change which one is found.
pub proof fn law_runtime_auth_found_is_stable(
    auths: Seq<AppWebsocketAuth>,
    app_id: Seq<char>,
    origins: Option<Set<Seq<char>>>,
    more: AppWebsocketAuth,
)
    requires
        first_auth_for(auths, app_id, origins) is Some,
    ensures
        first_auth_for(auths.push(more), app_id, origins) == first_auth_for(auths, app_id, origins),
{
    assert(auths.push(more).drop_last() =~= auths);
}

/// Once the spaces that `new_spaces` gave are listened to as well, the same agents give no
/// new space: each space is listened to once.
pub proof fn law_spaces_listened_once(
    listened: Seq<Vec<u8>>,
    infos: Seq<AgentInfo>,
    fresh: Seq<Vec<u8>>,
)
    requires
        space_set(fresh) == spaces_of(infos).difference(space_set(listened)),
    ensures
        spaces_of(infos).difference(space_set(listened + fresh)) == Set::<Seq<u8>>::empty(),
{
    let all = listened + fresh;
    assert forall|s: Seq<u8>| space_set(listened).contains(s) implies space_set(all).contains(s) by {
        let i = choose|i: int| 0 <= i < listened.len() && #[trigger] listened[i]@ == s;
        assert(all[i]@ == s);
    }
    assert forall|s: Seq<u8>| space_set(fresh).contains(s) implies space_set(all).contains(s) by {
        let i = choose|i: int| 0 <= i < fresh.len() && #[trigger] fresh[i]@ == s;
        assert(all[listened.len() + i]@ == s);
    }
    assert(spaces_of(infos).difference(space_set(all)) =~= Set::<Seq<u8>>::empty());
}

/// A space whose listening started is recorded, and a recorded space is not offered for
/// listening again, whatever agents come later; a broadcast pair once started makes the next
/// start of the same pair stop the previous broadcast first.
pub proof fn law_listened_space_not_offered_again(
    listened: Set<Seq<u8>>,
    broadcasting: Set<(Seq<u8>, Seq<u8>)>,
    space: Seq<u8>,
    agent: Seq<u8>,
    later_infos: Seq<AgentInfo>,
)
    ensures
        !spaces_of(later_infos).difference(listened.insert(space)).contains(space),
        broadcasting.insert((space, agent)).contains((space, agent)),
{
}

proof fn lemma_first_named_bounds(zomes: Seq<CoordinatorZome>, name: Seq<char>)
    ensures
        first_named(zomes, name) matches Some(i) ==> 0 <= i < zomes.len() && zomes[i].name@
            == name && forall|k: int| 0 <= k < i ==> #[trigger] zomes[k].name@ != name,
        first_named(zomes, name) is None ==> forall|k: int|
            0 <= k < zomes.len() ==> #[trigger] zomes[k].name@ != name,
    decreases zomes.len(),
{
    if zomes.len() > 0 {
        lemma_first_named_bounds(zomes.drop_first(), name);
        assert forall|k: int| 1 <= k < zomes.len() implies zomes[k] == zomes.drop_first()[k
            - 1] by {}
    }
}

/// Updating an app with the coordinator zomes it already runs sends nothing, when no two of
/// them share a name.
pub proof fn law_same_zomes_need_no_update(zomes: Seq<CoordinatorZome>)
    requires
        forall|i: int, j: int|
            0 <= i < zomes.len() && 0 <= j < zomes.len() && i != j ==> #[trigger] zomes[i].name@
                != #[trigger] zomes[j].name@,
    ensures
        zomes_to_update_spec(zomes, zomes) == Seq::<(Seq<char>, Seq<char>, Seq<Seq<char>>)>::empty(),
{
    lemma_prefix_needs_nothing(zomes, zomes.len() as int);
    assert(zomes.take(zomes.len() as int) =~= zomes);
}

proof fn lemma_prefix_needs_nothing(zomes: Seq<CoordinatorZome>, k: int)
    requires
        0 <= k <= zomes.len(),
        forall|i: int, j: int|
            0 <= i < zomes.len() && 0 <= j < zomes.len() && i != j ==> #[trigger] zomes[i].name@
                != #[trigger] zomes[j].name@,
    ensures
        zomes_to_update_spec(zomes.take(k), zomes) == Seq::<
            (Seq<char>, Seq<char>, Seq<Seq<char>>),
        >::empty(),
    decreases k,
{
    if k > 0 {
        let t = zomes.take(k);
        assert(t.drop_last() =~= zomes.take(k - 1));
        lemma_prefix_needs_nothing(zomes, k - 1);
        lemma_first_named_bounds(zomes, t.last().name@);
        assert(t.last() == zomes[k - 1]);
        match first_named(zomes, zomes[k - 1].name@) {
            Some(i) => {
                if i != k - 1 {
                    assert(zomes[i].name@ != zomes[k - 1].name@);
                }
            },
            None => {
                assert(zomes[k - 1].name@ != zomes[k - 1].name@);
            },
        }
        assert(!needs_update(t.last(), zomes));
    }
}


/// `c` occurs nowhere in `s`.
pub open spec fn lacks_char(s: Seq<char>, c: char) -> bool {
    forall|i: int| 0 <= i < s.len() ==> s[i] != c
}

/// `p` holds two `/` in a row at `i`.
pub open spec fn double_slash_at(p: Seq<char>, i: int) -> bool {
    p[i] == '/' && p[i + 1] == '/'
}

/// A relative path with no empty component but perhaps the last: it does not start with a
/// `/` and holds no two `/` in a row.
pub open spec fn clean_relative_path(p: Seq<char>) -> bool {
    &&& p.len() > 0 ==> p[0] != '/'
    &&& forall|i: int| 0 <= i < p.len() - 1 ==> !#[trigger] double_slash_at(p, i)
}

pub proof fn lemma_find_absent(s: Seq<char>, pat: Seq<char>, from: int)
    requires
        0 <= from,
        forall|j: int| from <= j ==> !chars_occur_at(s, pat, j),
    ensures
        find_chars_from(s, pat, from) is None,
    decreases s.len() + 1 - from,
{
    if from + pat.len() <= s.len() {
        lemma_find_absent(s, pat, from + 1);
    }
}

pub proof fn lemma_find_first(s: Seq<char>, pat: Seq<char>, from: int, i: int)
    requires
        0 <= from <= i,
        chars_occur_at(s, pat, i),
        forall|j: int| from <= j < i ==> !chars_occur_at(s, pat, j),
    ensures
        find_chars_from(s, pat, from) == Some(i),
    decreases i - from,
{
    if from < i {
        lemma_find_first(s, pat, from + 1, i);
    }
}

/// A separator whose first character is missing from `s` splits nothing off it.
pub proof fn lemma_split_absent(s: Seq<char>, sep: Seq<char>)
    requires
        sep.len() > 0,
        lacks_char(s, sep[0]),
    ensures
        split_parts(s, sep) == seq![s],
{
    assert forall|j: int| 0 <= j implies !chars_occur_at(s, sep, j) by {
        if chars_occur_at(s, sep, j) {
            assert(s.subrange(j, j + sep.len())[0] == s[j]);
        }
    }
    lemma_find_absent(s, sep, 0);
}

/// Splitting at `/` a text whose first `/` follows `a`.
proof fn lemma_split_first_slash(a: Seq<char>, b: Seq<char>)
    requires
        lacks_char(a, '/'),
    ensures
        split_parts(a + seq!['/'] + b, seq!['/']) == seq![a] + split_parts(b, seq!['/']),
{
    let s = a + seq!['/'] + b;
    let sep = seq!['/'];
    assert(s.subrange(a.len() as int, a.len() + 1int) =~= sep);
    assert forall|j: int| 0 <= j < a.len() implies !chars_occur_at(s, sep, j) by {
        if chars_occur_at(s, sep, j) {
            assert(s.subrange(j, j + 1)[0] == s[j]);
        }
    }
    lemma_find_first(s, sep, 0, a.len() as int);
    assert(s.take(a.len() as int) =~= a);
    assert(s.skip(a.len() + 1int) =~= b);
}

/// The first `/` of a text that holds one, and the text around it.
proof fn lemma_first_slash(p: Seq<char>) -> (i: int)
    requires
        !lacks_char(p, '/'),
    ensures
        0 <= i < p.len(),
        p[i] == '/',
        lacks_char(p.take(i), '/'),
        p =~= p.take(i) + seq!['/'] + p.skip(i + 1),
    decreases p.len(),
{
    if p[0] == '/' {
        0
    } else {
        let w = choose|i: int| 0 <= i < p.len() && p[i] == '/';
        assert(p.skip(1)[w - 1] == '/');
        let k = lemma_first_slash(p.skip(1));
        assert(p.take(k + 1) =~= seq![p[0]] + p.skip(1).take(k));
        k + 1
    }
}

/// Pushing the `/`-separated components of a clean relative path onto a base that is not
/// empty and does not end with `/` puts the path after the base and a `/`.
proof fn lemma_pushed_split(base: Seq<char>, p: Seq<char>)
    requires
        base.len() > 0,
        base.last() != '/',
        clean_relative_path(p),
    ensures
        pushed_components(base, split_parts(p, seq!['/'])) == base + seq!['/'] + p,
    decreases p.len(),
{
    if lacks_char(p, '/') {
        lemma_split_absent(p, seq!['/']);
        let cs = split_parts(p, seq!['/']);
        assert(cs.skip(1) =~= Seq::<Seq<char>>::empty());
        assert(cs[0] == p);
        assert(p.len() > 0 ==> p[0] != '/');
        assert(path_join(base, p) == base + seq!['/'] + p);
        assert(pushed_components(path_join(base, p), cs.skip(1)) == path_join(base, p));
        assert(pushed_components(base, cs) == pushed_components(path_join(base, p), cs.skip(1)));
    } else {
        let i = lemma_first_slash(p);
        let t = p.take(i);
        let rest = p.skip(i + 1);
        lemma_split_first_slash(t, rest);
        assert(i > 0);
        let cs = split_parts(p, seq!['/']);
        assert(cs =~= seq![t] + split_parts(rest, seq!['/']));
        assert(cs.skip(1) =~= split_parts(rest, seq!['/']));
        assert(cs[0] == t);
        let base2 = path_join(base, t);
        assert(base2 == base + seq!['/'] + t);
        assert(base2.last() == p[i - 1]);
        assert(clean_relative_path(rest)) by {
            if rest.len() > 0 {
                assert(rest[0] == p[i + 1]);
                assert(!double_slash_at(p, i));
            }
            assert forall|k: int| 0 <= k < rest.len() - 1 implies !#[trigger] double_slash_at(
                rest,
                k,
            ) by {
                assert(rest[k] == p[i + 1 + k]);
                assert(rest[k + 1] == p[i + 1 + k + 1]);
                assert(!double_slash_at(p, i + 1 + k));
            }
        }
        lemma_pushed_split(base2, rest);
        assert(pushed_components(base, cs) == pushed_components(base2, cs.skip(1)));
        assert(base2 + seq!['/'] + rest =~= base + seq!['/'] + p);
    }
}

/// Joining the `/`-separated components of a clean relative path gives it back.
proof fn lemma_joined_split(p: Seq<char>)
    requires
        clean_relative_path(p),
    ensures
        joined_components(split_parts(p, seq!['/'])) == p,
{
    let empty = Seq::<char>::empty();
    if lacks_char(p, '/') {
        lemma_split_absent(p, seq!['/']);
        let cs = split_parts(p, seq!['/']);
        assert(cs.skip(1) =~= Seq::<Seq<char>>::empty());
        assert(cs[0] == p);
        assert(p.len() > 0 ==> p[0] != '/');
        assert(path_join(empty, p) =~= p);
        assert(pushed_components(path_join(empty, p), cs.skip(1)) == path_join(empty, p));
        assert(pushed_components(empty, cs) == pushed_components(path_join(empty, p), cs.skip(1)));
    } else {
        let i = lemma_first_slash(p);
        let t = p.take(i);
        let rest = p.skip(i + 1);
        lemma_split_first_slash(t, rest);
        let cs = split_parts(p, seq!['/']);
        assert(cs.skip(1) =~= split_parts(rest, seq!['/']));
        assert(cs[0] == t);
        assert(t[0] == p[0]);
        assert(path_join(empty, t) =~= t);
        assert(t.last() == p[i - 1]);
        assert(clean_relative_path(rest)) by {
            if rest.len() > 0 {
                assert(rest[0] == p[i + 1]);
                assert(!double_slash_at(p, i));
            }
            assert forall|k: int| 0 <= k < rest.len() - 1 implies !#[trigger] double_slash_at(
                rest,
                k,
            ) by {
                assert(rest[k] == p[i + 1 + k]);
                assert(rest[k + 1] == p[i + 1 + k + 1]);
                assert(!double_slash_at(p, i + 1 + k));
            }
        }
        lemma_pushed_split(t, rest);
        assert(pushed_components(empty, cs) == pushed_components(path_join(empty, t), cs.skip(1)));
        assert(t + seq!['/'] + rest =~= p);
    }
}

/// The window of a web-app opens a `happ://` URL that the `happ` protocol resolves to that
/// same app and to the path the window was asked to open, when the app id holds none of
/// `/`, `?`, `:`, and the path holds no `?` or `:`, does not start with `/` and has no two
/// `/` in a row. Such a URL is taken for a ping only when the app id starts with `ping`.
#[verifier::spinoff_prover]
#[verifier::rlimit(30)]
pub proof fn law_window_url_resolves_to_its_app(app_id: Seq<char>, url_path: Seq<char>)
    requires
        lacks_char(app_id, '/'),
        lacks_char(app_id, '?'),
        lacks_char(app_id, ':'),
        lacks_char(url_path, '?'),
        lacks_char(url_path, ':'),
        clean_relative_path(url_path),
    ensures
        happ_request_spec(happ_window_url_text(app_id, url_path, false)) == Some(
            (app_id, url_path),
        ),
        starts_with(happ_window_url_text(app_id, url_path, false), "happ://ping"@) ==> starts_with(
            app_id,
            "ping"@,
        ),
{
    reveal_strlit("happ://");
    reveal_strlit("://");
    reveal_strlit("?");
    reveal_strlit("/");
    reveal_strlit("ping");
    reveal_strlit("happ://ping");
    let uri = happ_window_url_text(app_id, url_path, false);
    let x = app_id + seq!['/'] + url_path;
    let psep = "://"@;
    assert(uri =~= "happ"@.add(psep) + x) by {
        reveal_strlit("happ");
    }
    // The protocol separator is found right after the scheme.
    assert(uri.subrange(4, 7) =~= psep);
    assert forall|j: int| 0 <= j < 4 implies !chars_occur_at(uri, psep, j) by {
        if chars_occur_at(uri, psep, j) {
            assert(uri.subrange(j, j + 3)[0] == uri[j]);
        }
    }
    lemma_find_first(uri, psep, 0, 4);
    assert(uri.skip(7) =~= x);
    assert(lacks_char(x, ':')) by {
        assert forall|i: int| 0 <= i < x.len() implies x[i] != ':' by {
            if i < app_id.len() {
                assert(x[i] == app_id[i]);
            } else if i > app_id.len() {
                assert(x[i] == url_path[i - app_id.len() - 1]);
            }
        }
    }
    lemma_split_absent(x, psep);
    let parts = split_parts(uri, psep);
    assert(parts =~= seq![uri.take(4)] + seq![x]);
    assert(parts[1] == x);
    // Nothing to cut at a query.
    assert(lacks_char(x, '?')) by {
        assert forall|i: int| 0 <= i < x.len() implies x[i] != '?' by {
            if i < app_id.len() {
                assert(x[i] == app_id[i]);
            } else if i > app_id.len() {
                assert(x[i] == url_path[i - app_id.len() - 1]);
            }
        }
    }
    lemma_split_absent(x, "?"@);
    assert(split_parts(parts[1], "?"@)[0] == x);
    // The app id, then the components of the path.
    assert("/"@ =~= seq!['/']);
    lemma_split_first_slash(app_id, url_path);
    let components = split_parts(x, "/"@);
    assert(components[0] == app_id);
    assert(components.skip(1) =~= split_parts(url_path, seq!['/']));
    lemma_joined_split(url_path);
    // A ping only where the app id starts with `ping`.
    if starts_with(uri, "happ://ping"@) {
        let ping = "happ://ping"@;
        assert forall|k: int| 0 <= k < 11 implies uri[k] == ping[k] by {
            assert(uri.take(11)[k] == uri[k]);
        }
        if app_id.len() < 4 {
            assert(uri[7 + app_id.len() as int] == '/');
            assert(ping[7 + app_id.len() as int] != '/');
        }
        assert forall|k: int| 0 <= k < 4 implies app_id[k] == "ping"@[k] by {
            assert(uri[7 + k] == app_id[k]);
            assert(ping[7 + k] == "ping"@[k]);
        }
        assert(app_id.take(4) =~= "ping"@);
    }
}

/// A new coordinator zome that the old DNA runs already: its first zome of that name runs the
/// same WASM.
pub open spec fn zome_unchanged(z: CoordinatorZome, old: Seq<CoordinatorZome>) -> bool {
    first_named(old, z.name@) matches Some(j) && old[j].wasm_hash@ == z.wasm_hash@
}

proof fn lemma_unchanged_zomes_send_nothing(new: Seq<CoordinatorZome>, old: Seq<CoordinatorZome>)
    requires
        forall|k: int| 0 <= k < new.len() ==> zome_unchanged(#[trigger] new[k], old),
    ensures
        zomes_to_update_spec(new, old) == Seq::<(Seq<char>, Seq<char>, Seq<Seq<char>>)>::empty(),
    decreases new.len(),
{
    if new.len() > 0 {
        let t = new.drop_last();
        assert forall|k: int| 0 <= k < t.len() implies zome_unchanged(#[trigger] t[k], old) by {
            assert(t[k] == new[k]);
        }
        lemma_unchanged_zomes_send_nothing(t, old);
        assert(zome_unchanged(new[new.len() - 1], old));
        assert(!needs_update(new.last(), old));
    }
}

/// Updating an app again with a bundle whose coordinator zomes every cell runs already (as
/// right after an update with that bundle) sends no zome for any cell, and so does not
/// restart the app: repeating an update is a no-op.
pub proof fn law_repeated_update_is_no_op(
    cells: Seq<(Seq<CoordinatorZome>, Seq<CoordinatorZome>)>,
)
    requires
        forall|c: int, k: int|
            0 <= c < cells.len() && 0 <= k < cells[c].0.len() ==> zome_unchanged(
                #[trigger] cells[c].0[k],
                cells[c].1,
            ),
    ensures
        forall|c: int|
            0 <= c < cells.len() ==> #[trigger] zomes_to_update_spec(cells[c].0, cells[c].1)
                == Seq::<(Seq<char>, Seq<char>, Seq<Seq<char>>)>::empty(),
        !some_cell_updated(
            Seq::new(
                cells.len(),
                |c: int| zomes_to_update_spec(cells[c].0, cells[c].1).len() as usize,
            ),
        ),
{
    assert forall|c: int| 0 <= c < cells.len() implies #[trigger] zomes_to_update_spec(
        cells[c].0,
        cells[c].1,
    ) == Seq::<(Seq<char>, Seq<char>, Seq<Seq<char>>)>::empty() by {
        assert forall|k: int| 0 <= k < cells[c].0.len() implies zome_unchanged(
            #[trigger] cells[c].0[k],
            cells[c].1,
        ) by {}
        lemma_unchanged_zomes_send_nothing(cells[c].0, cells[c].1);
    }
}

/// Asking for the authentication of an app and window kind gives one for them, keeps no two
/// for the same app and window kind, leaves the list as it was when one was kept already, and
/// asking again gives the same authentication with the list unchanged, whatever would be
/// issued then.
pub proof fn law_app_websocket_auth_call(
    auths: Seq<AuthRecord>,
    app_id: Seq<char>,
    main_window: bool,
    issued: AuthRecord,
    issued_again: AuthRecord,
)
    requires
        distinct_auth_keys(auths),
        issued.app_id == app_id,
        issued.main_window == main_window,
    ensures
        ({
            let (r, kept) = auth_call(auths, app_id, main_window, issued);
            &&& r.app_id == app_id && r.main_window == main_window
            &&& distinct_auth_keys(kept)
            &&& first_auth(auths, app_id, main_window) is Some ==> kept == auths
            &&& auth_call(kept, app_id, main_window, issued_again) == (r, kept)
        }),
{
    lemma_first_auth_some(auths, app_id, main_window);
    match first_auth(auths, app_id, main_window) {
        Some(i) => {},
        None => {
            law_kept_auths_have_distinct_keys(auths, issued);
            assert(auths.push(issued)[auths.len() as int] == issued);
        },
    }
}

/// Asking the runtime for the authentication of an app with a set of allowed origins gives
/// one for them, keeps no two for the same app and origins, leaves the list as it was when
/// one was kept already, and asking again gives the same authentication with the list
/// unchanged, whatever would be issued then.
pub proof fn law_runtime_app_websocket_auth_call(
    auths: Seq<AppWebsocketAuth>,
    app_id: Seq<char>,
    origins: Option<Set<Seq<char>>>,
    issued: AppWebsocketAuth,
    issued_again: AppWebsocketAuth,
)
    requires
        distinct_auth_for_keys(auths),
        auth_key(issued) == (app_id, origins),
    ensures
        ({
            let (r, kept) = auth_call_for(auths, app_id, origins, issued);
            &&& auth_key(r) == (app_id, origins)
            &&& distinct_auth_for_keys(kept)
            &&& first_auth_for(auths, app_id, origins) is Some ==> kept == auths
            &&& auth_call_for(kept, app_id, origins, issued_again) == (r, kept)
        }),
{
    lemma_first_auth_for_some(auths, app_id, origins);
    match first_auth_for(auths, app_id, origins) {
        Some(i) => {},
        None => {
            law_runtime_kept_auths_have_distinct_keys(auths, issued);
            law_runtime_auth_found_after_kept(auths, issued);
        },
    }
}

} // verus!
