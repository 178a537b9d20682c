use vstd::prelude::*;

use crate::error::UpdateAppError;

verus! {

/// The status of an installed app.
#[derive(Clone, Copy, Debug, PartialEq, Eq)]
pub enum AppStatus {
    Running,
    Paused,
    Disabled,
    AwaitingMemproofs,
}

/// A cell of an installed app, by the DNA it runs.
pub enum CellInfo {
    /// A cell created when the app was installed, with the hash of its DNA.
    Provisioned(Vec<u8>),
    /// A clone cell, with the hash of its DNA.
    Cloned(Vec<u8>),
    /// A cell not yet created, with the hash of the DNA it will derive from.
    Stem(Vec<u8>),
}

/// What the update reads of an installed app.
pub struct AppInfo {
    pub installed_app_id: String,
    pub status: AppStatus,
    /// The cells of each role, role by role.
    pub cell_info: Vec<(String, Vec<CellInfo>)>,
}

/// A coordinator zome of a DNA: its name, the hash of its WASM and the zomes it depends on.
pub struct CoordinatorZome {
    pub name: String,
    pub wasm_hash: Vec<u8>,
    pub dependencies: Vec<String>,
}

/// The manifest of a coordinator zome sent to the conductor: its WASM is bundled under the
/// resource path `bundled_path`.
pub struct ZomeManifest {
    pub name: String,
    pub bundled_path: String,
    pub dependencies: Vec<String>,
}

/// The abstract value of a [`ZomeManifest`]: name, resource path and dependencies.
pub open spec fn manifest_view(m: ZomeManifest) -> (Seq<char>, Seq<char>, Seq<Seq<char>>) {
    (m.name@, m.bundled_path@, m.dependencies@.map_values(|d: String| d@))
}

/// The position of the first zome named `name` in `zomes`.
pub open spec fn first_named(zomes: Seq<CoordinatorZome>, name: Seq<char>) -> Option<int>
    decreases zomes.len(),
{
    if zomes.len() == 0 {
        None
    } else if zomes[0].name@ == name {
        Some(0)
    } else {
        match first_named(zomes.drop_first(), name) {
            Some(i) => Some(i + 1),
            None => None,
        }
    }
}

/// A new coordinator zome has to be sent: the old DNA has no zome of that name, or the
/// first one it has runs other WASM.
pub open spec fn needs_update(z: CoordinatorZome, old: Seq<CoordinatorZome>) -> bool {
    match first_named(old, z.name@) {
        None => true,
        Some(i) => old[i].wasm_hash@ != z.wasm_hash@,
    }
}

/// The manifest sent for a new coordinator zome.
pub open spec fn manifest_for(z: CoordinatorZome) -> (Seq<char>, Seq<char>, Seq<Seq<char>>) {
    (z.name@, z.name@, z.dependencies@.map_values(|d: String| d@))
}

/// The manifests of the new coordinator zomes that have to be sent, in their order.
pub open spec fn zomes_to_update_spec(new: Seq<CoordinatorZome>, old: Seq<CoordinatorZome>) -> Seq<
    (Seq<char>, Seq<char>, Seq<Seq<char>>),
>
    decreases new.len(),
{
    if new.len() == 0 {
        Seq::empty()
    } else {
        let rest = zomes_to_update_spec(new.drop_last(), old);
        if needs_update(new.last(), old) {
            rest.push(manifest_for(new.last()))
        } else {
            rest
        }
    }
}

fn copy_strings(v: &Vec<String>) -> (r: Vec<String>)
    ensures
        r@.map_values(|d: String| d@) == v@.map_values(|d: String| d@),
{
    let mut r: Vec<String> = Vec::new();
    let mut i: usize = 0;
    while i < v.len()
        invariant
            i <= v@.len(),
            r@.len() == i,
            r@.map_values(|d: String| d@) == v@.take(i as int).map_values(|d: String| d@),
        decreases v@.len() - i,
    {
        let ghost before = r@;
        let c = v[i].clone();
        r.push(c);
        proof {
            assert(r@ == before.push(c));
            let a = r@.map_values(|d: String| d@);
            let b = v@.take(i + 1).map_values(|d: String| d@);
            assert forall|k: int| 0 <= k < a.len() implies a[k] == b[k] by {
                if k < i {
                    assert(r@[k] == before[k]);
                    assert(before.map_values(|d: String| d@)[k] == v@.take(i as int).map_values(
                        |d: String| d@,
                    )[k]);
                }
            }
            assert(a =~= b);
        }
        i = i + 1;
    }
    assert(v@.take(v@.len() as int) =~= v@);
    r
}

fn bytes_eq(a: &Vec<u8>, b: &Vec<u8>) -> (r: bool)
    ensures
        r == (a@ == b@),
{
    if a.len() != b.len() {
        return false;
    }
    let mut i: usize = 0;
    while i < a.len()
        invariant
            a@.len() == b@.len(),
            i <= a@.len(),
            forall|k: int| 0 <= k < i ==> a@[k] == b@[k],
        decreases a@.len() - i,
    {
        if a[i] != b[i] {
            return false;
        }
        i = i + 1;
    }
    assert(a@ =~= b@);
    true
}

/// The position of the first zome named `name` in `zomes`.
fn find_named(zomes: &Vec<CoordinatorZome>, name: &String) -> (r: Option<usize>)
    ensures
        match r {
            Some(i) => first_named(zomes@, name@) == Some(i as int) && i < zomes@.len(),
            None => first_named(zomes@, name@) is None,
        },
{
    let mut i: usize = 0;
    while i < zomes.len()
        invariant
            i <= zomes@.len(),
            forall|k: int| 0 <= k < i ==> zomes@[k].name@ != name@,
        decreases zomes@.len() - i,
    {
        if zomes[i].name == *name {
            proof {
                lemma_first_named(zomes@, name@, i as int);
            }
            return Some(i);
        }
        i = i + 1;
    }
    proof {
        lemma_first_named_none(zomes@, name@);
    }
    None
}

proof fn lemma_first_named(zomes: Seq<CoordinatorZome>, name: Seq<char>, i: int)
    requires
        0 <= i < zomes.len(),
        zomes[i].name@ == name,
        forall|k: int| 0 <= k < i ==> zomes[k].name@ != name,
    ensures
        first_named(zomes, name) == Some(i),
    decreases i,
{
    if i > 0 {
        lemma_first_named(zomes.drop_first(), name, i - 1);
    }
}

proof fn lemma_first_named_none(zomes: Seq<CoordinatorZome>, name: Seq<char>)
    requires
        forall|k: int| 0 <= k < zomes.len() ==> zomes[k].name@ != name,
    ensures
        first_named(zomes, name) is None,
    decreases zomes.len(),
{
    if zomes.len() > 0 {
        lemma_first_named_none(zomes.drop_first(), name);
    }
}

/// The manifests of the coordinator zomes of the new DNA that the conductor has to be sent:
/// those that the old DNA lacks and those whose WASM changed.
pub fn coordinator_zomes_to_update(
    new_zomes: &Vec<CoordinatorZome>,
    old_zomes: &Vec<CoordinatorZome>,
) -> (r: Vec<ZomeManifest>)
    ensures
        r@.map_values(|m: ZomeManifest| manifest_view(m)) == zomes_to_update_spec(
            new_zomes@,
            old_zomes@,
        ),
{
    let mut r: Vec<ZomeManifest> = Vec::new();
    let mut i: usize = 0;
    while i < new_zomes.len()
        invariant
            i <= new_zomes@.len(),
            r@.map_values(|m: ZomeManifest| manifest_view(m)) == zomes_to_update_spec(
                new_zomes@.take(i as int),
                old_zomes@,
            ),
        decreases new_zomes@.len() - i,
    {
        let z = &new_zomes[i];
        let send = match find_named(old_zomes, &z.name) {
            None => true,
            Some(j) => !bytes_eq(&old_zomes[j].wasm_hash, &z.wasm_hash),
        };
        let ghost before = r@.map_values(|m: ZomeManifest| manifest_view(m));
        proof {
            assert(new_zomes@.take(i + 1).drop_last() =~= new_zomes@.take(i as int));
            assert(new_zomes@.take(i + 1).last() == *z);
        }
        if send {
            let m = ZomeManifest {
                name: z.name.clone(),
                bundled_path: z.name.clone(),
                dependencies: copy_strings(&z.dependencies),
            };
            r.push(m);
            assert(r@.map_values(|m: ZomeManifest| manifest_view(m)) =~= before.push(
                manifest_for(*z),
            ));
        }
        i = i + 1;
    }
    assert(new_zomes@.take(new_zomes@.len() as int) =~= new_zomes@);
    r
}

/// The app named `app_id` among the installed apps: the first one with that id.
pub fn find_app(apps: Vec<AppInfo>, app_id: &String) -> (r: Result<AppInfo, UpdateAppError>)
    ensures
        match r {
            Ok(app) => exists|i: int|
                #![trigger apps@[i]]
                0 <= i < apps@.len() && apps@[i] == app && app.installed_app_id@ == app_id@
                    && forall|k: int| 0 <= k < i ==> #[trigger] apps@[k].installed_app_id@ != app_id@,
            Err(e) => (e matches UpdateAppError::AppNotFound(id) && id@ == app_id@) && forall|k: int|
                0 <= k < apps@.len() ==> #[trigger] apps@[k].installed_app_id@ != app_id@,
        },
{
    let ghost input = apps@;
    let mut list = apps;
    let mut i: usize = 0;
    let n = list.len();
    while i < n
        invariant
            list@ == input,
            apps@ == input,
            n == input.len(),
            i <= n,
            forall|k: int| 0 <= k < i ==> #[trigger] input[k].installed_app_id@ != app_id@,
        decreases n - i,
    {
        if list[i].installed_app_id == *app_id {
            let app = list.swap_remove(i);
            assert(input[i as int] == app);
            assert(0 <= i < input.len() && input[i as int] == app
                && app.installed_app_id@ == app_id@ && forall|k: int|
                0 <= k < i ==> #[trigger] input[k].installed_app_id@ != app_id@);
            return Ok(app);
        }
        i = i + 1;
    }
    Err(UpdateAppError::AppNotFound(app_id.clone()))
}

/// The role names of `cells`, in order.
pub open spec fn role_names(cells: Seq<(String, Vec<CellInfo>)>) -> Seq<Seq<char>> {
    cells.map_values(|e: (String, Vec<CellInfo>)| e.0@)
}

/// Takes the cells of role `role_name` out of the app: those of the first entry for that
/// role, which is removed, so that a role is taken once.
pub fn take_role_cells(app: &mut AppInfo, role_name: &String) -> (r: Result<
    Vec<CellInfo>,
    UpdateAppError,
>)
    ensures
        final(app).installed_app_id@ == old(app).installed_app_id@,
        final(app).status == old(app).status,
        match r {
            Ok(cells) => exists|i: int|
                #![trigger old(app).cell_info@[i]]
                0 <= i < old(app).cell_info@.len() && old(app).cell_info@[i].0@ == role_name@
                    && (forall|k: int|
                    0 <= k < i ==> #[trigger] old(app).cell_info@[k].0@ != role_name@)
                    && cells == old(app).cell_info@[i].1 && final(app).cell_info@ == old(
                    app,
                ).cell_info@.remove(i),
            Err(e) => (e matches UpdateAppError::RoleNotFound(role, id) && role@ == role_name@ && id@
                == old(app).installed_app_id@) && !role_names(old(app).cell_info@).contains(
                role_name@,
            ) && final(app).cell_info@ == old(app).cell_info@,
        },
{
    let mut i: usize = 0;
    let n = app.cell_info.len();
    while i < n
        invariant
            app.cell_info@ == old(app).cell_info@,
            app.installed_app_id@ == old(app).installed_app_id@,
            app.status == old(app).status,
            n == app.cell_info@.len(),
            i <= n,
            forall|k: int| 0 <= k < i ==> #[trigger] app.cell_info@[k].0@ != role_name@,
        decreases n - i,
    {
        if app.cell_info[i].0 == *role_name {
            let (_, cells) = app.cell_info.remove(i);
            return Ok(cells);
        }
        i = i + 1;
    }
    proof {
        if role_names(app.cell_info@).contains(role_name@) {
            let k = choose|k: int|
                0 <= k < role_names(app.cell_info@).len() && role_names(app.cell_info@)[k]
                    == role_name@;
            assert(app.cell_info@[k].0@ == role_name@);
        }
    }
    Err(UpdateAppError::RoleNotFound(role_name.clone(), app.installed_app_id.clone()))
}

/// The hash of the DNA that a cell runs, or, for a stem cell, derives from.
pub open spec fn cell_dna_hash_spec(cell: CellInfo) -> Seq<u8> {
    match cell {
        CellInfo::Provisioned(h) => h@,
        CellInfo::Cloned(h) => h@,
        CellInfo::Stem(h) => h@,
    }
}

/// The hash of the DNA whose definition is compared with the new one for a cell.
pub fn cell_dna_hash(cell: &CellInfo) -> (r: Vec<u8>)
    ensures
        r@ == cell_dna_hash_spec(*cell),
{
    match cell {
        CellInfo::Provisioned(h) => h.clone(),
        CellInfo::Cloned(h) => h.clone(),
        CellInfo::Stem(h) => h.clone(),
    }
}

/// Whether the app has to be disabled and enabled again once its zomes were updated: only
/// when some zome was updated and the app was running.
pub fn needs_restart(updated: bool, status: AppStatus) -> (r: bool)
    ensures
        r == (updated && status == AppStatus::Running),
{
    updated && match status {
        AppStatus::Running => true,
        _ => false,
    }
}

/// Some cell of the update had coordinator zomes sent to the conductor.
pub open spec fn some_cell_updated(zomes_sent_per_cell: Seq<usize>) -> bool {
    exists|i: int| 0 <= i < zomes_sent_per_cell.len() && #[trigger] zomes_sent_per_cell[i] > 0
}

/// Whether the app has to be disabled and enabled again at the end of an update, given how
/// many coordinator zomes were sent for each of its cells, in turn: only when some cell had
/// zomes sent and the app was running.
pub fn restart_after_update(zomes_sent_per_cell: &Vec<usize>, status: AppStatus) -> (r: bool)
    ensures
        r == (some_cell_updated(zomes_sent_per_cell@) && status == AppStatus::Running),
{
    let mut updated = false;
    let mut i: usize = 0;
    while i < zomes_sent_per_cell.len()
        invariant
            i <= zomes_sent_per_cell@.len(),
            updated <==> exists|k: int| 0 <= k < i && #[trigger] zomes_sent_per_cell@[k] > 0,
        decreases zomes_sent_per_cell@.len() - i,
    {
        if zomes_sent_per_cell[i] > 0 {
            updated = true;
        }
        i = i + 1;
    }
    needs_restart(updated, status)
}

} // verus!
