use p2p_shipyard::error::UpdateAppError;
use p2p_shipyard::update::{
    cell_dna_hash, coordinator_zomes_to_update, find_app, needs_restart, restart_after_update,
    take_role_cells,
    AppInfo, AppStatus, CellInfo, CoordinatorZome,
};

fn zome(name: &str, hash: &[u8], deps: &[&str]) -> CoordinatorZome {
    CoordinatorZome {
        name: String::from(name),
        wasm_hash: hash.to_vec(),
        dependencies: deps.iter().map(|d| String::from(*d)).collect(),
    }
}

fn app(id: &str, status: AppStatus, roles: &[&str]) -> AppInfo {
    AppInfo {
        installed_app_id: String::from(id),
        status,
        cell_info: roles
            .iter()
            .map(|r| (String::from(*r), vec![CellInfo::Provisioned(r.as_bytes().to_vec())]))
            .collect(),
    }
}

#[test]
fn zomes_to_update_are_new_or_changed() {
    let new_zomes = vec![
        zome("a", &[1], &[]),
        zome("b", &[2], &["a"]),
        zome("c", &[3], &["a", "b"]),
    ];
    let old_zomes = vec![zome("a", &[1], &[]), zome("b", &[9], &["a"])];
    let r = coordinator_zomes_to_update(&new_zomes, &old_zomes);
    assert_eq!(r.len(), 2);
    assert_eq!(r[0].name, "b");
    assert_eq!(r[0].bundled_path, "b");
    assert_eq!(r[0].dependencies, vec![String::from("a")]);
    assert_eq!(r[1].name, "c");
    assert_eq!(r[1].bundled_path, "c");
    assert_eq!(r[1].dependencies, vec![String::from("a"), String::from("b")]);
}

#[test]
fn same_zomes_need_no_update() {
    let zomes = vec![zome("a", &[1], &[]), zome("b", &[2], &["a"])];
    let copy = vec![zome("a", &[1], &[]), zome("b", &[2], &["a"])];
    assert!(coordinator_zomes_to_update(&zomes, &copy).is_empty());
}

#[test]
fn find_app_by_id() {
    let apps = vec![
        app("one", AppStatus::Running, &[]),
        app("two", AppStatus::Paused, &["r"]),
    ];
    let found = find_app(apps, &String::from("two")).unwrap();
    assert_eq!(found.installed_app_id, "two");
    assert_eq!(found.status, AppStatus::Paused);
    assert_eq!(found.cell_info.len(), 1);
}

#[test]
fn find_app_not_installed() {
    let apps = vec![app("one", AppStatus::Running, &[])];
    match find_app(apps, &String::from("two")) {
        Err(UpdateAppError::AppNotFound(id)) => assert_eq!(id, "two"),
        _ => panic!("expected AppNotFound"),
    }
}

#[test]
fn role_cells_are_taken_once() {
    let mut a = app("one", AppStatus::Running, &["r1", "r2"]);
    let cells = take_role_cells(&mut a, &String::from("r2")).unwrap();
    assert_eq!(cells.len(), 1);
    assert_eq!(cell_dna_hash(&cells[0]), b"r2".to_vec());
    assert_eq!(a.cell_info.len(), 1);
    assert_eq!(a.cell_info[0].0, "r1");
    match take_role_cells(&mut a, &String::from("r2")) {
        Err(UpdateAppError::RoleNotFound(role, id)) => {
            assert_eq!(role, "r2");
            assert_eq!(id, "one");
        }
        _ => panic!("expected RoleNotFound"),
    }
    assert_eq!(a.cell_info.len(), 1);
}

#[test]
fn dna_hash_of_each_kind_of_cell() {
    assert_eq!(cell_dna_hash(&CellInfo::Provisioned(vec![1])), vec![1]);
    assert_eq!(cell_dna_hash(&CellInfo::Cloned(vec![2])), vec![2]);
    assert_eq!(cell_dna_hash(&CellInfo::Stem(vec![3])), vec![3]);
}

#[test]
fn restart_only_running_apps_that_were_updated() {
    assert!(needs_restart(true, AppStatus::Running));
    assert!(!needs_restart(false, AppStatus::Running));
    assert!(!needs_restart(true, AppStatus::Paused));
    assert!(!needs_restart(true, AppStatus::Disabled));
    assert!(!needs_restart(true, AppStatus::AwaitingMemproofs));
}

#[test]
fn restart_after_an_update_that_sent_zomes() {
    assert!(restart_after_update(&vec![0, 2, 0], AppStatus::Running));
    assert!(!restart_after_update(&vec![0, 0], AppStatus::Running));
    assert!(!restart_after_update(&vec![], AppStatus::Running));
    assert!(!restart_after_update(&vec![3], AppStatus::Paused));
}

#[test]
fn role_cells_of_the_first_entry_are_taken() {
    let mut a = AppInfo {
        installed_app_id: String::from("one"),
        status: AppStatus::Running,
        cell_info: vec![
            (String::from("r"), vec![CellInfo::Provisioned(vec![1])]),
            (String::from("r"), vec![CellInfo::Provisioned(vec![2])]),
        ],
    };
    let cells = take_role_cells(&mut a, &String::from("r")).unwrap();
    assert_eq!(cell_dna_hash(&cells[0]), vec![1]);
    assert_eq!(a.cell_info.len(), 1);
}

#[test]
fn repeating_an_update_sends_nothing_and_restarts_nothing() {
    let zomes = vec![zome("a", &[1], &[]), zome("b", &[2], &["a"])];
    let installed = vec![zome("b", &[2], &["a"]), zome("a", &[1], &[]), zome("c", &[7], &[])];
    let sent = coordinator_zomes_to_update(&zomes, &installed);
    assert!(sent.is_empty());
    assert!(!restart_after_update(&vec![sent.len(), 0], AppStatus::Running));
}
