use sleuth::mods::{
    mods_to_enable, registry_dump_path, sort_by_name, Mod, ModListAction, ModManager,
};

fn m(name: &str, version: &str, org: &str, path: &str) -> Mod {
    Mod {
        name: name.to_string(),
        organization: org.to_string(),
        version: version.to_string(),
        object_path: path.to_string(),
    }
}

fn entry(path: &str, name: &str) -> (String, Mod) {
    (path.to_string(), m(name, "1.0", "Org", path))
}

#[test]
fn registry_later_entry_wins_and_lookup() {
    let mut mm = ModManager::new();
    assert_eq!(mm.list_mods_action(), ModListAction::ScanRegistry);
    mm.replace_registry(vec![entry("/A", "Alpha").1, entry("/B", "Beta").1, m("Alpha2", "2.0", "Org", "/A")]);
    assert_eq!(mm.list_mods_action(), ModListAction::RescanActive);
    assert_eq!(mm.get_mod(&"/A".to_string()).unwrap().name, "Alpha2");
    assert!(mm.get_mod(&"/C".to_string()).is_none());
    assert_eq!(mm.get_available().len(), 2);
}

#[test]
fn registry_keys_are_object_paths() {
    let mut mm = ModManager::new();
    mm.replace_registry(vec![m("A", "1", "O", "/Game/A.A_C"), m("B", "1", "O", "/Game/B.B_C")]);
    for (path, info) in mm.get_available() {
        assert_eq!(path, info.object_path);
    }
    assert_eq!(mm.get_mod(&"/Game/B.B_C".to_string()).unwrap().name, "B");
}

#[test]
fn active_mods_follow_active_paths() {
    let mut mm = ModManager::new();
    mm.replace_registry(vec![entry("/A", "Alpha").1, entry("/B", "Beta").1]);
    mm.replace_active(vec!["/B".to_string(), "/X".to_string(), "/B".to_string()]);
    let meta = mm.get_active_mod_metadata();
    assert_eq!(meta.len(), 1);
    assert_eq!(meta[0].name, "Beta");
    let active = mm.get_active();
    assert_eq!(active.len(), 1);
    assert_eq!(active[0].0, "/B");
    assert!(mm.is_active(&"/X".to_string()));
    mm.reset_active_mods();
    assert!(mm.get_active_mod_metadata().is_empty());
    assert!(!mm.is_active(&"/B".to_string()));
}

#[test]
fn sorting_orders_by_name() {
    let sorted = sort_by_name(vec![entry("/3", "zeta"), entry("/1", "Alpha"), entry("/2", "alpha"), entry("/4", "Alpha")]);
    let names: Vec<&str> = sorted.iter().map(|e| e.1.name.as_str()).collect();
    assert_eq!(names, vec!["Alpha", "Alpha", "alpha", "zeta"]);
}

#[test]
fn listing_shows_sorted_mods_with_status() {
    let mut mm = ModManager::new();
    mm.replace_registry(vec![m("Beta", "2.1", "Bee", "/B"), m("Alpha", "1.0", "Ay", "/A")]);
    mm.replace_active(vec!["/B".to_string()]);
    let lines = mm.registry_listing();
    assert_eq!(
        lines,
        vec![
            "\n--- Registered Mods (2) ---".to_string(),
            "[00] \x1b[90m[Inactive]\x1b[0m  \"Alpha\" v1.0 by Ay".to_string(),
            "[01] \x1b[32m[ Active ]\x1b[0m  \"Beta\" v2.1 by Bee".to_string(),
            "----------------------------\n".to_string(),
        ]
    );
}

#[test]
fn dump_path_defaults() {
    assert_eq!(registry_dump_path(None), "ingame_mod_registry.json");
    assert_eq!(registry_dump_path(Some("x.json".to_string())), "x.json");
}

#[test]
fn server_mods_to_enable_need_a_class_name() {
    let mods = mods_to_enable(&vec![
        "/Game/Mods/AgMods/GiantSlayers/GiantSlayers.GiantSlayers_C".to_string(),
        "NoDotHere".to_string(),
        "a.b.c".to_string(),
    ]);
    assert_eq!(
        mods,
        vec![
            (
                "/Game/Mods/AgMods/GiantSlayers/GiantSlayers.GiantSlayers_C".to_string(),
                "GiantSlayers_C".to_string()
            ),
            ("a.b.c".to_string(), "c".to_string()),
        ]
    );
}
