use std::collections::HashMap;

use chrysocolle::catalog::{
    display_name, game_from_path, game_ids, get_games, retarget_games, set_game_emulator,
    show_games, sort_by_extension, sort_by_name, SortMethod,
};
use chrysocolle::settings::{EmuSettings, Game};

fn game(name: &str, ext: &str, emulator: &str) -> Game {
    Game {
        name: name.to_string(),
        extension: ext.to_string(),
        path: format!("/g/{}.{}", name, ext),
        fullscreen: false,
        emulator: emulator.to_string(),
    }
}

#[test]
fn game_from_path_uses_prefix_and_extension() {
    let g = game_from_path("/roms/gba/Mario (USA).gba".to_string());
    assert_eq!(g.name, "Mario (USA)");
    assert_eq!(g.extension, "gba");
    assert_eq!(g.path, "/roms/gba/Mario (USA).gba");
    assert!(!g.fullscreen);
    assert_eq!(g.emulator, "");

    let g = game_from_path("/roms/archive.tar.gz".to_string());
    assert_eq!(g.name, "archive");
    assert_eq!(g.extension, "gz");

    let g = game_from_path("/roms/README".to_string());
    assert_eq!(g.name, "README");
    assert_eq!(g.extension, "");

    let g = game_from_path("/".to_string());
    assert_eq!(g.name, "");
    assert_eq!(g.extension, "");
}

#[test]
fn scan_adds_new_games_and_keeps_known_ones() {
    let mut s = EmuSettings::default();
    s.games.insert(1, game("Known", "nes", "Nestopia"));
    let scanned = vec![
        (1, "/g/Other.nes".to_string()),
        (2, "/g/Zelda.sfc".to_string()),
        (2, "/g/Zelda copy.sfc".to_string()),
    ];
    get_games(&mut s, scanned.clone());
    assert_eq!(s.games.len(), 2);
    assert_eq!(s.games[&1], game("Known", "nes", "Nestopia"));
    assert_eq!(s.games[&2].name, "Zelda");
    assert_eq!(s.games[&2].path, "/g/Zelda.sfc");
    // scanning again changes nothing
    let before: Vec<(u32, Game)> = {
        let mut v: Vec<(u32, Game)> = s.games.iter().map(|(k, g)| (*k, g.clone())).collect();
        v.sort_by_key(|e| e.0);
        v
    };
    get_games(&mut s, scanned);
    let mut after: Vec<(u32, Game)> = s.games.iter().map(|(k, g)| (*k, g.clone())).collect();
    after.sort_by_key(|e| e.0);
    assert_eq!(before, after);
}

#[test]
fn game_ids_lists_every_id_once() {
    let mut m = HashMap::new();
    for i in 0..20u32 {
        m.insert(i * 7, game("g", "x", ""));
    }
    let mut ids = game_ids(&m);
    ids.sort();
    assert_eq!(ids, (0..20u32).map(|i| i * 7).collect::<Vec<u32>>());
}

#[test]
fn retarget_moves_only_matching_games() {
    let mut m = HashMap::new();
    m.insert(1, game("a", "x", "old"));
    m.insert(2, game("b", "x", "other"));
    m.insert(3, game("c", "x", "old"));
    retarget_games(&mut m, &"old".to_string(), &"new".to_string());
    assert_eq!(m[&1].emulator, "new");
    assert_eq!(m[&2].emulator, "other");
    assert_eq!(m[&3].emulator, "new");
    assert_eq!(m[&3].name, "c");
}

#[test]
fn set_game_emulator_changes_one_game() {
    let mut s = EmuSettings::default();
    s.games.insert(1, game("a", "x", ""));
    s.games.insert(2, game("b", "x", ""));
    set_game_emulator(&mut s, 1, "RA".to_string());
    set_game_emulator(&mut s, 9, "RA".to_string());
    assert_eq!(s.games[&1].emulator, "RA");
    assert_eq!(s.games[&2].emulator, "");
    assert_eq!(s.games.len(), 2);
}

#[test]
fn display_name_follows_pure_name_setting() {
    let mut s = EmuSettings::default();
    s.games.insert(1, game("Zelda (USA) [!]", "sfc", ""));
    assert_eq!(display_name(&s, 1), "Zelda (USA) [!]");
    s.pure_name = true;
    assert_eq!(display_name(&s, 1), "Zelda  ");
}

#[test]
fn sort_by_name_ignores_case() {
    let mut s = EmuSettings::default();
    s.games.insert(1, game("B", "x", ""));
    s.games.insert(2, game("a", "x", ""));
    s.games.insert(3, game("c", "x", ""));
    let mut v = vec![1, 3, 2];
    sort_by_name(&s, &mut v);
    assert_eq!(v, vec![2, 1, 3]);
}

#[test]
fn sort_keeps_order_of_ties() {
    let mut s = EmuSettings::default();
    s.games.insert(1, game("Same", "x", ""));
    s.games.insert(2, game("same", "x", ""));
    s.games.insert(3, game("Abc", "x", ""));
    s.games.insert(4, game("SAME", "x", ""));
    let mut v = vec![4, 1, 3, 2];
    sort_by_name(&s, &mut v);
    assert_eq!(v, vec![3, 4, 1, 2]);
    let mut v = vec![2, 1, 4, 3];
    sort_by_name(&s, &mut v);
    assert_eq!(v, vec![3, 2, 1, 4]);
}

#[test]
fn sort_by_extension_and_unknown_ids() {
    let mut s = EmuSettings::default();
    s.games.insert(1, game("a", "SFC", ""));
    s.games.insert(2, game("b", "gba", ""));
    s.games.insert(3, game("c", "nes", ""));
    let mut v = vec![1, 2, 3, 42];
    sort_by_extension(&s, &mut v);
    assert_eq!(v, vec![42, 2, 3, 1]);
}

#[test]
fn sort_matches_std_stable_sort() {
    let mut s = EmuSettings::default();
    let names = ["delta", "Alpha", "charlie", "bravo", "alpha", "Écho", "echo", "", "Bravo"];
    for (i, n) in names.iter().enumerate() {
        s.games.insert(i as u32, game(n, "x", ""));
    }
    let mut v: Vec<u32> = (0..names.len() as u32).rev().collect();
    let mut expected = v.clone();
    expected.sort_by(|a, b| {
        let na = s.games[a].name.to_lowercase();
        let nb = s.games[b].name.to_lowercase();
        na.cmp(&nb)
    });
    sort_by_name(&s, &mut v);
    assert_eq!(v, expected);
}

#[test]
fn show_games_orders_every_game() {
    let mut s = EmuSettings::default();
    s.games.insert(10, game("zeta", "a", ""));
    s.games.insert(20, game("Alpha", "c", ""));
    s.games.insert(30, game("beta", "b", ""));
    assert_eq!(show_games(&s, SortMethod::ByName), vec![20, 30, 10]);
    assert_eq!(show_games(&s, SortMethod::ByFolder), vec![20, 30, 10]);
    assert_eq!(show_games(&s, SortMethod::ByExtension), vec![10, 30, 20]);
}
