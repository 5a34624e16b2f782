use chrysocolle::emulators::{
    add_emulator, blank_emulator, delete_emulator, emulator_command, game_command, kind_of,
    launch_game, save_emulator, EmuKind, LaunchError,
};
use chrysocolle::settings::{EmuSettings, Emulator, Game};

fn retro(name: &str) -> Emulator {
    Emulator::RetroArch {
        name: name.to_string(),
        path: "/bin/retroarch".to_string(),
        default_fullscreen: false,
        save_path: "/saves/ra".to_string(),
        git_path: "/repo/ra".to_string(),
        core: "/cores/mgba.so".to_string(),
    }
}

fn game(emulator: &str) -> Game {
    Game {
        name: "g".to_string(),
        extension: "gba".to_string(),
        path: "/g.gba".to_string(),
        fullscreen: false,
        emulator: emulator.to_string(),
    }
}

#[test]
fn save_under_same_name_replaces() {
    let mut s = EmuSettings::default();
    s.emulators.insert("RA".to_string(), retro("RA"));
    s.games.insert(1, game("RA"));
    let mut e = retro("RA");
    e.set_core("/cores/snes.so".to_string());
    let key = save_emulator(&mut s, "RA".to_string(), e.clone());
    assert_eq!(key, "RA");
    assert_eq!(s.emulators.len(), 1);
    assert_eq!(s.emulators.get(&"RA".to_string()), Some(&e));
    assert_eq!(s.games[&1].emulator, "RA");
}

#[test]
fn save_with_new_name_moves_games() {
    let mut s = EmuSettings::default();
    s.emulators.insert("RA".to_string(), retro("RA"));
    s.games.insert(1, game("RA"));
    s.games.insert(2, game("Other"));
    let key = save_emulator(&mut s, "RA".to_string(), retro("RetroArch"));
    assert_eq!(key, "RetroArch");
    assert!(!s.emulators.contains_key(&"RA".to_string()));
    assert_eq!(s.emulators.get(&"RetroArch".to_string()), Some(&retro("RetroArch")));
    assert_eq!(s.games[&1].emulator, "RetroArch");
    assert_eq!(s.games[&2].emulator, "Other");
}

#[test]
fn saving_a_new_emulator_names_it_new_emulator() {
    let mut s = EmuSettings::default();
    let (key, e) = add_emulator();
    assert_eq!(key, "New");
    assert_eq!(e, Emulator::New(String::new()));
    let k = save_emulator(&mut s, key, e);
    assert_eq!(k, "New Emulator");
    assert!(s.emulators.contains_key(&"New Emulator".to_string()));
}

#[test]
fn delete_clears_games() {
    let mut s = EmuSettings::default();
    s.emulators.insert("RA".to_string(), retro("RA"));
    s.games.insert(1, game("RA"));
    s.games.insert(2, game("X"));
    delete_emulator(&mut s, &"RA".to_string());
    assert_eq!(s.emulators.len(), 0);
    assert_eq!(s.games[&1].emulator, "");
    assert_eq!(s.games[&2].emulator, "X");
}

#[test]
fn commands_for_each_kind() {
    let c = emulator_command(&retro("RA")).unwrap();
    assert_eq!(c.program, "/bin/retroarch");
    assert_eq!(c.args, vec!["-L".to_string(), "/cores/mgba.so".to_string()]);

    let o = Emulator::Other {
        name: "D".to_string(),
        path: "/bin/d".to_string(),
        default_fullscreen: false,
        save_path: String::new(),
        git_path: String::new(),
    };
    let c = emulator_command(&o).unwrap();
    assert_eq!(c.program, "/bin/d");
    assert_eq!(c.args, vec!["-L".to_string()]);
    assert!(emulator_command(&Emulator::New(String::new())).is_none());

    let g = "/roms/x.gba".to_string();
    let c = game_command(&retro("RA"), &g).unwrap();
    assert_eq!(
        c.args,
        vec!["-L".to_string(), "/cores/mgba.so".to_string(), g.clone(), "-f".to_string()]
    );
    let c = game_command(&o, &g).unwrap();
    assert_eq!(c.args, vec![g.clone(), "-f".to_string()]);
    let e = game_command(&Emulator::New(String::new()), &g).unwrap_err();
    assert_eq!(e, LaunchError::NoEmulator);
    assert_eq!(e.message(), "Error while launching game : No Emulator found");
}

#[test]
fn launch_game_looks_up_the_emulator() {
    let mut s = EmuSettings::default();
    s.emulators.insert("RA".to_string(), retro("RA"));
    let g = "/roms/x.gba".to_string();
    assert!(launch_game(&s, &"none".to_string(), &g).is_none());
    let c = launch_game(&s, &"RA".to_string(), &g).unwrap().unwrap();
    assert_eq!(c.program, "/bin/retroarch");
}

#[test]
fn editor_kinds() {
    assert_eq!(kind_of(&retro("x")), EmuKind::RetroArch);
    assert_eq!(kind_of(&Emulator::New(String::new())), EmuKind::New);
    let e = blank_emulator(EmuKind::Other, "Key".to_string());
    assert_eq!(e.get_name(), "Key");
    assert_eq!(kind_of(&e), EmuKind::Other);
    assert_eq!(e.get_path(), "");
    let e = blank_emulator(EmuKind::RetroArch, "Key".to_string());
    assert_eq!(e.get_core(), "");
    assert_eq!(kind_of(&e), EmuKind::RetroArch);
    assert_eq!(blank_emulator(EmuKind::New, "Key".to_string()), Emulator::New(String::new()));
}
