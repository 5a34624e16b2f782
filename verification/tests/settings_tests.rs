use chrysocolle::settings::{
    parse_tile_size, parse_u8_text, EmuGit, EmuSettings, Emulator, DEFAULT_TILE_SIZE,
};
use chrysocolle::table::NamedTable;

fn retro() -> Emulator {
    Emulator::RetroArch {
        name: "RA".to_string(),
        path: "/bin/retroarch".to_string(),
        default_fullscreen: true,
        save_path: "/saves/ra".to_string(),
        git_path: "/repo/RA".to_string(),
        core: "/cores/mgba.so".to_string(),
    }
}

fn other() -> Emulator {
    Emulator::Other {
        name: "Dolphin".to_string(),
        path: "/bin/dolphin".to_string(),
        default_fullscreen: false,
        save_path: "/saves/dolphin".to_string(),
        git_path: "/repo/Dolphin".to_string(),
    }
}

#[test]
fn getters_read_each_kind() {
    let r = retro();
    assert_eq!(r.get_name(), "RA");
    assert_eq!(r.get_path(), "/bin/retroarch");
    assert_eq!(*r.get_fullscreen(), true);
    assert_eq!(r.get_core(), "/cores/mgba.so");
    assert_eq!(r.get_save_path(), "/saves/ra");
    assert_eq!(r.get_git_path(), "/repo/RA");

    let o = other();
    assert_eq!(o.get_name(), "Dolphin");
    assert_eq!(o.get_core(), "");
    assert_eq!(*o.get_fullscreen(), false);

    let n = Emulator::New("/bin/x".to_string());
    assert_eq!(n.get_name(), "New Emulator");
    assert_eq!(n.get_path(), "/bin/x");
    assert_eq!(*n.get_fullscreen(), false);
    assert_eq!(n.get_save_path(), "");
    assert_eq!(n.get_git_path(), "");
    assert_eq!(n.get_core(), "");
}

#[test]
fn setters_write_their_field() {
    let mut r = retro();
    r.set_name("RetroArch".to_string());
    r.set_path("/opt/ra".to_string());
    r.set_fullscreen(false);
    r.set_core("/cores/snes.so".to_string());
    r.set_save_path("/s".to_string());
    r.set_git_path("/g".to_string());
    assert_eq!(
        r,
        Emulator::RetroArch {
            name: "RetroArch".to_string(),
            path: "/opt/ra".to_string(),
            default_fullscreen: false,
            save_path: "/s".to_string(),
            git_path: "/g".to_string(),
            core: "/cores/snes.so".to_string(),
        }
    );
}

#[test]
fn setters_ignore_missing_fields() {
    let mut o = other();
    o.set_core("/cores/none".to_string());
    assert_eq!(o, other());

    let mut n = Emulator::New("p".to_string());
    n.set_name("x".to_string());
    n.set_fullscreen(true);
    n.set_core("c".to_string());
    n.set_save_path("s".to_string());
    n.set_git_path("g".to_string());
    assert_eq!(n, Emulator::New("p".to_string()));
    n.set_path("q".to_string());
    assert_eq!(n, Emulator::New("q".to_string()));
}

#[test]
fn default_emulator_is_new_and_empty() {
    assert_eq!(Emulator::default(), Emulator::New(String::new()));
}

#[test]
fn default_settings_use_size_five() {
    let s = EmuSettings::default();
    assert_eq!(s.game_size, 5);
    assert_eq!(s.emu_size, 5);
    assert_eq!(DEFAULT_TILE_SIZE, 5);
    assert!(s.games.is_empty());
    assert_eq!(s.emulators.len(), 0);
    assert!(!s.pure_name);
    assert_eq!(s.git.get_repo_name(), "");
}

#[test]
fn emu_git_accessors() {
    let mut g = EmuGit::default();
    g.set_repo_name("saves".to_string());
    g.set_directory("/home/me/Chrysocolle/Saves".to_string());
    g.add_save_dir("RA".to_string(), "/repo/RA".to_string());
    g.add_save_dir("RA".to_string(), "/repo/RA2".to_string());
    assert_eq!(g.get_repo_name(), "saves");
    assert_eq!(g.get_directory(), "/home/me/Chrysocolle/Saves");
    assert_eq!(g.get_save_dir().len(), 1);
    assert_eq!(g.get_save_dir().get(&"RA".to_string()), Some(&"/repo/RA2".to_string()));
    let mut t = NamedTable::new();
    t.insert("x".to_string(), "y".to_string());
    g.set_save_dir(t);
    assert_eq!(g.get_save_dir().get(&"RA".to_string()), None);
    let g2 = EmuGit::new("r".to_string(), "d".to_string(), NamedTable::new());
    assert_eq!(g2.get_repo_name(), "r");
}

#[test]
fn tile_size_parsing() {
    assert_eq!(parse_tile_size("12"), 12);
    assert_eq!(parse_tile_size("5"), 5);
    assert_eq!(parse_tile_size("+7"), 7);
    assert_eq!(parse_tile_size("007"), 7);
    assert_eq!(parse_tile_size("255"), 255);
    assert_eq!(parse_tile_size("256"), 5);
    assert_eq!(parse_tile_size("-1"), 5);
    assert_eq!(parse_tile_size(""), 5);
    assert_eq!(parse_tile_size("+"), 5);
    assert_eq!(parse_tile_size("1.5"), 5);
    assert_eq!(parse_tile_size(" 9"), 5);
    assert_eq!(parse_tile_size("0"), 0);
}

#[test]
fn u8_parsing_matches_std() {
    let inputs = [
        "", "0", "9", "10", "99", "100", "199", "249", "250", "255", "256", "260", "300", "999",
        "1000", "+", "-", "+0", "-0", "++1", "+-1", "00255", "0256", "١", "12a", "a12", " ", "8 ",
    ];
    for s in inputs.iter() {
        assert_eq!(parse_u8_text(s), s.parse::<u8>().ok(), "on {:?}", s);
    }
    for v in 0..=300u32 {
        let s = v.to_string();
        assert_eq!(parse_u8_text(&s), s.parse::<u8>().ok());
    }
}
