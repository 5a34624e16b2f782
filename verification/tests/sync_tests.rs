use chrysocolle::settings::{EmuGit, EmuSettings, Emulator};
use chrysocolle::sync::{
    add_emu_to_repo, add_repo_to_emu, create_app_space, games_folder, get_save_path,
    git_metadata_dir, git_push_steps, overwrite_folder, repo_path, select_project_folder,
    SyncError,
};
use chrysocolle::table::NamedTable;

fn other(name: &str, save: &str, git: &str) -> Emulator {
    Emulator::Other {
        name: name.to_string(),
        path: "/bin/e".to_string(),
        default_fullscreen: false,
        save_path: save.to_string(),
        git_path: git.to_string(),
    }
}

#[test]
fn app_space_folders() {
    let f = create_app_space(&"/home/me".to_string());
    assert_eq!(
        f,
        vec![
            "/home/me/Chrysocolle".to_string(),
            "/home/me/Chrysocolle/Games".to_string(),
            "/home/me/Chrysocolle/Saves".to_string(),
        ]
    );
}

#[test]
fn selecting_a_folder_sets_project_and_repository() {
    let mut s = EmuSettings::default();
    s.git.set_repo_name("saves".to_string());
    select_project_folder(&mut s, &"/home/me".to_string());
    assert_eq!(s.project_folder, "/home/me/Chrysocolle");
    assert_eq!(s.git.get_directory(), "/home/me/Chrysocolle/Saves");
    assert_eq!(games_folder(&s), "/home/me/Chrysocolle/Games");
    assert_eq!(repo_path(&s.git), "/home/me/Chrysocolle/Saves/saves");
    assert_eq!(git_metadata_dir(&s.git), "/home/me/Chrysocolle/Saves/saves/.git");
    let space = create_app_space(&"/home/me".to_string());
    assert_eq!(space[0], s.project_folder);
    assert_eq!(&space[2], s.git.get_directory());
}

#[test]
fn save_folders_skip_git() {
    let mut s = EmuSettings::default();
    get_save_path(
        &mut s,
        vec!["/r/.git".to_string(), "/r/RetroArch".to_string(), "/r/Dolphin".to_string()],
    );
    let dirs = s.git.get_save_dir();
    assert_eq!(dirs.len(), 2);
    assert_eq!(dirs.get(&"RetroArch".to_string()), Some(&"/r/RetroArch".to_string()));
    assert_eq!(dirs.get(&"Dolphin".to_string()), Some(&"/r/Dolphin".to_string()));
    assert_eq!(dirs.get(&".git".to_string()), None);
}

#[test]
fn emulator_saves_go_to_their_repository_folder() {
    let mut s = EmuSettings::default();
    s.git = EmuGit::new("repo".to_string(), "/d".to_string(), NamedTable::new());
    s.emulators.insert("A".to_string(), other("A", "/saves/a", "/d/repo/A"));
    s.emulators.insert("B".to_string(), other("B", "/saves/b", "/d/repo/B"));
    let plan = add_emu_to_repo(&s);
    assert_eq!(plan.len(), 2);
    assert_eq!(plan[0].folder, "/d/repo/A");
    assert_eq!(plan[0].source, "/saves/a");
    assert_eq!(plan[1].folder, "/d/repo/B");
    assert_eq!(plan[1].source, "/saves/b");
}

#[test]
fn repository_saves_go_back_to_the_emulator() {
    let mut s = EmuSettings::default();
    s.emulators.insert("A".to_string(), other("A", "/home/me/.a/saves", "/d/repo/A"));
    s.emulators.insert("Root".to_string(), other("Root", "/", "/d/repo/Root"));
    let p = add_repo_to_emu(&s, &"A".to_string());
    assert_eq!(p.folder, "/d/repo/A");
    let c = p.copy.unwrap();
    assert_eq!(c.source, "/d/repo/A/saves");
    assert_eq!(c.destination, "/home/me/.a");

    let p = add_repo_to_emu(&s, &"missing".to_string());
    assert_eq!(p.folder, "");
    assert_eq!(p.copy.unwrap_err(), SyncError::UnknownEmulator);

    let p = add_repo_to_emu(&s, &"Root".to_string());
    assert_eq!(p.copy.unwrap_err(), SyncError::NoParentFolder);
}

#[test]
fn overwrite_folder_needs_a_named_source() {
    assert_eq!(overwrite_folder(&"/a/b".to_string()), Ok("b".to_string()));
    assert_eq!(overwrite_folder(&"/".to_string()), Err(SyncError::SourceWithoutName));
    assert_eq!(overwrite_folder(&"".to_string()), Err(SyncError::SourceWithoutName));
    assert_eq!(overwrite_folder(&"/a/..".to_string()), Err(SyncError::SourceWithoutName));
    assert_eq!(SyncError::SourceWithoutName.message(), "Source has no valid folder name");
    assert_eq!(
        SyncError::NoParentFolder.message(),
        "Error occured while getting the parent of the directory"
    );
}

#[test]
fn push_runs_add_commit_push() {
    let steps = git_push_steps();
    assert_eq!(
        steps,
        vec![
            vec!["add".to_string(), ".".to_string()],
            vec!["commit".to_string(), "-m".to_string(), "commit".to_string()],
            vec!["push".to_string()],
        ]
    );
}
