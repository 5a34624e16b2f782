//! The project's folders, and the plans that copy emulator saves to and from the
//! save repository. The copying and the `git` commands are done by the caller.

use vstd::prelude::*;

use crate::paths::{file_name, file_name_of, join, joined_path, or_empty, parent, parent_of};
use crate::settings::{EmuGit, EmuSettings};

verus! {

/// The folder that the launcher creates inside the folder the user picks.
pub const APP_FOLDER: &'static str = "Chrysocolle";

/// The subfolder of the project that holds the games.
pub const GAMES_FOLDER: &'static str = "Games";

/// The subfolder of the project that holds the save repository.
pub const SAVES_FOLDER: &'static str = "Saves";

/// The name of git's own folder inside a repository.
pub const GIT_METADATA: &'static str = ".git";

/// The project folder made inside the folder `picked`.
pub open spec fn project_root(picked: Seq<char>) -> Seq<char> {
    joined_path(picked, APP_FOLDER@)
}

/// The folders that setting up a project in `picked` creates: the project folder,
/// its games folder and its saves folder, in that order.
pub open spec fn app_space(picked: Seq<char>) -> Seq<Seq<char>> {
    seq![
        project_root(picked),
        joined_path(project_root(picked), GAMES_FOLDER@),
        joined_path(project_root(picked), SAVES_FOLDER@),
    ]
}

/// The folders to create for a project in `picked` (see `app_space`).
pub fn create_app_space(picked: &String) -> (r: Vec<String>)
    ensures
        r@.map_values(|f: String| f@) == app_space(picked@),
{
    let root = join(picked.as_str(), APP_FOLDER);
    let games = join(root.as_str(), GAMES_FOLDER);
    let saves = join(root.as_str(), SAVES_FOLDER);
    let mut r: Vec<String> = Vec::new();
    r.push(root);
    r.push(games);
    r.push(saves);
    assert(r@.map_values(|f: String| f@) =~= app_space(picked@));
    r
}

/// The folder scanned for games: the project's games folder.
pub fn games_folder(settings: &EmuSettings) -> (r: String)
    ensures
        r@ == joined_path(settings.project_folder@, GAMES_FOLDER@),
{
    join(settings.project_folder.as_str(), GAMES_FOLDER)
}

/// Makes the project live in the folder `picked`: the project folder becomes
/// `picked/Chrysocolle` and the save repository's folder its `Saves` subfolder.
pub fn select_project_folder(settings: &mut EmuSettings, picked: &String)
    ensures
        final(settings).project_folder@ == project_root(picked@),
        final(settings).git.directory_view() == joined_path(project_root(picked@), SAVES_FOLDER@),
        final(settings).git.repo_name_view() == old(settings).git.repo_name_view(),
        final(settings).git.save_dirs() == old(settings).git.save_dirs(),
        final(settings).username == old(settings).username,
        final(settings).game_size == old(settings).game_size,
        final(settings).emu_size == old(settings).emu_size,
        final(settings).pure_name == old(settings).pure_name,
        final(settings).games == old(settings).games,
        final(settings).emulators == old(settings).emulators,
{
    let root = join(picked.as_str(), APP_FOLDER);
    let saves = join(root.as_str(), SAVES_FOLDER);
    settings.project_folder = root;
    settings.git.set_directory(saves);
}

/// After the user picks a folder, the project, its games folder and the save
/// repository's folder are exactly the folders that setting up the project there
/// creates.
pub proof fn law_selected_folders_are_created(picked: Seq<char>)
    ensures
        project_root(picked) == app_space(picked)[0],
        joined_path(project_root(picked), GAMES_FOLDER@) == app_space(picked)[1],
        joined_path(project_root(picked), SAVES_FOLDER@) == app_space(picked)[2],
{
}

/// The save repository's working folder: its name inside its folder.
pub open spec fn repo_path_of(git: &EmuGit) -> Seq<char> {
    joined_path(git.directory_view(), git.repo_name_view())
}

/// The save repository's working folder, where `git` runs.
pub fn repo_path(git: &EmuGit) -> (r: String)
    ensures
        r@ == repo_path_of(git),
{
    join(git.get_directory().as_str(), git.get_repo_name())
}

/// The folder whose presence shows that the save repository has been cloned.
pub fn git_metadata_dir(git: &EmuGit) -> (r: String)
    ensures
        r@ == joined_path(repo_path_of(git), GIT_METADATA@),
{
    let repo = repo_path(git);
    join(repo.as_str(), GIT_METADATA)
}

/// The save folders after the folders `folders` of the repository are recorded:
/// each is recorded under its file name (empty if it has none), except git's own.
pub open spec fn recorded_save_dirs(
    dirs: Map<Seq<char>, String>,
    folders: Seq<String>,
) -> Map<Seq<char>, String>
    decreases folders.len(),
{
    if folders.len() == 0 {
        dirs
    } else {
        let m = recorded_save_dirs(dirs, folders.drop_last());
        let f = folders.last();
        let name = or_empty(file_name_of(f@));
        if name == GIT_METADATA@ {
            m
        } else {
            m.insert(name, f)
        }
    }
}

/// Records the save folders found in the repository (`folders`, as listed).
pub fn get_save_path(settings: &mut EmuSettings, folders: Vec<String>)
    ensures
        final(settings).git.save_dirs() == recorded_save_dirs(old(settings).git.save_dirs(), folders@),
        final(settings).git.repo_name_view() == old(settings).git.repo_name_view(),
        final(settings).git.directory_view() == old(settings).git.directory_view(),
        final(settings).username == old(settings).username,
        final(settings).game_size == old(settings).game_size,
        final(settings).emu_size == old(settings).emu_size,
        final(settings).project_folder == old(settings).project_folder,
        final(settings).pure_name == old(settings).pure_name,
        final(settings).games == old(settings).games,
        final(settings).emulators == old(settings).emulators,
{
    let ghost start = settings.git.save_dirs();
    let git_dir_name = GIT_METADATA.to_owned();
    let mut i: usize = 0;
    while i < folders.len()
        invariant
            i <= folders.len(),
            git_dir_name@ == GIT_METADATA@,
            settings.git.save_dirs() == recorded_save_dirs(start, folders@.take(i as int)),
            settings.git.repo_name_view() == old(settings).git.repo_name_view(),
            settings.git.directory_view() == old(settings).git.directory_view(),
            settings.username == old(settings).username,
            settings.game_size == old(settings).game_size,
            settings.emu_size == old(settings).emu_size,
            settings.project_folder == old(settings).project_folder,
            settings.pure_name == old(settings).pure_name,
            settings.games == old(settings).games,
            settings.emulators == old(settings).emulators,
        decreases folders.len() - i,
    {
        let folder = &folders[i];
        let name = match file_name(folder.as_str()) {
            Some(n) => n,
            None => String::new(),
        };
        proof {
            assert(folders@.take(i + 1).drop_last() =~= folders@.take(i as int));
            assert(folders@.take(i + 1).last() == folders@[i as int]);
        }
        if !(name == git_dir_name) {
            settings.git.add_save_dir(name, folder.clone());
        }
        i = i + 1;
    }
    proof {
        assert(folders@.take(folders.len() as int) =~= folders@);
    }
}

/// A folder to create in the save repository, and the emulator save folder to copy
/// into it.
#[derive(Debug)]
pub struct RepoCopy {
    pub folder: String,
    pub source: String,
}

/// Copying the emulators' saves into the repository, before a push: for each
/// emulator in table order, its folder in the repository (the repository's working
/// folder, then the emulator's name) receives the emulator's save folder.
pub fn add_emu_to_repo(settings: &EmuSettings) -> (r: Vec<RepoCopy>)
    ensures
        r@.len() == settings.emulators.pairs().len(),
        forall|i: int|
            0 <= i < r@.len() ==> #[trigger] r@[i].folder@ == joined_path(
                repo_path_of(&settings.git),
                settings.emulators.pairs()[i].0,
            ) && r@[i].source@ == settings.emulators.pairs()[i].1.save_path_view(),
{
    let repo = repo_path(&settings.git);
    let mut r: Vec<RepoCopy> = Vec::new();
    let mut i: usize = 0;
    while i < settings.emulators.len()
        invariant
            i <= settings.emulators.pairs().len(),
            repo@ == repo_path_of(&settings.git),
            r@.len() == i,
            forall|j: int|
                0 <= j < i ==> #[trigger] r@[j].folder@ == joined_path(
                    repo_path_of(&settings.git),
                    settings.emulators.pairs()[j].0,
                ) && r@[j].source@ == settings.emulators.pairs()[j].1.save_path_view(),
        decreases settings.emulators.pairs().len() - i,
    {
        let (key, emu) = settings.emulators.entry_at(i);
        let folder = join(repo.as_str(), key.as_str());
        let source = emu.get_save_path();
        r.push(RepoCopy { folder, source });
        i = i + 1;
    }
    r
}

/// Why saves cannot be copied.
#[derive(Debug, PartialEq, Eq)]
pub enum SyncError {
    /// No emulator has the name asked for.
    UnknownEmulator,
    /// The emulator's save folder has no parent folder.
    NoParentFolder,
    /// The emulator's save folder has no final component.
    NoFolderName,
    /// The folder to copy has no final component.
    SourceWithoutName,
    /// The folder to copy has an empty name.
    SourceNameEmpty,
}

impl SyncError {
    /// The message shown to the user.
    pub fn message(&self) -> (r: String)
        ensures
            r@ == match self {
                SyncError::UnknownEmulator =>
                    "Error occured while adding repository save files to emulator : Can't get the save path of the emulator"@,
                SyncError::NoParentFolder => "Error occured while getting the parent of the directory"@,
                SyncError::NoFolderName => "Error occured while getting the final component of path"@,
                SyncError::SourceWithoutName => "Source has no valid folder name"@,
                SyncError::SourceNameEmpty => "Invalid source folder name"@,
            },
    {
        match self {
            SyncError::UnknownEmulator =>
                "Error occured while adding repository save files to emulator : Can't get the save path of the emulator".to_owned(),
            SyncError::NoParentFolder => "Error occured while getting the parent of the directory".to_owned(),
            SyncError::NoFolderName => "Error occured while getting the final component of path".to_owned(),
            SyncError::SourceWithoutName => "Source has no valid folder name".to_owned(),
            SyncError::SourceNameEmpty => "Invalid source folder name".to_owned(),
        }
    }
}

/// The check that a folder can be copied over another: it must have a final
/// component, and a non-empty one. Gives that name.
pub fn overwrite_folder(source: &String) -> (r: Result<String, SyncError>)
    ensures
        match file_name_of(source@) {
            None => r == Err::<String, SyncError>(SyncError::SourceWithoutName),
            Some(n) => if n.len() == 0 {
                r == Err::<String, SyncError>(SyncError::SourceNameEmpty)
            } else {
                r matches Ok(s) && s@ == n
            },
        },
{
    match file_name(source.as_str()) {
        None => Err(SyncError::SourceWithoutName),
        Some(n) => {
            if n.as_str().is_empty() {
                Err(SyncError::SourceNameEmpty)
            } else {
                Ok(n)
            }
        },
    }
}

/// A folder to copy (`source`) into a destination folder.
#[derive(Debug)]
pub struct FolderCopy {
    pub source: String,
    pub destination: String,
}

/// Copying the repository's saves to an emulator, before a game starts: the
/// emulator's repository folder is created, then the repository's copy of the save
/// folder (the repository folder, then the save folder's name) is copied into the
/// save folder's parent.
#[derive(Debug)]
pub struct RepoToEmu {
    /// The folder to create first (empty when the emulator is unknown).
    pub folder: String,
    pub copy: Result<FolderCopy, SyncError>,
}

/// The plan of copying the repository's saves to the emulator named `emulator_name`.
pub fn add_repo_to_emu(settings: &EmuSettings, emulator_name: &String) -> (r: RepoToEmu)
    ensures
        !settings.emulators@.contains_key(emulator_name@) ==> r.folder@.len() == 0 && r.copy
            == Err::<FolderCopy, SyncError>(SyncError::UnknownEmulator),
        settings.emulators@.contains_key(emulator_name@) ==> ({
            let e = settings.emulators@[emulator_name@];
            let save = e.save_path_view();
            &&& r.folder@ == e.git_path_view()
            &&& match parent_of(save) {
                None => r.copy == Err::<FolderCopy, SyncError>(SyncError::NoParentFolder),
                Some(dest) => match file_name_of(save) {
                    None => r.copy == Err::<FolderCopy, SyncError>(SyncError::NoFolderName),
                    Some(name) => r.copy matches Ok(c) && c.source@ == joined_path(
                        e.git_path_view(),
                        name,
                    ) && c.destination@ == dest,
                },
            }
        }),
{
    match settings.emulators.get(emulator_name) {
        None => RepoToEmu { folder: String::new(), copy: Err(SyncError::UnknownEmulator) },
        Some(e) => {
            let git_path = e.get_git_path();
            let save = e.get_save_path();
            let copy = match parent(save.as_str()) {
                None => Err(SyncError::NoParentFolder),
                Some(dest) => match file_name(save.as_str()) {
                    None => Err(SyncError::NoFolderName),
                    Some(name) => {
                        let source = join(git_path.as_str(), name.as_str());
                        Ok(FolderCopy { source, destination: dest })
                    },
                },
            };
            RepoToEmu { folder: git_path, copy }
        },
    }
}

/// A folder named like git's own folder is never recorded as a save folder.
pub proof fn law_git_folder_never_recorded(dirs: Map<Seq<char>, String>, folders: Seq<String>)
    requires
        !dirs.contains_key(GIT_METADATA@),
    ensures
        !recorded_save_dirs(dirs, folders).contains_key(GIT_METADATA@),
    decreases folders.len(),
{
    if folders.len() > 0 {
        law_git_folder_never_recorded(dirs, folders.drop_last());
    }
}

/// Every listed folder not named like git's folder is recorded under its name; the
/// last listed folder of a name wins.
pub proof fn law_listed_folders_recorded(dirs: Map<Seq<char>, String>, folders: Seq<String>, j: int)
    requires
        0 <= j < folders.len(),
        or_empty(file_name_of(folders[j]@)) != GIT_METADATA@,
        forall|m: int|
            j < m < folders.len() ==> or_empty(file_name_of(#[trigger] folders[m]@)) != or_empty(
                file_name_of(folders[j]@),
            ),
    ensures
        recorded_save_dirs(dirs, folders).contains_key(or_empty(file_name_of(folders[j]@))),
        recorded_save_dirs(dirs, folders)[or_empty(file_name_of(folders[j]@))] == folders[j],
    decreases folders.len(),
{
    let f0 = folders.drop_last();
    if j < folders.len() - 1 {
        assert forall|m: int| j < m < f0.len() implies or_empty(file_name_of(#[trigger] f0[m]@))
            != or_empty(file_name_of(f0[j]@)) by {
            assert(f0[m] == folders[m]);
        }
        law_listed_folders_recorded(dirs, f0, j);
        assert(f0[j] == folders[j]);
    }
}

/// The `git` commands that publish the repository's saves, run in its working
/// folder: add everything, commit, push.
pub fn git_push_steps() -> (r: Vec<Vec<String>>)
    ensures
        r@.len() == 3,
        r@[0]@.map_values(|a: String| a@) == seq!["add"@, "."@],
        r@[1]@.map_values(|a: String| a@) == seq!["commit"@, "-m"@, "commit"@],
        r@[2]@.map_values(|a: String| a@) == seq!["push"@],
{
    let mut add: Vec<String> = Vec::new();
    add.push("add".to_owned());
    add.push(".".to_owned());
    let mut commit: Vec<String> = Vec::new();
    commit.push("commit".to_owned());
    commit.push("-m".to_owned());
    commit.push("commit".to_owned());
    let mut push: Vec<String> = Vec::new();
    push.push("push".to_owned());
    assert(add@.map_values(|a: String| a@) =~= seq!["add"@, "."@]);
    assert(commit@.map_values(|a: String| a@) =~= seq!["commit"@, "-m"@, "commit"@]);
    assert(push@.map_values(|a: String| a@) =~= seq!["push"@]);
    let mut r: Vec<Vec<String>> = Vec::new();
    r.push(add);
    r.push(commit);
    r.push(push);
    r
}


/// Recording folders keeps the save folders already recorded: a name that no listed
/// folder has keeps the folder it had.
pub proof fn law_recording_keeps_old_save_dirs(
    dirs: Map<Seq<char>, String>,
    folders: Seq<String>,
    k: Seq<char>,
)
    requires
        dirs.contains_key(k),
        forall|j: int| 0 <= j < folders.len() ==> or_empty(file_name_of(#[trigger] folders[j]@)) != k,
    ensures
        recorded_save_dirs(dirs, folders).contains_key(k),
        recorded_save_dirs(dirs, folders)[k] == dirs[k],
    decreases folders.len(),
{
    if folders.len() > 0 {
        let f0 = folders.drop_last();
        assert forall|j: int| 0 <= j < f0.len() implies or_empty(file_name_of(#[trigger] f0[j]@)) != k by {
            assert(f0[j] == folders[j]);
        }
        law_recording_keeps_old_save_dirs(dirs, f0, k);
        assert(or_empty(file_name_of(folders[folders.len() - 1]@)) != k);
    }
}

/// Recording folders adds names and never removes one: every name recorded
/// before is still recorded after.
pub proof fn law_recording_only_adds(dirs: Map<Seq<char>, String>, folders: Seq<String>)
    ensures
        dirs.dom().subset_of(recorded_save_dirs(dirs, folders).dom()),
    decreases folders.len(),
{
    if folders.len() > 0 {
        law_recording_only_adds(dirs, folders.drop_last());
    }
}


/// Recording folders adds no name but those of the listed folders (git's own
/// excepted): every recorded name was recorded before or names a listed folder.
pub proof fn law_recording_adds_only_listed_names(
    dirs: Map<Seq<char>, String>,
    folders: Seq<String>,
    k: Seq<char>,
)
    requires
        recorded_save_dirs(dirs, folders).contains_key(k),
        !dirs.contains_key(k),
    ensures
        k != GIT_METADATA@,
        exists|j: int| 0 <= j < folders.len() && or_empty(file_name_of(#[trigger] folders[j]@)) == k,
    decreases folders.len(),
{
    let f0 = folders.drop_last();
    let last = folders.len() - 1;
    if folders.len() > 0 {
        if recorded_save_dirs(dirs, f0).contains_key(k) {
            law_recording_adds_only_listed_names(dirs, f0, k);
            let j = choose|j: int| 0 <= j < f0.len() && or_empty(file_name_of(#[trigger] f0[j]@)) == k;
            assert(folders[j] == f0[j]);
        } else {
            assert(or_empty(file_name_of(folders[last]@)) == k);
        }
    }
}

} // verus!
