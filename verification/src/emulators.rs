//! Editing the emulator table, and the commands that start emulators and games.

use vstd::prelude::*;

use crate::catalog::{retarget_games, retargeted};
use crate::settings::{EmuSettings, Emulator, GameView, games_view};

verus! {

/// The settings `b` differ from `a` in their games and emulators at most.
pub open spec fn same_but_catalogue(a: &EmuSettings, b: &EmuSettings) -> bool {
    &&& a.username == b.username
    &&& a.game_size == b.game_size
    &&& a.emu_size == b.emu_size
    &&& a.project_folder == b.project_folder
    &&& a.pure_name == b.pure_name
    &&& a.git == b.git
}

/// The emulator table after the emulator edited under `key` is saved as `e`: it is
/// stored under its own name, and `key` goes away if that name differs.
pub open spec fn saved_emulators(
    table: Map<Seq<char>, Emulator>,
    key: Seq<char>,
    e: Emulator,
) -> Map<Seq<char>, Emulator> {
    if key == e.name_view() {
        table.insert(key, e)
    } else {
        table.remove(key).insert(e.name_view(), e)
    }
}

/// The catalogue after the emulator edited under `key` is saved as `e`: when the
/// emulator was renamed, its games follow it to the new name.
pub open spec fn games_after_save(
    games: Map<u32, GameView>,
    key: Seq<char>,
    e: Emulator,
) -> Map<u32, GameView> {
    if key == e.name_view() {
        games
    } else {
        retargeted(games, key, e.name_view())
    }
}

/// Saves the emulator edited under `key` (the editor's "Save and close") and returns
/// the name it is now stored under.
pub fn save_emulator(settings: &mut EmuSettings, key: String, emulator: Emulator) -> (new_key: String)
    ensures
        new_key@ == emulator.name_view(),
        final(settings).emulators@ == saved_emulators(old(settings).emulators@, key@, emulator),
        games_view(final(settings).games@) == games_after_save(
            games_view(old(settings).games@),
            key@,
            emulator,
        ),
        same_but_catalogue(&*old(settings), &*final(settings)),
{
    let name = emulator.get_name().to_owned();
    let mut k = key;
    if !(k == name) {
        settings.emulators.remove(&k);
        retarget_games(&mut settings.games, &k, &name);
        k = name;
    }
    settings.emulators.insert(k.clone(), emulator);
    k
}

/// Deletes the emulator stored under `key` (the editor's "Delete emulator"); the
/// games that used it are left without an emulator.
pub fn delete_emulator(settings: &mut EmuSettings, key: &String)
    ensures
        final(settings).emulators@ == old(settings).emulators@.remove(key@),
        games_view(final(settings).games@) == retargeted(
            games_view(old(settings).games@),
            key@,
            Seq::empty(),
        ),
        same_but_catalogue(&*old(settings), &*final(settings)),
{
    let none = String::new();
    retarget_games(&mut settings.games, key, &none);
    settings.emulators.remove(key);
}

/// After a save, the emulator is found under its own name.
pub proof fn law_saved_emulator_found_by_name(
    table: Map<Seq<char>, Emulator>,
    key: Seq<char>,
    e: Emulator,
)
    ensures
        saved_emulators(table, key, e).contains_key(e.name_view()),
        saved_emulators(table, key, e)[e.name_view()] == e,
{
}

/// A save that renames an emulator removes its old name, and afterwards no game
/// names the old name: the games that did now name the new one.
pub proof fn law_rename_moves_games(
    table: Map<Seq<char>, Emulator>,
    games: Map<u32, GameView>,
    key: Seq<char>,
    e: Emulator,
)
    requires
        key != e.name_view(),
    ensures
        !saved_emulators(table, key, e).contains_key(key),
        games_after_save(games, key, e).dom() == games.dom(),
        forall|id: u32| #[trigger]
            games_after_save(games, key, e).contains_key(id) ==> games_after_save(
                games,
                key,
                e,
            )[id].emulator != key,
        forall|id: u32|
            #[trigger] games.contains_key(id) && games[id].emulator == key ==> games_after_save(
                games,
                key,
                e,
            )[id].emulator == e.name_view(),
{
}

/// A save or a delete changes only the games that used the edited emulator.
pub proof fn law_other_games_untouched(
    games: Map<u32, GameView>,
    from: Seq<char>,
    to: Seq<char>,
)
    ensures
        retargeted(games, from, to).dom() == games.dom(),
        forall|id: u32|
            #[trigger] games.contains_key(id) && games[id].emulator != from ==> retargeted(
                games,
                from,
                to,
            )[id] == games[id],
        forall|id: u32|
            #[trigger] games.contains_key(id) && games[id].emulator == from ==> retargeted(
                games,
                from,
                to,
            )[id] == games[id].with_emulator(to),
{
}

/// After an emulator with a non-empty name is deleted, it is gone and no game
/// names it.
pub proof fn law_delete_leaves_no_reference(
    table: Map<Seq<char>, Emulator>,
    games: Map<u32, GameView>,
    key: Seq<char>,
)
    requires
        key != Seq::<char>::empty(),
    ensures
        !table.remove(key).contains_key(key),
        forall|id: u32| #[trigger]
            retargeted(games, key, Seq::empty()).contains_key(id) ==> retargeted(
                games,
                key,
                Seq::empty(),
            )[id].emulator != key,
{
}

/// A program to start and the arguments to give it.
#[derive(Debug)]
pub struct LaunchCommand {
    pub program: String,
    pub args: Vec<String>,
}

impl LaunchCommand {
    /// The arguments as text.
    pub open spec fn args_view(&self) -> Seq<Seq<char>> {
        self.args@.map_values(|a: String| a@)
    }
}

/// Why a game cannot be started.
#[derive(Debug, PartialEq, Eq)]
pub enum LaunchError {
    /// The game's emulator is still a `New` one, with no kind chosen.
    NoEmulator,
}

impl LaunchError {
    /// The message shown to the user.
    pub fn message(&self) -> (r: String)
        ensures
            r@ == "Error while launching game : No Emulator found"@,
    {
        "Error while launching game : No Emulator found".to_owned()
    }
}

/// The command that starts `e` on its own: RetroArch with `-L` and its core, any
/// other emulator with `-L`; a `New` emulator is not started.
pub fn emulator_command(e: &Emulator) -> (r: Option<LaunchCommand>)
    ensures
        match e {
            Emulator::RetroArch { path, core, .. } => r matches Some(c) && c.program@ == path@
                && c.args_view() == seq!["-L"@, core@],
            Emulator::Other { path, .. } => r matches Some(c) && c.program@ == path@
                && c.args_view() == seq!["-L"@],
            Emulator::New(_) => r is None,
        },
{
    match e {
        Emulator::RetroArch { path, core, .. } => {
            let mut args: Vec<String> = Vec::new();
            args.push("-L".to_owned());
            args.push(core.clone());
            let c = LaunchCommand { program: path.clone(), args };
            assert(c.args_view() =~= seq!["-L"@, core@]);
            Some(c)
        },
        Emulator::Other { path, .. } => {
            let mut args: Vec<String> = Vec::new();
            args.push("-L".to_owned());
            let c = LaunchCommand { program: path.clone(), args };
            assert(c.args_view() =~= seq!["-L"@]);
            Some(c)
        },
        Emulator::New(_) => None,
    }
}

/// The command that starts the game at `game_path` with emulator `e`, in
/// fullscreen: RetroArch loads its core and the game, any other emulator gets the
/// game; a `New` emulator cannot start it.
pub fn game_command(e: &Emulator, game_path: &String) -> (r: Result<LaunchCommand, LaunchError>)
    ensures
        match e {
            Emulator::RetroArch { path, core, .. } => r matches Ok(c) && c.program@ == path@
                && c.args_view() == seq!["-L"@, core@, game_path@, "-f"@],
            Emulator::Other { path, .. } => r matches Ok(c) && c.program@ == path@
                && c.args_view() == seq![game_path@, "-f"@],
            Emulator::New(_) => r == Err::<LaunchCommand, LaunchError>(LaunchError::NoEmulator),
        },
{
    match e {
        Emulator::RetroArch { path, core, .. } => {
            let mut args: Vec<String> = Vec::new();
            args.push("-L".to_owned());
            args.push(core.clone());
            args.push(game_path.clone());
            args.push("-f".to_owned());
            let c = LaunchCommand { program: path.clone(), args };
            assert(c.args_view() =~= seq!["-L"@, core@, game_path@, "-f"@]);
            Ok(c)
        },
        Emulator::Other { path, .. } => {
            let mut args: Vec<String> = Vec::new();
            args.push(game_path.clone());
            args.push("-f".to_owned());
            let c = LaunchCommand { program: path.clone(), args };
            assert(c.args_view() =~= seq![game_path@, "-f"@]);
            Ok(c)
        },
        Emulator::New(_) => Err(LaunchError::NoEmulator),
    }
}

/// What launching a game with the emulator named `emulator_name` does: nothing
/// (`None`) when no emulator has that name, otherwise the command of `game_command`.
pub fn launch_game(settings: &EmuSettings, emulator_name: &String, game_path: &String) -> (r: Option<
    Result<LaunchCommand, LaunchError>,
>)
    ensures
        !settings.emulators@.contains_key(emulator_name@) <==> r is None,
        settings.emulators@.contains_key(emulator_name@) ==> match settings.emulators@[emulator_name@] {
            Emulator::RetroArch { path, core, .. } => r matches Some(Ok(c)) && c.program@ == path@
                && c.args_view() == seq!["-L"@, core@, game_path@, "-f"@],
            Emulator::Other { path, .. } => r matches Some(Ok(c)) && c.program@ == path@
                && c.args_view() == seq![game_path@, "-f"@],
            Emulator::New(_) => r == Some(Err::<LaunchCommand, LaunchError>(LaunchError::NoEmulator)),
        },
{
    match settings.emulators.get(emulator_name) {
        Some(e) => Some(game_command(e, game_path)),
        None => None,
    }
}

/// The kinds of emulator the editor offers.
#[derive(Clone, Copy, Debug, PartialEq, Eq)]
pub enum EmuKind {
    RetroArch,
    Other,
    New,
}

/// The kind of an emulator.
pub fn kind_of(e: &Emulator) -> (k: EmuKind)
    ensures
        (k == EmuKind::RetroArch) == (e is RetroArch),
        (k == EmuKind::Other) == (e is Other),
        (k == EmuKind::New) == (e is New),
{
    match e {
        Emulator::RetroArch { .. } => EmuKind::RetroArch,
        Emulator::Other { .. } => EmuKind::Other,
        Emulator::New(_) => EmuKind::New,
    }
}

/// The emulator the editor starts from when kind `kind` is picked for the entry
/// `key`: named after the key, with empty paths and no fullscreen; picking `New`
/// gives a `New` emulator with an empty path.
pub fn blank_emulator(kind: EmuKind, key: String) -> (e: Emulator)
    ensures
        kind == EmuKind::RetroArch ==> (e matches Emulator::RetroArch {
            name,
            path,
            default_fullscreen,
            save_path,
            git_path,
            core,
        } && name@ == key@ && path@.len() == 0 && !default_fullscreen && save_path@.len() == 0
            && git_path@.len() == 0 && core@.len() == 0),
        kind == EmuKind::Other ==> (e matches Emulator::Other {
            name,
            path,
            default_fullscreen,
            save_path,
            git_path,
        } && name@ == key@ && path@.len() == 0 && !default_fullscreen && save_path@.len() == 0
            && git_path@.len() == 0),
        kind == EmuKind::New ==> (e matches Emulator::New(p) && p@.len() == 0),
{
    match kind {
        EmuKind::RetroArch => Emulator::RetroArch {
            name: key,
            path: String::new(),
            default_fullscreen: false,
            save_path: String::new(),
            git_path: String::new(),
            core: String::new(),
        },
        EmuKind::Other => Emulator::Other {
            name: key,
            path: String::new(),
            default_fullscreen: false,
            save_path: String::new(),
            git_path: String::new(),
        },
        EmuKind::New => Emulator::New(String::new()),
    }
}

/// The entry the editor opens for "+ Add Emulator": the key "New" and a `New`
/// emulator with an empty path.
pub fn add_emulator() -> (r: (String, Emulator))
    ensures
        r.0@ == "New"@,
        r.1 matches Emulator::New(p) && p@.len() == 0,
{
    ("New".to_owned(), Emulator::New(String::new()))
}


/// Saving an emulator, renamed or not, leaves every other emulator as it was: a
/// name other than the edited key and the saved name is in the table after the
/// save exactly when it was before, with the same emulator.
pub proof fn law_save_keeps_other_emulators(
    table: Map<Seq<char>, Emulator>,
    key: Seq<char>,
    e: Emulator,
    n: Seq<char>,
)
    requires
        n != key,
        n != e.name_view(),
    ensures
        saved_emulators(table, key, e).contains_key(n) == table.contains_key(n),
        table.contains_key(n) ==> saved_emulators(table, key, e)[n] == table[n],
{
}

/// The table after a save holds exactly the names it held, less the edited key when
/// the emulator was renamed, plus the saved name.
pub proof fn law_save_names(table: Map<Seq<char>, Emulator>, key: Seq<char>, e: Emulator)
    ensures
        saved_emulators(table, key, e).dom() == (if key == e.name_view() {
            table.dom().insert(key)
        } else {
            table.dom().remove(key).insert(e.name_view())
        }),
{
    assert(saved_emulators(table, key, e).dom() =~= (if key == e.name_view() {
        table.dom().insert(key)
    } else {
        table.dom().remove(key).insert(e.name_view())
    }));
}

/// Saving an emulator without renaming it changes no game.
pub proof fn law_save_without_rename_keeps_games(
    games: Map<u32, GameView>,
    key: Seq<char>,
    e: Emulator,
)
    requires
        key == e.name_view(),
    ensures
        games_after_save(games, key, e) == games,
{
}


/// A save that renames an emulator changes nothing but the emulator name of the
/// games that used the old name: those games keep their name, extension, path and
/// fullscreen setting, and every other game stays as it was.
pub proof fn law_rename_touches_only_its_games(
    games: Map<u32, GameView>,
    key: Seq<char>,
    e: Emulator,
    id: u32,
)
    requires
        games.contains_key(id),
    ensures
        games[id].emulator != key ==> games_after_save(games, key, e)[id] == games[id],
        games_after_save(games, key, e)[id].name == games[id].name,
        games_after_save(games, key, e)[id].extension == games[id].extension,
        games_after_save(games, key, e)[id].path == games[id].path,
        games_after_save(games, key, e)[id].fullscreen == games[id].fullscreen,
{
}

} // verus!
