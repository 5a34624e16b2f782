//! The launcher's settings: games, emulators and the save repository.
//! Paths are held as strings.

use std::collections::HashMap;
use vstd::prelude::*;

use crate::table::NamedTable;

verus! {

/// A game file found under the project's `Games` folder.
#[derive(Clone, Debug, Default, PartialEq, Eq)]
pub struct Game {
    pub name: String,
    pub extension: String,
    pub path: String,
    pub fullscreen: bool,
    /// The name of the emulator that runs the game; empty when none is chosen.
    pub emulator: String,
}

/// A game as text and flags.
pub struct GameView {
    pub name: Seq<char>,
    pub extension: Seq<char>,
    pub path: Seq<char>,
    pub fullscreen: bool,
    pub emulator: Seq<char>,
}

impl GameView {
    /// The same game assigned to emulator `e`.
    pub open spec fn with_emulator(self, e: Seq<char>) -> GameView {
        GameView { emulator: e, ..self }
    }
}

impl View for Game {
    type V = GameView;

    open spec fn view(&self) -> GameView {
        GameView {
            name: self.name@,
            extension: self.extension@,
            path: self.path@,
            fullscreen: self.fullscreen,
            emulator: self.emulator@,
        }
    }
}

/// The games of a catalogue, each seen as text and flags.
pub open spec fn games_view(games: Map<u32, Game>) -> Map<u32, GameView> {
    games.map_values(|g: Game| g@)
}

/// An emulator the launcher can start. `New` is one being created in the editor,
/// of which only a path is known.
#[derive(Clone, Debug, PartialEq, Eq)]
pub enum Emulator {
    RetroArch {
        name: String,
        path: String,
        default_fullscreen: bool,
        save_path: String,
        git_path: String,
        core: String,
    },
    Other {
        name: String,
        path: String,
        default_fullscreen: bool,
        save_path: String,
        git_path: String,
    },
    New(String),
}

impl Default for Emulator {
    fn default() -> (e: Self)
        ensures
            e matches Emulator::New(p) && p@ == Seq::<char>::empty(),
    {
        Emulator::New(String::new())
    }
}

impl Emulator {
    /// The name shown for the emulator; a `New` one is called "New Emulator".
    pub open spec fn name_view(&self) -> Seq<char> {
        match self {
            Emulator::RetroArch { name, .. } => name@,
            Emulator::Other { name, .. } => name@,
            Emulator::New(_) => "New Emulator"@,
        }
    }

    /// The executable's path.
    pub open spec fn path_view(&self) -> Seq<char> {
        match self {
            Emulator::RetroArch { path, .. } => path@,
            Emulator::Other { path, .. } => path@,
            Emulator::New(path) => path@,
        }
    }

    /// Whether games start in fullscreen; never for a `New` emulator.
    pub open spec fn fullscreen_view(&self) -> bool {
        match self {
            Emulator::RetroArch { default_fullscreen, .. } => *default_fullscreen,
            Emulator::Other { default_fullscreen, .. } => *default_fullscreen,
            Emulator::New(_) => false,
        }
    }

    /// The RetroArch core; empty for any other emulator.
    pub open spec fn core_view(&self) -> Seq<char> {
        match self {
            Emulator::RetroArch { core, .. } => core@,
            _ => Seq::empty(),
        }
    }

    /// Where the emulator keeps its save files; empty for a `New` emulator.
    pub open spec fn save_path_view(&self) -> Seq<char> {
        match self {
            Emulator::RetroArch { save_path, .. } => save_path@,
            Emulator::Other { save_path, .. } => save_path@,
            Emulator::New(_) => Seq::empty(),
        }
    }

    /// The folder of the save repository that mirrors this emulator's saves; empty
    /// for a `New` emulator.
    pub open spec fn git_path_view(&self) -> Seq<char> {
        match self {
            Emulator::RetroArch { git_path, .. } => git_path@,
            Emulator::Other { git_path, .. } => git_path@,
            Emulator::New(_) => Seq::empty(),
        }
    }

    pub open spec fn with_name(self, s: String) -> Emulator {
        match self {
            Emulator::RetroArch { name: _, path, default_fullscreen, save_path, git_path, core } =>
                Emulator::RetroArch { name: s, path, default_fullscreen, save_path, git_path, core },
            Emulator::Other { name: _, path, default_fullscreen, save_path, git_path } =>
                Emulator::Other { name: s, path, default_fullscreen, save_path, git_path },
            Emulator::New(p) => Emulator::New(p),
        }
    }

    pub open spec fn with_path(self, p: String) -> Emulator {
        match self {
            Emulator::RetroArch { name, path: _, default_fullscreen, save_path, git_path, core } =>
                Emulator::RetroArch { name, path: p, default_fullscreen, save_path, git_path, core },
            Emulator::Other { name, path: _, default_fullscreen, save_path, git_path } =>
                Emulator::Other { name, path: p, default_fullscreen, save_path, git_path },
            Emulator::New(_) => Emulator::New(p),
        }
    }

    pub open spec fn with_fullscreen(self, b: bool) -> Emulator {
        match self {
            Emulator::RetroArch { name, path, default_fullscreen: _, save_path, git_path, core } =>
                Emulator::RetroArch { name, path, default_fullscreen: b, save_path, git_path, core },
            Emulator::Other { name, path, default_fullscreen: _, save_path, git_path } =>
                Emulator::Other { name, path, default_fullscreen: b, save_path, git_path },
            Emulator::New(p) => Emulator::New(p),
        }
    }

    pub open spec fn with_core(self, c: String) -> Emulator {
        match self {
            Emulator::RetroArch { name, path, default_fullscreen, save_path, git_path, core: _ } =>
                Emulator::RetroArch { name, path, default_fullscreen, save_path, git_path, core: c },
            other => other,
        }
    }

    pub open spec fn with_save_path(self, p: String) -> Emulator {
        match self {
            Emulator::RetroArch { name, path, default_fullscreen, save_path: _, git_path, core } =>
                Emulator::RetroArch { name, path, default_fullscreen, save_path: p, git_path, core },
            Emulator::Other { name, path, default_fullscreen, save_path: _, git_path } =>
                Emulator::Other { name, path, default_fullscreen, save_path: p, git_path },
            Emulator::New(q) => Emulator::New(q),
        }
    }

    pub open spec fn with_git_path(self, p: String) -> Emulator {
        match self {
            Emulator::RetroArch { name, path, default_fullscreen, save_path, git_path: _, core } =>
                Emulator::RetroArch { name, path, default_fullscreen, save_path, git_path: p, core },
            Emulator::Other { name, path, default_fullscreen, save_path, git_path: _ } =>
                Emulator::Other { name, path, default_fullscreen, save_path, git_path: p },
            Emulator::New(q) => Emulator::New(q),
        }
    }

    pub fn get_name(&self) -> (r: &str)
        ensures
            r@ == self.name_view(),
    {
        match self {
            Emulator::RetroArch { name, .. } => name.as_str(),
            Emulator::Other { name, .. } => name.as_str(),
            Emulator::New(_v) => "New Emulator",
        }
    }

    pub fn get_path(&self) -> (r: &String)
        ensures
            r@ == self.path_view(),
    {
        match self {
            Emulator::RetroArch { path, .. } => path,
            Emulator::Other { path, .. } => path,
            Emulator::New(path) => path,
        }
    }

    pub fn get_fullscreen(&self) -> (r: &bool)
        ensures
            *r == self.fullscreen_view(),
    {
        match self {
            Emulator::RetroArch { default_fullscreen, .. } => default_fullscreen,
            Emulator::Other { default_fullscreen, .. } => default_fullscreen,
            Emulator::New(..) => &false,
        }
    }

    pub fn get_core(&self) -> (r: String)
        ensures
            r@ == self.core_view(),
    {
        match self {
            Emulator::RetroArch { core, .. } => core.clone(),
            _ => String::new(),
        }
    }

    pub fn get_save_path(&self) -> (r: String)
        ensures
            r@ == self.save_path_view(),
    {
        match self {
            Emulator::RetroArch { save_path, .. } => save_path.clone(),
            Emulator::Other { save_path, .. } => save_path.clone(),
            _ => String::new(),
        }
    }

    pub fn get_git_path(&self) -> (r: String)
        ensures
            r@ == self.git_path_view(),
    {
        match self {
            Emulator::RetroArch { git_path, .. } => git_path.clone(),
            Emulator::Other { git_path, .. } => git_path.clone(),
            _ => String::new(),
        }
    }

    /// Renames a RetroArch or Other emulator; a `New` one is left as it is.
    pub fn set_name(&mut self, s: String)
        ensures
            *final(self) == old(self).with_name(s),
    {
        match self {
            Emulator::RetroArch { name, .. } => *name = s,
            Emulator::Other { name, .. } => *name = s,
            _ => {},
        }
    }

    pub fn set_path(&mut self, p: String)
        ensures
            *final(self) == old(self).with_path(p),
    {
        match self {
            Emulator::RetroArch { path, .. } => *path = p,
            Emulator::Other { path, .. } => *path = p,
            Emulator::New(path) => *path = p,
        }
    }

    /// Sets the fullscreen default of a RetroArch or Other emulator.
    pub fn set_fullscreen(&mut self, b: bool)
        ensures
            *final(self) == old(self).with_fullscreen(b),
    {
        match self {
            Emulator::RetroArch { default_fullscreen, .. } => *default_fullscreen = b,
            Emulator::Other { default_fullscreen, .. } => *default_fullscreen = b,
            _ => {},
        }
    }

    /// Sets the core of a RetroArch emulator; other emulators have none.
    pub fn set_core(&mut self, p: String)
        ensures
            *final(self) == old(self).with_core(p),
    {
        match self {
            Emulator::RetroArch { core, .. } => *core = p,
            _ => {},
        }
    }

    pub fn set_save_path(&mut self, p: String)
        ensures
            *final(self) == old(self).with_save_path(p),
    {
        match self {
            Emulator::RetroArch { save_path, .. } => *save_path = p,
            Emulator::Other { save_path, .. } => *save_path = p,
            _ => {},
        }
    }

    pub fn set_git_path(&mut self, p: String)
        ensures
            *final(self) == old(self).with_git_path(p),
    {
        match self {
            Emulator::RetroArch { git_path, .. } => *git_path = p,
            Emulator::Other { git_path, .. } => *git_path = p,
            _ => {},
        }
    }
}

/// The save repository: its name, the folder that holds it, and the save folders
/// found in it (name to path).
#[derive(Debug)]
pub struct EmuGit {
    repo_name: String,
    directory: String,
    save_dir: NamedTable<String>,
}

impl EmuGit {
    pub closed spec fn repo_name_view(&self) -> Seq<char> {
        self.repo_name@
    }

    pub closed spec fn directory_view(&self) -> Seq<char> {
        self.directory@
    }

    /// The save folders, name to path.
    pub closed spec fn save_dirs(&self) -> Map<Seq<char>, String> {
        self.save_dir@
    }

    /// The save folders in table order.
    pub closed spec fn save_dir_pairs(&self) -> Seq<(Seq<char>, String)> {
        self.save_dir.pairs()
    }

    /// A repository description from its parts.
    pub fn new(repo_name: String, directory: String, save_dir: NamedTable<String>) -> (g: Self)
        ensures
            g.repo_name_view() == repo_name@,
            g.directory_view() == directory@,
            g.save_dirs() == save_dir@,
            g.save_dir_pairs() == save_dir.pairs(),
    {
        EmuGit { repo_name, directory, save_dir }
    }

    pub fn get_directory(&self) -> (r: &String)
        ensures
            r@ == self.directory_view(),
    {
        &self.directory
    }

    pub fn get_repo_name(&self) -> (r: &str)
        ensures
            r@ == self.repo_name_view(),
    {
        self.repo_name.as_str()
    }

    pub fn set_directory(&mut self, p: String)
        ensures
            final(self).directory_view() == p@,
            final(self).repo_name_view() == old(self).repo_name_view(),
            final(self).save_dirs() == old(self).save_dirs(),
            final(self).save_dir_pairs() == old(self).save_dir_pairs(),
    {
        self.directory = p;
    }

    pub fn set_repo_name(&mut self, s: String)
        ensures
            final(self).repo_name_view() == s@,
            final(self).directory_view() == old(self).directory_view(),
            final(self).save_dirs() == old(self).save_dirs(),
            final(self).save_dir_pairs() == old(self).save_dir_pairs(),
    {
        self.repo_name = s;
    }

    pub fn get_save_dir(&self) -> (r: &NamedTable<String>)
        ensures
            r@ == self.save_dirs(),
            r.pairs() == self.save_dir_pairs(),
    {
        &self.save_dir
    }

    pub fn set_save_dir(&mut self, hash: NamedTable<String>)
        ensures
            final(self).save_dirs() == hash@,
            final(self).save_dir_pairs() == hash.pairs(),
            final(self).repo_name_view() == old(self).repo_name_view(),
            final(self).directory_view() == old(self).directory_view(),
    {
        self.save_dir = hash;
    }

    /// Records the save folder `v` under the name `k`, replacing any folder of that name.
    pub fn add_save_dir(&mut self, k: String, v: String)
        ensures
            final(self).save_dirs() == old(self).save_dirs().insert(k@, v),
            final(self).repo_name_view() == old(self).repo_name_view(),
            final(self).directory_view() == old(self).directory_view(),
    {
        self.save_dir.insert(k, v);
    }
}

impl Default for EmuGit {
    fn default() -> (g: Self)
        ensures
            g.repo_name_view() == Seq::<char>::empty(),
            g.directory_view() == Seq::<char>::empty(),
            g.save_dirs() == Map::<Seq<char>, String>::empty(),
            g.save_dir_pairs() == Seq::<(Seq<char>, String)>::empty(),
    {
        EmuGit { repo_name: String::new(), directory: String::new(), save_dir: NamedTable::new() }
    }
}

/// All the launcher's settings.
#[derive(Debug)]
pub struct EmuSettings {
    pub username: String,
    /// Size of the game tiles.
    pub game_size: u8,
    /// Size of the emulator tiles.
    pub emu_size: u8,
    /// The folder that holds `Games` and `Saves`.
    pub project_folder: String,
    /// Whether game names are shown without their `(...)` and `[...]` groups.
    pub pure_name: bool,
    /// Games by identifier.
    pub games: HashMap<u32, Game>,
    /// Emulators by name.
    pub emulators: NamedTable<Emulator>,
    pub git: EmuGit,
}

/// The tile size that settings start with.
pub const DEFAULT_TILE_SIZE: u8 = 5;

impl Default for EmuSettings {
    /// Empty settings with tiles of size 5.
    fn default() -> (s: Self)
        ensures
            s.username@ == Seq::<char>::empty(),
            s.game_size == DEFAULT_TILE_SIZE,
            s.emu_size == DEFAULT_TILE_SIZE,
            s.project_folder@ == Seq::<char>::empty(),
            !s.pure_name,
            s.games@ == Map::<u32, Game>::empty(),
            s.emulators@ == Map::<Seq<char>, Emulator>::empty(),
            s.emulators.pairs() == Seq::<(Seq<char>, Emulator)>::empty(),
            s.git.repo_name_view() == Seq::<char>::empty(),
            s.git.directory_view() == Seq::<char>::empty(),
            s.git.save_dirs() == Map::<Seq<char>, String>::empty(),
    {
        EmuSettings {
            username: String::new(),
            game_size: DEFAULT_TILE_SIZE,
            emu_size: DEFAULT_TILE_SIZE,
            project_folder: String::new(),
            pure_name: false,
            games: HashMap::new(),
            emulators: NamedTable::new(),
            git: EmuGit::default(),
        }
    }
}

/// Reading a field of an emulator after writing it gives what was written, for
/// every emulator that has the field: all have a path; RetroArch and Other ones
/// have a name, a fullscreen default, a save path and a repository path; only
/// RetroArch ones have a core.
pub proof fn law_emulator_read_after_write(e: Emulator, s: String, b: bool)
    ensures
        e.with_path(s).path_view() == s@,
        !(e is New) ==> e.with_name(s).name_view() == s@,
        !(e is New) ==> e.with_fullscreen(b).fullscreen_view() == b,
        !(e is New) ==> e.with_save_path(s).save_path_view() == s@,
        !(e is New) ==> e.with_git_path(s).git_path_view() == s@,
        e is RetroArch ==> e.with_core(s).core_view() == s@,
{
}

/// A write changes only its own field: the kind of emulator and every other field
/// stay as they were; on an emulator without the field it changes nothing.
pub proof fn law_emulator_write_is_local(e: Emulator, s: String, b: bool)
    ensures
        e.with_name(s).path_view() == e.path_view(),
        e.with_name(s).save_path_view() == e.save_path_view(),
        e.with_name(s).git_path_view() == e.git_path_view(),
        e.with_name(s).core_view() == e.core_view(),
        e.with_name(s).fullscreen_view() == e.fullscreen_view(),
        e.with_path(s).name_view() == e.name_view(),
        e.with_path(s).save_path_view() == e.save_path_view(),
        e.with_save_path(s).path_view() == e.path_view(),
        e.with_save_path(s).git_path_view() == e.git_path_view(),
        e.with_git_path(s).save_path_view() == e.save_path_view(),
        e.with_core(s).path_view() == e.path_view(),
        e.with_fullscreen(b).name_view() == e.name_view(),
        e is New ==> e.with_name(s) == e && e.with_fullscreen(b) == e && e.with_core(s) == e
            && e.with_save_path(s) == e && e.with_git_path(s) == e,
        e is Other ==> e.with_core(s) == e,
        (e.with_name(s) is RetroArch) == (e is RetroArch),
        (e.with_path(s) is Other) == (e is Other),
{
}

/// The value of a decimal digit.
pub open spec fn digit_value(c: char) -> int {
    if c == '0' { 0 }
    else if c == '1' { 1 }
    else if c == '2' { 2 }
    else if c == '3' { 3 }
    else if c == '4' { 4 }
    else if c == '5' { 5 }
    else if c == '6' { 6 }
    else if c == '7' { 7 }
    else if c == '8' { 8 }
    else { 9 }
}

/// Whether `c` is one of `0` to `9`.
pub open spec fn is_digit(c: char) -> bool {
    '0' <= c && c <= '9'
}

/// The number written by the decimal digits `d`.
pub open spec fn digits_value(d: Seq<char>) -> int
    decreases d.len(),
{
    if d.len() == 0 {
        0
    } else {
        digits_value(d.drop_last()) * 10 + digit_value(d.last())
    }
}

/// The text after an optional leading `+`.
pub open spec fn unsigned_digits(s: Seq<char>) -> Seq<char> {
    if s.len() > 0 && s[0] == '+' {
        s.drop_first()
    } else {
        s
    }
}

/// Whether every character of `d` is a decimal digit.
pub open spec fn all_digits(d: Seq<char>) -> bool {
    forall|i: int| 0 <= i < d.len() ==> is_digit(#[trigger] d[i])
}

/// What `str::parse::<u8>` gives: an optional `+`, then at least one decimal digit,
/// for a value of at most 255.
pub open spec fn parse_u8(s: Seq<char>) -> Option<u8> {
    let d = unsigned_digits(s);
    if d.len() > 0 && all_digits(d) && digits_value(d) <= 255 {
        Some(digits_value(d) as u8)
    } else {
        None
    }
}

/// The tile size that the size slider's text asks for; 5 when it is not a number
/// from 0 to 255.
pub open spec fn tile_size_of(s: Seq<char>) -> u8 {
    match parse_u8(s) {
        Some(v) => v,
        None => DEFAULT_TILE_SIZE,
    }
}

proof fn lemma_digits_value_grows(d: Seq<char>, k: int)
    requires
        0 <= k <= d.len(),
        forall|i: int| 0 <= i < d.len() ==> is_digit(#[trigger] d[i]),
    ensures
        digits_value(d.take(k)) <= digits_value(d),
        0 <= digits_value(d.take(k)),
    decreases d.len(),
{
    if k < d.len() {
        let d0 = d.drop_last();
        assert forall|i: int| 0 <= i < d0.len() implies is_digit(#[trigger] d0[i]) by {
            assert(d0[i] == d[i]);
        }
        lemma_digits_value_grows(d0, k);
        assert(d0.take(k) =~= d.take(k));
        lemma_digits_value_grows(d0, d0.len() as int);
        assert(d0.take(d0.len() as int) =~= d0);
    } else {
        assert(d.take(k) =~= d);
        if d.len() > 0 {
            let d0 = d.drop_last();
            assert forall|i: int| 0 <= i < d0.len() implies is_digit(#[trigger] d0[i]) by {
                assert(d0[i] == d[i]);
            }
            lemma_digits_value_grows(d0, d0.len() as int);
            assert(d0.take(d0.len() as int) =~= d0);
        }
    }
}

fn digit_of(c: char) -> (v: u8)
    requires
        is_digit(c),
    ensures
        v == digit_value(c),
{
    if c == '0' { 0 }
    else if c == '1' { 1 }
    else if c == '2' { 2 }
    else if c == '3' { 3 }
    else if c == '4' { 4 }
    else if c == '5' { 5 }
    else if c == '6' { 6 }
    else if c == '7' { 7 }
    else if c == '8' { 8 }
    else { 9 }
}

/// Reads a number from 0 to 255 as `str::parse::<u8>` does.
pub fn parse_u8_text(s: &str) -> (r: Option<u8>)
    ensures
        r == parse_u8(s@),
{
    let cs = crate::text::chars_of(s);
    let start: usize = if cs.len() > 0 && cs[0] == '+' {
        1
    } else {
        0
    };
    let ghost d = unsigned_digits(s@);
    assert(d =~= cs@.skip(start as int));
    if start == cs.len() {
        return None;
    }
    let mut value: u8 = 0;
    let mut k: usize = start;
    while k < cs.len()
        invariant
            start <= k <= cs.len(),
            cs@ == s@,
            d == cs@.skip(start as int),
            d == unsigned_digits(s@),
            d.len() == cs.len() - start,
            d.len() > 0,
            forall|i: int| 0 <= i < k - start ==> is_digit(#[trigger] d[i]),
            value == digits_value(d.take(k - start)),
        decreases cs.len() - k,
    {
        let c = cs[k];
        if !('0' <= c && c <= '9') {
            assert(!is_digit(d[k - start]));
            assert(!all_digits(d));
            return None;
        }
        let dv = digit_of(c);
        proof {
            assert(d.take(k - start + 1).drop_last() =~= d.take(k - start));
            assert(d.take(k - start + 1).last() == c);
        }
        if value > 25 || (value == 25 && dv > 5) {
            proof {
                let n = (k - start + 1) as int;
                assert(digits_value(d.take(n)) > 255);
                if all_digits(d) {
                    lemma_digits_value_grows(d, n);
                    assert(digits_value(d) > 255);
                }
                assert(parse_u8(s@) is None);
            }
            return None;
        }
        value = value * 10 + dv;
        k = k + 1;
    }
    proof {
        assert(d.take(d.len() as int) =~= d);
    }
    Some(value)
}

/// The tile size typed or slid into a size input; 5 when the text is not a number
/// from 0 to 255.
pub fn parse_tile_size(s: &str) -> (r: u8)
    ensures
        r == tile_size_of(s@),
{
    match parse_u8_text(s) {
        Some(v) => v,
        None => DEFAULT_TILE_SIZE,
    }
}

} // verus!
