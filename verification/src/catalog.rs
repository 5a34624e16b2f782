//! The game catalogue: games found on disk, their display, and their order.

use std::collections::HashMap;
use vstd::prelude::*;
use vstd::std_specs::iter::IteratorSpec;

use crate::paths::{extension, extension_of, file_prefix, file_prefix_of, or_empty};
use crate::settings::{EmuSettings, Game, GameView, games_view};
use crate::text::{
    chars_of, lemma_lex_le_antisymmetric, lemma_lex_le_reflexive, lemma_lex_le_total, lemma_lex_le_transitive, lex_le,
    lowercase_of, strip_groups, strip_groups_spec, text_le, to_lowercase,
};

verus! {

broadcast use vstd::std_specs::hash::group_hash_axioms;

/// The identifiers of the catalogue, each once, in the map's own order.
pub fn game_ids(games: &HashMap<u32, Game>) -> (r: Vec<u32>)
    ensures
        r@.no_duplicates(),
        forall|id: u32| r@.contains(id) <==> games@.contains_key(id),
{
    let mut r: Vec<u32> = Vec::new();
    let ghost all = vstd::std_specs::hash::spec_keys_iter(games).remaining();
    for k in it: games.keys()
        invariant
            r@ == it.seq().take(it.index() as int).map_values(|k: &u32| *k),
            it.seq() == all,
    {
        r.push(*k);
        proof {
            assert(it.seq().take(it.index() + 1).map_values(|k: &u32| *k) =~= r@);
        }
    }
    proof {
        assert(r@ =~= all.unref());
        assert(all.unref().to_set() == games@.dom());
        assert forall|id: u32| r@.contains(id) <==> games@.contains_key(id) by {
            if r@.contains(id) {
                assert(all.unref().to_set().contains(id));
            }
            if games@.contains_key(id) {
                assert(all.unref().to_set().contains(id));
            }
        }
    }
    r
}

/// The catalogue entry made for a game file found at `p`: named after the file's
/// prefix, with the file's extension, not fullscreen, and no emulator chosen.
pub open spec fn game_for_path(p: Seq<char>) -> GameView {
    GameView {
        name: or_empty(file_prefix_of(p)),
        extension: or_empty(extension_of(p)),
        path: p,
        fullscreen: false,
        emulator: Seq::empty(),
    }
}

/// Makes the catalogue entry for a game file found at `path`.
pub fn game_from_path(path: String) -> (g: Game)
    ensures
        g@ == game_for_path(path@),
{
    let name = match file_prefix(path.as_str()) {
        Some(n) => n,
        None => String::new(),
    };
    let ext = match extension(path.as_str()) {
        Some(e) => e,
        None => String::new(),
    };
    Game { name, extension: ext, path, fullscreen: false, emulator: String::new() }
}

/// The scanned (identifier, path) pairs as numbers and text.
pub open spec fn scan_view(scanned: Seq<(u32, String)>) -> Seq<(u32, Seq<char>)> {
    scanned.map_values(|e: (u32, String)| (e.0, e.1@))
}

/// The catalogue after a folder scan: every scanned identifier not yet in the
/// catalogue gets the entry for the first path scanned with it; entries already
/// there stay as they are.
pub open spec fn merged_catalogue(
    games: Map<u32, GameView>,
    scanned: Seq<(u32, Seq<char>)>,
) -> Map<u32, GameView>
    decreases scanned.len(),
{
    if scanned.len() == 0 {
        games
    } else {
        let m = merged_catalogue(games, scanned.drop_last());
        let e = scanned.last();
        if m.contains_key(e.0) {
            m
        } else {
            m.insert(e.0, game_for_path(e.1))
        }
    }
}

/// The settings `b` differ from `a` in their games at most.
pub open spec fn same_but_games(a: &EmuSettings, b: &EmuSettings) -> bool {
    &&& a.username == b.username
    &&& a.game_size == b.game_size
    &&& a.emu_size == b.emu_size
    &&& a.project_folder == b.project_folder
    &&& a.pure_name == b.pure_name
    &&& a.emulators == b.emulators
    &&& a.git == b.git
}

/// Adds to the catalogue the games of a folder scan, given as (identifier, path)
/// pairs in the order they were found; games already known keep their settings.
pub fn get_games(settings: &mut EmuSettings, scanned: Vec<(u32, String)>)
    ensures
        games_view(final(settings).games@) == merged_catalogue(
            games_view(old(settings).games@),
            scan_view(scanned@),
        ),
        same_but_games(&*old(settings), &*final(settings)),
{
    let ghost sv = scan_view(scanned@);
    let ghost start = games_view(settings.games@);
    let mut i: usize = 0;
    while i < scanned.len()
        invariant
            i <= scanned.len(),
            sv == scan_view(scanned@),
            games_view(settings.games@) == merged_catalogue(start, sv.take(i as int)),
            same_but_games(&*old(settings), &*settings),
        decreases scanned.len() - i,
    {
        let id = scanned[i].0;
        proof {
            assert(sv.take(i + 1).drop_last() =~= sv.take(i as int));
            assert(sv.take(i + 1).last() == sv[i as int]);
        }
        if !settings.games.contains_key(&id) {
            let g = game_from_path(scanned[i].1.clone());
            let ghost before = settings.games@;
            settings.games.insert(id, g);
            proof {
                assert(games_view(settings.games@) =~= games_view(before).insert(id, g@));
            }
        }
        i = i + 1;
    }
    proof {
        assert(sv.take(scanned.len() as int) =~= sv);
    }
}

/// A scan never changes a game already in the catalogue, so choices made for it
/// (such as its emulator) survive rescanning.
pub proof fn law_scan_keeps_known_games(games: Map<u32, GameView>, scanned: Seq<(u32, Seq<char>)>)
    ensures
        forall|id: u32|
            games.contains_key(id) ==> #[trigger] merged_catalogue(games, scanned).contains_key(id)
                && merged_catalogue(games, scanned)[id] == games[id],
    decreases scanned.len(),
{
    if scanned.len() > 0 {
        let s0 = scanned.drop_last();
        law_scan_keeps_known_games(games, s0);
        let m0 = merged_catalogue(games, s0);
        assert forall|id: u32| games.contains_key(id) implies #[trigger] merged_catalogue(
            games,
            scanned,
        ).contains_key(id) && merged_catalogue(games, scanned)[id] == games[id] by {
            assert(merged_catalogue(games, s0).contains_key(id));
            assert(m0[id] == games[id]);
        }
    }
}

/// After a scan the catalogue holds exactly the games it held and the scanned ones.
pub proof fn law_scan_domain(games: Map<u32, GameView>, scanned: Seq<(u32, Seq<char>)>)
    ensures
        forall|id: u32|
            #[trigger] merged_catalogue(games, scanned).contains_key(id) <==> games.contains_key(id)
                || exists|j: int| 0 <= j < scanned.len() && scanned[j].0 == id,
    decreases scanned.len(),
{
    if scanned.len() > 0 {
        let s0 = scanned.drop_last();
        let last = scanned.len() - 1;
        law_scan_domain(games, s0);
        let m0 = merged_catalogue(games, s0);
        assert forall|id: u32|
            #[trigger] merged_catalogue(games, scanned).contains_key(id) <==> games.contains_key(id)
                || exists|j: int| 0 <= j < scanned.len() && scanned[j].0 == id by {
            assert(merged_catalogue(games, scanned).contains_key(id) <==> m0.contains_key(id)
                || scanned[last].0 == id);
            assert(m0.contains_key(id) <==> games.contains_key(id) || exists|j: int|
                0 <= j < s0.len() && s0[j].0 == id);
            if exists|j: int| 0 <= j < scanned.len() && scanned[j].0 == id {
                let j = choose|j: int| 0 <= j < scanned.len() && scanned[j].0 == id;
                if j < s0.len() {
                    assert(s0[j].0 == id);
                }
            }
            if exists|j: int| 0 <= j < s0.len() && s0[j].0 == id {
                let j = choose|j: int| 0 <= j < s0.len() && s0[j].0 == id;
                assert(scanned[j].0 == id);
            }
            if scanned[last].0 == id {
                assert(exists|j: int| 0 <= j < scanned.len() && scanned[j].0 == id);
            }
        }
    }
}

/// A game new to the catalogue gets the entry for the first path scanned with its
/// identifier.
pub proof fn law_scan_first_path_wins(
    games: Map<u32, GameView>,
    scanned: Seq<(u32, Seq<char>)>,
    j: int,
)
    requires
        0 <= j < scanned.len(),
        !games.contains_key(scanned[j].0),
        forall|m: int| 0 <= m < j ==> scanned[m].0 != scanned[j].0,
    ensures
        merged_catalogue(games, scanned)[scanned[j].0] == game_for_path(scanned[j].1),
    decreases scanned.len(),
{
    let id = scanned[j].0;
    let s0 = scanned.drop_last();
    if j < s0.len() {
        law_scan_first_path_wins(games, s0, j);
        assert(s0[j] == scanned[j]);
        law_scan_domain(games, s0);
        assert(merged_catalogue(games, s0).contains_key(id));
    } else {
        law_scan_domain(games, s0);
        assert forall|m: int| 0 <= m < s0.len() implies s0[m].0 != id by {
            assert(s0[m] == scanned[m]);
        }
        assert(!merged_catalogue(games, s0).contains_key(id));
    }
}

/// Scanning the same folder twice leaves the catalogue as one scan does.
pub proof fn law_scan_idempotent(games: Map<u32, GameView>, scanned: Seq<(u32, Seq<char>)>)
    ensures
        merged_catalogue(merged_catalogue(games, scanned), scanned) == merged_catalogue(
            games,
            scanned,
        ),
{
    let m = merged_catalogue(games, scanned);
    law_scan_domain(games, scanned);
    assert forall|j: int| 0 <= j < scanned.len() implies m.contains_key(#[trigger] scanned[j].0) by {
        assert(exists|k: int| 0 <= k < scanned.len() && scanned[k].0 == scanned[j].0);
    }
    lemma_scan_of_known(m, scanned);
}

/// A scan whose identifiers are all known already changes nothing.
proof fn lemma_scan_of_known(games: Map<u32, GameView>, scanned: Seq<(u32, Seq<char>)>)
    requires
        forall|j: int| 0 <= j < scanned.len() ==> games.contains_key(#[trigger] scanned[j].0),
    ensures
        merged_catalogue(games, scanned) == games,
    decreases scanned.len(),
{
    if scanned.len() > 0 {
        let s0 = scanned.drop_last();
        assert forall|j: int| 0 <= j < s0.len() implies games.contains_key(#[trigger] s0[j].0) by {
            assert(s0[j] == scanned[j]);
        }
        lemma_scan_of_known(games, s0);
        assert(games.contains_key(scanned[scanned.len() - 1].0));
    }
}

/// The catalogue with every game that used emulator `from` moved to emulator `to`.
pub open spec fn retargeted(
    games: Map<u32, GameView>,
    from: Seq<char>,
    to: Seq<char>,
) -> Map<u32, GameView> {
    games.map_values(
        |g: GameView|
            if g.emulator == from {
                g.with_emulator(to)
            } else {
                g
            },
    )
}

fn game_with_emulator(g: &Game, e: &String) -> (r: Game)
    ensures
        r@ == g@.with_emulator(e@),
{
    Game {
        name: g.name.clone(),
        extension: g.extension.clone(),
        path: g.path.clone(),
        fullscreen: g.fullscreen,
        emulator: e.clone(),
    }
}

/// Moves every game that uses emulator `from` to emulator `to`.
pub fn retarget_games(games: &mut HashMap<u32, Game>, from: &String, to: &String)
    ensures
        games_view(final(games)@) == retargeted(games_view(old(games)@), from@, to@),
{
    let ghost start = games_view(games@);
    let ids = game_ids(games);
    let mut i: usize = 0;
    while i < ids.len()
        invariant
            i <= ids.len(),
            ids@.no_duplicates(),
            forall|id: u32| ids@.contains(id) <==> start.contains_key(id),
            games_view(games@).dom() == start.dom(),
            forall|id: u32|
                #[trigger] start.contains_key(id) ==> games_view(games@)[id] == (if ids@.take(
                    i as int,
                ).contains(id) {
                    retargeted(start, from@, to@)[id]
                } else {
                    start[id]
                }),
        decreases ids.len() - i,
    {
        let id = ids[i];
        proof {
            assert(ids@.contains(id));
            assert(!ids@.take(i as int).contains(id)) by {
                if ids@.take(i as int).contains(id) {
                    let k = choose|k: int| 0 <= k < i && #[trigger] ids@.take(i as int)[k] == id;
                    assert(ids@[k] == ids@[i as int]);
                }
            }
            assert forall|x: u32| #[trigger] ids@.take(i + 1).contains(x) <==> ids@.take(
                i as int,
            ).contains(x) || x == id by {
                if ids@.take(i + 1).contains(x) {
                    let k = choose|k: int| 0 <= k < i + 1 && #[trigger] ids@.take(i + 1)[k] == x;
                    if k < i {
                        assert(ids@.take(i as int)[k] == x);
                    }
                }
                if ids@.take(i as int).contains(x) {
                    let k = choose|k: int| 0 <= k < i && #[trigger] ids@.take(i as int)[k] == x;
                    assert(ids@.take(i + 1)[k] == x);
                }
                if x == id {
                    assert(ids@.take(i + 1)[i as int] == x);
                }
            }
        }
        let ghost before = games@;
        let replacement = match games.get(&id) {
            Some(g) => {
                if g.emulator == *from {
                    Some(game_with_emulator(g, to))
                } else {
                    None
                }
            },
            None => None,
        };
        if let Some(ng) = replacement {
            games.insert(id, ng);
            proof {
                assert(games_view(games@) =~= games_view(before).insert(id, ng@));
            }
        }
        i = i + 1;
    }
    proof {
        assert(ids@.take(ids.len() as int) =~= ids@);
        assert(games_view(games@) =~= retargeted(start, from@, to@));
    }
}

/// The settings after game `id` is assigned emulator `emulator`; an unknown game
/// changes nothing.
pub fn set_game_emulator(settings: &mut EmuSettings, id: u32, emulator: String)
    ensures
        games_view(final(settings).games@) == (if old(settings).games@.contains_key(id) {
            games_view(old(settings).games@).insert(
                id,
                games_view(old(settings).games@)[id].with_emulator(emulator@),
            )
        } else {
            games_view(old(settings).games@)
        }),
        same_but_games(&*old(settings), &*final(settings)),
{
    let replacement = match settings.games.get(&id) {
        Some(g) => Some(game_with_emulator(g, &emulator)),
        None => None,
    };
    let ghost before = settings.games@;
    if let Some(ng) = replacement {
        settings.games.insert(id, ng);
        proof {
            assert(games_view(settings.games@) =~= games_view(before).insert(id, ng@));
        }
    }
}

/// The label of a game tile: the game's name, without its `(...)` and `[...]`
/// groups when the "pure name" setting is on.
pub fn display_name(settings: &EmuSettings, id: u32) -> (r: String)
    requires
        settings.games@.contains_key(id),
    ensures
        r@ == (if settings.pure_name {
            strip_groups_spec(settings.games@[id].name@)
        } else {
            settings.games@[id].name@
        }),
{
    let g = settings.games.get(&id).unwrap();
    if settings.pure_name {
        strip_groups(g.name.as_str())
    } else {
        g.name.clone()
    }
}

/// How the game tiles are ordered.
#[derive(Clone, Copy, Debug, PartialEq, Eq)]
pub enum SortMethod {
    ByName,
    ByExtension,
    /// Offered by the interface; orders by name.
    ByFolder,
}

/// The key that orders game `id`: its name, or its extension, in lower case; an
/// identifier not in the catalogue has the empty key.
pub open spec fn sort_key(games: Map<u32, Game>, by_extension: bool, id: u32) -> Seq<char> {
    if games.contains_key(id) {
        if by_extension {
            lowercase_of(games[id].extension@)
        } else {
            lowercase_of(games[id].name@)
        }
    } else {
        Seq::empty()
    }
}

/// Every element of `r` comes no later than those after it, by `key`.
pub open spec fn sorted_by_key(r: Seq<u32>, key: spec_fn(u32) -> Seq<char>) -> bool {
    forall|a: int, b: int| 0 <= a < b < r.len() ==> lex_le(key(r[a]), key(r[b]))
}

/// `p` shows `r` to be `s` stably sorted by `key`: `r[i]` is `s[p[i]]`, each
/// position of `s` is used once, `r` is sorted, and elements with equal keys keep
/// their order from `s`.
pub open spec fn stable_sort_witness(
    r: Seq<u32>,
    s: Seq<u32>,
    key: spec_fn(u32) -> Seq<char>,
    p: Seq<int>,
) -> bool {
    &&& r.len() == s.len()
    &&& p.len() == r.len()
    &&& forall|a: int| 0 <= a < r.len() ==> 0 <= #[trigger] p[a] < s.len() && r[a] == s[p[a]]
    &&& forall|a: int, b: int| 0 <= a < b < r.len() ==> #[trigger] p[a] != #[trigger] p[b]
    &&& sorted_by_key(r, key)
    &&& forall|a: int, b: int|
        0 <= a < b < r.len() && key(r[a]) == key(r[b]) ==> #[trigger] p[a] < #[trigger] p[b]
}

/// `r` is `s` stably sorted by `key`.
pub open spec fn is_stable_sort(r: Seq<u32>, s: Seq<u32>, key: spec_fn(u32) -> Seq<char>) -> bool {
    exists|p: Seq<int>| stable_sort_witness(r, s, key, p)
}

fn game_key(games: &HashMap<u32, Game>, by_extension: bool, id: u32) -> (k: Vec<char>)
    ensures
        k@ == sort_key(games@, by_extension, id),
{
    match games.get(&id) {
        Some(g) => {
            let low = if by_extension {
                to_lowercase(g.extension.as_str())
            } else {
                to_lowercase(g.name.as_str())
            };
            chars_of(low.as_str())
        },
        None => Vec::new(),
    }
}

/// Stable insertion sort of `ids` by the keys `keys` (one per identifier).
fn stable_sort(ids: &Vec<u32>, keys: &Vec<Vec<char>>, Ghost(key): Ghost<spec_fn(u32) -> Seq<char>>) -> (r: Vec<u32>)
    requires
        keys.len() == ids.len(),
        forall|i: int| 0 <= i < ids.len() ==> #[trigger] keys@[i]@ == key(ids@[i]),
    ensures
        is_stable_sort(r@, ids@, key),
{
    let mut r: Vec<u32> = Vec::new();
    let mut rk: Vec<Vec<char>> = Vec::new();
    let ghost mut p: Seq<int> = Seq::empty();
    let mut i: usize = 0;
    while i < ids.len()
        invariant
            i <= ids.len(),
            keys.len() == ids.len(),
            forall|m: int| 0 <= m < ids.len() ==> #[trigger] keys@[m]@ == key(ids@[m]),
            r.len() == i,
            rk.len() == i,
            p.len() == i,
            forall|a: int| 0 <= a < i ==> #[trigger] rk@[a]@ == key(r@[a]),
            forall|a: int| 0 <= a < i ==> 0 <= #[trigger] p[a] < i && r@[a] == ids@[p[a]],
            forall|a: int, b: int| 0 <= a < b < i ==> #[trigger] p[a] != #[trigger] p[b],
            sorted_by_key(r@, key),
            forall|a: int, b: int|
                0 <= a < b < i && key(r@[a]) == key(r@[b]) ==> #[trigger] p[a] < #[trigger] p[b],
        decreases ids.len() - i,
    {
        let x = ids[i];
        let ghost kx = key(x);
        // the place of x: after every element whose key is no later than x's
        let mut j = r.len();
        while j > 0 && !text_le(&rk[j - 1], &keys[i])
            invariant
                j <= r.len(),
                r.len() == i,
                rk.len() == i,
                i < ids.len(),
                keys.len() == ids.len(),
                keys@[i as int]@ == kx,
                forall|a: int| 0 <= a < i ==> #[trigger] rk@[a]@ == key(r@[a]),
                forall|m: int| j <= m < i ==> !lex_le(#[trigger] key(r@[m]), kx),
            decreases j,
        {
            j = j - 1;
        }
        let ghost r0 = r@;
        let ghost p0 = p;
        proof {
            assert forall|a: int| 0 <= a < j implies lex_le(#[trigger] key(r0[a]), kx) by {
                if a < j - 1 {
                    assert(lex_le(key(r0[a]), key(r0[j - 1])));
                    lemma_lex_le_transitive(key(r0[a]), key(r0[j - 1]), kx);
                }
            }
            assert forall|m: int| j <= m < i implies lex_le(kx, #[trigger] key(r0[m])) && kx != key(
                r0[m],
            ) by {
                lemma_lex_le_total(kx, key(r0[m]));
                lemma_lex_le_reflexive(kx);
            }
        }
        r.insert(j, x);
        rk.insert(j, keys[i].clone());
        proof {
            p = p.insert(j as int, i as int);
            let nr = r@;
            assert(nr == r0.insert(j as int, x));
            assert forall|a: int| 0 <= a < i + 1 implies #[trigger] rk@[a]@ == key(r@[a]) by {
                if a < j {
                } else if a == j {
                } else {
                    assert(r@[a] == r0[a - 1]);
                }
            }
            assert forall|a: int| 0 <= a < i + 1 implies 0 <= #[trigger] p[a] < i + 1 && r@[a]
                == ids@[p[a]] by {
                if a < j {
                    assert(p[a] == p0[a]);
                } else if a > j {
                    assert(p[a] == p0[a - 1]);
                }
            }
            assert forall|a: int, b: int| 0 <= a < b < i + 1 implies #[trigger] p[a]
                != #[trigger] p[b] by {
                if a < j && b > j {
                    assert(p[a] == p0[a] && p[b] == p0[b - 1]);
                } else if a > j {
                    assert(p[a] == p0[a - 1] && p[b] == p0[b - 1]);
                } else if b < j {
                    assert(p[a] == p0[a] && p[b] == p0[b]);
                } else if a == j {
                    assert(p[b] == p0[b - 1]);
                } else {
                    assert(p[a] == p0[a]);
                }
            }
            assert forall|a: int, b: int| 0 <= a < b < nr.len() implies lex_le(
                key(nr[a]),
                key(nr[b]),
            ) by {
                if a < j && b > j {
                    assert(nr[a] == r0[a] && nr[b] == r0[b - 1]);
                    lemma_lex_le_transitive(key(r0[a]), kx, key(r0[b - 1]));
                } else if a > j {
                    assert(nr[a] == r0[a - 1] && nr[b] == r0[b - 1]);
                } else if b < j {
                    assert(nr[a] == r0[a] && nr[b] == r0[b]);
                } else if a == j {
                    assert(nr[b] == r0[b - 1]);
                } else {
                    assert(nr[a] == r0[a]);
                }
            }
            assert forall|a: int, b: int|
                0 <= a < b < i + 1 && key(nr[a]) == key(nr[b]) implies #[trigger] p[a]
                < #[trigger] p[b] by {
                if a < j && b > j {
                    assert(nr[a] == r0[a] && nr[b] == r0[b - 1]);
                    assert(p[a] == p0[a] && p[b] == p0[b - 1]);
                } else if a > j {
                    assert(nr[a] == r0[a - 1] && nr[b] == r0[b - 1]);
                    assert(p[a] == p0[a - 1] && p[b] == p0[b - 1]);
                } else if b < j {
                    assert(nr[a] == r0[a] && nr[b] == r0[b]);
                    assert(p[a] == p0[a] && p[b] == p0[b]);
                } else if a == j {
                    assert(nr[b] == r0[b - 1]);
                } else {
                    assert(p[a] == p0[a]);
                }
            }
        }
        i = i + 1;
    }
    proof {
        assert(stable_sort_witness(r@, ids@, key, p));
    }
    r
}

/// The keys of `ids`, in order.
fn keys_of(games: &HashMap<u32, Game>, by_extension: bool, ids: &Vec<u32>) -> (k: Vec<Vec<char>>)
    ensures
        k.len() == ids.len(),
        forall|i: int| 0 <= i < ids.len() ==> #[trigger] k@[i]@ == sort_key(games@, by_extension, ids@[i]),
{
    let mut k: Vec<Vec<char>> = Vec::new();
    let mut i: usize = 0;
    while i < ids.len()
        invariant
            i <= ids.len(),
            k.len() == i,
            forall|m: int| 0 <= m < i ==> #[trigger] k@[m]@ == sort_key(games@, by_extension, ids@[m]),
        decreases ids.len() - i,
    {
        k.push(game_key(games, by_extension, ids[i]));
        i = i + 1;
    }
    k
}

/// Orders `vec` by the games' names in lower case, keeping the order of ties.
pub fn sort_by_name(settings: &EmuSettings, vec: &mut Vec<u32>)
    ensures
        is_stable_sort(final(vec)@, old(vec)@, |id: u32| sort_key(settings.games@, false, id)),
{
    let keys = keys_of(&settings.games, false, vec);
    let sorted = stable_sort(vec, &keys, Ghost(|id: u32| sort_key(settings.games@, false, id)));
    *vec = sorted;
}

/// Orders `vec` by the games' extensions in lower case, keeping the order of ties.
pub fn sort_by_extension(settings: &EmuSettings, vec: &mut Vec<u32>)
    ensures
        is_stable_sort(final(vec)@, old(vec)@, |id: u32| sort_key(settings.games@, true, id)),
{
    let keys = keys_of(&settings.games, true, vec);
    let sorted = stable_sort(vec, &keys, Ghost(|id: u32| sort_key(settings.games@, true, id)));
    *vec = sorted;
}

/// The order of the game tiles: every game once, ordered by the chosen key.
pub fn show_games(settings: &EmuSettings, method: SortMethod) -> (r: Vec<u32>)
    ensures
        r@.no_duplicates(),
        forall|id: u32| r@.contains(id) <==> settings.games@.contains_key(id),
        sorted_by_key(
            r@,
            |id: u32| sort_key(settings.games@, method == SortMethod::ByExtension, id),
        ),
{
    let ids = game_ids(&settings.games);
    let mut vec = ids;
    let ghost before = vec@;
    match method {
        SortMethod::ByExtension => sort_by_extension(settings, &mut vec),
        _ => sort_by_name(settings, &mut vec),
    }
    proof {
        let key = |id: u32| sort_key(settings.games@, method == SortMethod::ByExtension, id);
        let p = choose|p: Seq<int>| stable_sort_witness(vec@, before, key, p);
        lemma_witness_keeps_elements(vec@, before, key, p);
    }
    vec
}

/// A stable sort keeps the elements: the same ones, each as often.
proof fn lemma_witness_keeps_elements(
    r: Seq<u32>,
    s: Seq<u32>,
    key: spec_fn(u32) -> Seq<char>,
    p: Seq<int>,
)
    requires
        stable_sort_witness(r, s, key, p),
        s.no_duplicates(),
    ensures
        r.no_duplicates(),
        forall|x: u32| r.contains(x) <==> s.contains(x),
{
    assert forall|a: int, b: int| 0 <= a < r.len() && 0 <= b < r.len() && a != b implies r[a]
        != r[b] by {
        if a < b {
            assert(p[a] != p[b]);
        } else {
            assert(p[b] != p[a]);
        }
    }
    assert forall|x: u32| r.contains(x) <==> s.contains(x) by {
        if r.contains(x) {
            let a = choose|a: int| 0 <= a < r.len() && r[a] == x;
            assert(s[p[a]] == x);
        }
        if s.contains(x) {
            let k = choose|k: int| 0 <= k < s.len() && s[k] == x;
            lemma_injection_hits(p, s.len() as int, k);
            let a = choose|a: int| 0 <= a < p.len() && p[a] == k;
            assert(r[a] == x);
        }
    }
}

/// An injection from `0..n` into `0..n` hits every value in `0..n`.
proof fn lemma_injection_hits(p: Seq<int>, n: int, k: int)
    requires
        p.len() == n,
        0 <= k < n,
        forall|a: int| 0 <= a < n ==> 0 <= #[trigger] p[a] < n,
        forall|a: int, b: int| 0 <= a < b < n ==> #[trigger] p[a] != #[trigger] p[b],
    ensures
        exists|a: int| 0 <= a < p.len() && p[a] == k,
{
    if !(exists|a: int| 0 <= a < p.len() && p[a] == k) {
        // p maps 0..n injectively into 0..n without k: n values into n - 1 places
        let s = Set::new(|v: int| 0 <= v < n && v != k);
        let img = Set::new(|v: int| exists|a: int| 0 <= a < n && p[a] == v);
        assert(img.subset_of(s));
        vstd::set_lib::lemma_int_range(0, n);
        assert(s =~= vstd::set_lib::set_int_range(0, n).remove(k));
        lemma_image_size(p, n);
        vstd::set_lib::lemma_len_subset(img, s);
    }
}

/// The image of an injection on `0..n` has `n` elements.
proof fn lemma_image_size(p: Seq<int>, n: int)
    requires
        0 <= n <= p.len(),
        forall|a: int, b: int| 0 <= a < b < p.len() ==> #[trigger] p[a] != #[trigger] p[b],
    ensures
        Set::new(|v: int| exists|a: int| 0 <= a < n && p[a] == v).finite(),
        Set::new(|v: int| exists|a: int| 0 <= a < n && p[a] == v).len() == n,
    decreases n,
{
    let img = Set::new(|v: int| exists|a: int| 0 <= a < n && p[a] == v);
    if n == 0 {
        assert(img =~= Set::empty());
    } else {
        lemma_image_size(p, n - 1);
        let prev = Set::new(|v: int| exists|a: int| 0 <= a < n - 1 && p[a] == v);
        assert(img =~= prev.insert(p[n - 1]));
        assert(!prev.contains(p[n - 1])) by {
            if prev.contains(p[n - 1]) {
                let a = choose|a: int| 0 <= a < n - 1 && #[trigger] p[a] == p[n - 1];
                assert(p[a] != p[n - 1]);
            }
        }
    }
}

/// Sorting is deterministic: two stable sorts of the same sequence by the same key
/// are the same sequence. So the tiles' order does not depend on how the sort is
/// done, only on the order it starts from.
pub proof fn law_stable_sort_unique(
    r1: Seq<u32>,
    r2: Seq<u32>,
    s: Seq<u32>,
    key: spec_fn(u32) -> Seq<char>,
)
    requires
        is_stable_sort(r1, s, key),
        is_stable_sort(r2, s, key),
    ensures
        r1 == r2,
{
    let p1 = choose|p: Seq<int>| stable_sort_witness(r1, s, key, p);
    let p2 = choose|p: Seq<int>| stable_sort_witness(r2, s, key, p);
    let n = s.len() as int;
    assert forall|i: int| 0 <= i < n implies p1[i] == p2[i] by {
        lemma_witnesses_agree(r1, r2, s, key, p1, p2, i);
    }
    assert forall|i: int| 0 <= i < n implies r1[i] == r2[i] by {
        assert(r1[i] == s[p1[i]]);
        assert(r2[i] == s[p2[i]]);
    }
    assert(r1 =~= r2);
}

/// In a stable sort, position `x` before position `y` means the element at `x`
/// comes strictly earlier by (key, position in the input).
proof fn lemma_witness_increasing(
    r: Seq<u32>,
    s: Seq<u32>,
    key: spec_fn(u32) -> Seq<char>,
    p: Seq<int>,
    x: int,
    y: int,
)
    requires
        stable_sort_witness(r, s, key, p),
        0 <= x < y < r.len(),
    ensures
        lex_le(key(s[p[x]]), key(s[p[y]])),
        key(s[p[x]]) == key(s[p[y]]) ==> p[x] < p[y],
{
    assert(r[x] == s[p[x]] && r[y] == s[p[y]]);
}

/// Two witnesses of stable sorts of `s` by `key` agree at every position.
proof fn lemma_witnesses_agree(
    r1: Seq<u32>,
    r2: Seq<u32>,
    s: Seq<u32>,
    key: spec_fn(u32) -> Seq<char>,
    p1: Seq<int>,
    p2: Seq<int>,
    i: int,
)
    requires
        stable_sort_witness(r1, s, key, p1),
        stable_sort_witness(r2, s, key, p2),
        0 <= i < s.len(),
    ensures
        p1[i] == p2[i],
    decreases i,
{
    let n = s.len() as int;
    // the earlier positions agree
    assert forall|k: int| 0 <= k < i implies p1[k] == p2[k] by {
        lemma_witnesses_agree(r1, r2, s, key, p1, p2, k);
    }
    if p1[i] != p2[i] {
        let a = p1[i];
        let b = p2[i];
        // b is used by p1 at some position j, a by p2 at some position m
        lemma_injection_hits(p1, n, b);
        lemma_injection_hits(p2, n, a);
        let j = choose|j: int| 0 <= j < p1.len() && p1[j] == b;
        let m = choose|m: int| 0 <= m < p2.len() && p2[m] == a;
        // neither can come before i, where the witnesses agree and are injective
        if j < i {
            assert(p2[j] == b);
            assert(p2[j] != p2[i]);
        }
        if m < i {
            assert(p1[m] == a);
            assert(p1[m] != p1[i]);
        }
        assert(j != i && m != i);
        lemma_witness_increasing(r1, s, key, p1, i, j);
        lemma_witness_increasing(r2, s, key, p2, i, m);
        // a before b in the first sort, b before a in the second
        lemma_lex_le_antisymmetric(key(s[a]), key(s[b]));
        assert(false);
    }
}


/// A catalogued game is ordered by its whole name in lower case, or by its whole
/// extension in lower case: no part of either is left out of the key.
pub proof fn law_sort_key_is_whole_lowercase(games: Map<u32, Game>, id: u32)
    requires
        games.contains_key(id),
    ensures
        sort_key(games, false, id) == lowercase_of(games[id].name@),
        sort_key(games, true, id) == lowercase_of(games[id].extension@),
{
}

/// Sorting by name puts a game before another whose lower-cased name comes
/// strictly later, whatever the input order: the order is that of the whole
/// lower-cased names.
pub proof fn law_sorted_by_whole_name(
    games: Map<u32, Game>,
    r: Seq<u32>,
    s: Seq<u32>,
    a: int,
    b: int,
)
    requires
        is_stable_sort(r, s, |id: u32| sort_key(games, false, id)),
        0 <= a < r.len(),
        0 <= b < r.len(),
        games.contains_key(r[a]),
        games.contains_key(r[b]),
        lex_le(lowercase_of(games[r[a]].name@), lowercase_of(games[r[b]].name@)),
        lowercase_of(games[r[a]].name@) != lowercase_of(games[r[b]].name@),
    ensures
        a < b,
{
    let key = |id: u32| sort_key(games, false, id);
    let p = choose|p: Seq<int>| stable_sort_witness(r, s, key, p);
    if b < a {
        assert(lex_le(key(r[b]), key(r[a])));
        lemma_lex_le_antisymmetric(key(r[a]), key(r[b]));
    }
    if a == b {
    }
}

/// Sorting by extension puts a game before another whose lower-cased extension
/// comes strictly later: the order is that of the whole lower-cased extensions.
pub proof fn law_sorted_by_whole_extension(
    games: Map<u32, Game>,
    r: Seq<u32>,
    s: Seq<u32>,
    a: int,
    b: int,
)
    requires
        is_stable_sort(r, s, |id: u32| sort_key(games, true, id)),
        0 <= a < r.len(),
        0 <= b < r.len(),
        games.contains_key(r[a]),
        games.contains_key(r[b]),
        lex_le(lowercase_of(games[r[a]].extension@), lowercase_of(games[r[b]].extension@)),
        lowercase_of(games[r[a]].extension@) != lowercase_of(games[r[b]].extension@),
    ensures
        a < b,
{
    let key = |id: u32| sort_key(games, true, id);
    let p = choose|p: Seq<int>| stable_sort_witness(r, s, key, p);
    if b < a {
        assert(lex_le(key(r[b]), key(r[a])));
        lemma_lex_le_antisymmetric(key(r[a]), key(r[b]));
    }
}

} // verus!
