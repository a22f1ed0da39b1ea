//! The table of the titles that a scan found, and what an action does to the
//! entry of its title.

use vstd::prelude::*;
use crate::dlc::DlcInfoWithState;
use crate::installer::{ErrorKind, Game, InstallerAction, InstallerError, InstallerType};
use crate::scanner::{GameInfo, GameView};
use crate::text::{copy_texts, str_eq, strings};

verus! {

/// A request to act on a title, as it comes from the user interface.
#[derive(Debug, Clone)]
pub struct GameAction {
    pub game_id: String,
    pub action: String,
}

/// A title of the table as plain values.
pub struct TitleView {
    pub id: Seq<char>,
    pub title: Seq<char>,
    pub path: Seq<char>,
    pub native: bool,
    pub api_files: Seq<Seq<char>>,
    pub cream_installed: bool,
    pub smoke_installed: bool,
    pub installing: bool,
}

impl View for Game {
    type V = TitleView;

    open spec fn view(&self) -> TitleView {
        TitleView {
            id: self.id@,
            title: self.title@,
            path: self.path@,
            native: self.native,
            api_files: strings(self.api_files@),
            cream_installed: self.cream_installed,
            smoke_installed: self.smoke_installed,
            installing: self.installing,
        }
    }
}

/// The titles of `v` as plain values.
pub open spec fn title_views(v: Seq<Game>) -> Seq<TitleView> {
    Seq::new(v.len(), |i: int| v[i]@)
}

/// The unlocker kind and the action that the word `action` stands for.
pub open spec fn action_named(action: Seq<char>) -> Option<(InstallerType, InstallerAction)> {
    if action == "install_cream"@ {
        Some((InstallerType::Cream, InstallerAction::Install))
    } else if action == "uninstall_cream"@ {
        Some((InstallerType::Cream, InstallerAction::Uninstall))
    } else if action == "install_smoke"@ {
        Some((InstallerType::Smoke, InstallerAction::Install))
    } else if action == "uninstall_smoke"@ {
        Some((InstallerType::Smoke, InstallerAction::Uninstall))
    } else {
        None
    }
}

/// Reads the unlocker kind and the action out of the word for them.
pub fn parse_action(action: &str) -> (r: Result<(InstallerType, InstallerAction), InstallerError>)
    ensures
        match r {
            Ok(a) => action_named(action@) == Some(a),
            Err(e) => action_named(action@) is None && e.class() == ErrorKind::FormatFailure,
        },
{
    if str_eq(action, "install_cream") {
        Ok((InstallerType::Cream, InstallerAction::Install))
    } else if str_eq(action, "uninstall_cream") {
        Ok((InstallerType::Cream, InstallerAction::Uninstall))
    } else if str_eq(action, "install_smoke") {
        Ok((InstallerType::Smoke, InstallerAction::Install))
    } else if str_eq(action, "uninstall_smoke") {
        Ok((InstallerType::Smoke, InstallerAction::Uninstall))
    } else {
        Err(InstallerError::FormatFailure("Invalid action".to_owned()))
    }
}

/// The entry of a title after an action on it was completed: the unlocker of
/// the action counts as applied after an installation and as not applied after
/// a removal, and the title is no longer being worked on.
pub open spec fn after_action(g: TitleView, kind: InstallerType, action: InstallerAction) -> TitleView {
    match kind {
        InstallerType::Cream => TitleView {
            cream_installed: action == InstallerAction::Install,
            installing: false,
            ..g
        },
        InstallerType::Smoke => TitleView {
            smoke_installed: action == InstallerAction::Install,
            installing: false,
            ..g
        },
    }
}

/// The entry of a title as a scan found it.
pub open spec fn entry_for(info: GameView) -> TitleView {
    TitleView {
        id: info.id,
        title: info.title,
        path: info.path,
        native: info.native,
        api_files: info.api_files,
        cream_installed: info.cream_installed,
        smoke_installed: info.smoke_installed,
        installing: false,
    }
}

impl Game {
    /// A copy of this title.
    pub fn duplicate(&self) -> (g: Game)
        ensures
            g@ == self@,
    {
        Game {
            id: self.id.clone(),
            title: self.title.clone(),
            path: self.path.clone(),
            native: self.native,
            api_files: copy_texts(&self.api_files),
            cream_installed: self.cream_installed,
            smoke_installed: self.smoke_installed,
            installing: self.installing,
        }
    }

    /// The entry of a title as a scan found it.
    pub fn from_info(info: GameInfo) -> (g: Game)
        ensures
            g@ == entry_for(info@),
    {
        Game {
            id: info.id,
            title: info.title,
            path: info.path,
            native: info.native,
            api_files: info.api_files,
            cream_installed: info.cream_installed,
            smoke_installed: info.smoke_installed,
            installing: false,
        }
    }

    /// This title after an action on it was completed.
    pub fn completed(self, kind: InstallerType, action: InstallerAction) -> (g: Game)
        ensures
            g@ == after_action(self@, kind, action),
    {
        let installed = action == InstallerAction::Install;
        match kind {
            InstallerType::Cream => Game {
                id: self.id,
                title: self.title,
                path: self.path,
                native: self.native,
                api_files: self.api_files,
                cream_installed: installed,
                smoke_installed: self.smoke_installed,
                installing: false,
            },
            InstallerType::Smoke => Game {
                id: self.id,
                title: self.title,
                path: self.path,
                native: self.native,
                api_files: self.api_files,
                cream_installed: self.cream_installed,
                smoke_installed: installed,
                installing: false,
            },
        }
    }
}

/// The place, from `from` on, of the first title with the identifier `id`.
pub open spec fn place_of(games: Seq<TitleView>, id: Seq<char>, from: int) -> Option<int>
    decreases games.len() - from,
{
    if from < 0 || from >= games.len() {
        None
    } else if games[from].id == id {
        Some(from)
    } else {
        place_of(games, id, from + 1)
    }
}

/// The table after the title `g` was put into it: in the place of the title
/// with the same identifier if there is one, else behind the others.
pub open spec fn put(games: Seq<TitleView>, g: TitleView) -> Seq<TitleView> {
    match place_of(games, g.id, 0) {
        Some(p) => games.update(p, g),
        None => games.push(g),
    }
}

/// The table after the first `k` of `entries` were put into it, in order.
pub open spec fn put_all(games: Seq<TitleView>, entries: Seq<TitleView>, k: int) -> Seq<TitleView>
    decreases k,
{
    if k <= 0 {
        games
    } else {
        put(put_all(games, entries, k - 1), entries[k - 1])
    }
}

/// No two titles of the table share an identifier.
pub open spec fn distinct_ids(games: Seq<TitleView>) -> bool {
    forall|i: int, j: int|
        0 <= i < j < games.len() ==> (#[trigger] games[i]).id != (#[trigger] games[j]).id
}

/// The place of the first title with a given identifier holds that identifier,
/// and where there is no place, no title has it.
pub proof fn place_is_first(games: Seq<TitleView>, id: Seq<char>, from: int)
    requires
        0 <= from,
    ensures
        match place_of(games, id, from) {
            Some(p) => from <= p < games.len() && games[p].id == id,
            None => forall|i: int| from <= i < games.len() ==> (#[trigger] games[i]).id != id,
        },
    decreases games.len() - from,
{
    if from < games.len() && games[from].id != id {
        place_is_first(games, id, from + 1);
    }
}

/// A table in which no two titles share an identifier stays so when a title is
/// put into it.
pub proof fn put_keeps_ids_distinct(games: Seq<TitleView>, g: TitleView)
    requires
        distinct_ids(games),
    ensures
        distinct_ids(put(games, g)),
{
    place_is_first(games, g.id, 0);
    let after = put(games, g);
    assert forall|i: int, j: int| 0 <= i < j < after.len() implies (#[trigger] after[i]).id != (
    #[trigger] after[j]).id by {
        match place_of(games, g.id, 0) {
            Some(p) => {
                assert(after[i].id == games[i].id);
                assert(after[j].id == games[j].id);
            },
            None => {
                if j < games.len() {
                    assert(after[i] == games[i]);
                    assert(after[j] == games[j]);
                } else {
                    assert(after[i] == games[i]);
                }
            },
        }
    }
}

/// The titles known to the program, each under its identifier.
#[derive(Debug)]
pub struct GameRegistry {
    games: Vec<Game>,
}

impl View for GameRegistry {
    type V = Seq<TitleView>;

    closed spec fn view(&self) -> Seq<TitleView> {
        title_views(self.games@)
    }
}

impl GameRegistry {
    /// A table without titles.
    pub fn new() -> (r: GameRegistry)
        ensures
            r@ == Seq::<TitleView>::empty(),
    {
        let r = GameRegistry { games: Vec::new() };
        assert(title_views(r.games@) =~= Seq::<TitleView>::empty());
        r
    }

    /// The place of the title `id` in the table.
    fn find(&self, id: &str) -> (found: Option<usize>)
        ensures
            match found {
                Some(p) => place_of(self@, id@, 0) == Some(p as int) && p < self.games.len(),
                None => place_of(self@, id@, 0) is None,
            },
    {
        let mut i: usize = 0;
        while i < self.games.len()
            invariant
                i <= self.games.len(),
                place_of(self@, id@, 0) == place_of(self@, id@, i as int),
            decreases self.games.len() - i,
        {
            assert(self@[i as int].id == self.games[i as int].id@);
            if str_eq(self.games[i].id.as_str(), id) {
                return Some(i);
            }
            i += 1;
        }
        None
    }

    /// Puts a title into the table, in the place of the title with the same
    /// identifier if there is one, else behind the others.
    pub fn insert(&mut self, game: Game)
        ensures
            final(self)@ == put(old(self)@, game@),
            distinct_ids(old(self)@) ==> distinct_ids(final(self)@),
    {
        proof {
            if distinct_ids(self@) {
                put_keeps_ids_distinct(self@, game@);
            }
        }
        let ghost before = self@;
        match self.find(game.id.as_str()) {
            Some(p) => {
                self.games.set(p, game);
                assert(title_views(self.games@) =~= before.update(p as int, game@));
            },
            None => {
                self.games.push(game);
                assert(title_views(self.games@) =~= before.push(game@));
            },
        }
    }

    /// The title `id`, or the news that the table has none.
    pub fn get_game_info(&self, id: &str) -> (r: Result<Game, InstallerError>)
        ensures
            match r {
                Ok(g) => place_of(self@, id@, 0) is Some && g@ == self@[place_of(self@, id@, 0)->0],
                Err(e) => place_of(self@, id@, 0) is None && e.class() == ErrorKind::NotFound,
            },
    {
        match self.find(id) {
            Some(p) => {
                assert(self@[p as int] == self.games[p as int]@);
                Ok(self.games[p].duplicate())
            },
            None => Err(InstallerError::NotFound("Game not found".to_owned())),
        }
    }

    /// Takes note that an action on the title `id` was completed, and gives the
    /// entry of the title as it is now.
    pub fn record_action(&mut self, id: &str, kind: InstallerType, action: InstallerAction) -> (r:
        Result<Game, InstallerError>)
        ensures
            match place_of(old(self)@, id@, 0) {
                Some(p) => {
                    &&& final(self)@ == old(self)@.update(
                        p,
                        after_action(old(self)@[p], kind, action),
                    )
                    &&& r matches Ok(g) && g@ == after_action(old(self)@[p], kind, action)
                },
                None => {
                    &&& final(self)@ == old(self)@
                    &&& r matches Err(e) && e.class() == ErrorKind::NotFound
                },
            },
    {
        let ghost before = self@;
        match self.find(id) {
            Some(p) => {
                assert(self@[p as int] == self.games[p as int]@);
                let updated = self.games[p].duplicate().completed(kind, action);
                let copy = updated.duplicate();
                self.games.set(p, updated);
                assert(title_views(self.games@) =~= before.update(p as int, copy@));
                Ok(copy)
            },
            None => Err(InstallerError::NotFound("Game not found after action".to_owned())),
        }
    }

    /// The titles of the table, in their order.
    pub fn games(&self) -> (out: Vec<Game>)
        ensures
            title_views(out@) == self@,
    {
        let mut out: Vec<Game> = Vec::new();
        let mut i: usize = 0;
        while i < self.games.len()
            invariant
                i <= self.games.len(),
                title_views(out@) == self@.take(i as int),
            decreases self.games.len() - i,
        {
            let ghost before = title_views(out@);
            out.push(self.games[i].duplicate());
            assert(title_views(out@) =~= before.push(self.games[i as int]@));
            i += 1;
            assert(self@.take(i as int) =~= before.push(self.games[i - 1]@));
        }
        assert(self@.take(self.games.len() as int) == self@);
        out
    }

    /// The number of titles in the table.
    pub fn len(&self) -> (n: usize)
        ensures
            n == self@.len(),
    {
        self.games.len()
    }
}

/// Takes the records of a scan into the table, in order, and gives the entries
/// made for them.
pub fn scan_steam_games(registry: &mut GameRegistry, found: Vec<GameInfo>) -> (out: Vec<Game>)
    ensures
        title_views(out@) == Seq::new(
            found@.len(),
            |i: int| entry_for(crate::scanner::game_views(found@)[i]),
        ),
        final(registry)@ == put_all(old(registry)@, title_views(out@), out@.len() as int),
{
    let mut out: Vec<Game> = Vec::new();
    let mut found = found;
    let ghost all = crate::scanner::game_views(found@);
    let ghost want = Seq::new(all.len(), |i: int| entry_for(all[i]));
    let mut rest: Vec<GameInfo> = Vec::new();
    while found.len() > 0
        invariant
            all.len() == found.len() + rest.len(),
            forall|i: int| 0 <= i < found.len() ==> found[i]@ == all[i],
            forall|i: int| 0 <= i < rest.len() ==> rest[i]@ == all[all.len() - 1 - i],
        decreases found.len(),
    {
        let ghost n = found.len();
        match found.pop() {
            Some(g) => {
                assert(g@ == all[n - 1]);
                rest.push(g);
            },
            None => {},
        }
    }
    while rest.len() > 0
        invariant
            out.len() + rest.len() == all.len(),
            want.len() == all.len(),
            forall|i: int| 0 <= i < all.len() ==> want[i] == entry_for(all[i]),
            forall|i: int| 0 <= i < rest.len() ==> rest[i]@ == all[all.len() - 1 - i],
            forall|i: int| 0 <= i < out.len() ==> out[i]@ == want[i],
            registry@ == put_all(old(registry)@, want, out.len() as int),
        decreases rest.len(),
    {
        let ghost n = rest.len();
        match rest.pop() {
            Some(info) => {
                assert(info@ == all[all.len() - n]);
                let game = Game::from_info(info);
                registry.insert(game.duplicate());
                out.push(game);
            },
            None => {},
        }
    }
    assert(title_views(out@) =~= want);
    out
}

/// Keeps the add-ons of a title for later. Add-ons are kept in memory only, by
/// whoever asked for them: there is nothing to do here.
pub fn cache_dlcs(game_id: &str, dlcs: &Vec<DlcInfoWithState>) -> (r: Result<(), String>)
    ensures
        r is Ok,
{
    Ok(())
}

/// The add-ons kept for a title: none, as none are kept here.
pub fn load_cached_dlcs(game_id: &str) -> (r: Option<Vec<DlcInfoWithState>>)
    ensures
        r is None,
{
    None
}

/// Forgets the add-ons kept for all titles: there are none.
pub fn clear_all_caches() -> (r: Result<(), String>)
    ensures
        r is Ok,
{
    Ok(())
}

} // verus!
