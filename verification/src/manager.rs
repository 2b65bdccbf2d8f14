//! The saves directory and its single active-save slot.
//!
//! At most one store is open at a time; creating or opening a save
//! replaces it, and every read or update goes against whatever is
//! currently active.  On any failure the previously active save is left
//! untouched.

use crate::catalog::{game_save_of, game_save_ok, GameSave};
use crate::clock::now_utc_rfc3339;
use crate::errors::SaveError;
use crate::naming::{
    dedupe_name, deduped_ok, has_separator, name_taken, names_view, normalize_save_name,
    normalized_name,
};
use crate::store::{
    board_updated, spec_config_value, tile_cleared, BoardVariant, GameTile, SaveStore,
};
use crate::text::str_eq;
use vstd::prelude::*;

verus! {

/// One save file of the directory: its bare name and its store.
pub struct SaveFile {
    pub name: String,
    pub store: SaveStore,
}

/// The names of the directory's files, in directory order.
pub open spec fn file_names(files: Seq<SaveFile>) -> Seq<Seq<char>> {
    files.map_values(|f: SaveFile| f.name@)
}

/// The earliest index satisfying `p`, scanning in directory order.
pub open spec fn first_match(files: Seq<SaveFile>, p: spec_fn(SaveFile) -> bool) -> Option<int>
    decreases files.len(),
{
    if files.len() == 0 {
        None
    } else if p(files[0]) {
        Some(0)
    } else {
        match first_match(files.drop_first(), p) {
            Some(i) => Some(i + 1),
            None => None,
        }
    }
}

/// Whether a file's name equals the selector.
pub open spec fn name_matches(sel: Seq<char>) -> spec_fn(SaveFile) -> bool {
    |f: SaveFile| f.name@ == sel
}

/// Whether a file's `gameName` config value equals the selector.
pub open spec fn game_matches(sel: Seq<char>) -> spec_fn(SaveFile) -> bool {
    |f: SaveFile| spec_config_value(f.store.config@, "gameName"@) == Some(sel)
}

/// The file a selector resolves to: an exact file name wins; otherwise
/// the first file whose game name matches.
pub open spec fn selected_file(files: Seq<SaveFile>, sel: Seq<char>) -> Option<int> {
    match first_match(files, name_matches(sel)) {
        Some(i) => Some(i),
        None => first_match(files, game_matches(sel)),
    }
}

/// A scan that saw no hit before `j` and a hit at `j` (or none at all,
/// when `j` is the length) pins down `first_match`.
proof fn lemma_first_match_at(files: Seq<SaveFile>, p: spec_fn(SaveFile) -> bool, j: int)
    requires
        0 <= j <= files.len(),
        forall|k: int| 0 <= k < j ==> !p(#[trigger] files[k]),
        j < files.len() ==> p(files[j]),
    ensures
        j < files.len() ==> first_match(files, p) == Some(j),
        j == files.len() ==> first_match(files, p) is None,
    decreases files.len(),
{
    if files.len() == 0 {
    } else if j == 0 {
    } else {
        let rest = files.drop_first();
        assert(!p(files[0]));
        assert forall|k: int| 0 <= k < j - 1 implies !p(#[trigger] rest[k]) by {
            assert(rest[k] == files[k + 1]);
        }
        if j - 1 < rest.len() {
            assert(rest[j - 1] == files[j]);
        }
        lemma_first_match_at(rest, p, j - 1);
    }
}

/// The index of the first file whose name is exactly `selector`.
fn find_by_name(files: &Vec<SaveFile>, selector: &str) -> (r: Option<usize>)
    ensures
        match r {
            Some(j) => j < files@.len() && first_match(files@, name_matches(selector@)) == Some(
                j as int,
            ),
            None => first_match(files@, name_matches(selector@)) is None,
        },
{
    let n = files.len();
    let mut j: usize = 0;
    while j < n
        invariant
            n == files@.len(),
            j <= n,
            forall|k: int| 0 <= k < j ==> (#[trigger] files@[k]).name@ != selector@,
        decreases n - j,
    {
        if str_eq(files[j].name.as_str(), selector) {
            proof {
                lemma_first_match_at(files@, name_matches(selector@), j as int);
            }
            return Some(j);
        }
        j = j + 1;
    }
    proof {
        lemma_first_match_at(files@, name_matches(selector@), files@.len() as int);
    }
    None
}

/// The index of the first file whose `gameName` config value is exactly
/// `selector`.
fn find_by_game(files: &Vec<SaveFile>, selector: &str) -> (r: Option<usize>)
    ensures
        match r {
            Some(j) => j < files@.len() && first_match(files@, game_matches(selector@)) == Some(
                j as int,
            ),
            None => first_match(files@, game_matches(selector@)) is None,
        },
{
    let n = files.len();
    let mut j: usize = 0;
    while j < n
        invariant
            n == files@.len(),
            j <= n,
            forall|k: int|
                0 <= k < j ==> spec_config_value(
                    (#[trigger] files@[k]).store.config@,
                    "gameName"@,
                ) != Some(selector@),
        decreases n - j,
    {
        let hit = match files[j].store.config_value("gameName") {
            Some(v) => str_eq(v.as_str(), selector),
            None => false,
        };
        if hit {
            proof {
                lemma_first_match_at(files@, game_matches(selector@), j as int);
            }
            return Some(j);
        }
        j = j + 1;
    }
    proof {
        lemma_first_match_at(files@, game_matches(selector@), files@.len() as int);
    }
    None
}

/// What a freshly created store holds: the seeded board and exactly the
/// three config rows, with one shared timestamp for both time fields.
pub open spec fn fresh_store_ok(store: SaveStore, game: Seq<char>) -> bool {
    &&& store.variant == BoardVariant::GameBoard
    &&& store.board_wf()
    &&& forall|i: int| 0 <= i < store.board@.len() ==> tile_cleared(#[trigger] store.board@[i])
    &&& store.config@.len() == 3
    &&& store.config@[0].key@ == "gameName"@
    &&& store.config@[0].value@ == game
    &&& store.config@[1].key@ == "CreateTime"@
    &&& store.config@[2].key@ == "LastUpdateTime"@
    &&& store.config@[1].value@ == store.config@[2].value@
}

/// The saves directory and the single active-save slot.
pub struct SaveManager {
    pub files: Vec<SaveFile>,
    pub active: Option<usize>,
}

impl SaveManager {
    /// Every store's board is well-formed, file names are unique within
    /// the directory, the active index is in range, and the directory is
    /// below the machine's capacity bound.
    pub open spec fn wf(self) -> bool {
        &&& forall|i: int|
            0 <= i < self.files@.len() ==> (#[trigger] self.files@[i]).store.board_wf()
        &&& forall|i: int, j: int|
            0 <= i < j < self.files@.len() ==> (#[trigger] self.files@[i]).name@ != (
            #[trigger] self.files@[j]).name@
        &&& match self.active {
            Some(i) => i < self.files@.len(),
            None => true,
        }
        &&& self.files@.len() <= usize::MAX - 2
    }

    /// An empty directory with nothing active.
    pub fn new() -> (m: SaveManager)
        ensures
            m.wf(),
            m.files@.len() == 0,
            m.active is None,
    {
        SaveManager { files: Vec::new(), active: None }
    }

    /// The names of the save files, in directory order.
    pub fn list_save_files(&self) -> (r: Vec<String>)
        ensures
            names_view(r@) == file_names(self.files@),
    {
        let n = self.files.len();
        let mut out: Vec<String> = Vec::new();
        let mut i: usize = 0;
        proof {
            assert(names_view(out@) =~= file_names(self.files@.take(0)));
        }
        while i < n
            invariant
                n == self.files@.len(),
                i <= n,
                names_view(out@) == file_names(self.files@.take(i as int)),
            decreases n - i,
        {
            let ghost out0 = out@;
            out.push(self.files[i].name.clone());
            proof {
                let prev = self.files@.take(i as int);
                let next = self.files@.take(i + 1);
                assert(next.drop_last() =~= prev);
                assert(next.last() == self.files@[i as int]);
                assert(file_names(next) =~= file_names(prev).push(self.files@[i as int].name@));
                assert(names_view(out@) =~= names_view(out0).push(self.files@[i as int].name@));
            }
            i = i + 1;
        }
        proof {
            assert(self.files@.take(n as int) =~= self.files@);
        }
        out
    }

    /// Creates a new save: normalizes the requested name, dedupes it
    /// against the directory, provisions the schema, writes the three
    /// config rows with one shared timestamp, and installs the new store
    /// as the active save.  On failure the directory and the previously
    /// active save are untouched.
    pub fn open_new_save(&mut self, file_name: &str, game_name: &str) -> (r: Result<
        (),
        SaveError,
    >)
        requires
            old(self).wf(),
        ensures
            final(self).wf(),
            has_separator(file_name@) ==> (r matches Err(e) && e is InvalidName) && *final(self)
                == *old(self),
            !has_separator(file_name@) && old(self).files@.len() == usize::MAX - 2 ==> (
            r matches Err(e) && e is IoFailure) && *final(self) == *old(self),
            !has_separator(file_name@) && old(self).files@.len() < usize::MAX - 2 ==> {
                &&& r is Ok
                &&& final(self).files@.len() == old(self).files@.len() + 1
                &&& final(self).files@.take(old(self).files@.len() as int) == old(self).files@
                &&& (final(self).active matches Some(a) && a == old(self).files@.len())
                &&& deduped_ok(
                    file_names(old(self).files@),
                    normalized_name(file_name@),
                    final(self).files@.last().name@,
                )
                &&& fresh_store_ok(final(self).files@.last().store, game_name@)
            },
    {
        let normalized = match normalize_save_name(file_name) {
            Ok(n) => n,
            Err(e) => {
                return Err(e);
            },
        };
        if self.files.len() >= usize::MAX - 2 {
            return Err(SaveError::IoFailure(String::from_str("saves directory is full")));
        }
        let existing = self.list_save_files();
        proof {
            assert(names_view(existing@).len() == existing@.len());
            assert(file_names(self.files@).len() == self.files@.len());
        }
        let final_name = dedupe_name(&existing, normalized.as_str());
        let mut store = SaveStore::provision(BoardVariant::GameBoard);
        let now = now_utc_rfc3339();
        let now_again = now.clone();
        store.insert_config(String::from_str("gameName"), String::from_str(game_name));
        store.insert_config(String::from_str("CreateTime"), now);
        store.insert_config(String::from_str("LastUpdateTime"), now_again);
        let ghost files0 = self.files@;
        self.files.push(SaveFile { name: final_name, store });
        self.active = Some(self.files.len() - 1);
        proof {
            assert(self.files@.take(files0.len() as int) =~= files0);
            assert(self.files@.last().name@ == final_name@);
            assert forall|i: int, j: int| 0 <= i < j < self.files@.len() implies (
            #[trigger] self.files@[i]).name@ != (#[trigger] self.files@[j]).name@ by {
                if j == self.files@.len() - 1 {
                    assert(file_names(files0)[i] == files0[i].name@);
                    assert(!name_taken(file_names(files0), final_name@));
                }
            }
        }
        Ok(())
    }

    /// Opens an existing save by selector: a file name taken exactly, or
    /// else the game name to search for, the first match in directory
    /// order winning.  The resolved store becomes the active save; when
    /// nothing matches, the previously active save is untouched.
    pub fn open_existing_save(&mut self, selector: &str) -> (r: Result<(), SaveError>)
        requires
            old(self).wf(),
        ensures
            final(self).wf(),
            final(self).files@ == old(self).files@,
            match selected_file(old(self).files@, selector@) {
                Some(i) => r is Ok && (final(self).active matches Some(a) && a == i),
                None => *final(self) == *old(self) && (r matches Err(e) && e matches
                SaveError::NotFound(s) && s@ == selector@),
            },
    {
        let chosen = match find_by_name(&self.files, selector) {
            Some(j) => Some(j),
            None => find_by_game(&self.files, selector),
        };
        match chosen {
            Some(j) => {
                self.active = Some(j);
                Ok(())
            },
            None => Err(SaveError::NotFound(String::from_str(selector))),
        }
    }

    /// One metadata record per save file, in directory order; missing
    /// config rows soften to the "unknown" sentinel or empty timestamps.
    pub fn list_save_games(&self) -> (r: Vec<GameSave>)
        ensures
            r@.len() == self.files@.len(),
            forall|i: int|
                0 <= i < r@.len() ==> game_save_ok(
                    #[trigger] r@[i],
                    self.files@[i].name@,
                    self.files@[i].store.config@,
                ),
    {
        let n = self.files.len();
        let mut out: Vec<GameSave> = Vec::new();
        let mut i: usize = 0;
        while i < n
            invariant
                n == self.files@.len(),
                i <= n,
                out@.len() == i,
                forall|k: int|
                    0 <= k < i ==> game_save_ok(
                        #[trigger] out@[k],
                        self.files@[k].name@,
                        self.files@[k].store.config@,
                    ),
            decreases n - i,
        {
            let g = game_save_of(self.files[i].name.as_str(), &self.files[i].store);
            out.push(g);
            i = i + 1;
        }
        out
    }

    /// All rows of the active save's state table, in ascending id order.
    pub fn get_game_board(&self) -> (r: Result<Vec<GameTile>, SaveError>)
        requires
            self.wf(),
        ensures
            match self.active {
                Some(i) => r matches Ok(rows) && rows@ == self.files@[i as int].store.board@,
                None => r matches Err(e) && e is NoActiveSave,
            },
    {
        match self.active {
            Some(i) => Ok(self.files[i].store.rows()),
            None => Err(SaveError::NoActiveSave),
        }
    }

    /// Overwrites the four flags of the active save's row with the given
    /// id; an id matching no row changes nothing and still succeeds.
    pub fn update_game_tile(&mut self, id: i64, ew: bool, el: bool, ww: bool, wl: bool) -> (r:
        Result<(), SaveError>)
        requires
            old(self).wf(),
        ensures
            final(self).wf(),
            final(self).active == old(self).active,
            match old(self).active {
                None => (r matches Err(e) && e is NoActiveSave) && *final(self) == *old(self),
                Some(i) => {
                    &&& r is Ok
                    &&& final(self).files@.len() == old(self).files@.len()
                    &&& forall|j: int|
                        0 <= j < old(self).files@.len() && j != i ==> final(self).files@[j] == old(
                            self,
                        ).files@[j]
                    &&& final(self).files@[i as int].name@ == old(self).files@[i as int].name@
                    &&& final(self).files@[i as int].store.variant == old(
                        self,
                    ).files@[i as int].store.variant
                    &&& final(self).files@[i as int].store.config@ == old(
                        self,
                    ).files@[i as int].store.config@
                    &&& board_updated(
                        old(self).files@[i as int].store.board@,
                        final(self).files@[i as int].store.board@,
                        id,
                        ew,
                        el,
                        ww,
                        wl,
                    )
                },
            },
    {
        match self.active {
            Some(i) => {
                self.files[i].store.update_tile(id, ew, el, ww, wl);
                proof {
                    assert forall|k: int| 0 <= k < self.files@.len() implies (
                    #[trigger] self.files@[k]).store.board_wf() by {
                        if k == i as int {
                            let oldb = old(self).files@[k].store.board@;
                            let newb = self.files@[k].store.board@;
                            assert(board_updated(oldb, newb, id, ew, el, ww, wl));
                            assert forall|t: int| 0 <= t < newb.len() implies (
                            #[trigger] newb[t]).id == t + 1 by {
                                assert(oldb[t].id == t + 1);
                            }
                        } else {
                            assert(self.files@[k] == old(self).files@[k]);
                        }
                    }
                    assert(self.files@[i as int].name@ == old(self).files@[i as int].name@);
                    assert forall|a: int, b: int| 0 <= a < b < self.files@.len() implies (
                    #[trigger] self.files@[a]).name@ != (#[trigger] self.files@[b]).name@ by {
                        assert(self.files@[a].name@ == old(self).files@[a].name@);
                        assert(self.files@[b].name@ == old(self).files@[b].name@);
                    }
                }
                Ok(())
            },
            None => Err(SaveError::NoActiveSave),
        }
    }
}

} // verus!
