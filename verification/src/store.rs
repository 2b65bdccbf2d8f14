//! One save store: the fixed 150-row state table and the `(key, value)`
//! config table, with the provisioning that seeds them.

use crate::text::str_eq;
use vstd::prelude::*;

verus! {

/// How many rows the state table holds; seeded once and never resized.
pub const BOARD_ROWS: usize = 150;

/// Which of the two structurally identical state tables a store carries.
#[derive(Clone, Copy, PartialEq, Eq, Structural, Debug)]
pub enum BoardVariant {
    GameBoard,
    MatchResults,
}

/// One bracket position: an id in `1..=150` and four independent flags.
#[derive(Clone, Copy, PartialEq, Eq, Structural, Debug)]
pub struct GameTile {
    pub id: i64,
    pub is_eliminated_in_winners: bool,
    pub is_eliminated_in_losers: bool,
    pub is_winner_in_winners: bool,
    pub is_winner_in_losers: bool,
}

/// One row of the config table.  The table enforces no key uniqueness;
/// lookup takes the first matching row in row order.
#[derive(Debug)]
pub struct ConfigEntry {
    pub key: String,
    pub value: String,
}

/// A tile with every flag cleared, as seeding leaves it.
pub open spec fn tile_cleared(t: GameTile) -> bool {
    &&& !t.is_eliminated_in_winners
    &&& !t.is_eliminated_in_losers
    &&& !t.is_winner_in_winners
    &&& !t.is_winner_in_losers
}

/// The tile an update writes: the given id and exactly the given flags.
pub open spec fn tile_with_flags(id: i64, ew: bool, el: bool, ww: bool, wl: bool) -> GameTile {
    GameTile {
        id,
        is_eliminated_in_winners: ew,
        is_eliminated_in_losers: el,
        is_winner_in_winners: ww,
        is_winner_in_losers: wl,
    }
}

/// First-match lookup over config rows, in row order.
pub open spec fn spec_config_value(entries: Seq<ConfigEntry>, key: Seq<char>) -> Option<Seq<char>>
    decreases entries.len(),
{
    if entries.len() == 0 {
        None
    } else if entries[0].key@ == key {
        Some(entries[0].value@)
    } else {
        spec_config_value(entries.drop_first(), key)
    }
}

/// How an update-by-id leaves a board: every row whose id matches
/// carries exactly the given flags, every other row is unchanged.
pub open spec fn board_updated(
    oldb: Seq<GameTile>,
    newb: Seq<GameTile>,
    id: i64,
    ew: bool,
    el: bool,
    ww: bool,
    wl: bool,
) -> bool {
    &&& newb.len() == oldb.len()
    &&& forall|i: int|
        0 <= i < oldb.len() ==> newb[i] == (if (#[trigger] oldb[i]).id == id {
            tile_with_flags(id, ew, el, ww, wl)
        } else {
            oldb[i]
        })
}

/// One self-contained save: a state table and a config table.
pub struct SaveStore {
    pub variant: BoardVariant,
    pub board: Vec<GameTile>,
    pub config: Vec<ConfigEntry>,
}

impl SaveStore {
    /// The state-table invariant: exactly 150 rows, the row at index `i`
    /// holding id `i + 1`, so rows are in ascending id order.
    pub open spec fn board_wf(self) -> bool {
        &&& self.board@.len() == BOARD_ROWS
        &&& forall|i: int| 0 <= i < self.board@.len() ==> (#[trigger] self.board@[i]).id == i + 1
    }

    /// Provisions a fresh store: creates the selected state table seeded
    /// from the generated sequence `1..=150` with all flags cleared, and
    /// an empty config table.
    pub fn provision(variant: BoardVariant) -> (s: SaveStore)
        ensures
            s.board_wf(),
            s.variant == variant,
            forall|i: int| 0 <= i < s.board@.len() ==> tile_cleared(#[trigger] s.board@[i]),
            s.config@.len() == 0,
    {
        let mut board: Vec<GameTile> = Vec::new();
        let mut id: usize = 1;
        while id <= BOARD_ROWS
            invariant
                1 <= id <= BOARD_ROWS + 1,
                board@.len() == id - 1,
                forall|i: int| 0 <= i < board@.len() ==> (#[trigger] board@[i]).id == i + 1,
                forall|i: int| 0 <= i < board@.len() ==> tile_cleared(#[trigger] board@[i]),
            decreases BOARD_ROWS + 1 - id,
        {
            board.push(
                GameTile {
                    id: id as i64,
                    is_eliminated_in_winners: false,
                    is_eliminated_in_losers: false,
                    is_winner_in_winners: false,
                    is_winner_in_losers: false,
                },
            );
            id = id + 1;
        }
        SaveStore { variant, board, config: Vec::new() }
    }

    /// Appends one config row; duplicate keys are legal.
    pub fn insert_config(&mut self, key: String, value: String)
        ensures
            final(self).config@ == old(self).config@.push((ConfigEntry { key, value })),
            final(self).variant == old(self).variant,
            final(self).board@ == old(self).board@,
    {
        self.config.push(ConfigEntry { key, value });
    }

    /// The value of the first config row whose key matches, if any.
    pub fn config_value(&self, key: &str) -> (r: Option<String>)
        ensures
            match r {
                Some(v) => spec_config_value(self.config@, key@) == Some(v@),
                None => spec_config_value(self.config@, key@) is None,
            },
    {
        let n = self.config.len();
        let mut i: usize = 0;
        proof {
            assert(self.config@.skip(0) =~= self.config@);
        }
        while i < n
            invariant
                n == self.config@.len(),
                i <= n,
                spec_config_value(self.config@, key@) == spec_config_value(
                    self.config@.skip(i as int),
                    key@,
                ),
            decreases n - i,
        {
            proof {
                assert(self.config@.skip(i as int)[0] == self.config@[i as int]);
            }
            if str_eq(self.config[i].key.as_str(), key) {
                return Some(self.config[i].value.clone());
            }
            proof {
                assert(self.config@.skip(i as int).drop_first() =~= self.config@.skip(i + 1));
            }
            i = i + 1;
        }
        proof {
            assert(self.config@.skip(n as int).len() == 0);
        }
        None
    }

    /// A copy of all state rows, in stored (ascending id) order.
    pub fn rows(&self) -> (r: Vec<GameTile>)
        ensures
            r@ == self.board@,
    {
        let n = self.board.len();
        let mut out: Vec<GameTile> = Vec::new();
        let mut i: usize = 0;
        while i < n
            invariant
                n == self.board@.len(),
                i <= n,
                out@ == self.board@.take(i as int),
            decreases n - i,
        {
            let t = self.board[i];
            out.push(t);
            proof {
                assert(self.board@.take(i as int).push(self.board@[i as int]) =~= self.board@.take(
                    i + 1,
                ));
            }
            i = i + 1;
        }
        proof {
            assert(self.board@.take(n as int) =~= self.board@);
        }
        out
    }

    /// Overwrites the four flags of every row whose id equals `id`;
    /// matching no row changes nothing and is not an error.
    pub fn update_tile(&mut self, id: i64, ew: bool, el: bool, ww: bool, wl: bool)
        ensures
            final(self).variant == old(self).variant,
            final(self).config@ == old(self).config@,
            board_updated(old(self).board@, final(self).board@, id, ew, el, ww, wl),
    {
        let n = self.board.len();
        let mut i: usize = 0;
        while i < n
            invariant
                n == self.board@.len(),
                i <= n,
                self.variant == old(self).variant,
                self.config@ == old(self).config@,
                self.board@.len() == old(self).board@.len(),
                forall|j: int|
                    0 <= j < i ==> self.board@[j] == (if old(self).board@[j].id == id {
                        tile_with_flags(id, ew, el, ww, wl)
                    } else {
                        old(self).board@[j]
                    }),
                forall|j: int| i <= j < n ==> self.board@[j] == old(self).board@[j],
            decreases n - i,
        {
            if self.board[i].id == id {
                self.board[i] = GameTile {
                    id,
                    is_eliminated_in_winners: ew,
                    is_eliminated_in_losers: el,
                    is_winner_in_winners: ww,
                    is_winner_in_losers: wl,
                };
            }
            i = i + 1;
        }
    }
}

} // verus!
