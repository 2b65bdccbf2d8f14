//! The read-only catalog: which directory entries count as save files,
//! and the metadata record derived from one save's config rows.

use crate::naming::{ends_with_db, has_db_suffix, names_view};
use crate::store::{spec_config_value, ConfigEntry, SaveStore};
use vstd::prelude::*;

verus! {

/// One entry of a directory scan, as the shell hands it over: the bare
/// entry name and whether the entry is a regular file.
pub struct FsEntry {
    pub name: String,
    pub is_file: bool,
}

/// Whether a directory entry counts as a save file: a regular file whose
/// name ends in `.db`, in any letter case.
pub open spec fn is_save_entry(e: FsEntry) -> bool {
    e.is_file && ends_with_db(e.name@)
}

/// The names of the save files among the entries, in scan order.
pub open spec fn save_file_names(entries: Seq<FsEntry>) -> Seq<Seq<char>> {
    entries.filter(|e: FsEntry| is_save_entry(e)).map_values(|e: FsEntry| e.name@)
}

/// Keeps, in scan order, the names of the regular files ending in `.db`.
pub fn filter_save_files(entries: &Vec<FsEntry>) -> (r: Vec<String>)
    ensures
        names_view(r@) == save_file_names(entries@),
{
    let n = entries.len();
    let mut out: Vec<String> = Vec::new();
    let mut i: usize = 0;
    proof {
        reveal(Seq::filter);
        assert(entries@.take(0) =~= Seq::<FsEntry>::empty());
        assert(names_view(out@) =~= save_file_names(entries@.take(0)));
    }
    while i < n
        invariant
            n == entries@.len(),
            i <= n,
            names_view(out@) == save_file_names(entries@.take(i as int)),
        decreases n - i,
    {
        let keep = entries[i].is_file && has_db_suffix(entries[i].name.as_str());
        if keep {
            out.push(entries[i].name.clone());
            proof {
                reveal(Seq::filter);
                let prev = entries@.take(i as int);
                let next = entries@.take(i + 1);
                assert(next.drop_last() =~= prev);
                assert(next.last() == entries@[i as int]);
                assert(save_file_names(next) =~= save_file_names(prev).push(
                    entries@[i as int].name@,
                ));
                assert(names_view(out@) =~= save_file_names(next));
            }
        } else {
            proof {
                reveal(Seq::filter);
                let prev = entries@.take(i as int);
                let next = entries@.take(i + 1);
                assert(next.drop_last() =~= prev);
                assert(next.last() == entries@[i as int]);
                assert(save_file_names(next) =~= save_file_names(prev));
            }
        }
        i = i + 1;
    }
    proof {
        assert(entries@.take(n as int) =~= entries@);
    }
    out
}

/// The per-file metadata record handed to the shell.  Missing config
/// rows soften to an "unknown" sentinel or an empty timestamp; they are
/// not an error.
pub struct GameSave {
    pub file_name: String,
    pub game_name: String,
    pub create_time: String,
    pub last_update_time: String,
}

/// The value a metadata field renders as: the first matching config row,
/// or the given fallback when no row matches.
pub open spec fn metadata_field(
    entries: Seq<ConfigEntry>,
    key: Seq<char>,
    missing: Seq<char>,
) -> Seq<char> {
    match spec_config_value(entries, key) {
        Some(v) => v,
        None => missing,
    }
}

/// What the metadata record of a save must hold.
pub open spec fn game_save_ok(g: GameSave, name: Seq<char>, config: Seq<ConfigEntry>) -> bool {
    &&& g.file_name@ == name
    &&& g.game_name@ == metadata_field(config, "gameName"@, "<unknown>"@)
    &&& g.create_time@ == metadata_field(config, "CreateTime"@, Seq::empty())
    &&& g.last_update_time@ == metadata_field(config, "LastUpdateTime"@, Seq::empty())
}

/// Derives the metadata record of one save from its config rows.
pub fn game_save_of(file_name: &str, store: &SaveStore) -> (g: GameSave)
    ensures
        game_save_ok(g, file_name@, store.config@),
{
    let game_name = match store.config_value("gameName") {
        Some(v) => v,
        None => String::from_str("<unknown>"),
    };
    let create_time = match store.config_value("CreateTime") {
        Some(v) => v,
        None => String::new(),
    };
    let last_update_time = match store.config_value("LastUpdateTime") {
        Some(v) => v,
        None => String::new(),
    };
    GameSave { file_name: String::from_str(file_name), game_name, create_time, last_update_time }
}

} // verus!
