use bracket_saves::catalog::{filter_save_files, game_save_of, FsEntry};
use bracket_saves::errors::SaveError;
use bracket_saves::naming::{dedupe_name, normalize_save_name};
use bracket_saves::store::{BoardVariant, SaveStore};

fn names(v: &[&str]) -> Vec<String> {
    v.iter().map(|s| s.to_string()).collect()
}

#[test]
fn normalize_appends_db_suffix() {
    assert_eq!(normalize_save_name("foo").unwrap(), "foo.db");
    assert_eq!(normalize_save_name("bracket").unwrap(), "bracket.db");
    assert_eq!(normalize_save_name("").unwrap(), ".db");
    assert_eq!(normalize_save_name("a.txt").unwrap(), "a.txt.db");
}

#[test]
fn normalize_keeps_existing_db_suffix_any_case() {
    assert_eq!(normalize_save_name("foo.db").unwrap(), "foo.db");
    assert_eq!(normalize_save_name("FOO.DB").unwrap(), "FOO.DB");
    assert_eq!(normalize_save_name("mix.Db").unwrap(), "mix.Db");
    assert_eq!(normalize_save_name("mix.dB").unwrap(), "mix.dB");
}

#[test]
fn normalize_rejects_path_separators() {
    assert!(matches!(normalize_save_name("a/b"), Err(SaveError::InvalidName)));
    assert!(matches!(normalize_save_name("a\\b"), Err(SaveError::InvalidName)));
    assert!(matches!(normalize_save_name("/"), Err(SaveError::InvalidName)));
    assert!(matches!(
        normalize_save_name("nested/dir/name.db"),
        Err(SaveError::InvalidName)
    ));
}

#[test]
fn dedupe_keeps_free_candidate() {
    let existing = names(&["a.db", "b.db"]);
    assert_eq!(dedupe_name(&existing, "c.db"), "c.db");
    let empty: Vec<String> = Vec::new();
    assert_eq!(dedupe_name(&empty, "a.db"), "a.db");
}

#[test]
fn dedupe_probes_copy_names_in_order() {
    let existing = names(&["bracket.db"]);
    assert_eq!(dedupe_name(&existing, "bracket.db"), "bracket_copy1.db");
    let existing = names(&["bracket.db", "bracket_copy1.db"]);
    assert_eq!(dedupe_name(&existing, "bracket.db"), "bracket_copy2.db");
    let existing = names(&[
        "bracket.db",
        "bracket_copy1.db",
        "bracket_copy2.db",
        "bracket_copy3.db",
    ]);
    assert_eq!(dedupe_name(&existing, "bracket.db"), "bracket_copy4.db");
}

#[test]
fn dedupe_result_is_never_taken() {
    let existing = names(&["x.db", "x_copy1.db", "x_copy2.db"]);
    let r = dedupe_name(&existing, "x.db");
    assert!(!existing.contains(&r));
    assert_eq!(r, "x_copy3.db");
}

#[test]
fn dedupe_without_extension() {
    let existing = names(&["plain"]);
    assert_eq!(dedupe_name(&existing, "plain"), "plain_copy1");
}

#[test]
fn dedupe_probes_past_ten() {
    let mut existing = names(&["n.db"]);
    for i in 1..=11 {
        existing.push(format!("n_copy{}.db", i));
    }
    assert_eq!(dedupe_name(&existing, "n.db"), "n_copy12.db");
}

#[test]
fn filter_keeps_only_db_regular_files() {
    let entries = vec![
        FsEntry { name: "a.db".to_string(), is_file: true },
        FsEntry { name: "b.DB".to_string(), is_file: true },
        FsEntry { name: "c.txt".to_string(), is_file: true },
        FsEntry { name: "d.db".to_string(), is_file: false },
        FsEntry { name: ".db".to_string(), is_file: true },
        FsEntry { name: "nodb".to_string(), is_file: true },
    ];
    let r = filter_save_files(&entries);
    assert_eq!(r, vec!["a.db".to_string(), "b.DB".to_string(), ".db".to_string()]);
}

#[test]
fn filter_of_empty_scan_is_empty() {
    let entries: Vec<FsEntry> = Vec::new();
    assert!(filter_save_files(&entries).is_empty());
}

#[test]
fn metadata_of_store_without_config_rows_softens() {
    let store = SaveStore::provision(BoardVariant::GameBoard);
    let g = game_save_of("orphan.db", &store);
    assert_eq!(g.file_name, "orphan.db");
    assert_eq!(g.game_name, "<unknown>");
    assert_eq!(g.create_time, "");
    assert_eq!(g.last_update_time, "");
}

#[test]
fn config_lookup_takes_first_of_duplicate_keys() {
    let mut store = SaveStore::provision(BoardVariant::MatchResults);
    store.insert_config("gameName".to_string(), "first".to_string());
    store.insert_config("gameName".to_string(), "second".to_string());
    assert_eq!(store.config_value("gameName").unwrap(), "first");
    assert!(store.config_value("CreateTime").is_none());
}

#[test]
fn error_messages_are_stable() {
    assert_eq!(
        SaveError::InvalidName.message(),
        "file_name must be a bare file name (no path separators)"
    );
    assert_eq!(
        SaveError::NotFound("Bob".to_string()).message(),
        "No save found for game: Bob"
    );
    assert_eq!(SaveError::NoActiveSave.message(), "No DB open");
    assert_eq!(SaveError::IoFailure("full".to_string()).message(), "IO failure: full");
    assert_eq!(SaveError::DbFailure("locked".to_string()).message(), "DB failure: locked");
}
