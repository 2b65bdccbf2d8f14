use bracket_saves::errors::SaveError;
use bracket_saves::manager::SaveManager;
use bracket_saves::store::{BoardVariant, SaveStore};

#[test]
fn empty_directory_lists_nothing() {
    let m = SaveManager::new();
    assert!(m.list_save_files().is_empty());
    assert!(m.list_save_games().is_empty());
}

#[test]
fn operations_before_any_open_fail_with_no_active_save() {
    let mut m = SaveManager::new();
    assert!(matches!(m.get_game_board(), Err(SaveError::NoActiveSave)));
    assert!(matches!(
        m.update_game_tile(1, true, false, false, false),
        Err(SaveError::NoActiveSave)
    ));
}

#[test]
fn create_seeds_board_and_config() {
    let mut m = SaveManager::new();
    m.open_new_save("foo", "Alice").unwrap();
    assert_eq!(m.list_save_files(), vec!["foo.db".to_string()]);

    let board = m.get_game_board().unwrap();
    assert_eq!(board.len(), 150);
    for (i, tile) in board.iter().enumerate() {
        assert_eq!(tile.id, i as i64 + 1);
        assert!(!tile.is_eliminated_in_winners);
        assert!(!tile.is_eliminated_in_losers);
        assert!(!tile.is_winner_in_winners);
        assert!(!tile.is_winner_in_losers);
    }

    let games = m.list_save_games();
    assert_eq!(games.len(), 1);
    assert_eq!(games[0].file_name, "foo.db");
    assert_eq!(games[0].game_name, "Alice");
    assert!(!games[0].create_time.is_empty());
    assert_eq!(games[0].create_time, games[0].last_update_time);
}

#[test]
fn create_rejects_separators_and_leaves_state_alone() {
    let mut m = SaveManager::new();
    assert!(matches!(m.open_new_save("a/b", "Alice"), Err(SaveError::InvalidName)));
    assert!(m.list_save_files().is_empty());
    assert!(matches!(m.get_game_board(), Err(SaveError::NoActiveSave)));
}

#[test]
fn creating_same_name_twice_dedupes_with_copy_suffix() {
    let mut m = SaveManager::new();
    m.open_new_save("bracket", "one").unwrap();
    m.open_new_save("bracket", "two").unwrap();
    assert_eq!(
        m.list_save_files(),
        vec!["bracket.db".to_string(), "bracket_copy1.db".to_string()]
    );
    m.open_new_save("bracket", "three").unwrap();
    assert_eq!(
        m.list_save_files(),
        vec![
            "bracket.db".to_string(),
            "bracket_copy1.db".to_string(),
            "bracket_copy2.db".to_string(),
        ]
    );
}

#[test]
fn update_overwrites_exactly_one_row() {
    let mut m = SaveManager::new();
    m.open_new_save("foo", "Alice").unwrap();
    let before = m.get_game_board().unwrap();
    m.update_game_tile(5, true, false, true, false).unwrap();
    let after = m.get_game_board().unwrap();
    assert_eq!(after.len(), 150);
    for i in 0..150 {
        if after[i].id == 5 {
            assert!(after[i].is_eliminated_in_winners);
            assert!(!after[i].is_eliminated_in_losers);
            assert!(after[i].is_winner_in_winners);
            assert!(!after[i].is_winner_in_losers);
        } else {
            assert_eq!(after[i], before[i]);
        }
    }
}

#[test]
fn update_with_unknown_id_succeeds_and_changes_nothing() {
    let mut m = SaveManager::new();
    m.open_new_save("foo", "Alice").unwrap();
    let before = m.get_game_board().unwrap();
    m.update_game_tile(999, true, true, true, true).unwrap();
    assert_eq!(m.get_game_board().unwrap(), before);
}

#[test]
fn open_existing_with_no_match_fails_not_found() {
    let mut m = SaveManager::new();
    assert!(matches!(
        m.open_existing_save("anything"),
        Err(SaveError::NotFound(s)) if s == "anything"
    ));
    m.open_new_save("a", "Alice").unwrap();
    let r = m.open_existing_save("Bob");
    match r {
        Err(SaveError::NotFound(s)) => {
            assert_eq!(s, "Bob");
            assert_eq!(
                SaveError::NotFound(s).message(),
                "No save found for game: Bob"
            );
        },
        _ => panic!("expected NotFound"),
    }
    // The failed open left the previously active save in place.
    assert_eq!(m.get_game_board().unwrap().len(), 150);
}

#[test]
fn open_existing_by_game_name_finds_first_match() {
    let mut m = SaveManager::new();
    m.open_new_save("one", "Alice").unwrap();
    m.open_new_save("two", "Bob").unwrap();
    m.update_game_tile(1, true, true, true, true).unwrap();
    m.open_existing_save("Alice").unwrap();
    let board = m.get_game_board().unwrap();
    assert!(!board[0].is_eliminated_in_winners);
}

#[test]
fn open_existing_by_file_name() {
    let mut m = SaveManager::new();
    m.open_new_save("one", "Alice").unwrap();
    m.open_new_save("two", "Bob").unwrap();
    m.open_existing_save("one.db").unwrap();
    let games = m.list_save_games();
    assert_eq!(games[0].game_name, "Alice");
    m.update_game_tile(7, false, true, false, true).unwrap();
    let board = m.get_game_board().unwrap();
    assert!(board[6].is_eliminated_in_losers);
}

#[test]
fn updates_persist_across_active_swaps() {
    let mut m = SaveManager::new();
    m.open_new_save("one", "Alice").unwrap();
    m.open_new_save("two", "Bob").unwrap();
    m.update_game_tile(3, true, false, false, true).unwrap();
    m.open_existing_save("Alice").unwrap();
    let alice_board = m.get_game_board().unwrap();
    assert!(!alice_board[2].is_eliminated_in_winners);
    m.open_existing_save("Bob").unwrap();
    let bob_board = m.get_game_board().unwrap();
    assert!(bob_board[2].is_eliminated_in_winners);
    assert!(bob_board[2].is_winner_in_losers);
}

#[test]
fn provision_supports_both_variants() {
    let a = SaveStore::provision(BoardVariant::GameBoard);
    let b = SaveStore::provision(BoardVariant::MatchResults);
    assert_eq!(a.rows().len(), 150);
    assert_eq!(b.rows().len(), 150);
    assert_eq!(a.rows()[0].id, 1);
    assert_eq!(b.rows()[149].id, 150);
}
