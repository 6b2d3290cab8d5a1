use cursed_tetris::leaderboard::{
    achieved_at, check_new_best, check_rank, contains_text, entries_from_rows, insert_error_message,
    is_new_best, is_username_byte, judge_username, millis_as_i64, new_player_name, qualification_from,
    rank_from_count, rank_qualifies, same_text, score_can_qualify, submission_name, username_format_error,
    validate_username,
    LEADERBOARD_LIMIT, USERNAME_MAX_LEN,
};

const LENGTH: &str = "Username must be 1-12 characters.";
const CHARSET: &str = "Use only letters, numbers, underscores, or hyphens.";
const RUDE: &str = "Username might be inappropriate, please choose a different name. Sorry :(";

#[test]
fn usernames_of_letters_digits_underscores_and_hyphens_are_accepted() {
    assert_eq!(validate_username("Player_1"), Ok(()));
    assert_eq!(validate_username("a"), Ok(()));
    assert_eq!(validate_username("x-y-z-012345"), Ok(()));
}

#[test]
fn usernames_must_be_one_to_twelve_bytes() {
    assert_eq!(USERNAME_MAX_LEN, 12);
    assert_eq!(validate_username(""), Err(LENGTH.to_string()));
    assert_eq!(validate_username("abcdefghijklm"), Err(LENGTH.to_string()));
    // Twelve characters but more than twelve bytes.
    assert_eq!(validate_username("ééééééé"), Err(LENGTH.to_string()));
}

#[test]
fn usernames_with_other_characters_are_refused() {
    assert_eq!(validate_username("two words"), Err(CHARSET.to_string()));
    assert_eq!(validate_username("dot.name"), Err(CHARSET.to_string()));
    assert_eq!(validate_username("é"), Err(CHARSET.to_string()));
    assert_eq!(username_format_error("ok_name"), None);
    assert_eq!(username_format_error("no!"), Some(CHARSET.to_string()));
}

#[test]
fn the_length_is_checked_before_the_characters() {
    assert_eq!(validate_username("far too long!"), Err(LENGTH.to_string()));
}

#[test]
fn profane_usernames_are_refused() {
    assert_eq!(validate_username("fuck"), Err(RUDE.to_string()));
    assert_eq!(validate_username("shit"), Err(RUDE.to_string()));
}

#[test]
fn judging_follows_the_filter_only_for_well_formed_names() {
    assert_eq!(judge_username("anyone", true), Err(RUDE.to_string()));
    assert_eq!(judge_username("anyone", false), Ok(()));
    assert_eq!(judge_username("", true), Err(LENGTH.to_string()));
    assert_eq!(judge_username("a b", true), Err(CHARSET.to_string()));
}

#[test]
fn username_bytes() {
    for b in [b'a', b'z', b'A', b'Z', b'0', b'9', b'_', b'-'] {
        assert!(is_username_byte(b));
    }
    for b in [b' ', b'.', b'@', b'/', b':', 0xc3] {
        assert!(!is_username_byte(b));
    }
}

#[test]
fn qualifying_needs_fifty_points_a_new_best_and_a_place_in_the_top_fifty() {
    assert!(!score_can_qualify(49));
    assert!(score_can_qualify(50));
    assert!(is_new_best(10, None));
    assert!(is_new_best(11, Some(10)));
    assert!(!is_new_best(10, Some(10)));
    assert!(rank_qualifies(LEADERBOARD_LIMIT));
    assert!(!rank_qualifies(LEADERBOARD_LIMIT + 1));
    assert_eq!(rank_from_count(7), 7);

    assert_eq!(qualification_from(49, None, 1, None), None);
    assert_eq!(qualification_from(80, Some(80), 1, None), None);
    assert_eq!(qualification_from(80, Some(70), 51, None), None);
    let q = qualification_from(80, Some(70), 50, Some("me".to_string())).unwrap();
    assert_eq!(q.rank, 50);
    assert_eq!(q.username, Some("me".to_string()));
    let q = qualification_from(50, None, 1, None).unwrap();
    assert_eq!((q.rank, q.username), (1, None));
}

#[test]
fn submissions_are_refused_in_words() {
    assert_eq!(check_new_best(5, Some(5)), Err("This score is not a new personal best.".to_string()));
    assert_eq!(check_new_best(6, Some(5)), Ok(()));
    assert_eq!(check_new_best(0, None), Ok(()));
    assert_eq!(check_rank(51), Err("This score no longer qualifies for the top 50.".to_string()));
    assert_eq!(check_rank(50), Ok(()));
    assert_eq!(new_player_name(None), Err("Enter a username before submitting.".to_string()));
    assert_eq!(new_player_name(Some("kim")), Ok("kim".to_string()));
}

#[test]
fn a_taken_username_is_told_in_words() {
    assert_eq!(
        insert_error_message("UNIQUE constraint failed: players.username"),
        "That username is already taken."
    );
    assert_eq!(
        insert_error_message("error: UNIQUE constraint failed: players.username (2067)"),
        "That username is already taken."
    );
    assert_eq!(insert_error_message("disk I/O error"), "disk I/O error");
    assert_eq!(
        insert_error_message("UNIQUE constraint failed: players.id"),
        "UNIQUE constraint failed: players.id"
    );
}

#[test]
fn text_search() {
    assert!(contains_text("hello world", "lo w"));
    assert!(contains_text("hello", ""));
    assert!(contains_text("hello", "hello"));
    assert!(!contains_text("hello", "hello!"));
    assert!(!contains_text("hello", "ol"));
    assert!(same_text("abc", "abc"));
    assert!(!same_text("abc", "abd"));
    assert!(!same_text("abc", "ab"));
}

#[test]
fn scores_are_stamped_after_the_latest_one() {
    assert_eq!(achieved_at(1000, 10), 1000);
    assert_eq!(achieved_at(1000, 1000), 1001);
    assert_eq!(achieved_at(5, 2000), 2001);
    assert_eq!(achieved_at(0, i64::MAX), i64::MAX);
    assert_eq!(achieved_at(i64::MAX, i64::MAX - 1), i64::MAX);
}

#[test]
fn milliseconds_saturate() {
    assert_eq!(millis_as_i64(0), 0);
    assert_eq!(millis_as_i64(1_700_000_000_000), 1_700_000_000_000);
    assert_eq!(millis_as_i64(i64::MAX as u128), i64::MAX);
    assert_eq!(millis_as_i64(u128::MAX), i64::MAX);
}

#[test]
fn rows_become_ranked_entries() {
    let rows = vec![
        ("p1".to_string(), "alice".to_string(), 900),
        ("me".to_string(), "bob".to_string(), 800),
        ("p3".to_string(), "carol".to_string(), 700),
    ];
    let entries = entries_from_rows(rows, "me");
    assert_eq!(entries.len(), 3);
    assert_eq!(entries[0].rank, 1);
    assert_eq!(entries[0].username, "alice");
    assert_eq!(entries[0].score, 900);
    assert!(!entries[0].is_current);
    assert_eq!(entries[1].rank, 2);
    assert_eq!(entries[1].username, "bob");
    assert!(entries[1].is_current);
    assert_eq!(entries[2].rank, 3);
    assert!(!entries[2].is_current);
    assert!(entries_from_rows(Vec::new(), "me").is_empty());
}

#[test]
fn a_name_is_asked_for_only_on_the_first_submission() {
    assert_eq!(submission_name(Some("kim".to_string()), None), Ok(None));
    assert_eq!(submission_name(Some("kim".to_string()), Some("lee")), Ok(None));
    assert_eq!(submission_name(None, Some("lee")), Ok(Some("lee".to_string())));
    assert_eq!(
        submission_name(None, None),
        Err("Enter a username before submitting.".to_string())
    );
}
