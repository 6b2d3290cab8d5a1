use cursed_tetris::args::{valid_id, Args, RawArg};

fn arg(text: &str) -> RawArg<String> {
    RawArg { text: Some(text.to_string()), raw: text.to_string(), is_empty: text.is_empty() }
}

fn not_utf8() -> RawArg<String> {
    RawArg { text: None, raw: "\u{fffd}".to_string(), is_empty: false }
}

fn parse(texts: &[&str]) -> Result<Args<String>, String> {
    Args::parse(texts.iter().map(|t| arg(t)).collect())
}

#[test]
fn no_arguments_play_offline() {
    let a = parse(&[]).unwrap();
    assert_eq!(a.online, None);
    assert_eq!(a.id, None);
    assert!(!a.help);
}

#[test]
fn online_and_id_together() {
    let a = parse(&["--online", "/var/lib/scores.sqlite3", "--id", "key:ab.c_d-1"]).unwrap();
    assert_eq!(a.online, Some("/var/lib/scores.sqlite3".to_string()));
    assert_eq!(a.id, Some("key:ab.c_d-1".to_string()));
    let b = parse(&["--id", "p", "--online", "db"]).unwrap();
    assert_eq!(b.online, Some("db".to_string()));
    assert_eq!(b.id, Some("p".to_string()));
}

#[test]
fn help_flags() {
    assert!(parse(&["--help"]).unwrap().help);
    assert!(parse(&["-h"]).unwrap().help);
}

#[test]
fn online_and_id_must_come_together() {
    let message = Err("--online and --id must be provided together".to_string());
    assert_eq!(parse(&["--online", "db"]).map(|_| ()), message);
    assert_eq!(parse(&["--id", "p"]).map(|_| ()), message);
    assert_eq!(parse(&["--help", "--id", "p"]).map(|_| ()), message);
}

#[test]
fn each_option_only_once() {
    assert_eq!(
        parse(&["--online", "a", "--online", "b", "--id", "p"]).map(|_| ()),
        Err("--online may only be provided once".to_string())
    );
    assert_eq!(
        parse(&["--id", "a", "--id", "b"]).map(|_| ()),
        Err("--id may only be provided once".to_string())
    );
}

#[test]
fn option_values_are_required() {
    assert_eq!(parse(&["--online"]).map(|_| ()), Err("--online requires a database path".to_string()));
    assert_eq!(parse(&["--online", ""]).map(|_| ()), Err("--online requires a database path".to_string()));
    assert_eq!(parse(&["--id"]).map(|_| ()), Err("--id requires a UTF-8 player ID".to_string()));
    let args = vec![arg("--id"), not_utf8()];
    assert_eq!(Args::parse(args).map(|_| ()), Err("--id requires a UTF-8 player ID".to_string()));
}

#[test]
fn a_database_path_need_not_be_utf8() {
    let args = vec![arg("--online"), not_utf8(), arg("--id"), arg("p")];
    let a = Args::parse(args).unwrap();
    assert_eq!(a.online, Some("\u{fffd}".to_string()));
}

#[test]
fn ids_are_checked() {
    let message = Err("--id must be 1-128 letters, numbers, '.', '_', ':', or '-'".to_string());
    assert_eq!(parse(&["--id", "has space", "--online", "db"]).map(|_| ()), message);
    assert_eq!(parse(&["--id", "", "--online", "db"]).map(|_| ()), message);
    let long = "x".repeat(129);
    assert_eq!(parse(&["--id", &long, "--online", "db"]).map(|_| ()), message);
    let max = "x".repeat(128);
    assert!(parse(&["--id", &max, "--online", "db"]).is_ok());
    assert!(valid_id("SHA256:abc.def_ghi-1"));
    assert!(!valid_id("a/b"));
    assert!(!valid_id(""));
}

#[test]
fn unknown_and_non_utf8_arguments() {
    assert_eq!(parse(&["--verbose"]).map(|_| ()), Err("unknown argument: --verbose".to_string()));
    assert_eq!(parse(&["--help", "x"]).map(|_| ()), Err("unknown argument: x".to_string()));
    assert_eq!(
        Args::parse(vec![not_utf8()]).map(|_| ()),
        Err("arguments must be valid UTF-8".to_string())
    );
}

#[test]
fn the_first_error_wins() {
    assert_eq!(parse(&["--bogus", "--online"]).map(|_| ()), Err("unknown argument: --bogus".to_string()));
}
