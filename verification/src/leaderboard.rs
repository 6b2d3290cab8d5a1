//! Leaderboard rules: which usernames are accepted, when a score qualifies
//! for the shared board, and how stored rows become ranked entries.
use vstd::prelude::*;

use rustrict::CensorStr;
use vstd::string::StringSliceAdditionalSpecFns;

verus! {

/// How many places the leaderboard keeps.
pub const LEADERBOARD_LIMIT: usize = 50;

/// The longest username, in bytes.
pub const USERNAME_MAX_LEN: usize = 12;

/// The smallest score that may enter the leaderboard.
pub const QUALIFYING_SCORE: u32 = 50;

/// One ranked line of the leaderboard.
#[derive(Clone, Debug, PartialEq, Eq)]
pub struct LeaderboardEntry {
    pub rank: usize,
    pub username: String,
    pub score: u32,
    pub is_current: bool,
}

/// A score that would enter the leaderboard: the place it would take and the
/// name the player already has, if any.
#[derive(Clone, Debug, PartialEq, Eq)]
pub struct Qualification {
    pub rank: usize,
    pub username: Option<String>,
}

// ---------------------------------------------------------------------------
// Usernames
// ---------------------------------------------------------------------------

/// Whether the profanity filter flags `text` as inappropriate.
pub uninterp spec fn inappropriate(text: Seq<char>) -> bool;

/// A byte a username may hold: an ASCII letter or digit, `_` or `-`.
pub open spec fn username_byte(b: u8) -> bool {
    // '0'..='9', 'A'..='Z', 'a'..='z', '_' and '-'
    ||| (48 <= b <= 57)
    ||| (65 <= b <= 90)
    ||| (97 <= b <= 122)
    ||| b == 95
    ||| b == 45
}

/// The length of a username, in bytes, is within bounds.
pub open spec fn username_length_ok(bytes: Seq<u8>) -> bool {
    1 <= bytes.len() <= USERNAME_MAX_LEN
}

/// Every byte of a username is allowed.
pub open spec fn username_bytes_ok(bytes: Seq<u8>) -> bool {
    forall|i: int| 0 <= i < bytes.len() ==> username_byte(#[trigger] bytes[i])
}

pub open spec fn length_message() -> Seq<char> {
    "Username must be 1-12 characters."@
}

pub open spec fn charset_message() -> Seq<char> {
    "Use only letters, numbers, underscores, or hyphens."@
}

pub open spec fn inappropriate_message() -> Seq<char> {
    "Username might be inappropriate, please choose a different name. Sorry :("@
}

/// What is wrong with the shape of a username, if anything: its length is
/// checked first, then its bytes.
pub open spec fn format_problem(bytes: Seq<u8>) -> Option<Seq<char>> {
    if !username_length_ok(bytes) {
        Some(length_message())
    } else if !username_bytes_ok(bytes) {
        Some(charset_message())
    } else {
        None
    }
}

/// What is wrong with a username, given its bytes and whether the filter
/// flags it; `None` when it is accepted.
pub open spec fn username_problem(bytes: Seq<u8>, flagged: bool) -> Option<Seq<char>> {
    if format_problem(bytes) is Some {
        format_problem(bytes)
    } else if flagged {
        Some(inappropriate_message())
    } else {
        None
    }
}

/// A result with a textual error agrees with an optional message.
pub open spec fn reports(r: Result<(), String>, problem: Option<Seq<char>>) -> bool {
    match r {
        Ok(()) => problem is None,
        Err(e) => problem == Some(e@),
    }
}

/// Whether `b` may stand in a username.
pub fn is_username_byte(b: u8) -> (r: bool)
    ensures
        r == username_byte(b),
{
    // '0'..='9', 'A'..='Z', 'a'..='z', '_' and '-'
    (48 <= b && b <= 57) || (65 <= b && b <= 90) || (97 <= b && b <= 122) || b == 95 || b == 45
}

/// The message for what is wrong with the shape of `username`, if anything.
pub fn username_format_error(username: &str) -> (r: Option<String>)
    ensures
        match r {
            None => format_problem(username.spec_bytes()) is None,
            Some(e) => format_problem(username.spec_bytes()) == Some(e@),
        },
{
    let bytes = username.as_bytes();
    let n = bytes.len();
    if n == 0 || n > USERNAME_MAX_LEN {
        return Some(String::from_str("Username must be 1-12 characters."));
    }
    let mut i: usize = 0;
    while i < n
        invariant
            0 <= i <= n,
            n == bytes@.len(),
            bytes@ == username.spec_bytes(),
            username_length_ok(bytes@),
            forall|j: int| 0 <= j < i ==> username_byte(#[trigger] bytes@[j]),
        decreases n - i,
    {
        if !is_username_byte(bytes[i]) {
            return Some(String::from_str("Use only letters, numbers, underscores, or hyphens."));
        }
        i += 1;
    }
    None
}

/// The verdict on `username` once the profanity filter has answered
/// `flagged` for it.
pub fn judge_username(username: &str, flagged: bool) -> (r: Result<(), String>)
    ensures
        reports(r, username_problem(username.spec_bytes(), flagged)),
{
    match username_format_error(username) {
        Some(e) => Err(e),
        None => {
            if flagged {
                Err(
                    String::from_str(
                        "Username might be inappropriate, please choose a different name. Sorry :(",
                    ),
                )
            } else {
                Ok(())
            }
        },
    }
}

/// Asks the profanity filter about `text`: `rustrict`'s
/// `CensorStr::is_inappropriate` on the string slice. Its answer depends on
/// the text alone (the word lists are built into the crate), and this
/// contract names it `inappropriate`; what the filter flags is not stated.
#[verifier::external_body]
fn is_inappropriate(text: &str) -> (r: bool)
    ensures
        r == inappropriate(text@),
{
    text.is_inappropriate()
}

/// Checks a username a player wants to claim: 1 to 12 bytes, each an ASCII
/// letter or digit, `_` or `-`, and not flagged by the profanity filter,
/// which is asked only about names of a valid shape.
pub fn validate_username(username: &str) -> (r: Result<(), String>)
    ensures
        reports(r, username_problem(username.spec_bytes(), inappropriate(username@))),
{
    match username_format_error(username) {
        Some(e) => Err(e),
        None => {
            let flagged = is_inappropriate(username);
            judge_username(username, flagged)
        },
    }
}

// ---------------------------------------------------------------------------
// Qualifying and submitting
// ---------------------------------------------------------------------------

/// A score high enough to be considered at all.
pub fn score_can_qualify(score: u32) -> (r: bool)
    ensures
        r == (score >= QUALIFYING_SCORE),
{
    score >= QUALIFYING_SCORE
}

/// A score beats the player's stored best, if there is one.
pub open spec fn beats_best(score: u32, best: Option<u32>) -> bool {
    match best {
        Some(b) => score > b,
        None => true,
    }
}

/// Whether `score` is a new personal best over `best`.
pub fn is_new_best(score: u32, best: Option<u32>) -> (r: bool)
    ensures
        r == beats_best(score, best),
{
    match best {
        Some(b) => score > b,
        None => true,
    }
}

/// Whether a place on the board is within the places it keeps.
pub fn rank_qualifies(rank: usize) -> (r: bool)
    ensures
        r == (rank <= LEADERBOARD_LIMIT),
{
    rank <= LEADERBOARD_LIMIT
}

/// The place a score would take, from the database's answer `one plus the
/// number of other players with a score at least as high`.
pub fn rank_from_count(count: i64) -> (r: usize)
    requires
        0 <= count <= usize::MAX,
    ensures
        r == count,
{
    count as usize
}

/// What the game offers the player after a game: `None` when the score is
/// too low, is no new personal best over `best`, or would land below the
/// board's last place at `rank`; otherwise the place and the player's name.
pub fn qualification_from(score: u32, best: Option<u32>, rank: usize, username: Option<String>) -> (r:
    Option<Qualification>)
    ensures
        r is Some <==> (score >= QUALIFYING_SCORE && beats_best(score, best) && rank
            <= LEADERBOARD_LIMIT),
        r is Some ==> r->0.rank == rank && r->0.username == username,
{
    if !score_can_qualify(score) || !is_new_best(score, best) || !rank_qualifies(rank) {
        None
    } else {
        Some(Qualification { rank, username })
    }
}

pub open spec fn not_best_message() -> Seq<char> {
    "This score is not a new personal best."@
}

pub open spec fn no_longer_qualifies_message() -> Seq<char> {
    "This score no longer qualifies for the top 50."@
}

pub open spec fn missing_username_message() -> Seq<char> {
    "Enter a username before submitting."@
}

pub open spec fn username_taken_message() -> Seq<char> {
    "That username is already taken."@
}

/// Refuses a submission that is no new personal best.
pub fn check_new_best(score: u32, best: Option<u32>) -> (r: Result<(), String>)
    ensures
        reports(r, if beats_best(score, best) { None } else { Some(not_best_message()) }),
{
    if is_new_best(score, best) {
        Ok(())
    } else {
        Err(String::from_str("This score is not a new personal best."))
    }
}

/// Refuses a submission whose place has fallen off the board meanwhile.
pub fn check_rank(rank: usize) -> (r: Result<(), String>)
    ensures
        reports(
            r,
            if rank <= LEADERBOARD_LIMIT {
                None
            } else {
                Some(no_longer_qualifies_message())
            },
        ),
{
    if rank_qualifies(rank) {
        Ok(())
    } else {
        Err(String::from_str("This score no longer qualifies for the top 50."))
    }
}

/// The name under which a player without a stored name is registered: the
/// one entered, or an error when none was.
pub fn new_player_name(username: Option<&str>) -> (r: Result<String, String>)
    ensures
        match (username, r) {
            (Some(u), Ok(name)) => name@ == u@,
            (None, Err(e)) => e@ == missing_username_message(),
            _ => false,
        },
{
    match username {
        Some(u) => Ok(String::from_str(u)),
        None => Err(String::from_str("Enter a username before submitting.")),
    }
}

/// The name to register with a submission: none when the player already
/// has one stored (`existing`), else the one entered (`given`), and an
/// error when there is none to register.
pub fn submission_name(existing: Option<String>, given: Option<&str>) -> (r: Result<Option<String>, String>)
    ensures
        match (existing, given, r) {
            (Some(_), _, Ok(None)) => true,
            (None, Some(u), Ok(Some(name))) => name@ == u@,
            (None, None, Err(e)) => e@ == missing_username_message(),
            _ => false,
        },
{
    match existing {
        Some(_) => Ok(None),
        None => match new_player_name(given) {
            Ok(name) => Ok(Some(name)),
            Err(e) => Err(e),
        },
    }
}

/// Whether `needle` occurs in `hay` as a contiguous run.
pub open spec fn occurs_in(hay: Seq<char>, needle: Seq<char>) -> bool {
    exists|i: int| 0 <= i && i + needle.len() <= hay.len() && #[trigger] hay.subrange(i, i + needle.len()) == needle
}

/// Whether `needle` occurs in `hay` at position `at`.
fn occurs_at(hay: &str, needle: &str, at: usize) -> (r: bool)
    requires
        at + needle@.len() <= hay@.len(),
    ensures
        r == (hay@.subrange(at as int, at + needle@.len()) == needle@),
{
    let h = hay.unicode_len();
    let n = needle.unicode_len();
    let mut k: usize = 0;
    while k < n
        invariant
            h == hay@.len(),
            n == needle@.len(),
            at + n <= hay@.len(),
            0 <= k <= n,
            forall|j: int| 0 <= j < k ==> hay@[at + j] == needle@[j],
        decreases n - k,
    {
        if hay.get_char(at + k) != needle.get_char(k) {
            assert(hay@.subrange(at as int, at + n)[k as int] != needle@[k as int]);
            return false;
        }
        k += 1;
    }
    assert(hay@.subrange(at as int, at + n) =~= needle@);
    true
}

/// Whether `needle` occurs anywhere in `hay`.
pub fn contains_text(hay: &str, needle: &str) -> (r: bool)
    ensures
        r == occurs_in(hay@, needle@),
{
    let h = hay.unicode_len();
    let n = needle.unicode_len();
    if n > h {
        return false;
    }
    if n == 0 {
        assert(hay@.subrange(0int, 0int + needle@.len()) =~= needle@);
        return true;
    }
    let mut i: usize = 0;
    while i <= h - n
        invariant
            h == hay@.len(),
            n == needle@.len(),
            0 < n <= h,
            0 <= i <= h - n + 1,
            forall|j: int| 0 <= j < i ==> #[trigger] hay@.subrange(j, j + n) != needle@,
        decreases h - n + 1 - i,
    {
        if occurs_at(hay, needle, i) {
            return true;
        }
        i += 1;
    }
    false
}

/// The message shown when registering a new player fails with the database
/// error `error`: a taken name is told in words, anything else as it came.
pub fn insert_error_message(error: &str) -> (r: String)
    ensures
        r@ == (if occurs_in(error@, "UNIQUE constraint failed: players.username"@) {
            username_taken_message()
        } else {
            error@
        }),
{
    if contains_text(error, "UNIQUE constraint failed: players.username") {
        String::from_str("That username is already taken.")
    } else {
        String::from_str(error)
    }
}

/// The time stamp a new score is stored with: now, or one past the latest
/// stored one if that is not earlier, so that earlier scores rank first
/// among equal scores.
pub fn achieved_at(now_ms: i64, latest_ms: i64) -> (r: i64)
    ensures
        r == (if latest_ms == i64::MAX {
            latest_ms as int
        } else if now_ms >= latest_ms + 1 {
            now_ms as int
        } else {
            latest_ms + 1
        }),
        r >= now_ms,
        r > latest_ms || latest_ms == i64::MAX,
{
    let next = if latest_ms == i64::MAX {
        i64::MAX
    } else {
        latest_ms + 1
    };
    if now_ms >= next {
        now_ms
    } else {
        next
    }
}

/// Milliseconds since the epoch as a signed database value, saturated at
/// `i64::MAX`.
pub fn millis_as_i64(ms: u128) -> (r: i64)
    ensures
        r == (if ms <= i64::MAX { ms as int } else { i64::MAX as int }),
{
    if ms <= i64::MAX as u128 {
        ms as i64
    } else {
        i64::MAX
    }
}

/// Whether two string slices hold the same text.
pub fn same_text(a: &str, b: &str) -> (r: bool)
    ensures
        r == (a@ == b@),
{
    let n = a.unicode_len();
    if n != b.unicode_len() {
        return false;
    }
    let mut k: usize = 0;
    while k < n
        invariant
            n == a@.len(),
            n == b@.len(),
            0 <= k <= n,
            forall|j: int| 0 <= j < k ==> a@[j] == b@[j],
        decreases n - k,
    {
        if a.get_char(k) != b.get_char(k) {
            return false;
        }
        k += 1;
    }
    assert(a@ =~= b@);
    true
}

/// The entry built from the row at `index` of the ranked query.
pub open spec fn entry_of(row: (String, String, u32), index: int, id: Seq<char>) -> (Seq<char>, int, u32, bool) {
    (row.1@, index + 1, row.2, row.0@ == id)
}

/// Ranked entries from the rows `(player id, username, score)` that the
/// database returns best first: the place is the row's position plus one,
/// and the entry of the player `id` is marked as the current one.
pub fn entries_from_rows(rows: Vec<(String, String, u32)>, id: &str) -> (r: Vec<LeaderboardEntry>)
    requires
        rows@.len() < usize::MAX,
    ensures
        r@.len() == rows@.len(),
        forall|i: int|
            0 <= i < r@.len() ==> (#[trigger] r@[i].username@, r@[i].rank as int, r@[i].score,
                r@[i].is_current) == entry_of(rows@[i], i, id@),
{
    let mut out: Vec<LeaderboardEntry> = Vec::new();
    let mut i: usize = 0;
    let n = rows.len();
    while i < n
        invariant
            n == rows@.len(),
            n < usize::MAX,
            0 <= i <= n,
            out@.len() == i,
            forall|j: int|
                0 <= j < i ==> (#[trigger] out@[j].username@, out@[j].rank as int, out@[j].score,
                    out@[j].is_current) == entry_of(rows@[j], j, id@),
        decreases n - i,
    {
        let row = &rows[i];
        let is_current = same_text(row.0.as_str(), id);
        let entry = LeaderboardEntry {
            rank: i + 1,
            username: row.1.clone(),
            score: row.2,
            is_current,
        };
        out.push(entry);
        i += 1;
    }
    out
}

} // verus!
