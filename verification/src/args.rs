//! Command-line arguments: `--online DATABASE --id PLAYER_ID` and `--help`.
use vstd::prelude::*;

use vstd::string::StringSliceAdditionalSpecFns;
use vstd::utf8::encode_utf8;

verus! {

/// The longest player id, in bytes.
pub const ID_MAX_LEN: usize = 128;

/// One command-line argument as the operating system gave it: its text when
/// it is valid UTF-8, the raw value (a path is made of it), and whether it
/// is empty.
pub struct RawArg<P> {
    pub text: Option<String>,
    pub raw: P,
    pub is_empty: bool,
}

/// The parsed arguments; `P` is the raw argument type that database paths
/// are made of.
pub struct Args<P> {
    pub online: Option<P>,
    pub id: Option<String>,
    pub help: bool,
}

impl<P> Args<P> {
    /// No argument given.
    pub open spec fn none_given() -> Self {
        Args { online: None, id: None, help: false }
    }
}

/// A byte a player id may hold: an ASCII letter or digit, `.`, `_`, `:` or
/// `-`.
pub open spec fn id_byte(b: u8) -> bool {
    // '0'..='9', 'A'..='Z', 'a'..='z', '.', '_', ':' and '-'
    ||| (48 <= b <= 57)
    ||| (65 <= b <= 90)
    ||| (97 <= b <= 122)
    ||| b == 46
    ||| b == 95
    ||| b == 58
    ||| b == 45
}

/// A player id of 1 to 128 bytes, each allowed.
pub open spec fn id_ok(bytes: Seq<u8>) -> bool {
    &&& 1 <= bytes.len() <= ID_MAX_LEN
    &&& forall|i: int| 0 <= i < bytes.len() ==> id_byte(#[trigger] bytes[i])
}

/// Whether `id` is a valid player id.
pub fn valid_id(id: &str) -> (r: bool)
    ensures
        r == id_ok(id.spec_bytes()),
{
    let bytes = id.as_bytes();
    let n = bytes.len();
    if n == 0 || n > ID_MAX_LEN {
        return false;
    }
    let mut i: usize = 0;
    while i < n
        invariant
            0 <= i <= n,
            n == bytes@.len(),
            bytes@ == id.spec_bytes(),
            1 <= n <= ID_MAX_LEN,
            forall|j: int| 0 <= j < i ==> id_byte(#[trigger] bytes@[j]),
        decreases n - i,
    {
        let b = bytes[i];
        // '0'..='9', 'A'..='Z', 'a'..='z', '.', '_', ':' and '-'
        let ok = (48 <= b && b <= 57) || (65 <= b && b <= 90) || (97 <= b && b <= 122) || b == 46
            || b == 95 || b == 58 || b == 45;
        if !ok {
            return false;
        }
        i += 1;
    }
    true
}

/// What parsing the arguments `rest` gives when `acc` holds what came
/// before them: the arguments, or an error message.
pub open spec fn parse_rest<P>(rest: Seq<RawArg<P>>, acc: Args<P>) -> Result<Args<P>, Seq<char>>
    decreases rest.len(),
{
    if rest.len() == 0 {
        if acc.online.is_some() != acc.id.is_some() {
            Err("--online and --id must be provided together"@)
        } else {
            Ok(acc)
        }
    } else {
        match rest[0].text {
            None => Err("arguments must be valid UTF-8"@),
            Some(t) => {
                if t@ == "--online"@ {
                    if acc.online is Some {
                        Err("--online may only be provided once"@)
                    } else if rest.len() < 2 || rest[1].is_empty {
                        Err("--online requires a database path"@)
                    } else {
                        parse_rest(
                            rest.subrange(2, rest.len() as int),
                            Args { online: Some(rest[1].raw), ..acc },
                        )
                    }
                } else if t@ == "--id"@ {
                    if acc.id is Some {
                        Err("--id may only be provided once"@)
                    } else if rest.len() < 2 || rest[1].text is None {
                        Err("--id requires a UTF-8 player ID"@)
                    } else if !id_ok(encode_utf8(rest[1].text->0@)) {
                        Err("--id must be 1-128 letters, numbers, '.', '_', ':', or '-'"@)
                    } else {
                        parse_rest(
                            rest.subrange(2, rest.len() as int),
                            Args { id: rest[1].text, ..acc },
                        )
                    }
                } else if t@ == "--help"@ || t@ == "-h"@ {
                    parse_rest(rest.drop_first(), Args { help: true, ..acc })
                } else {
                    Err("unknown argument: "@ + t@)
                }
            },
        }
    }
}

/// What a successful parse gives: a database path exactly when a player
/// id, and every id a valid one.
pub open spec fn well_paired<P>(a: Args<P>) -> bool {
    &&& (a.online is Some <==> a.id is Some)
    &&& (a.id matches Some(id) ==> id_ok(encode_utf8(id@)))
}

proof fn lemma_parse_rest_well_paired<P>(rest: Seq<RawArg<P>>, acc: Args<P>)
    requires
        acc.id matches Some(id) ==> id_ok(encode_utf8(id@)),
    ensures
        parse_rest(rest, acc) matches Ok(a) ==> well_paired(a),
    decreases rest.len(),
{
    if rest.len() > 0 {
        if let Some(t) = rest[0].text {
            if t@ == "--online"@ {
                if acc.online is None && rest.len() >= 2 && !rest[1].is_empty {
                    lemma_parse_rest_well_paired(
                        rest.subrange(2, rest.len() as int),
                        Args { online: Some(rest[1].raw), ..acc },
                    );
                }
            } else if t@ == "--id"@ {
                if acc.id is None && rest.len() >= 2 && rest[1].text is Some && id_ok(
                    encode_utf8(rest[1].text->0@),
                ) {
                    lemma_parse_rest_well_paired(
                        rest.subrange(2, rest.len() as int),
                        Args { id: rest[1].text, ..acc },
                    );
                }
            } else if t@ == "--help"@ || t@ == "-h"@ {
                lemma_parse_rest_well_paired(rest.drop_first(), Args { help: true, ..acc });
            }
        }
    }
}

/// The database and the player id come together: whenever parsing
/// succeeds, it gives a database path exactly when it gives a player id,
/// and the id is 1 to 128 allowed bytes.
pub proof fn lemma_parse_pairs_online_with_id<P>(arguments: Seq<RawArg<P>>)
    ensures
        parse_rest(arguments, Args::none_given()) matches Ok(a) ==> well_paired(a),
{
    lemma_parse_rest_well_paired(arguments, Args::none_given());
}

/// A parse result agrees with its specification.
pub open spec fn parsed_as<P>(r: Result<Args<P>, String>, expected: Result<Args<P>, Seq<char>>) -> bool {
    match (r, expected) {
        (Ok(a), Ok(b)) => a == b,
        (Err(e), Err(m)) => e@ == m,
        _ => false,
    }
}

/// Whether `s` is exactly `lit`.
fn is_literal(s: &String, lit: &str) -> (r: bool)
    ensures
        r == (s@ == lit@),
{
    let l = String::from_str(lit);
    *s == l
}

impl<P> Args<P> {
    /// Parses the arguments after the program's name. `--online` takes the
    /// next argument as the database path (which must not be empty), `--id`
    /// the next as the player id (which must be valid UTF-8 and a valid id);
    /// each may be given once, and both or neither. `--help` or `-h` asks
    /// for the usage text. Anything else is an error.
    pub fn parse(arguments: Vec<RawArg<P>>) -> (r: Result<Self, String>)
        ensures
            parsed_as(r, parse_rest(arguments@, Args::none_given())),
    {
        let ghost all = arguments@;
        let mut rest = arguments;
        let mut parsed: Args<P> = Args { online: None, id: None, help: false };
        while rest.len() > 0
            invariant
                all == arguments@,
                parse_rest(all, Args::none_given()) == parse_rest(rest@, parsed),
            decreases rest.len(),
        {
            let ghost before = rest@;
            let ghost acc = parsed;
            let argument = rest.remove(0);
            assert(rest@ =~= before.drop_first());
            match argument.text {
                None => {
                    return Err(String::from_str("arguments must be valid UTF-8"));
                },
                Some(t) => {
                    if is_literal(&t, "--online") {
                        if parsed.online.is_some() {
                            return Err(String::from_str("--online may only be provided once"));
                        }
                        if rest.len() == 0 {
                            return Err(String::from_str("--online requires a database path"));
                        }
                        let value = rest.remove(0);
                        assert(rest@ =~= before.subrange(2, before.len() as int));
                        if value.is_empty {
                            return Err(String::from_str("--online requires a database path"));
                        }
                        parsed.online = Some(value.raw);
                    } else if is_literal(&t, "--id") {
                        if parsed.id.is_some() {
                            return Err(String::from_str("--id may only be provided once"));
                        }
                        if rest.len() == 0 {
                            return Err(String::from_str("--id requires a UTF-8 player ID"));
                        }
                        let value = rest.remove(0);
                        assert(rest@ =~= before.subrange(2, before.len() as int));
                        match value.text {
                            None => {
                                return Err(String::from_str("--id requires a UTF-8 player ID"));
                            },
                            Some(id) => {
                                if !valid_id(id.as_str()) {
                                    return Err(
                                        String::from_str(
                                            "--id must be 1-128 letters, numbers, '.', '_', ':', or '-'",
                                        ),
                                    );
                                }
                                parsed.id = Some(id);
                            },
                        }
                    } else if is_literal(&t, "--help") || is_literal(&t, "-h") {
                        parsed.help = true;
                    } else {
                        let message = String::from_str("unknown argument: ");
                        return Err(message.concat(t.as_str()));
                    }
                },
            }
        }
        if parsed.online.is_some() != parsed.id.is_some() {
            return Err(String::from_str("--online and --id must be provided together"));
        }
        Ok(parsed)
    }
}

} // verus!
