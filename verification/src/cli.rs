//! Command-line decisions: which mode the leading arguments select, and the
//! fixed usage line. Reading the arguments and printing stay with the caller.

use vstd::prelude::*;
use crate::digits::{dec_val, parse_segment, seg_numeric};

verus! {

/// What a run was asked to do, decided from the first two arguments.
#[derive(Debug)]
pub enum Command {
    /// Print the usage line (help was asked for).
    Help,
    /// Print `count` freshly generated identifiers.
    Generate { count: i32 },
    /// Report an unrecognized option, then the usage line. `token` is the
    /// offending argument, stripped of one leading `-` and trimmed.
    Unrecognized { token: String },
    /// Print the usage line alone (no argument, or an empty one).
    Usage,
}

/// What `str::trim` leaves of a string: the result depends on the
/// characters alone.
pub uninterp spec fn trim_of(s: Seq<char>) -> Seq<char>;

/// Relies on `str::trim`: returns its input with leading and trailing
/// whitespace removed, so a substring determined by the characters alone.
#[verifier::external_body]
fn trim_str(s: &str) -> (r: &str)
    ensures
        r@ == trim_of(s@),
        r@.len() <= s@.len(),
{
    s.trim()
}

/// A diagnostic token: the argument with one leading `-` stripped (when it
/// has one and more besides), before trimming.
pub open spec fn stripped_token(s: Seq<char>) -> Seq<char> {
    if s.len() > 1 && s[0] == '-' {
        s.drop_first()
    } else {
        s
    }
}

/// The diagnostic token an unrecognized argument is reported as.
pub open spec fn cleaned_token(s: Seq<char>) -> Seq<char> {
    trim_of(stripped_token(s))
}

/// The usage line.
pub fn usage_line() -> (r: String)
    ensures
        r@ == "usage: pesel [-r | random <count>] [-h | --help]"@,
{
    "usage: pesel [-r | random <count>] [-h | --help]".to_owned()
}

/// Character-for-character string equality.
fn str_eq(a: &str, b: &str) -> (r: bool)
    ensures
        r == (a@ == b@),
{
    let na = a.unicode_len();
    let nb = b.unicode_len();
    if na != nb {
        return false;
    }
    let mut i: usize = 0;
    while i < na
        invariant
            0 <= i <= na,
            na == a@.len(),
            na == b@.len(),
            forall|j: int| 0 <= j < i ==> a@[j] == b@[j],
        decreases na - i,
    {
        if a.get_char(i) != b.get_char(i) {
            return false;
        }
        i = i + 1;
    }
    proof {
        assert(a@ =~= b@);
    }
    true
}

/// The diagnostic token for a non-empty unrecognized argument.
fn clean_token(s: &str) -> (r: String)
    requires
        s@.len() > 0,
    ensures
        r@ == cleaned_token(s@),
{
    let n = s.unicode_len();
    let stripped: &str = if n > 1 && s.get_char(0) == '-' {
        let t = s.substring_char(1, n);
        proof {
            assert(t@ =~= stripped_token(s@));
        }
        t
    } else {
        s
    };
    trim_str(stripped).to_owned()
}

/// Decide the command from the first two arguments. Help wins on `-h` or
/// `--help` whatever follows; `-r` or `--random` generates `count`
/// identifiers, one by default, and treats a non-numeric count as an
/// unrecognized option; anything else is unrecognized, an absent or empty
/// argument asking only for the usage line.
pub fn decide_command(first: Option<&str>, second: Option<&str>) -> (c: Command)
    ensures
        ({
            match first {
                None => c is Usage,
                Some(f) => {
                    if f@ == "-h"@ || f@ == "--help"@ {
                        c is Help
                    } else if f@ == "-r"@ || f@ == "--random"@ {
                        match second {
                            None => c matches Command::Generate { count } && count == 1,
                            Some(s) => {
                                if seg_numeric(s@) {
                                    c matches Command::Generate { count } && count == dec_val(s@)
                                } else if s@.len() == 0 {
                                    c is Usage
                                } else {
                                    c matches Command::Unrecognized { token } && token@
                                        == cleaned_token(s@)
                                }
                            },
                        }
                    } else if f@.len() == 0 {
                        c is Usage
                    } else {
                        c matches Command::Unrecognized { token } && token@ == cleaned_token(f@)
                    }
                },
            }
        }),
{
    let f = match first {
        None => {
            return Command::Usage;
        },
        Some(f) => f,
    };
    if str_eq(f, "-h") || str_eq(f, "--help") {
        Command::Help
    } else if str_eq(f, "-r") || str_eq(f, "--random") {
        match second {
            None => Command::Generate { count: 1 },
            Some(s) => {
                let n = s.unicode_len();
                proof {
                    assert(s@.subrange(0, n as int) =~= s@);
                }
                match parse_segment(s, 0, n) {
                    Some(v) => Command::Generate { count: v },
                    None => {
                        if n == 0 {
                            Command::Usage
                        } else {
                            Command::Unrecognized { token: clean_token(s) }
                        }
                    },
                }
            },
        }
    } else {
        if f.unicode_len() == 0 {
            Command::Usage
        } else {
            Command::Unrecognized { token: clean_token(f) }
        }
    }
}

} // verus!
