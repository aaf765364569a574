//! Parsing of request lines.
//!
//! A request line is a verb followed by up to two space-separated
//! arguments; the second argument of `put` is the remainder of the
//! line, so a byte count followed by anything else fails to parse and
//! is treated as zero, exactly as the numeric field is rejected.

use vstd::prelude::*;

use crate::text::{find_char, first_idx, lemma_first_idx, parse_u64, str_eq, u64_of};

verus! {

/// The first space-separated token of `s`.
pub open spec fn tok0(s: Seq<char>) -> Seq<char> {
    s.subrange(0, first_idx(s, ' '))
}

/// Whether anything follows the first token of `s`.
pub open spec fn has_more(s: Seq<char>) -> bool {
    first_idx(s, ' ') < s.len()
}

/// Everything after the first space of `s`.
pub open spec fn rest1(s: Seq<char>) -> Seq<char> {
    s.subrange(first_idx(s, ' ') + 1, s.len() as int)
}

/// A parsed request line, over character sequences.
pub enum CmdSpec {
    Blank,
    List { path: Seq<char> },
    Get { path: Seq<char> },
    Put { path: Seq<char>, size: nat },
    Help,
    Quit,
    Unknown,
}

/// The path argument of a line whose verb takes one, with `dflt` where
/// the argument is absent.
pub open spec fn arg_path(s: Seq<char>, dflt: Seq<char>) -> Seq<char> {
    if has_more(s) {
        tok0(rest1(s))
    } else {
        dflt
    }
}

/// The byte-count field of a `put` line: the remainder after the
/// second space, or `0` where the line has no third field.
pub open spec fn arg_size(s: Seq<char>) -> Seq<char> {
    if has_more(s) && has_more(rest1(s)) {
        rest1(rest1(s))
    } else {
        seq!['0']
    }
}

/// What a request line means.  The five verbs are recognised exactly;
/// a blank line is skipped; anything else is unknown.
pub open spec fn parse_spec(s: Seq<char>) -> CmdSpec {
    if s.len() == 0 {
        CmdSpec::Blank
    } else {
        let v = tok0(s);
        if v == "quit"@ {
            CmdSpec::Quit
        } else if v == "help"@ {
            CmdSpec::Help
        } else if v == "list"@ {
            CmdSpec::List { path: arg_path(s, "."@) }
        } else if v == "get"@ {
            CmdSpec::Get { path: arg_path(s, ""@) }
        } else if v == "put"@ {
            CmdSpec::Put { path: arg_path(s, ""@), size: u64_of(arg_size(s)) }
        } else {
            CmdSpec::Unknown
        }
    }
}

/// A parsed request line.  A `put` whose byte count fails to parse
/// carries size zero, which the session rejects before any payload
/// byte is consumed.
pub enum Command {
    Blank,
    List { path: String },
    Get { path: String },
    Put { path: String, size: u64 },
    Help,
    Quit,
    Unknown,
}

impl Command {
    /// The meaning of this command, over character sequences.
    pub open spec fn view_spec(&self) -> CmdSpec {
        match self {
            Command::Blank => CmdSpec::Blank,
            Command::List { path } => CmdSpec::List { path: path@ },
            Command::Get { path } => CmdSpec::Get { path: path@ },
            Command::Put { path, size } => CmdSpec::Put { path: path@, size: *size as nat },
            Command::Help => CmdSpec::Help,
            Command::Quit => CmdSpec::Quit,
            Command::Unknown => CmdSpec::Unknown,
        }
    }
}

/// The token after the first space of `line`, which must exist.
fn second_token(line: &str, i: usize) -> (t: String)
    requires
        i == first_idx(line@, ' '),
        i < line@.len(),
    ensures
        t@ == tok0(rest1(line@)),
{
    let n = line.unicode_len();
    let rest = line.substring_char(i + 1, n);
    proof {
        assert(rest@ =~= rest1(line@));
        lemma_first_idx(rest@, ' ');
    }
    let j = find_char(rest, ' ');
    String::from_str(rest.substring_char(0, j))
}

/// Parses one request line, as the session dispatch reads it.
pub fn parse_command(line: &str) -> (c: Command)
    ensures
        c.view_spec() == parse_spec(line@),
{
    let n = line.unicode_len();
    if n == 0 {
        return Command::Blank;
    }
    let i = find_char(line, ' ');
    proof {
        lemma_first_idx(line@, ' ');
    }
    let verb = line.substring_char(0, i);
    proof {
        assert(verb@ =~= tok0(line@));
    }
    if str_eq(verb, "quit") {
        Command::Quit
    } else if str_eq(verb, "help") {
        Command::Help
    } else if str_eq(verb, "list") {
        let path = if i < n {
            second_token(line, i)
        } else {
            String::from_str(".")
        };
        Command::List { path }
    } else if str_eq(verb, "get") {
        let path = if i < n {
            second_token(line, i)
        } else {
            String::from_str("")
        };
        Command::Get { path }
    } else if str_eq(verb, "put") {
        let path = if i < n {
            second_token(line, i)
        } else {
            String::from_str("")
        };
        let size: u64 = if i < n {
            let rest = line.substring_char(i + 1, n);
            proof {
                assert(rest@ =~= rest1(line@));
                lemma_first_idx(rest@, ' ');
            }
            let j = find_char(rest, ' ');
            let rn = rest.unicode_len();
            if j < rn {
                let size_str = rest.substring_char(j + 1, rn);
                proof {
                    assert(size_str@ =~= rest1(rest1(line@)));
                }
                match parse_u64(size_str) {
                    Some(v) => v,
                    None => 0,
                }
            } else {
                proof {
                    lemma_u64_of_zero();
                }
                0
            }
        } else {
            proof {
                lemma_u64_of_zero();
            }
            0
        };
        Command::Put { path, size }
    } else {
        Command::Unknown
    }
}

/// The literal `0` denotes zero.
proof fn lemma_u64_of_zero()
    ensures
        u64_of(seq!['0']) == 0,
{
    let s = seq!['0'];
    assert(crate::text::digits_of(s) == s);
    assert(crate::text::dec_val(s.drop_last()) == 0) by {
        assert(s.drop_last().len() == 0);
    }
    assert(crate::text::dec_val(s) == 0);
}

} // verus!
