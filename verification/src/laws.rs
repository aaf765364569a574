//! Protocol-wide guarantees, stated across the parser, the resolver
//! and the session contracts.

use vstd::prelude::*;

use crate::command::{arg_path, arg_size, has_more, parse_spec, rest1, tok0, CmdSpec};
use crate::resolve::resolve_spec;
use crate::text::{
    dec, first_idx, lemma_dec_round_trip, lemma_first_idx_absent, lemma_first_idx_concat, u64_of,
};

verus! {

/// Framing: a `put` request line built from a path `p` and a
/// byte-count field `ns` parses back to exactly `p` and the value of
/// `ns` — so the session asks for exactly that many payload bytes,
/// whatever the payload holds, and an unparsable count is zero and is
/// rejected before any payload byte is consumed.
pub proof fn lemma_put_line_framing(p: Seq<char>, ns: Seq<char>)
    requires
        p.len() > 0,
        forall|i: int| 0 <= i < p.len() ==> p[i] != ' ',
    ensures
        parse_spec("put "@ + p + " "@ + ns) == (CmdSpec::Put { path: p, size: u64_of(ns) }),
{
    reveal_strlit("put ");
    reveal_strlit("put");
    reveal_strlit(" ");
    reveal_strlit("quit");
    reveal_strlit("help");
    reveal_strlit("list");
    reveal_strlit("get");
    let line = "put "@ + p + " "@ + ns;
    let tail = p + seq![' '] + ns;
    assert(line =~= "put"@ + seq![' '] + tail);
    lemma_first_idx_concat("put"@, tail, ' ');
    assert(tok0(line) =~= "put"@);
    assert(tok0(line) != "quit"@ && tok0(line) != "help"@ && tok0(line) != "list"@ && tok0(line)
        != "get"@);
    assert(has_more(line));
    assert(rest1(line) =~= tail);
    lemma_first_idx_concat(p, ns, ' ');
    assert(first_idx(rest1(line), ' ') == p.len());
    assert(tok0(rest1(line)) =~= p);
    assert(arg_path(line, ""@) == p);
    assert(has_more(rest1(line)));
    assert(rest1(rest1(line)) =~= ns);
    assert(arg_size(line) == ns);
}

/// Framing, with the count written out: a `put` line whose byte-count
/// field is the decimal rendering of `n` asks for exactly `n` payload
/// bytes — for `n = 1` as for any large `n` — and `n = 0` is
/// rejected with no payload byte consumed.
pub proof fn lemma_put_line_exact_count(p: Seq<char>, n: u64)
    requires
        p.len() > 0,
        forall|i: int| 0 <= i < p.len() ==> p[i] != ' ',
    ensures
        parse_spec("put "@ + p + " "@ + dec(n as nat)) == (CmdSpec::Put {
            path: p,
            size: n as nat,
        }),
{
    lemma_put_line_framing(p, dec(n as nat));
    lemma_dec_round_trip(n);
}

/// A `get` request line built from a path `p` parses back to exactly
/// `p`.
pub proof fn lemma_get_line(p: Seq<char>)
    requires
        p.len() > 0,
        forall|i: int| 0 <= i < p.len() ==> p[i] != ' ',
    ensures
        parse_spec("get "@ + p) == (CmdSpec::Get { path: p }),
{
    reveal_strlit("get ");
    reveal_strlit("get");
    reveal_strlit("quit");
    reveal_strlit("help");
    reveal_strlit("list");
    reveal_strlit("put");
    let line = "get "@ + p;
    assert(line =~= "get"@ + seq![' '] + p);
    lemma_first_idx_concat("get"@, p, ' ');
    assert(tok0(line) =~= "get"@);
    assert(tok0(line) != "quit"@ && tok0(line) != "help"@ && tok0(line) != "list"@ && tok0(line)
        != "put"@);
    assert(has_more(line));
    assert(rest1(line) =~= p);
    lemma_first_idx_absent(p, ' ');
    assert(tok0(rest1(line)) =~= p);
    assert(arg_path(line, ""@) == p);
}

/// Round trip: `put p N` and a later `get p` name the same relative
/// path and resolve to the same location under the root — the bytes
/// the upload stores at that location are the bytes the download
/// streams back.
pub proof fn lemma_round_trip_same_target(p: Seq<char>, ns: Seq<char>)
    requires
        p.len() > 0,
        forall|i: int| 0 <= i < p.len() ==> p[i] != ' ',
    ensures
        ({
            let cp = parse_spec("put "@ + p + " "@ + ns);
            let cg = parse_spec("get "@ + p);
            &&& cp matches CmdSpec::Put { path: pp, .. } && pp == p && resolve_spec(pp)
                == resolve_spec(p)
            &&& cg matches CmdSpec::Get { path: gp } && gp == p && resolve_spec(gp)
                == resolve_spec(p)
        }),
{
    lemma_put_line_framing(p, ns);
    lemma_get_line(p);
}

/// Any line whose first token is none of the five verbs parses to
/// `Unknown`: the session answers it with exactly one error line and
/// asks for nothing further, so no following byte is consumed.
pub proof fn lemma_unknown_verb(line: Seq<char>)
    requires
        line.len() > 0,
        tok0(line) != "quit"@,
        tok0(line) != "help"@,
        tok0(line) != "list"@,
        tok0(line) != "get"@,
        tok0(line) != "put"@,
    ensures
        parse_spec(line) is Unknown,
{
}

} // verus!
