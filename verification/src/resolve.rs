//! Root-contained path resolution.
//!
//! A client-supplied relative path is walked component by component
//! over a stack of segments: a parent reference pops one segment, a
//! current-directory or empty component is skipped, and every other
//! component is pushed.  The stack never reaches above the root: a
//! parent reference on an empty stack is ignored, so resolution clamps
//! at the root boundary by construction.

use vstd::prelude::*;

use crate::text::{first_idx, lemma_first_idx, str_eq};

verus! {

/// The current-directory component.
pub open spec fn piece_dot() -> Seq<char> {
    seq!['.']
}

/// The parent-reference component.
pub open spec fn piece_dotdot() -> Seq<char> {
    seq!['.', '.']
}

/// The effect of one path component on the accumulated segment stack.
pub open spec fn step_piece(acc: Seq<Seq<char>>, piece: Seq<char>) -> Seq<Seq<char>> {
    if piece.len() == 0 || piece == piece_dot() {
        acc
    } else if piece == piece_dotdot() {
        if acc.len() == 0 {
            acc
        } else {
            acc.drop_last()
        }
    } else {
        acc.push(piece)
    }
}

/// The segment stack after walking all components of `s`, starting
/// from the stack `acc`.
pub open spec fn resolve_from(acc: Seq<Seq<char>>, s: Seq<char>) -> Seq<Seq<char>>
    decreases s.len(),
{
    let i = first_idx(s, '/');
    if 0 <= i < s.len() {
        proof {
            lemma_first_idx(s, '/');
        }
        resolve_from(step_piece(acc, s.subrange(0, i)), s.subrange(i + 1, s.len() as int))
    } else {
        step_piece(acc, s)
    }
}

/// The segments a relative path resolves to beneath the root.
pub open spec fn resolve_spec(rel: Seq<char>) -> Seq<Seq<char>> {
    resolve_from(Seq::empty(), rel)
}

/// A plain name: non-empty, not a current-directory or parent
/// reference, and free of separators.
pub open spec fn normal_seg(p: Seq<char>) -> bool {
    &&& p.len() > 0
    &&& p != piece_dot()
    &&& p != piece_dotdot()
    &&& forall|j: int| 0 <= j < p.len() ==> p[j] != '/'
}

proof fn lemma_resolve_from_normal(acc: Seq<Seq<char>>, s: Seq<char>)
    requires
        forall|i: int| 0 <= i < acc.len() ==> normal_seg(#[trigger] acc[i]),
    ensures
        forall|i: int|
            0 <= i < resolve_from(acc, s).len() ==> normal_seg(#[trigger] resolve_from(acc, s)[i]),
    decreases s.len(),
{
    lemma_first_idx(s, '/');
    let i = first_idx(s, '/');
    if 0 <= i < s.len() {
        let piece = s.subrange(0, i);
        assert(forall|j: int| 0 <= j < piece.len() ==> piece[j] == s[j]);
        let acc2 = step_piece(acc, piece);
        assert(forall|k: int| 0 <= k < acc2.len() ==> normal_seg(#[trigger] acc2[k]));
        lemma_resolve_from_normal(acc2, s.subrange(i + 1, s.len() as int));
        assert(resolve_from(acc, s) == resolve_from(acc2, s.subrange(i + 1, s.len() as int)));
    } else {
        let acc2 = step_piece(acc, s);
        assert(forall|k: int| 0 <= k < acc2.len() ==> normal_seg(#[trigger] acc2[k]));
        assert(resolve_from(acc, s) == acc2);
    }
}

/// Containment: every segment a relative path resolves to is a plain
/// name — never a parent reference — so the resolved location always
/// lies at or below the root, whatever the client sent.
pub proof fn lemma_resolve_contained(rel: Seq<char>)
    ensures
        forall|i: int|
            0 <= i < resolve_spec(rel).len() ==> normal_seg(#[trigger] resolve_spec(rel)[i]),
{
    lemma_resolve_from_normal(Seq::empty(), rel);
}

/// Whether every component of `s` is empty, a current-directory
/// reference, or a parent reference.
pub open spec fn all_pieces_parentish(s: Seq<char>) -> bool
    decreases s.len(),
{
    let i = first_idx(s, '/');
    if 0 <= i < s.len() {
        proof {
            lemma_first_idx(s, '/');
        }
        parentish(s.subrange(0, i)) && all_pieces_parentish(s.subrange(i + 1, s.len() as int))
    } else {
        parentish(s)
    }
}

/// An empty, current-directory, or parent-reference component.
pub open spec fn parentish(p: Seq<char>) -> bool {
    p.len() == 0 || p == piece_dot() || p == piece_dotdot()
}

/// Escape attempts of any depth stay at the root: a relative path made
/// only of parent and current-directory references resolves to the
/// root itself, with no segments beneath it.
pub proof fn lemma_parent_refs_stay_at_root(rel: Seq<char>)
    requires
        all_pieces_parentish(rel),
    ensures
        resolve_spec(rel) =~= Seq::<Seq<char>>::empty(),
    decreases rel.len(),
{
    lemma_resolve_from_parentish(rel);
}

proof fn lemma_resolve_from_parentish(s: Seq<char>)
    requires
        all_pieces_parentish(s),
    ensures
        resolve_from(Seq::empty(), s) =~= Seq::<Seq<char>>::empty(),
    decreases s.len(),
{
    lemma_first_idx(s, '/');
    let i = first_idx(s, '/');
    if 0 <= i < s.len() {
        assert(step_piece(Seq::empty(), s.subrange(0, i)) =~= Seq::<Seq<char>>::empty());
        lemma_resolve_from_parentish(s.subrange(i + 1, s.len() as int));
    }
}

/// A path resolved against the root: the root directory itself plus
/// the segments beneath it.
pub struct ResolvedPath {
    pub base: String,
    pub segs: Vec<String>,
}

impl ResolvedPath {
    /// The segments beneath the root, as character sequences.
    pub open spec fn segs_view(&self) -> Seq<Seq<char>> {
        self.segs@.map_values(|s: String| s@)
    }
}

/// Resolves a client-supplied relative path against a base directory.
/// Parent references pop one segment and clamp at the base, so the
/// result always lies at or below `base`.
pub fn join_paths(base: &str, rel: &str) -> (p: ResolvedPath)
    ensures
        p.base@ == base@,
        p.segs_view() == resolve_spec(rel@),
{
    let n = rel.unicode_len();
    let mut pos: usize = 0;
    let mut segs: Vec<String> = Vec::new();
    proof {
        assert(segs@.map_values(|s: String| s@) =~= Seq::<Seq<char>>::empty());
        assert(rel@.subrange(0, n as int) =~= rel@);
    }
    while pos < n
        invariant
            pos <= n,
            n == rel@.len(),
            resolve_from(segs@.map_values(|s: String| s@), rel@.subrange(pos as int, n as int))
                == resolve_spec(rel@),
        decreases n - pos,
    {
        let ghost rem = rel@.subrange(pos as int, n as int);
        let mut j = pos;
        while j < n && rel.get_char(j) != '/'
            invariant
                pos <= j <= n,
                n == rel@.len(),
                forall|k: int| pos <= k < j ==> rel@[k] != '/',
            decreases n - j,
        {
            j += 1;
        }
        proof {
            lemma_first_idx(rem, '/');
            assert(forall|k: int| 0 <= k < j - pos ==> rem[k] == rel@[pos + k]);
            if first_idx(rem, '/') < j - pos {
                assert(rem[first_idx(rem, '/')] == '/');
                assert(false);
            }
            if first_idx(rem, '/') > j - pos {
                assert(j < n);
                assert(rem[j - pos] == rel@[j as int]);
                assert(rem[j - pos] != '/');
                assert(false);
            }
            assert(first_idx(rem, '/') == j - pos);
        }
        let piece = rel.substring_char(pos, j);
        let ghost acc = segs@.map_values(|s: String| s@);
        proof {
            reveal_strlit(".");
            reveal_strlit("..");
            assert("."@ =~= piece_dot());
            assert(".."@ =~= piece_dotdot());
            assert(piece@ =~= rem.subrange(0, j - pos));
        }
        if piece.unicode_len() == 0 || str_eq(piece, ".") {
            proof {
                assert(step_piece(acc, piece@) == acc);
            }
        } else if str_eq(piece, "..") {
            if segs.len() > 0 {
                segs.pop();
                proof {
                    assert(segs@.map_values(|s: String| s@) =~= acc.drop_last());
                }
            }
        } else {
            segs.push(String::from_str(piece));
            proof {
                assert(segs@.map_values(|s: String| s@) =~= acc.push(piece@));
            }
        }
        if j == n {
            proof {
                assert(piece@ =~= rem);
                assert(resolve_from(acc, rem) == step_piece(acc, rem));
                assert(rel@.subrange(n as int, n as int).len() == 0);
                assert(resolve_from(segs@.map_values(|s: String| s@), rel@.subrange(n as int, n as int))
                    == step_piece(acc, rem));
            }
            pos = n;
        } else {
            proof {
                assert(rem.subrange(j - pos + 1, rem.len() as int)
                    =~= rel@.subrange(j + 1, n as int));
                assert(resolve_from(acc, rem) == resolve_from(
                    step_piece(acc, rem.subrange(0, j - pos)),
                    rem.subrange(j - pos + 1, rem.len() as int),
                ));
            }
            pos = j + 1;
        }
    }
    proof {
        let acc = segs@.map_values(|s: String| s@);
        assert(rel@.subrange(pos as int, n as int).len() == 0);
        assert(resolve_from(acc, rel@.subrange(pos as int, n as int)) == step_piece(acc, rel@.subrange(pos as int, n as int)));
    }
    ResolvedPath { base: String::from_str(base), segs }
}

/// The textual form of a resolved path: the base, then `/` before each
/// segment in order.
pub open spec fn display_spec(base: Seq<char>, segs: Seq<Seq<char>>) -> Seq<char>
    decreases segs.len(),
{
    if segs.len() == 0 {
        base
    } else {
        display_spec(base, segs.drop_last()) + seq!['/'] + segs.last()
    }
}

/// Renders a resolved path for a response line.
pub fn path_display(p: &ResolvedPath) -> (r: String)
    ensures
        r@ == display_spec(p.base@, p.segs_view()),
{
    let mut r = String::from_str(p.base.as_str());
    let mut k: usize = 0;
    proof {
        assert(p.segs_view().subrange(0, 0).len() == 0);
    }
    while k < p.segs.len()
        invariant
            k <= p.segs.len(),
            r@ == display_spec(p.base@, p.segs_view().subrange(0, k as int)),
        decreases p.segs.len() - k,
    {
        proof {
            reveal_strlit("/");
        }
        r.append("/");
        r.append(p.segs[k].as_str());
        proof {
            let pre = p.segs_view().subrange(0, k as int);
            let cur = p.segs_view().subrange(0, k + 1);
            assert(cur.drop_last() =~= pre);
            assert(cur.last() == p.segs_view()[k as int]);
            assert(display_spec(p.base@, cur) == display_spec(p.base@, pre) + seq!['/']
                + p.segs_view()[k as int]);
            assert(r@ =~= display_spec(p.base@, cur));
        }
        k += 1;
    }
    proof {
        assert(p.segs_view().subrange(0, p.segs@.len() as int) =~= p.segs_view());
    }
    r
}

} // verus!
