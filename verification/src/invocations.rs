//! Finding the `table!` invocations in a Rust source file, so that each can be
//! expanded into its module.

use vstd::prelude::*;
use crate::parse::{is_space, is_word_byte};

verus! {

/// The bytes of the word `table`.
pub open spec fn table_word() -> Seq<u8> {
    seq![116u8, 97u8, 98u8, 108u8, 101u8]
}

/// `s` holds the word `table`, not as the end of a longer word, then `!`, at `p`.
pub open spec fn table_bang_at(s: Seq<u8>, p: int) -> bool {
    &&& 0 <= p
    &&& p + 6 <= s.len()
    &&& s.subrange(p, p + 5) == table_word()
    &&& s[p + 5] == 33u8
    &&& (p == 0 || !is_word_byte(s[p - 1]))
}

/// The first position at or after `i` that is not a space.
pub open spec fn skip_spaces(s: Seq<u8>, i: int) -> int
    decreases s.len() - i,
{
    if 0 <= i < s.len() && is_space(s[i]) {
        skip_spaces(s, i + 1)
    } else {
        i
    }
}

/// The position of the `}` that closes a brace group, scanning from `i` with
/// `depth` groups open, if the bytes close it.
pub open spec fn group_end(s: Seq<u8>, i: int, depth: nat) -> Option<int>
    decreases s.len() - i,
{
    if i < 0 || i >= s.len() {
        None
    } else if s[i] == 123u8 {
        group_end(s, i + 1, depth + 1)
    } else if s[i] == 125u8 {
        if depth <= 1 {
            Some(i)
        } else {
            group_end(s, i + 1, (depth - 1) as nat)
        }
    } else {
        group_end(s, i + 1, depth)
    }
}

/// A closing brace found for a group lies at or after where the scan starts.
pub proof fn lemma_group_end_after(s: Seq<u8>, i: int, depth: nat)
    ensures
        group_end(s, i, depth) matches Some(e) ==> i <= e < s.len() && s[e] == 125u8,
    decreases s.len() - i,
{
    if 0 <= i < s.len() {
        if s[i] == 123u8 {
            lemma_group_end_after(s, i + 1, depth + 1);
        } else if s[i] == 125u8 {
            if depth > 1 {
                lemma_group_end_after(s, i + 1, (depth - 1) as nat);
            }
        } else {
            lemma_group_end_after(s, i + 1, depth);
        }
    }
}

/// Skipping spaces never moves back, nor past the end.
pub proof fn lemma_skip_spaces_after(s: Seq<u8>, i: int)
    ensures
        i <= skip_spaces(s, i),
        0 <= i ==> skip_spaces(s, i) <= s.len() || skip_spaces(s, i) == i,
    decreases s.len() - i,
{
    if 0 <= i < s.len() && is_space(s[i]) {
        lemma_skip_spaces_after(s, i + 1);
    }
}

/// The span of the body of the `table!` invocation at `p`, between its braces,
/// if one stands there.
pub open spec fn invocation_at(s: Seq<u8>, p: int) -> Option<(int, int)> {
    if table_bang_at(s, p) {
        let q = skip_spaces(s, p + 6);
        if 0 <= q < s.len() && s[q] == 123u8 {
            match group_end(s, q + 1, 1) {
                Some(e) => Some((q + 1, e)),
                None => None,
            }
        } else {
            None
        }
    } else {
        None
    }
}

/// The body of an invocation lies after the position it starts at.
pub proof fn lemma_invocation_after(s: Seq<u8>, p: int)
    ensures
        invocation_at(s, p) matches Some((a, e)) ==> p < a <= e < s.len() && s[a - 1] == 123u8 && s[e] == 125u8,
{
    if table_bang_at(s, p) {
        let q = skip_spaces(s, p + 6);
        lemma_skip_spaces_after(s, p + 6);
        if 0 <= q < s.len() && s[q] == 123u8 {
            lemma_group_end_after(s, q + 1, 1);
        }
    }
}

/// The spans of the bodies of the `table!` invocations from `i` on, in order: the
/// scan resumes after the closing brace of each one found.
pub open spec fn invocations_from(s: Seq<u8>, i: int) -> Seq<(int, int)>
    decreases s.len() - i,
{
    if i < 0 || i >= s.len() {
        Seq::empty()
    } else {
        match invocation_at(s, i) {
            Some((a, e)) => {
                proof {
                    lemma_invocation_after(s, i);
                }
                seq![(a, e)] + invocations_from(s, e + 1)
            },
            None => invocations_from(s, i + 1),
        }
    }
}

fn skip_spaces_exec(s: &[u8], i: usize) -> (r: usize)
    requires
        i <= s@.len(),
    ensures
        r == skip_spaces(s@, i as int),
        i <= r <= s@.len(),
{
    let mut j = i;
    while j < s.len() && (s[j] == 32u8 || s[j] == 9u8 || s[j] == 10u8 || s[j] == 13u8)
        invariant
            i <= j <= s@.len(),
            skip_spaces(s@, j as int) == skip_spaces(s@, i as int),
        decreases s@.len() - j,
    {
        j = j + 1;
    }
    j
}

fn group_end_exec(s: &[u8], i: usize) -> (r: Option<usize>)
    requires
        1 <= i <= s@.len(),
    ensures
        match r {
            Some(e) => group_end(s@, i as int, 1) == Some(e as int),
            None => group_end(s@, i as int, 1) is None,
        },
{
    let mut j = i;
    let mut depth: usize = 1;
    while j < s.len()
        invariant
            1 <= i <= j <= s@.len(),
            1 <= depth <= j - i + 1,
            group_end(s@, j as int, depth as nat) == group_end(s@, i as int, 1),
        decreases s@.len() - j,
    {
        if s[j] == 123u8 {
            depth = depth + 1;
        } else if s[j] == 125u8 {
            if depth <= 1 {
                return Some(j);
            }
            depth = depth - 1;
        }
        j = j + 1;
    }
    None
}

fn is_word_byte_exec(b: u8) -> (r: bool)
    ensures
        r == is_word_byte(b),
{
    (48u8 <= b && b <= 57u8) || (65u8 <= b && b <= 90u8) || (97u8 <= b && b <= 122u8) || b == 95u8
}

fn invocation_at_exec(s: &[u8], p: usize) -> (r: Option<(usize, usize)>)
    requires
        p < s@.len(),
    ensures
        match r {
            Some((a, e)) => invocation_at(s@, p as int) == Some((a as int, e as int)),
            None => invocation_at(s@, p as int) is None,
        },
{
    if s.len() - p < 6 {
        return None;
    }
    if !(s[p] == 116u8 && s[p + 1] == 97u8 && s[p + 2] == 98u8 && s[p + 3] == 108u8 && s[p + 4] == 101u8
        && s[p + 5] == 33u8) {
        proof {
            if table_bang_at(s@, p as int) {
                assert(s@.subrange(p as int, p + 5)[0] == s@[p as int]);
                assert(s@.subrange(p as int, p + 5)[1] == s@[p + 1]);
                assert(s@.subrange(p as int, p + 5)[2] == s@[p + 2]);
                assert(s@.subrange(p as int, p + 5)[3] == s@[p + 3]);
                assert(s@.subrange(p as int, p + 5)[4] == s@[p + 4]);
            }
        }
        return None;
    }
    if p > 0 && is_word_byte_exec(s[p - 1]) {
        return None;
    }
    proof {
        assert(s@.subrange(p as int, p + 5) =~= table_word());
        assert(table_bang_at(s@, p as int));
    }
    let q = skip_spaces_exec(s, p + 6);
    if q < s.len() && s[q] == 123u8 {
        match group_end_exec(s, q + 1) {
            Some(e) => Some((q + 1, e)),
            None => None,
        }
    } else {
        None
    }
}

/// Each span found lies within the bytes, after where the scan starts, between an
/// opening brace and a closing one; each starts after the one before ends.
pub proof fn lemma_invocation_spans(s: Seq<u8>, i: int)
    ensures
        forall|k: int|
            0 <= k < invocations_from(s, i).len() ==> {
                let (a, e) = #[trigger] invocations_from(s, i)[k];
                &&& i < a <= e < s.len()
                &&& s[a - 1] == 123u8
                &&& s[e] == 125u8
            },
        forall|k: int|
            0 <= k < invocations_from(s, i).len() - 1 ==> invocations_from(s, i)[k].1 < invocations_from(s, i)[k
                + 1].0,
    decreases s.len() - i,
{
    if 0 <= i < s.len() {
        lemma_invocation_after(s, i);
        match invocation_at(s, i) {
            Some((a, e)) => {
                lemma_invocation_spans(s, e + 1);
                let rest = invocations_from(s, e + 1);
                assert(invocations_from(s, i) == seq![(a, e)] + rest);
                assert forall|k: int| 0 <= k < invocations_from(s, i).len() - 1 implies invocations_from(s, i)[k].1
                    < invocations_from(s, i)[k + 1].0 by {
                    if k > 0 {
                        assert(invocations_from(s, i)[k] == rest[k - 1]);
                    }
                    assert(invocations_from(s, i)[k + 1] == rest[k]);
                }
                assert forall|k: int| 0 <= k < invocations_from(s, i).len() implies {
                    let (a2, e2) = #[trigger] invocations_from(s, i)[k];
                    &&& i < a2 <= e2 < s.len()
                    &&& s[a2 - 1] == 123u8
                    &&& s[e2] == 125u8
                } by {
                    if k > 0 {
                        assert(invocations_from(s, i)[k] == rest[k - 1]);
                    }
                }
            },
            None => {
                lemma_invocation_spans(s, i + 1);
                assert(invocations_from(s, i) == invocations_from(s, i + 1));
            },
        }
    }
}

/// The spans of the bodies of the `table!` invocations in the source `src`, in
/// order (see `invocations_from`): each span runs from just after the invocation's
/// opening brace to its closing brace.
pub fn table_invocations(src: &[u8]) -> (r: Vec<(usize, usize)>)
    ensures
        r@.len() == invocations_from(src@, 0).len(),
        forall|k: int| 0 <= k < r@.len() ==> (#[trigger] r@[k]).0 as int == invocations_from(src@, 0)[k].0
            && r@[k].1 as int == invocations_from(src@, 0)[k].1,
        forall|k: int|
            0 <= k < r@.len() ==> 0 < (#[trigger] r@[k]).0 <= r@[k].1 < src@.len() && src@[r@[k].0 - 1] == 123u8
                && src@[r@[k].1 as int] == 125u8,
        forall|k: int| 0 <= k < r@.len() - 1 ==> (#[trigger] r@[k]).1 < r@[k + 1].0,
{
    let ghost all = invocations_from(src@, 0);
    let mut out: Vec<(usize, usize)> = Vec::new();
    let ghost mut got: Seq<(int, int)> = Seq::empty();
    let mut i: usize = 0;
    while i < src.len()
        invariant
            i <= src@.len(),
            got + invocations_from(src@, i as int) == all,
            out@.len() == got.len(),
            forall|k: int| 0 <= k < out@.len() ==> (#[trigger] out@[k]).0 as int == got[k].0 && out@[k].1 as int
                == got[k].1,
        decreases src@.len() - i,
    {
        match invocation_at_exec(src, i) {
            Some((a, e)) => {
                proof {
                    lemma_invocation_after(src@, i as int);
                    assert(invocations_from(src@, i as int) == seq![(a as int, e as int)] + invocations_from(src@, e + 1));
                    assert(got.push((a as int, e as int)) + invocations_from(src@, e + 1) =~= got + invocations_from(src@, i as int));
                    got = got.push((a as int, e as int));
                }
                out.push((a, e));
                i = e + 1;
            },
            None => {
                i = i + 1;
            },
        }
    }
    assert(got =~= all);
    proof {
        lemma_invocation_spans(src@, 0);
        assert forall|k: int| 0 <= k < out@.len() implies 0 < (#[trigger] out@[k]).0 <= out@[k].1 < src@.len()
            && src@[out@[k].0 - 1] == 123u8 && src@[out@[k].1 as int] == 125u8 by {
            let x = all[k];
        }
        assert forall|k: int| 0 <= k < out@.len() - 1 implies (#[trigger] out@[k]).1 < out@[k + 1].0 by {
            let x = all[k];
            let y = all[k + 1];
        }
    }
    out
}

} // verus!
