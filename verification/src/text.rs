//! Text handling for the process list: exact, case-sensitive substring
//! containment (the filter match) and splitting of raw lister output into
//! lines.

use vstd::prelude::*;

verus! {

/// `pat` occurs in `hay` starting at position `j`.
pub open spec fn matches_at(hay: Seq<char>, pat: Seq<char>, j: int) -> bool {
    0 <= j && j + pat.len() <= hay.len() && hay.subrange(j, j + pat.len() as int) == pat
}

/// `pat` occurs somewhere in `hay`; an empty `pat` occurs in every `hay`.
pub open spec fn contains_seq(hay: Seq<char>, pat: Seq<char>) -> bool {
    exists|j: int| matches_at(hay, pat, j)
}

/// Exact, case-sensitive substring test: neither argument is trimmed or
/// tokenized.
pub fn contains_pat(hay: &str, pat: &str) -> (r: bool)
    ensures
        r == contains_seq(hay@, pat@),
{
    let n = hay.unicode_len();
    let m = pat.unicode_len();
    if m > n {
        proof {
            assert(forall|j: int| !matches_at(hay@, pat@, j));
        }
        return false;
    }
    let mut j: usize = 0;
    while j <= n - m
        invariant
            m <= n,
            n == hay@.len(),
            m == pat@.len(),
            j <= n - m + 1,
            forall|jj: int| 0 <= jj < j ==> !matches_at(hay@, pat@, jj),
        decreases n - m + 1 - j,
    {
        let mut t: usize = 0;
        let mut ok: bool = true;
        while ok && t < m
            invariant
                t <= m,
                m <= n,
                j <= n - m,
                n == hay@.len(),
                m == pat@.len(),
                ok ==> forall|tt: int| 0 <= tt < t ==> hay@[j + tt] == pat@[tt],
                !ok ==> !matches_at(hay@, pat@, j as int),
            decreases m - t + (if ok { 1int } else { 0int }),
        {
            if hay.get_char(j + t) != pat.get_char(t) {
                proof {
                    assert(hay@.subrange(j as int, j as int + m as int)[t as int] == hay@[
                        j as int + t as int
                    ]);
                }
                ok = false;
            } else {
                t += 1;
            }
        }
        if ok {
            proof {
                assert(hay@.subrange(j as int, j as int + m as int) =~= pat@);
                assert(matches_at(hay@, pat@, j as int));
            }
            return true;
        }
        proof {
            if m == 0 {
                assert(hay@.subrange(j as int, j as int) =~= pat@);
                assert(matches_at(hay@, pat@, j as int));
            }
        }
        j += 1;
    }
    proof {
        assert forall|jj: int| !matches_at(hay@, pat@, jj) by {
            if 0 <= jj && jj + pat@.len() <= hay@.len() {
                assert(jj < j);
            }
        }
    }
    false
}

/// Index of the first newline in `s`, or `s.len()` if there is none.
pub open spec fn first_nl(s: Seq<char>) -> int
    decreases s.len(),
{
    if s.len() == 0 {
        0
    } else if s[0] == '\n' {
        0
    } else {
        1 + first_nl(s.subrange(1, s.len() as int))
    }
}

pub proof fn lemma_first_nl_bounds(s: Seq<char>)
    ensures
        0 <= first_nl(s) <= s.len(),
        first_nl(s) < s.len() ==> s[first_nl(s)] == '\n',
    decreases s.len(),
{
    if s.len() > 0 && s[0] != '\n' {
        lemma_first_nl_bounds(s.subrange(1, s.len() as int));
    }
}

/// A position with no newline before it and a newline (or the end) at it is
/// the first newline position.
pub proof fn lemma_first_nl_at(s: Seq<char>, k: int)
    requires
        0 <= k <= s.len(),
        forall|j: int| 0 <= j < k ==> s[j] != '\n',
        k < s.len() ==> s[k] == '\n',
    ensures
        first_nl(s) == k,
    decreases k,
{
    if k == 0 {
    } else {
        let sub = s.subrange(1, s.len() as int);
        assert forall|j: int| 0 <= j < k - 1 implies sub[j] != '\n' by {
            assert(sub[j] == s[j + 1]);
        }
        assert(k - 1 < sub.len() ==> sub[k - 1] == s[k]);
        lemma_first_nl_at(sub, k - 1);
    }
}

/// The body of a terminated line segment: one trailing carriage return is
/// dropped, as the standard library's line splitting does.
pub open spec fn strip_cr(seg: Seq<char>) -> Seq<char> {
    if seg.len() > 0 && seg[seg.len() - 1] == '\r' {
        seg.take(seg.len() - 1)
    } else {
        seg
    }
}

#[via_fn]
proof fn split_lines_decreases(s: Seq<char>) {
    lemma_first_nl_bounds(s);
}

/// The lines of `s`: segments split at newline characters, each terminated
/// segment stripped of the newline and of one trailing carriage return.
/// Empty text has no lines, and a final segment without a terminator is kept
/// as it stands.
pub open spec fn split_lines(s: Seq<char>) -> Seq<Seq<char>>
    decreases s.len(),
    via split_lines_decreases
{
    if s.len() == 0 {
        seq![]
    } else {
        let k = first_nl(s);
        if k == s.len() {
            seq![s]
        } else {
            seq![strip_cr(s.subrange(0, k))] + split_lines(s.subrange(k + 1, s.len() as int))
        }
    }
}

/// The character sequences held by a vector of strings, in order.
pub open spec fn lines_view(items: Seq<String>) -> Seq<Seq<char>> {
    items.map_values(|s: String| s@)
}

pub proof fn lemma_lines_view_push(items: Seq<String>, x: String)
    ensures
        lines_view(items.push(x)) == lines_view(items).push(x@),
{
    assert(lines_view(items.push(x)) =~= lines_view(items).push(x@));
}

fn split_lines_into(s: &str, out: &mut Vec<String>)
    ensures
        lines_view(final(out)@) == lines_view(old(out)@) + split_lines(s@),
    decreases s@.len(),
{
    let n = s.unicode_len();
    if n == 0 {
        proof {
            assert(lines_view(out@) =~= lines_view(out@) + split_lines(s@));
        }
        return;
    }
    let mut k: usize = 0;
    while k < n && s.get_char(k) != '\n'
        invariant
            k <= n,
            n == s@.len(),
            forall|j: int| 0 <= j < k ==> s@[j] != '\n',
        decreases n - k,
    {
        k += 1;
    }
    proof {
        lemma_first_nl_at(s@, k as int);
    }
    if k == n {
        let ghost prev = out@;
        out.push(s.to_owned());
        proof {
            lemma_lines_view_push(prev, final(out)@[prev.len() as int]);
            assert(split_lines(s@) == seq![s@]);
            assert(lines_view(out@) =~= lines_view(prev) + split_lines(s@));
        }
    } else {
        let head_end = if k > 0 && s.get_char(k - 1) == '\r' {
            k - 1
        } else {
            k
        };
        let head = s.substring_char(0, head_end);
        let rest = s.substring_char(k + 1, n);
        let ghost prev = out@;
        out.push(head.to_owned());
        proof {
            assert(head@ =~= strip_cr(s@.subrange(0, k as int)));
            lemma_lines_view_push(prev, final(out)@[prev.len() as int]);
        }
        let ghost mid = out@;
        split_lines_into(rest, out);
        proof {
            assert(split_lines(s@) == seq![strip_cr(s@.subrange(0, k as int))] + split_lines(
                rest@,
            ));
            assert(lines_view(out@) =~= lines_view(prev) + split_lines(s@));
        }
    }
}

/// All lines of `s`, in order.
pub fn split_all_lines(s: &str) -> (out: Vec<String>)
    ensures
        lines_view(out@) == split_lines(s@),
{
    let mut out: Vec<String> = Vec::new();
    proof {
        assert(lines_view(out@) =~= Seq::<Seq<char>>::empty());
    }
    split_lines_into(s, &mut out);
    proof {
        assert(lines_view(out@) =~= split_lines(s@));
    }
    out
}

} // verus!
