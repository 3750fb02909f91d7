//! The filtered process list: the filter text, the cached list of matching
//! process-table lines, the cyclic selection cursor, and the tick
//! accumulator that drives the periodic refresh.
//!
//! The external process lister is not called from here: the surrounding
//! program runs it and hands its outcome in as a [`ListerOutcome`], and
//! [`ProcessState::refresh`] rebuilds the cached lines from that outcome and
//! the filter alone.

use vstd::prelude::*;
use crate::cycle::{step_backward, step_forward};
use crate::text::{contains_seq, contains_pat, lines_view, split_all_lines, split_lines};

verus! {

/// What the external process lister produced: raw process-table text on
/// success (header line first), or a description of why the listing or the
/// decoding of its output failed.
pub enum ListerOutcome {
    Text(String),
    ExecFailed(String),
    DecodeFailed(String),
}

/// The diagnostic line shown first when the lister command could not be run.
pub open spec fn exec_failed_prefix() -> Seq<char> {
    "Failed to exec ps -ef, err msg:"@
}

/// The diagnostic line shown first when the lister output was not valid
/// text.
pub open spec fn decode_failed_prefix() -> Seq<char> {
    "Failed to convert output to utf8 string, msg:"@
}

/// Whether line `idx` of the lister output is kept under filter `pat`: the
/// header line (index 0) always, every other line iff it contains `pat`.
pub open spec fn keeps_line(lines: Seq<Seq<char>>, pat: Seq<char>, idx: int) -> bool {
    idx == 0 || contains_seq(lines[idx], pat)
}

/// The lines kept by the filter among the first `end` lines, in order.
pub open spec fn filtered_upto(lines: Seq<Seq<char>>, pat: Seq<char>, end: int) -> Seq<Seq<char>>
    decreases end,
{
    if end <= 0 {
        seq![]
    } else {
        filtered_upto(lines, pat, end - 1) + if keeps_line(lines, pat, end - 1) {
            seq![lines[end - 1]]
        } else {
            seq![]
        }
    }
}

/// All lines kept by the filter, in lister order.
pub open spec fn filtered(lines: Seq<Seq<char>>, pat: Seq<char>) -> Seq<Seq<char>> {
    filtered_upto(lines, pat, lines.len() as int)
}

/// The lines shown after a refresh with filter `pat`, for each lister
/// outcome: the filtered split of the raw text on success, or exactly two
/// diagnostic lines on failure.
pub open spec fn refresh_lines(outcome: ListerOutcome, pat: Seq<char>) -> Seq<Seq<char>> {
    match outcome {
        ListerOutcome::Text(s) => filtered(split_lines(s@), pat),
        ListerOutcome::ExecFailed(msg) => seq![exec_failed_prefix(), msg@],
        ListerOutcome::DecodeFailed(msg) => seq![decode_failed_prefix(), msg@],
    }
}

/// The filter as a predicate on a single line.
pub open spec fn line_pred(pat: Seq<char>) -> spec_fn(Seq<char>) -> bool {
    |l: Seq<char>| contains_seq(l, pat)
}

proof fn lemma_filtered_upto_split(lines: Seq<Seq<char>>, pat: Seq<char>, end: int)
    requires
        1 <= end <= lines.len(),
    ensures
        filtered_upto(lines, pat, end) == seq![lines[0]] + lines.subrange(1, end).filter(
            line_pred(pat),
        ),
    decreases end,
{
    reveal(Seq::filter);
    if end == 1 {
        assert(lines.subrange(1, 1) =~= Seq::<Seq<char>>::empty());
        assert(Seq::<Seq<char>>::empty().filter(line_pred(pat)) == Seq::<Seq<char>>::empty());
        assert(filtered_upto(lines, pat, 0) == Seq::<Seq<char>>::empty());
        assert(filtered_upto(lines, pat, 1) =~= seq![lines[0]] + lines.subrange(1, 1).filter(
            line_pred(pat),
        ));
    } else {
        lemma_filtered_upto_split(lines, pat, end - 1);
        let s = lines.subrange(1, end);
        assert(s.drop_last() =~= lines.subrange(1, end - 1));
        assert(s.last() == lines[end - 1]);
        assert(filtered_upto(lines, pat, end) =~= seq![lines[0]] + s.filter(line_pred(pat)));
    }
}

/// The lines kept by a filter are exactly the header line followed by the
/// body lines that contain the filter, in their original order.
pub proof fn lemma_filtered_is_header_plus_matches(lines: Seq<Seq<char>>, pat: Seq<char>)
    requires
        lines.len() >= 1,
    ensures
        filtered(lines, pat) == seq![lines[0]] + lines.subrange(1, lines.len() as int).filter(
            line_pred(pat),
        ),
{
    lemma_filtered_upto_split(lines, pat, lines.len() as int);
}

/// A mathematical model of the whole list state.
pub struct ListModel {
    pub filter: Seq<char>,
    pub tick: int,
    pub lines: Seq<Seq<char>>,
    pub cursor: Option<usize>,
}

/// What a refresh does to the list state: the lines are rebuilt from the
/// outcome and the filter; filter, tick and cursor are untouched.
pub open spec fn refresh_model(m: ListModel, outcome: ListerOutcome) -> ListModel {
    ListModel { lines: refresh_lines(outcome, m.filter), ..m }
}

/// Calling refresh twice with the same lister outcome and no intervening
/// state change yields the same state as calling it once: a refresh rebuilds
/// the lines from the outcome and the filter alone and changes neither.
pub proof fn lemma_refresh_idempotent(m: ListModel, outcome: ListerOutcome)
    ensures
        refresh_model(refresh_model(m, outcome), outcome) == refresh_model(m, outcome),
{
}

/// On a lister failure the shown lines are exactly two: the designated
/// diagnostic prefix for that failure, then the reported message.
pub proof fn lemma_failure_diagnostics(outcome: ListerOutcome, pat: Seq<char>)
    requires
        !(outcome is Text),
    ensures
        refresh_lines(outcome, pat).len() == 2,
        outcome is ExecFailed ==> refresh_lines(outcome, pat)[0] == exec_failed_prefix(),
        outcome is DecodeFailed ==> refresh_lines(outcome, pat)[0] == decode_failed_prefix(),
        refresh_lines(outcome, pat)[1] == (match outcome {
            ListerOutcome::Text(_) => Seq::<char>::empty(),
            ListerOutcome::ExecFailed(msg) => msg@,
            ListerOutcome::DecodeFailed(msg) => msg@,
        }),
{
}

/// The list of shown lines together with the cyclic selection cursor.
pub struct StatefulList {
    pub items: Vec<String>,
    pub selected: Option<usize>,
}

/// Where the cursor stands after one move over a list of `n` items: an empty
/// list clears the cursor, a cleared cursor stays cleared, and otherwise the
/// cursor steps cyclically, wrapping at both ends.
pub open spec fn spec_moved(sel: Option<usize>, n: int, forward: bool) -> Option<usize> {
    if n == 0 {
        None
    } else {
        match sel {
            None => None,
            Some(i) => Some(
                (if forward {
                    step_forward(i as int, n)
                } else {
                    step_backward(i as int, n)
                }) as usize,
            ),
        }
    }
}

/// The cursor after `k` moves in one direction over a list of `n` items.
pub open spec fn iter_moved(sel: Option<usize>, n: int, forward: bool, k: nat) -> Option<usize>
    decreases k,
{
    if k == 0 {
        sel
    } else {
        spec_moved(iter_moved(sel, n, forward, (k - 1) as nat), n, forward)
    }
}

proof fn lemma_iter_moved_matches(i: usize, n: int, forward: bool, k: nat)
    requires
        1 <= n <= usize::MAX,
        (i as int) < n,
    ensures
        ({
            let p = if forward {
                crate::cycle::iter_forward(i as int, n, k)
            } else {
                crate::cycle::iter_backward(i as int, n, k)
            };
            0 <= p < n && iter_moved(Some(i), n, forward, k) == Some(p as usize)
        }),
    decreases k,
{
    if k > 0 {
        lemma_iter_moved_matches(i, n, forward, (k - 1) as nat);
        let p = if forward {
            crate::cycle::iter_forward(i as int, n, (k - 1) as nat)
        } else {
            crate::cycle::iter_backward(i as int, n, (k - 1) as nat)
        };
        crate::cycle::lemma_step_in_range(p, n);
    }
}

/// For a list of `n >= 1` items and a cursor standing at a valid row,
/// moving the selection `n` times in one direction returns the cursor to
/// its starting row.
pub proof fn lemma_move_selection_cycle(i: usize, n: int, forward: bool)
    requires
        1 <= n <= usize::MAX,
        (i as int) < n,
    ensures
        iter_moved(Some(i), n, forward, n as nat) == Some(i),
{
    lemma_iter_moved_matches(i, n, forward, n as nat);
    if forward {
        crate::cycle::lemma_forward_cycle(i as int, n);
    } else {
        crate::cycle::lemma_backward_cycle(i as int, n);
    }
}

impl StatefulList {
    /// Set the cursor directly; used when entering or leaving the list view.
    pub fn select(&mut self, sel: Option<usize>)
        ensures
            final(self).items == old(self).items,
            final(self).selected == sel,
    {
        self.selected = sel;
    }

    /// Move the cursor one step, wrapping cyclically. An empty list clears
    /// the cursor instead of moving it; a cleared cursor stays cleared.
    pub fn move_selection(&mut self, forward: bool)
        ensures
            final(self).items == old(self).items,
            final(self).selected == spec_moved(
                old(self).selected,
                old(self).items@.len() as int,
                forward,
            ),
    {
        let n = self.items.len();
        if n == 0 {
            self.selected = None;
            return;
        }
        match self.selected {
            None => {},
            Some(x) => {
                if forward {
                    if x >= n - 1 {
                        self.selected = Some(0);
                    } else {
                        self.selected = Some(x + 1);
                    }
                } else {
                    if x == 0 {
                        self.selected = Some(n - 1);
                    } else {
                        self.selected = Some(x - 1);
                    }
                }
            },
        }
    }
}

/// Relies on the standard library's `String::push`: appends the given
/// character to the end of the string.
pub assume_specification[ String::push ](s: &mut String, ch: char)
    ensures
        final(s)@ == old(s)@.push(ch),
;

/// Relies on the standard library's `String::pop`: removes the last
/// character and returns it, or returns `None` when the string is empty.
pub assume_specification[ String::pop ](s: &mut String) -> (r: Option<char>)
    ensures
        match r {
            Some(c) => old(s)@.len() > 0 && c == old(s)@.last() && final(s)@ == old(s)@.drop_last(),
            None => old(s)@.len() == 0 && final(s)@ == old(s)@,
        },
;

/// The filter text, the cached filtered lines with their cursor, and the
/// tick accumulator (milliseconds since the last periodic refresh).
pub struct ProcessState {
    pub procname: String,
    pub tick: u64,
    pub content: StatefulList,
}

impl ProcessState {
    pub open spec fn model(&self) -> ListModel {
        ListModel {
            filter: self.procname@,
            tick: self.tick as int,
            lines: lines_view(self.content.items@),
            cursor: self.content.selected,
        }
    }

    /// A fresh list: empty filter, zero tick accumulator, no lines, no
    /// cursor. The caller performs the first refresh.
    pub fn new() -> (r: ProcessState)
        ensures
            r.procname@ == Seq::<char>::empty(),
            r.tick == 0,
            r.content.items@ == Seq::<String>::empty(),
            r.content.selected is None,
    {
        ProcessState {
            procname: String::new(),
            tick: 0,
            content: StatefulList { items: Vec::new(), selected: None },
        }
    }

    /// Rebuild the cached lines from the lister outcome: on success the
    /// header line plus every body line containing the filter, in lister
    /// order; on failure exactly two diagnostic lines, the fixed prefix for
    /// that failure and the reported message. Filter, tick and cursor are
    /// untouched.
    pub fn refresh(&mut self, outcome: &ListerOutcome)
        ensures
            final(self).model() == refresh_model(old(self).model(), *outcome),
            final(self).procname == old(self).procname,
            final(self).tick == old(self).tick,
            final(self).content.selected == old(self).content.selected,
            lines_view(final(self).content.items@) == refresh_lines(*outcome, old(self).procname@),
    {
        match outcome {
            ListerOutcome::Text(s) => {
                let lines = split_all_lines(s.as_str());
                let ghost lv = lines_view(lines@);
                let mut items: Vec<String> = Vec::new();
                let n = lines.len();
                let mut i: usize = 0;
                proof {
                    assert(lines_view(items@) =~= filtered_upto(lv, self.procname@, 0));
                }
                while i < n
                    invariant
                        i <= n,
                        n == lines@.len(),
                        lv == lines_view(lines@),
                        lines_view(items@) == filtered_upto(lv, self.procname@, i as int),
                    decreases n - i,
                {
                    let keep = if i == 0 {
                        true
                    } else {
                        contains_pat(lines[i].as_str(), self.procname.as_str())
                    };
                    if keep {
                        let ghost prev = items@;
                        items.push(lines[i].clone());
                        proof {
                            crate::text::lemma_lines_view_push(prev, items@[prev.len() as int]);
                        }
                    }
                    proof {
                        assert(lines_view(items@) =~= filtered_upto(
                            lv,
                            self.procname@,
                            i as int + 1,
                        ));
                    }
                    i += 1;
                }
                self.content.items = items;
            },
            ListerOutcome::ExecFailed(msg) => {
                let mut items: Vec<String> = Vec::new();
                items.push("Failed to exec ps -ef, err msg:".to_owned());
                items.push(msg.clone());
                proof {
                    assert(lines_view(items@) =~= seq![exec_failed_prefix(), msg@]);
                }
                self.content.items = items;
            },
            ListerOutcome::DecodeFailed(msg) => {
                let mut items: Vec<String> = Vec::new();
                items.push("Failed to convert output to utf8 string, msg:".to_owned());
                items.push(msg.clone());
                proof {
                    assert(lines_view(items@) =~= seq![decode_failed_prefix(), msg@]);
                }
                self.content.items = items;
            },
        }
    }

    /// Append one character to the filter text. The caller refreshes next,
    /// as every filter edit triggers an immediate refresh.
    pub fn append_filter_char(&mut self, c: char)
        ensures
            final(self).procname@ == old(self).procname@.push(c),
            final(self).tick == old(self).tick,
            final(self).content == old(self).content,
    {
        self.procname.push(c);
    }

    /// Drop the last character of the filter text; a no-op on an empty
    /// filter. The caller refreshes next either way.
    pub fn remove_filter_char(&mut self)
        ensures
            final(self).procname@ == if old(self).procname@.len() > 0 {
                old(self).procname@.drop_last()
            } else {
                old(self).procname@
            },
            final(self).tick == old(self).tick,
            final(self).content == old(self).content,
    {
        let _ = self.procname.pop();
    }
}

} // verus!
