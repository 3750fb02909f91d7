//! The application controller: composes the tab bar, the focus state
//! machine and the filtered process list, receives key and tick events as
//! plain values, and decides quitting and when a refresh of the process
//! list is due.
//!
//! Handlers that make a refresh due return that decision to the caller,
//! which runs the external process lister and hands its outcome to
//! [`crate::process::ProcessState::refresh`].

use vstd::prelude::*;
use crate::cycle::{step_backward, step_forward};
use crate::process::{spec_moved, ProcessState};
use crate::tabs::TabsState;

verus! {

/// Which region owns keyboard input: exactly one at any time.
#[derive(Clone, Copy, Debug, PartialEq, Eq, Structural)]
pub enum Focus {
    Tab,
    ProcessInput,
    ProcessList,
}

/// The periodic refresh threshold, in milliseconds.
pub const REFRESH_THRESHOLD_MS: u64 = 1000;

/// The tick accumulator after one tick of `elapsed` milliseconds: reset to
/// zero when it reaches the refresh threshold, else grown by `elapsed`.
pub open spec fn tick_step(acc: int, elapsed: int) -> int {
    if acc + elapsed >= REFRESH_THRESHOLD_MS as int {
        0
    } else {
        acc + elapsed
    }
}

/// The milliseconds of all tick events together.
pub open spec fn total_elapsed(es: Seq<u32>) -> int
    decreases es.len(),
{
    if es.len() == 0 {
        0
    } else {
        es[0] + total_elapsed(es.drop_first())
    }
}

/// The accumulator after feeding the tick events `es`, front to back,
/// starting from `acc`.
pub open spec fn ticks_acc(acc: int, es: Seq<u32>) -> int
    decreases es.len(),
{
    if es.len() == 0 {
        acc
    } else {
        ticks_acc(tick_step(acc, es[0] as int), es.drop_first())
    }
}

/// How many refreshes feeding the tick events `es` triggers, starting from
/// accumulator `acc`.
pub open spec fn ticks_refreshes(acc: int, es: Seq<u32>) -> int
    decreases es.len(),
{
    if es.len() == 0 {
        0
    } else {
        (if acc + es[0] >= REFRESH_THRESHOLD_MS as int {
            1int
        } else {
            0int
        }) + ticks_refreshes(tick_step(acc, es[0] as int), es.drop_first())
    }
}

proof fn lemma_total_elapsed_nonneg(es: Seq<u32>)
    ensures
        total_elapsed(es) >= 0,
    decreases es.len(),
{
    if es.len() > 0 {
        lemma_total_elapsed_nonneg(es.drop_first());
    }
}

proof fn lemma_ticks_under(acc: int, es: Seq<u32>)
    requires
        0 <= acc,
        acc + total_elapsed(es) < REFRESH_THRESHOLD_MS as int,
    ensures
        ticks_refreshes(acc, es) == 0,
        ticks_acc(acc, es) == acc + total_elapsed(es),
    decreases es.len(),
{
    if es.len() > 0 {
        lemma_total_elapsed_nonneg(es.drop_first());
        lemma_ticks_under(acc + es[0], es.drop_first());
    }
}

proof fn lemma_ticks_exact(acc: int, es: Seq<u32>)
    requires
        0 <= acc < REFRESH_THRESHOLD_MS as int,
        acc + total_elapsed(es) == REFRESH_THRESHOLD_MS as int,
    ensures
        ticks_refreshes(acc, es) == 1,
        ticks_acc(acc, es) == 0,
    decreases es.len(),
{
    lemma_total_elapsed_nonneg(es.drop_first());
    if acc + es[0] >= REFRESH_THRESHOLD_MS as int {
        lemma_ticks_under(0, es.drop_first());
    } else {
        lemma_ticks_exact(acc + es[0], es.drop_first());
    }
}

/// Tick events summing to just under the refresh threshold trigger no
/// refresh and leave their sum in the accumulator.
pub proof fn lemma_ticks_under_threshold(es: Seq<u32>)
    requires
        total_elapsed(es) < REFRESH_THRESHOLD_MS as int,
    ensures
        ticks_refreshes(0, es) == 0,
        ticks_acc(0, es) == total_elapsed(es),
{
    lemma_total_elapsed_nonneg(es);
    lemma_ticks_under(0, es);
}

/// Tick events summing to exactly the refresh threshold trigger exactly one
/// refresh and reset the accumulator to zero.
pub proof fn lemma_ticks_exact_threshold(es: Seq<u32>)
    requires
        total_elapsed(es) == REFRESH_THRESHOLD_MS as int,
    ensures
        ticks_refreshes(0, es) == 1,
        ticks_acc(0, es) == 0,
{
    lemma_ticks_exact(0, es);
}

/// The whole application state: title, tab bar, quit flag, focus, and the
/// filtered process list.
pub struct App {
    pub title: String,
    pub tabs: TabsState,
    pub should_quit: bool,
    pub focus: Focus,
    pub process: ProcessState,
}

impl App {
    /// The tab index is valid and the tick accumulator stands below the
    /// refresh threshold.
    pub open spec fn wf(&self) -> bool {
        self.tabs.wf() && (self.process.tick as int) < REFRESH_THRESHOLD_MS as int
    }

    /// A fresh application: three tabs with the process tab selected, focus
    /// on the tab bar, quit flag clear, and an empty process list. The
    /// caller performs the first refresh.
    pub fn new(title: String) -> (r: App)
        ensures
            r.wf(),
            r.title == title,
            r.tabs.titles@.len() == 3,
            r.tabs.titles@[0]@ == "process"@,
            r.tabs.titles@[1]@ == "tab1"@,
            r.tabs.titles@[2]@ == "tab2"@,
            r.tabs.index == 0,
            !r.should_quit,
            r.focus == Focus::Tab,
            r.process.procname@ == Seq::<char>::empty(),
            r.process.tick == 0,
            r.process.content.items@ == Seq::<String>::empty(),
            r.process.content.selected is None,
    {
        let mut titles: Vec<String> = Vec::new();
        titles.push("process".to_owned());
        titles.push("tab1".to_owned());
        titles.push("tab2".to_owned());
        App {
            title,
            tabs: TabsState::new(titles),
            should_quit: false,
            focus: Focus::Tab,
            process: ProcessState::new(),
        }
    }

    /// Handle a printable character, by focus:
    /// - filter input: append the character to the filter; a refresh is due;
    /// - process list: clear the cursor and move focus to the filter input,
    ///   discarding the character;
    /// - tab bar: `q` sets the quit flag, any other character does nothing.
    pub fn on_key(&mut self, c: char) -> (refresh_needed: bool)
        requires
            old(self).wf(),
        ensures
            final(self).wf(),
            final(self).title == old(self).title,
            final(self).tabs == old(self).tabs,
            final(self).process.tick == old(self).process.tick,
            match old(self).focus {
                Focus::ProcessInput => final(self).focus == Focus::ProcessInput && final(self).process.procname@ == old(self).process.procname@.push(c) && final(self).process.content == old(self).process.content && final(self).should_quit == old(self).should_quit && refresh_needed,
                Focus::ProcessList => final(self).focus == Focus::ProcessInput && final(self).process.procname == old(self).process.procname && final(self).process.content.items == old(self).process.content.items && final(self).process.content.selected is None && final(self).should_quit == old(self).should_quit && !refresh_needed,
                Focus::Tab => final(self).focus == Focus::Tab && final(self).process == old(self).process && final(self).should_quit == (old(self).should_quit || c == 'q')
                    && !refresh_needed,
            },
    {
        match self.focus {
            Focus::ProcessInput => {
                self.process.append_filter_char(c);
                true
            },
            Focus::ProcessList => {
                self.process.content.select(None);
                self.focus = Focus::ProcessInput;
                false
            },
            Focus::Tab => {
                if c == 'q' {
                    self.should_quit = true;
                }
                false
            },
        }
    }

    /// Handle backspace: in the filter input the last filter character is
    /// dropped and a refresh is due, even when the filter was already
    /// empty; elsewhere nothing happens.
    pub fn on_backspace(&mut self) -> (refresh_needed: bool)
        requires
            old(self).wf(),
        ensures
            final(self).wf(),
            final(self).title == old(self).title,
            final(self).tabs == old(self).tabs,
            final(self).should_quit == old(self).should_quit,
            final(self).focus == old(self).focus,
            old(self).focus is ProcessInput ==> final(self).process.procname@ == (if old(self).process.procname@.len() > 0 {
                old(self).process.procname@.drop_last()
            } else {
                old(self).process.procname@
            }) && final(self).process.content == old(self).process.content && final(self).process.tick == old(self).process.tick && refresh_needed,
            !(old(self).focus is ProcessInput) ==> final(self).process == old(self).process
                && !refresh_needed,
    {
        match self.focus {
            Focus::ProcessInput => {
                self.process.remove_filter_char();
                true
            },
            _ => false,
        }
    }

    /// Handle the Up key: from the filter input focus moves to the tab bar;
    /// in the process list the cursor moves one step backward, wrapping
    /// from the first row to the last; on the tab bar nothing happens.
    pub fn on_up(&mut self)
        requires
            old(self).wf(),
        ensures
            final(self).wf(),
            final(self).title == old(self).title,
            final(self).tabs == old(self).tabs,
            final(self).should_quit == old(self).should_quit,
            final(self).process.procname == old(self).process.procname,
            final(self).process.tick == old(self).process.tick,
            final(self).process.content.items == old(self).process.content.items,
            match old(self).focus {
                Focus::ProcessInput => final(self).focus == Focus::Tab && final(self).process.content.selected == old(self).process.content.selected,
                Focus::ProcessList => final(self).focus == Focus::ProcessList && final(self).process.content.selected == spec_moved(
                    old(self).process.content.selected,
                    old(self).process.content.items@.len() as int,
                    false,
                ),
                Focus::Tab => final(self).focus == Focus::Tab && final(self).process.content.selected == old(self).process.content.selected,
            },
    {
        match self.focus {
            Focus::ProcessInput => {
                self.focus = Focus::Tab;
            },
            Focus::ProcessList => {
                self.process.content.move_selection(false);
            },
            Focus::Tab => {},
        }
    }

    /// Handle the Down key: on the tab bar focus moves into the filter
    /// input, but only while the process tab (index 0) is selected; from
    /// the filter input focus moves to the process list and the cursor is
    /// set to the first row; in the process list the cursor moves one step
    /// forward, wrapping from the last row to the first.
    pub fn on_down(&mut self)
        requires
            old(self).wf(),
        ensures
            final(self).wf(),
            final(self).title == old(self).title,
            final(self).tabs == old(self).tabs,
            final(self).should_quit == old(self).should_quit,
            final(self).process.procname == old(self).process.procname,
            final(self).process.tick == old(self).process.tick,
            final(self).process.content.items == old(self).process.content.items,
            match old(self).focus {
                Focus::Tab => final(self).focus == (if old(self).tabs.index == 0 {
                    Focus::ProcessInput
                } else {
                    Focus::Tab
                }) && final(self).process.content.selected == old(self).process.content.selected,
                Focus::ProcessInput => final(self).focus == Focus::ProcessList && final(self).process.content.selected == Some(0usize),
                Focus::ProcessList => final(self).focus == Focus::ProcessList && final(self).process.content.selected == spec_moved(
                    old(self).process.content.selected,
                    old(self).process.content.items@.len() as int,
                    true,
                ),
            },
    {
        match self.focus {
            Focus::Tab => {
                if self.tabs.index == 0 {
                    self.focus = Focus::ProcessInput;
                }
            },
            Focus::ProcessInput => {
                self.focus = Focus::ProcessList;
                self.process.content.select(Some(0));
            },
            Focus::ProcessList => {
                self.process.content.move_selection(true);
            },
        }
    }

    /// Handle the Left key: on the tab bar the previous tab is selected,
    /// wrapping from the first tab to the last; elsewhere nothing happens.
    pub fn on_left(&mut self)
        requires
            old(self).wf(),
        ensures
            final(self).wf(),
            final(self).title == old(self).title,
            final(self).should_quit == old(self).should_quit,
            final(self).focus == old(self).focus,
            final(self).process == old(self).process,
            final(self).tabs.titles == old(self).tabs.titles,
            old(self).focus is Tab ==> final(self).tabs.index as int == step_backward(
                old(self).tabs.index as int,
                old(self).tabs.titles@.len() as int,
            ),
            !(old(self).focus is Tab) ==> final(self).tabs == old(self).tabs,
    {
        match self.focus {
            Focus::Tab => self.tabs.prev(),
            _ => {},
        }
    }

    /// Handle the Right key: on the tab bar the next tab is selected,
    /// wrapping from the last tab to the first; elsewhere nothing happens.
    pub fn on_right(&mut self)
        requires
            old(self).wf(),
        ensures
            final(self).wf(),
            final(self).title == old(self).title,
            final(self).should_quit == old(self).should_quit,
            final(self).focus == old(self).focus,
            final(self).process == old(self).process,
            final(self).tabs.titles == old(self).tabs.titles,
            old(self).focus is Tab ==> final(self).tabs.index as int == step_forward(
                old(self).tabs.index as int,
                old(self).tabs.titles@.len() as int,
            ),
            !(old(self).focus is Tab) ==> final(self).tabs == old(self).tabs,
    {
        match self.focus {
            Focus::Tab => self.tabs.next(),
            _ => {},
        }
    }

    /// Advance the tick accumulator by `elapsed` milliseconds. When the
    /// accumulator reaches the refresh threshold it is reset to zero and a
    /// refresh of the process list is due; this is the sole periodic
    /// refresh mechanism.
    pub fn on_tick(&mut self, elapsed: u32) -> (refresh_due: bool)
        requires
            old(self).wf(),
        ensures
            final(self).wf(),
            final(self).title == old(self).title,
            final(self).tabs == old(self).tabs,
            final(self).should_quit == old(self).should_quit,
            final(self).focus == old(self).focus,
            final(self).process.procname == old(self).process.procname,
            final(self).process.content == old(self).process.content,
            refresh_due == (old(self).process.tick + elapsed >= REFRESH_THRESHOLD_MS as int),
            final(self).process.tick as int == tick_step(
                old(self).process.tick as int,
                elapsed as int,
            ),
    {
        let e = elapsed as u64;
        if self.process.tick + e >= REFRESH_THRESHOLD_MS {
            self.process.tick = 0;
            true
        } else {
            self.process.tick = self.process.tick + e;
            false
        }
    }
}

} // verus!
