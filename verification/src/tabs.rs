//! The tab bar: an ordered, non-empty sequence of tab titles and the index
//! of the selected tab. Left/right navigation wraps around the ends.

use vstd::prelude::*;
use crate::cycle::{step_backward, step_forward};

verus! {

pub struct TabsState {
    pub titles: Vec<String>,
    pub index: usize,
}

impl TabsState {
    /// The selected index always points at one of the titles.
    pub open spec fn wf(&self) -> bool {
        self.titles@.len() > 0 && (self.index as int) < self.titles@.len()
    }

    pub fn new(titles: Vec<String>) -> (r: TabsState)
        requires
            titles@.len() > 0,
        ensures
            r.titles == titles,
            r.index == 0,
            r.wf(),
    {
        TabsState { titles, index: 0 }
    }

    pub fn next(&mut self)
        requires
            old(self).wf(),
        ensures
            final(self).wf(),
            final(self).titles == old(self).titles,
            final(self).index as int == step_forward(
                old(self).index as int,
                old(self).titles@.len() as int,
            ),
    {
        let n = self.titles.len();
        let i = (self.index + 1) % n;
        proof {
            if self.index + 1 < n {
                vstd::arithmetic::div_mod::lemma_small_mod((self.index + 1) as nat, n as nat);
            } else {
                vstd::arithmetic::div_mod::lemma_mod_self_0(n as int);
            }
        }
        self.index = i;
    }

    pub fn prev(&mut self)
        requires
            old(self).wf(),
        ensures
            final(self).wf(),
            final(self).titles == old(self).titles,
            final(self).index as int == step_backward(
                old(self).index as int,
                old(self).titles@.len() as int,
            ),
    {
        if self.index > 0 {
            self.index -= 1;
        } else {
            self.index = self.titles.len() - 1;
        }
    }
}

} // verus!
