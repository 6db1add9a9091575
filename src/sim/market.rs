//! A net asset value history handed out one day at a time.
use crate::date::Date;
use vstd::prelude::*;
use vstd::slice::slice_subrange;

verus! {

pub struct Market {
    nav_history: Vec<(Date, u64)>,
    step: usize,
}

impl Market {
    pub closed spec fn history(&self) -> Seq<(Date, u64)> {
        self.nav_history@
    }

    /// Days handed out so far.
    pub closed spec fn days_out(&self) -> nat {
        self.step as nat
    }

    pub open spec fn wf(&self) -> bool {
        self.days_out() <= self.history().len()
    }

    pub fn new(nav_history: Vec<(Date, u64)>) -> (r: Self)
        ensures
            r.wf(),
            r.history() == nav_history@,
            r.days_out() == 0,
    {
        Market { nav_history, step: 0 }
    }

    /// The days handed out so far.
    pub fn nav_history(&self) -> (r: &[(Date, u64)])
        requires
            self.wf(),
        ensures
            r@ == self.history().take(self.days_out() as int),
    {
        let r = slice_subrange(self.nav_history.as_slice(), 0, self.step);
        assert(r@ =~= self.history().take(self.days_out() as int));
        r
    }

    /// The next day, or `None` once the history is exhausted.
    pub fn next(&mut self) -> (r: Option<(Date, u64)>)
        requires
            old(self).wf(),
        ensures
            final(self).wf(),
            final(self).history() == old(self).history(),
            old(self).days_out() < old(self).history().len() ==> r == Some(
                old(self).history()[old(self).days_out() as int],
            ) && final(self).days_out() == old(self).days_out() + 1,
            old(self).days_out() >= old(self).history().len() ==> r is None && final(self).days_out()
                == old(self).days_out(),
    {
        if self.step >= self.nav_history.len() {
            None
        } else {
            let item = self.nav_history[self.step];
            self.step = self.step + 1;
            Some(item)
        }
    }
}

} // verus!
