//! The scheduler's cycle over all deployments, and the guard that keeps two
//! passes of one deployment from running at once.
use vstd::prelude::*;
use crate::reconciler::PassOutcome;

verus! {

/// One cycle over the deployments that the store returned: each gets one
/// pass, in order, and its own report. `reports[i]` is `None` where the pass
/// of `ids[i]` could not run (the runtime was unavailable to it).
pub struct Cycle {
    pub ids: Vec<String>,
    pub reports: Vec<Option<PassOutcome>>,
}

impl Cycle {
    /// The cycle holds no more reports than deployments.
    pub open spec fn wf(&self) -> bool {
        self.reports@.len() <= self.ids@.len()
    }

    /// A cycle over `ids` with no pass run yet.
    pub fn new(ids: Vec<String>) -> (c: Cycle)
        ensures
            c.wf(),
            c.ids@ == ids@,
            c.reports@.len() == 0,
    {
        Cycle { ids, reports: Vec::new() }
    }

    /// The index of the deployment whose pass comes next, or `None` once
    /// every deployment has had its pass.
    pub fn next(&self) -> (r: Option<usize>)
        requires
            self.wf(),
        ensures
            self.reports@.len() < self.ids@.len() ==> r == Some(self.reports@.len() as usize),
            self.reports@.len() == self.ids@.len() ==> r is None,
    {
        if self.reports.len() < self.ids.len() {
            Some(self.reports.len())
        } else {
            None
        }
    }

    /// Records the report of the current deployment's pass, whatever it
    /// holds, and moves on to the next deployment.
    pub fn record(&mut self, report: Option<PassOutcome>)
        requires
            old(self).wf(),
            old(self).reports@.len() < old(self).ids@.len(),
        ensures
            final(self).wf(),
            final(self).ids@ == old(self).ids@,
            final(self).reports@ == old(self).reports@.push(report),
    {
        self.reports.push(report);
    }
}

/// The reports of a cycle in which the passes returned `results`, one by one.
pub open spec fn recorded(results: Seq<Option<PassOutcome>>) -> Seq<Option<PassOutcome>>
    decreases results.len(),
{
    if results.len() == 0 {
        Seq::empty()
    } else {
        recorded(results.drop_last()).push(results.last())
    }
}

/// Isolation: over a cycle, every deployment gets its pass, and the report
/// of each is its own pass's result, whichever other passes failed. After
/// any number of recorded passes, failed or not, short of all of them, a
/// deployment is still waiting for its pass.
pub proof fn lemma_isolation(n: nat, results: Seq<Option<PassOutcome>>)
    requires
        results.len() == n,
    ensures
        recorded(results).len() == n,
        forall|i: int| 0 <= i < n ==> #[trigger] recorded(results)[i] == results[i],
        forall|i: int| 0 <= i < n ==> #[trigger] recorded(results.subrange(0, i)).len() == i,
{
    lemma_recorded(results);
    assert forall|i: int| 0 <= i < n implies #[trigger] recorded(results.subrange(0, i)).len() == i by {
        lemma_recorded(results.subrange(0, i));
    }
}

proof fn lemma_recorded(results: Seq<Option<PassOutcome>>)
    ensures
        recorded(results) == results,
    decreases results.len(),
{
    if results.len() > 0 {
        lemma_recorded(results.drop_last());
    }
    assert(recorded(results) =~= results);
}

/// The deployments whose pass is running; at most one pass per id.
pub struct InFlight {
    pub ids: Vec<String>,
}

/// The id is among the running ones.
pub open spec fn running(ids: Seq<String>, id: Seq<char>) -> bool {
    exists|i: int| 0 <= i < ids.len() && (#[trigger] ids[i])@ == id
}

/// The running ids without `id`.
pub open spec fn without(ids: Seq<String>, id: Seq<char>) -> Seq<String> {
    ids.filter(|s: String| s@ != id)
}

impl InFlight {
    /// No pass is running.
    pub fn new() -> (r: InFlight)
        ensures
            r.ids@.len() == 0,
    {
        InFlight { ids: Vec::new() }
    }

    fn position(&self, id: &String) -> (r: Option<usize>)
        ensures
            match r {
                Some(i) => i < self.ids@.len() && self.ids@[i as int]@ == id@,
                None => !running(self.ids@, id@),
            },
    {
        let mut i: usize = 0;
        while i < self.ids.len()
            invariant
                i <= self.ids@.len(),
                forall|k: int| 0 <= k < i ==> (#[trigger] self.ids@[k])@ != id@,
            decreases self.ids@.len() - i,
        {
            if self.ids[i] == *id {
                return Some(i);
            }
            i = i + 1;
        }
        None
    }

    /// Claims the right to run a pass for `id`: granted exactly when no pass
    /// of that id is running, and then the id is running.
    pub fn try_begin(&mut self, id: &String) -> (granted: bool)
        ensures
            granted == !running(old(self).ids@, id@),
            granted ==> final(self).ids@ == old(self).ids@.push(*id),
            !granted ==> final(self).ids@ == old(self).ids@,
            running(final(self).ids@, id@),
    {
        match self.position(id) {
            Some(_) => false,
            None => {
                let c = id.clone();
                self.ids.push(c);
                proof {
                    assert(self.ids@[self.ids@.len() - 1]@ == id@);
                }
                true
            },
        }
    }

    /// Ends the pass of `id`: no pass of that id is running afterwards, and
    /// the others are untouched.
    pub fn end(&mut self, id: &String)
        ensures
            final(self).ids@ == without(old(self).ids@, id@),
            !running(final(self).ids@, id@),
    {
        let ghost start = self.ids@;
        let mut kept: Vec<String> = Vec::new();
        let mut i: usize = 0;
        while i < self.ids.len()
            invariant
                self.ids@ == start,
                i <= start.len(),
                kept@ == without(start.subrange(0, i as int), id@),
            decreases start.len() - i,
        {
            proof {
                let f = |s: String| s@ != id@;
                assert(start.subrange(0, i + 1) =~= start.subrange(0, i as int).push(start[i as int]));
                start.subrange(0, i as int).lemma_filter_push(start[i as int], f);
            }
            if self.ids[i] != *id {
                kept.push(self.ids[i].clone());
            }
            i = i + 1;
        }
        proof {
            assert(start.subrange(0, start.len() as int) =~= start);
            let f = |s: String| s@ != id@;
            broadcast use vstd::seq_lib::group_filter_ensures;
            assert forall|k: int| 0 <= k < kept@.len() implies (#[trigger] kept@[k])@ != id@ by {
                assert(f(start.filter(f)[k]));
            }
        }
        self.ids = kept;
    }
}

} // verus!
