use vstd::prelude::*;

verus! {

/// Admission control for package workers: at most `capacity` run at once,
/// and every finished worker is counted, its failure kept, whatever the
/// other workers did.
pub struct Dispatcher {
    capacity: usize,
    active: usize,
    launched: usize,
    failures: Vec<String>,
}

impl Dispatcher {
    pub closed spec fn capacity(&self) -> nat {
        self.capacity as nat
    }

    /// Workers started and not yet finished.
    pub closed spec fn active(&self) -> nat {
        self.active as nat
    }

    /// Workers started so far.
    pub closed spec fn launched(&self) -> nat {
        self.launched as nat
    }

    /// The messages of the workers that failed, in the order they finished.
    pub closed spec fn failures(&self) -> Seq<Seq<char>> {
        self.failures@.map_values(|s: String| s@)
    }

    pub open spec fn wf(&self) -> bool {
        &&& 0 < self.capacity()
        &&& self.active() <= self.capacity()
        &&& self.active() <= self.launched()
    }

    /// Workers that have finished, well or not.
    pub open spec fn finished(&self) -> nat {
        (self.launched() - self.active()) as nat
    }

    /// A dispatcher for at most `capacity` workers at once.
    pub fn new(capacity: usize) -> (r: Dispatcher)
        requires
            capacity > 0,
        ensures
            r.wf(),
            r.capacity() == capacity,
            r.active() == 0,
            r.launched() == 0,
            r.failures() == Seq::<Seq<char>>::empty(),
    {
        let r = Dispatcher { capacity, active: 0, launched: 0, failures: Vec::new() };
        assert(r.failures() =~= Seq::<Seq<char>>::empty());
        r
    }

    /// True when one more worker may start now.
    pub fn can_start(&self) -> (r: bool)
        requires
            self.wf(),
        ensures
            r == (self.active() < self.capacity() && self.launched() < usize::MAX),
    {
        self.active < self.capacity && self.launched < usize::MAX
    }

    /// Counts a worker as started.
    pub fn start(&mut self)
        requires
            old(self).wf(),
            old(self).active() < old(self).capacity(),
            old(self).launched() < usize::MAX,
        ensures
            final(self).wf(),
            final(self).capacity() == old(self).capacity(),
            final(self).active() == old(self).active() + 1,
            final(self).launched() == old(self).launched() + 1,
            final(self).failures() == old(self).failures(),
    {
        self.active = self.active + 1;
        self.launched = self.launched + 1;
    }

    /// Counts a worker as finished, keeping its message when it failed.
    pub fn complete(&mut self, outcome: Result<(), String>)
        requires
            old(self).wf(),
            old(self).active() > 0,
        ensures
            final(self).wf(),
            final(self).capacity() == old(self).capacity(),
            final(self).active() == old(self).active() - 1,
            final(self).launched() == old(self).launched(),
            final(self).failures() == match outcome {
                Ok(()) => old(self).failures(),
                Err(m) => old(self).failures().push(m@),
            },
    {
        self.active = self.active - 1;
        match outcome {
            Ok(()) => {},
            Err(m) => {
                let ghost before = self.failures@;
                self.failures.push(m);
                assert(self.failures@.map_values(|s: String| s@) =~= before.map_values(
                    |s: String| s@,
                ).push(self.failures@.last()@));
            },
        }
    }

    /// True when every started worker has finished.
    pub fn is_idle(&self) -> (r: bool)
        ensures
            r == (self.active() == 0),
    {
        self.active == 0
    }

    /// The failures seen so far.
    pub fn failures_seen(&self) -> (r: &Vec<String>)
        ensures
            r@.map_values(|s: String| s@) == self.failures(),
    {
        &self.failures
    }
}

/// However workers start and finish, no more than the capacity run at once.
pub proof fn lemma_never_over_capacity(d: Dispatcher)
    requires
        d.wf(),
    ensures
        d.active() <= d.capacity(),
{
}

/// A failed worker frees its place like a successful one: the next worker
/// can start, and the failure is kept without touching what other
/// workers reported.
pub proof fn lemma_failure_frees_slot(before: Dispatcher, after: Dispatcher, m: Seq<char>)
    requires
        before.wf(),
        before.active() > 0,
        after.wf(),
        after.capacity() == before.capacity(),
        after.active() == before.active() - 1,
        after.launched() == before.launched(),
        after.failures() == before.failures().push(m),
    ensures
        after.active() < after.capacity(),
        after.finished() == before.finished() + 1,
        after.failures().take(before.failures().len() as int) == before.failures(),
{
    assert(after.failures().take(before.failures().len() as int) =~= before.failures());
}

} // verus!
