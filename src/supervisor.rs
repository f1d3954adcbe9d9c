//! The parent's record of the worker processes it has forked, and how it
//! reacts to what waiting on its children reports.

use vstd::prelude::*;

verus! {

/// What one wait for a child process reported.
#[derive(Clone, Copy, Debug, PartialEq, Eq)]
pub enum WaitEvent {
    /// The child with this identifier exited, with whatever status.
    Exited(i32),
    /// A child was stopped by a signal.
    Stopped,
    /// A stopped child was resumed.
    Continued,
    /// The process has no children left to wait for.
    NoChildren,
    /// Any other report, or a failure of the wait itself.
    Other,
}

/// Whether the parent goes on waiting after a report.
#[derive(Clone, Copy, Debug, PartialEq, Eq)]
pub enum WaitProgress {
    /// Children remain pending.
    KeepWaiting,
    /// Nothing is left to wait for.
    Finished,
}

/// Why waiting for the workers failed.
#[derive(Clone, Copy, Debug, PartialEq, Eq)]
pub enum SupervisorError {
    /// A child that was never recorded was reported as exited.
    UnknownChild(i32),
    /// The wait reported something other than an exit, a stop, a resume or
    /// the absence of children.
    UnexpectedWait,
}

/// Whether waiting is over once `pending` is what remains.
pub open spec fn progress_for(pending: Seq<i32>) -> WaitProgress {
    if pending.len() == 0 {
        WaitProgress::Finished
    } else {
        WaitProgress::KeepWaiting
    }
}

/// The outcome of handling `event` while `pending` are recorded, and what
/// remains pending afterwards.
pub open spec fn handle(pending: Seq<i32>, event: WaitEvent) -> (
    Result<WaitProgress, SupervisorError>,
    Seq<i32>,
) {
    match event {
        WaitEvent::Exited(pid) => {
            if pending.contains(pid) {
                let rest = pending.remove(pending.index_of(pid));
                (Ok(progress_for(rest)), rest)
            } else {
                (Err(SupervisorError::UnknownChild(pid)), pending)
            }
        },
        WaitEvent::Stopped | WaitEvent::Continued => (Ok(progress_for(pending)), pending),
        WaitEvent::NoChildren => (Ok(WaitProgress::Finished), pending),
        WaitEvent::Other => (Err(SupervisorError::UnexpectedWait), pending),
    }
}

/// Waiting never fails on "no children", whatever is still recorded: some
/// children were reaped elsewhere and nothing is left to wait for. An exit of
/// a child that was never recorded is always an error naming it, and leaves
/// the record untouched.
pub proof fn lemma_wait_outcomes(pending: Seq<i32>, pid: i32)
    ensures
        handle(pending, WaitEvent::NoChildren).0 == Ok::<WaitProgress, SupervisorError>(
            WaitProgress::Finished,
        ),
        !pending.contains(pid) ==> handle(pending, WaitEvent::Exited(pid)).0 == Err::<
            WaitProgress,
            SupervisorError,
        >(SupervisorError::UnknownChild(pid)),
        !pending.contains(pid) ==> handle(pending, WaitEvent::Exited(pid)).1 == pending,
{
}

/// The identifiers of the worker processes that have been forked and not yet
/// seen to exit, in the order they were forked.
pub struct PendingWorkers {
    pids: Vec<i32>,
}

impl View for PendingWorkers {
    type V = Seq<i32>;

    closed spec fn view(&self) -> Seq<i32> {
        self.pids@
    }
}

impl PendingWorkers {
    /// No identifier is recorded twice.
    pub open spec fn wf(&self) -> bool {
        self@.no_duplicates()
    }

    /// No worker pending.
    pub fn new() -> (r: PendingWorkers)
        ensures
            r.wf(),
            r@ == Seq::<i32>::empty(),
    {
        PendingWorkers { pids: Vec::new() }
    }

    /// Records a freshly forked worker; an identifier already pending is kept once.
    pub fn record(&mut self, pid: i32)
        requires
            old(self).wf(),
        ensures
            final(self).wf(),
            final(self)@ == (if old(self)@.contains(pid) {
                old(self)@
            } else {
                old(self)@.push(pid)
            }),
    {
        match self.position(pid) {
            Some(_) => {},
            None => {
                self.pids.push(pid);
            },
        }
    }

    /// Where `pid` stands among the pending workers, if it is one of them.
    pub fn position(&self, pid: i32) -> (r: Option<usize>)
        ensures
            match r {
                Some(i) => i < self@.len() && self@[i as int] == pid && !self@.take(
                    i as int,
                ).contains(pid),
                None => !self@.contains(pid),
            },
    {
        let mut i: usize = 0;
        while i < self.pids.len()
            invariant
                i <= self.pids@.len(),
                forall|j: int| 0 <= j < i ==> self.pids@[j] != pid,
            decreases self.pids.len() - i,
        {
            if self.pids[i] == pid {
                assert(!self.pids@.take(i as int).contains(pid)) by {
                    assert forall|j: int| 0 <= j < i implies self.pids@.take(i as int)[j] != pid by {
                    }
                }
                return Some(i);
            }
            i = i + 1;
        }
        None
    }

    /// Number of workers pending.
    pub fn len(&self) -> (r: usize)
        ensures
            r == self@.len(),
    {
        self.pids.len()
    }

    /// Whether no worker is pending.
    pub fn is_empty(&self) -> (r: bool)
        ensures
            r == (self@.len() == 0),
    {
        self.pids.len() == 0
    }

    /// Handles one report of a wait for children. An exit of a pending
    /// worker removes it; an exit of any other child is an error; stops and
    /// resumes change nothing; "no children" ends the waiting successfully
    /// whatever is still recorded, since those children were reaped
    /// elsewhere; any other report is an error.
    pub fn observe(&mut self, event: WaitEvent) -> (r: Result<WaitProgress, SupervisorError>)
        requires
            old(self).wf(),
        ensures
            final(self).wf(),
            r == handle(old(self)@, event).0,
            final(self)@ == handle(old(self)@, event).1,
    {
        match event {
            WaitEvent::Exited(pid) => match self.position(pid) {
                Some(i) => {
                    proof {
                        let s = self@;
                        assert(s.contains(pid));
                        lemma_index_of_first(s, pid, i as int);
                    }
                    self.pids.remove(i);
                    proof {
                        lemma_remove_keeps_distinct(old(self)@, i as int);
                    }
                    if self.pids.len() == 0 {
                        Ok(WaitProgress::Finished)
                    } else {
                        Ok(WaitProgress::KeepWaiting)
                    }
                },
                None => Err(SupervisorError::UnknownChild(pid)),
            },
            WaitEvent::Stopped | WaitEvent::Continued => {
                if self.pids.len() == 0 {
                    Ok(WaitProgress::Finished)
                } else {
                    Ok(WaitProgress::KeepWaiting)
                }
            },
            WaitEvent::NoChildren => Ok(WaitProgress::Finished),
            WaitEvent::Other => Err(SupervisorError::UnexpectedWait),
        }
    }
}

proof fn lemma_index_of_first(s: Seq<i32>, pid: i32, i: int)
    requires
        0 <= i < s.len(),
        s[i] == pid,
        s.no_duplicates(),
    ensures
        s.index_of(pid) == i,
{
    assert(s.contains(pid));
    let k = s.index_of(pid);
    assert(0 <= k < s.len() && s[k] == pid);
}

proof fn lemma_remove_keeps_distinct(s: Seq<i32>, i: int)
    requires
        s.no_duplicates(),
        0 <= i < s.len(),
    ensures
        s.remove(i).no_duplicates(),
{
    let r = s.remove(i);
    assert forall|a: int, b: int| 0 <= a < r.len() && 0 <= b < r.len() && a != b implies r[a]
        != r[b] by {
        let sa = if a < i { a } else { a + 1 };
        let sb = if b < i { b } else { b + 1 };
        assert(r[a] == s[sa]);
        assert(r[b] == s[sb]);
    }
}

} // verus!
