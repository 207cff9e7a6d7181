use vstd::prelude::*;

verus! {

/// What a worker of the pool does next.
#[derive(Clone, Copy, PartialEq, Eq, Structural, Debug)]
pub enum Next {
    /// Run the job with this number.
    Run(usize),
    /// Nothing is queued yet: wait for a submission or for the pool to close.
    Wait,
    /// The pool is closed and every job has been handed out: stop.
    Exit,
}

/// The bookkeeping of a worker pool: jobs are numbered in the order they are submitted
/// and handed out in that order, each once; once the pool is closed no job is accepted,
/// and a worker that asks for work after every job has been handed out is told to stop.
pub struct JobQueue {
    submitted: usize,
    handed: usize,
    finished: usize,
    closed: bool,
    /// The numbers of the jobs handed out so far, in order.
    history: Ghost<Seq<int>>,
}

impl JobQueue {
    #[verifier::type_invariant]
    spec fn inv(&self) -> bool {
        &&& self.finished <= self.handed <= self.submitted
        &&& self.history@ == Seq::new(self.handed as nat, |i: int| i)
    }

    pub closed spec fn submitted(&self) -> nat {
        self.submitted as nat
    }

    pub closed spec fn handed(&self) -> nat {
        self.handed as nat
    }

    pub closed spec fn finished(&self) -> nat {
        self.finished as nat
    }

    pub closed spec fn is_closed(&self) -> bool {
        self.closed
    }

    /// The numbers of the jobs handed out so far, in order.
    pub closed spec fn history(&self) -> Seq<int> {
        self.history@
    }

    pub fn new() -> (r: JobQueue)
        ensures
            r.submitted() == 0,
            r.handed() == 0,
            r.finished() == 0,
            !r.is_closed(),
            r.history() == Seq::<int>::empty(),
    {
        let ghost start = Seq::new(0, |i: int| i);
        assert(start =~= Seq::<int>::empty());
        JobQueue { submitted: 0, handed: 0, finished: 0, closed: false, history: Ghost(start) }
    }

    /// The counts obey `finished <= handed <= submitted`, and the history is the job
    /// numbers from 0 up to `handed`.
    pub fn counts_hold(&self)
        ensures
            self.finished() <= self.handed() <= self.submitted(),
            self.history() == Seq::new(self.handed(), |i: int| i),
    {
        proof {
            use_type_invariant(self);
        }
    }

    /// Accepts a job and gives its number; a closed pool, or one whose count is at its
    /// limit, accepts none.
    pub fn submit(&mut self) -> (r: Option<usize>)
        ensures
            final(self).handed() == old(self).handed(),
            final(self).finished() == old(self).finished(),
            final(self).is_closed() == old(self).is_closed(),
            final(self).history() == old(self).history(),
            match r {
                Some(id) => !old(self).is_closed() && id == old(self).submitted() && final(self).submitted() == old(self).submitted() + 1,
                None => final(self).submitted() == old(self).submitted() && (old(self).is_closed() || old(self).submitted() == usize::MAX),
            },
    {
        proof {
            use_type_invariant(&*self);
        }
        if self.closed || self.submitted == usize::MAX {
            None
        } else {
            let id = self.submitted;
            self.submitted = self.submitted + 1;
            Some(id)
        }
    }

    /// Accepts no more jobs.
    pub fn close(&mut self)
        ensures
            final(self).is_closed(),
            final(self).submitted() == old(self).submitted(),
            final(self).handed() == old(self).handed(),
            final(self).finished() == old(self).finished(),
            final(self).history() == old(self).history(),
    {
        proof {
            use_type_invariant(&*self);
        }
        self.closed = true;
    }

    /// What a worker that asks for work does next: the oldest job not yet handed out,
    /// else stop where the pool is closed, else wait.
    pub fn next(&mut self) -> (r: Next)
        ensures
            final(self).submitted() == old(self).submitted(),
            final(self).finished() == old(self).finished(),
            final(self).is_closed() == old(self).is_closed(),
            match r {
                Next::Run(id) => id == old(self).handed() && id < old(self).submitted() && final(self).handed() == old(self).handed() + 1
                    && final(self).history() == old(self).history().push(id as int),
                Next::Wait => !old(self).is_closed() && old(self).handed() == old(self).submitted()
                    && final(self).handed() == old(self).handed() && final(self).history() == old(self).history(),
                Next::Exit => old(self).is_closed() && old(self).handed() == old(self).submitted()
                    && final(self).handed() == old(self).handed() && final(self).history() == old(self).history(),
            },
    {
        proof {
            use_type_invariant(&*self);
        }
        if self.handed < self.submitted {
            let id = self.handed;
            let ghost h = self.history@.push(id as int);
            assert(h =~= Seq::new((id + 1) as nat, |i: int| i));
            *self = JobQueue {
                submitted: self.submitted,
                handed: id + 1,
                finished: self.finished,
                closed: self.closed,
                history: Ghost(h),
            };
            Next::Run(id)
        } else if self.closed {
            Next::Exit
        } else {
            Next::Wait
        }
    }

    /// Records that a handed-out job has finished.
    pub fn finish(&mut self)
        requires
            old(self).finished() < old(self).handed(),
        ensures
            final(self).finished() == old(self).finished() + 1,
            final(self).submitted() == old(self).submitted(),
            final(self).handed() == old(self).handed(),
            final(self).is_closed() == old(self).is_closed(),
            final(self).history() == old(self).history(),
    {
        proof {
            use_type_invariant(&*self);
        }
        self.finished = self.finished + 1;
    }

    /// Whether some handed-out job has not finished yet.
    pub fn has_running(&self) -> (r: bool)
        ensures
            r == (self.finished() < self.handed()),
    {
        self.finished < self.handed
    }

    /// Whether the pool is closed and every job it accepted has finished.
    pub fn is_done(&self) -> (r: bool)
        ensures
            r == (self.is_closed() && self.finished() == self.submitted()),
    {
        self.closed && self.finished == self.submitted
    }
}

/// Completeness: once the pool is closed and every job it accepted has finished, each
/// of the jobs `0 .. submitted` has been handed out exactly once, in submission order.
/// `q` is a pool as its operations leave it (`counts_hold` states the counts and the history).
pub proof fn lemma_pool_completeness(q: JobQueue)
    requires
        q.finished() <= q.handed() <= q.submitted(),
        q.history() == Seq::new(q.handed(), |i: int| i),
        q.is_closed(),
        q.finished() == q.submitted(),
    ensures
        q.history().len() == q.submitted(),
        forall|id: int| 0 <= id < q.submitted() ==> #[trigger] q.history()[id] == id,
        forall|i: int, j: int|
            0 <= i < q.history().len() && 0 <= j < q.history().len() && q.history()[i] == q.history()[j] ==> i == j,
{
}

} // verus!
