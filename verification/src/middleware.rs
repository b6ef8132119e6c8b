//! The run of the middleware over an incoming packet.
//!
//! Middleware are applied in the order they were added; the first that
//! rejects the packet stops the run, and the packet passes only if every
//! middleware accepted it.  The embedding program calls each middleware
//! that the run names and reports its verdict.

use vstd::prelude::*;

verus! {

/// The progress of the middleware over one packet.
pub struct MiddlewareRun {
    count: usize,
    next: usize,
    rejected: bool,
    verdicts: Ghost<Seq<bool>>,
}

impl MiddlewareRun {
    /// How many middleware there are.
    pub closed spec fn count(&self) -> nat {
        self.count as nat
    }

    /// The verdicts reported so far, in order.
    pub closed spec fn verdicts(&self) -> Seq<bool> {
        self.verdicts@
    }

    /// The run is consistent: one verdict per middleware called, all of
    /// them acceptances but perhaps the last.
    pub closed spec fn wf(&self) -> bool {
        &&& self.next as nat == self.verdicts@.len()
        &&& self.next <= self.count
        &&& forall|i: int| 0 <= i < self.verdicts@.len() - 1 ==> #[trigger] self.verdicts@[i]
        &&& self.rejected == (self.verdicts@.len() > 0 && !self.verdicts@.last())
    }

    /// Every verdict so far accepts the packet.
    pub open spec fn all_accept(verdicts: Seq<bool>) -> bool {
        forall|i: int| 0 <= i < verdicts.len() ==> #[trigger] verdicts[i]
    }

    /// A run over `count` middleware, none called yet.
    pub fn new(count: usize) -> (r: MiddlewareRun)
        ensures
            r.wf(),
            r.count() == count,
            r.verdicts() == Seq::<bool>::empty(),
    {
        MiddlewareRun { count, next: 0, rejected: false, verdicts: Ghost(Seq::empty()) }
    }

    /// The position of the middleware to call next; `None` once a
    /// middleware has rejected the packet or all have been called.
    pub fn next_middleware(&self) -> (r: Option<usize>)
        requires
            self.wf(),
        ensures
            match r {
                Some(i) => i == self.verdicts().len() && i < self.count()
                    && MiddlewareRun::all_accept(self.verdicts()),
                None => self.verdicts().len() == self.count() || !MiddlewareRun::all_accept(self.verdicts()),
            },
    {
        if self.rejected || self.next >= self.count {
            proof {
                if self.rejected {
                    assert(!self.verdicts@[self.verdicts@.len() - 1]);
                }
            }
            None
        } else {
            proof {
                if self.verdicts@.len() > 0 {
                    assert(self.verdicts@[self.verdicts@.len() - 1]);
                }
            }
            Some(self.next)
        }
    }

    /// Records the verdict of the middleware `next_middleware` named.
    pub fn record(&mut self, accepted: bool)
        requires
            old(self).wf(),
            old(self).verdicts().len() < old(self).count(),
            MiddlewareRun::all_accept(old(self).verdicts()),
        ensures
            final(self).wf(),
            final(self).count() == old(self).count(),
            final(self).verdicts() == old(self).verdicts().push(accepted),
    {
        self.next = self.next + 1;
        self.rejected = !accepted;
        self.verdicts = Ghost(self.verdicts@.push(accepted));
    }

    /// Whether the packet passes, asked once the run is over
    /// (`next_middleware` is `None`): every middleware was called and
    /// accepted it.
    pub fn passed(&self) -> (r: bool)
        requires
            self.wf(),
            self.verdicts().len() == self.count() || !MiddlewareRun::all_accept(self.verdicts()),
        ensures
            r == (self.verdicts().len() == self.count() && MiddlewareRun::all_accept(self.verdicts())),
    {
        proof {
            if self.rejected {
                assert(!self.verdicts@[self.verdicts@.len() - 1]);
            }
        }
        !self.rejected
    }
}

/// The packet passes the middleware exactly when every middleware was
/// called and accepted it: once the run names no further middleware, it
/// has passed if and only if there is a verdict for each middleware and
/// all of them accept.
pub proof fn law_middleware_passes_iff_all_accept(run: MiddlewareRun)
    requires
        run.wf(),
        run.verdicts().len() == run.count() || !MiddlewareRun::all_accept(run.verdicts()),
    ensures
        MiddlewareRun::all_accept(run.verdicts()) <==> (run.verdicts().len() == run.count()
            && forall|i: int| 0 <= i < run.count() ==> #[trigger] run.verdicts()[i]),
{
}

} // verus!
