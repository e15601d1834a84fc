//! The guard of the channel whose remote command removes the temporary file
//! once its input ends.

use vstd::prelude::*;

verus! {

/// Where a cleanup guard stands.
#[derive(Debug, Clone, Copy, PartialEq, Eq, Structural)]
pub enum GuardState {
    /// The guard holds the channel; no worker watches it.
    Armed,
    /// The guard holds the channel and has been handed to a worker.
    Active,
    /// The channel has been given up for the end-of-input signal.
    Released,
}

/// What is done with a cleanup guard.
#[derive(Debug, Clone, Copy, PartialEq, Eq, Structural)]
pub enum GuardOp {
    Activate,
    Release,
}

/// Owns the channel of the command that removes the temporary file. The
/// channel leaves the guard once, at the first release, and whoever takes
/// it then signals the end of input on it.
pub struct CleanupGuard<C> {
    inner: Option<C>,
    active: bool,
}

impl GuardState {
    /// The state after `op`.
    pub open spec fn after(self, op: GuardOp) -> GuardState {
        match (self, op) {
            (GuardState::Armed, GuardOp::Activate) => GuardState::Active,
            (_, GuardOp::Release) => GuardState::Released,
            _ => self,
        }
    }

    /// The state after `ops`, in their order.
    pub open spec fn after_all(self, ops: Seq<GuardOp>) -> GuardState
        decreases ops.len(),
    {
        if ops.len() == 0 {
            self
        } else {
            self.after_all(ops.drop_last()).after(ops.last())
        }
    }

    /// How many end-of-input signals `op` calls for: one, where it is the
    /// first release.
    pub open spec fn signals(self, op: GuardOp) -> nat {
        if op == GuardOp::Release && self != GuardState::Released {
            1
        } else {
            0
        }
    }

    /// How many end-of-input signals `ops` call for, all in all.
    pub open spec fn signals_all(self, ops: Seq<GuardOp>) -> nat
        decreases ops.len(),
    {
        if ops.len() == 0 {
            0
        } else {
            self.signals_all(ops.drop_last()) + self.after_all(ops.drop_last()).signals(
                ops.last(),
            )
        }
    }
}

impl<C> CleanupGuard<C> {
    /// Where the guard stands.
    pub closed spec fn state(&self) -> GuardState {
        match self.inner {
            None => GuardState::Released,
            Some(_) => if self.active {
                GuardState::Active
            } else {
                GuardState::Armed
            },
        }
    }

    /// The channel that the guard holds.
    pub closed spec fn channel(&self) -> Option<C> {
        self.inner
    }

    /// A guard that holds `inner` and has not been handed to a worker.
    pub fn new(inner: C) -> (guard: CleanupGuard<C>)
        ensures
            guard.state() == GuardState::Armed,
            guard.channel() == Some(inner),
    {
        CleanupGuard { inner: Some(inner), active: false }
    }

    /// Whether the guard still holds its channel.
    pub fn holds_channel(&self) -> (r: bool)
        ensures
            r == (self.state() != GuardState::Released),
            r == self.channel().is_some(),
    {
        self.inner.is_some()
    }

    /// Marks the guard as handed to a worker, and says whether a worker is
    /// to be started: it is, where the guard was armed.
    pub fn activate(&mut self) -> (start: bool)
        ensures
            final(self).state() == old(self).state().after(GuardOp::Activate),
            final(self).channel() == old(self).channel(),
            start == (old(self).state() == GuardState::Armed),
    {
        if self.inner.is_some() && !self.active {
            self.active = true;
            true
        } else {
            false
        }
    }

    /// Gives up the channel for the end-of-input signal. The first release
    /// hands the channel out, whether or not the guard has been activated;
    /// every later one hands out nothing.
    pub fn release(&mut self) -> (channel: Option<C>)
        ensures
            final(self).state() == old(self).state().after(GuardOp::Release),
            final(self).channel().is_none(),
            channel == old(self).channel(),
            channel.is_some() == (old(self).state().signals(GuardOp::Release) == 1),
    {
        self.inner.take()
    }
}

/// Once a guard has been released, it stays released.
pub proof fn lemma_released(ops: Seq<GuardOp>)
    ensures
        GuardState::Released.after_all(ops) == GuardState::Released,
        GuardState::Released.signals_all(ops) == 0,
    decreases ops.len(),
{
    if ops.len() > 0 {
        lemma_released(ops.drop_last());
    }
}

/// Whatever is done with a guard, and in whatever order, exactly one
/// end-of-input signal is called for once the guard has been released, and
/// none before.
pub proof fn law_release_once(start: GuardState, ops: Seq<GuardOp>)
    requires
        start != GuardState::Released,
    ensures
        start.signals_all(ops) == if ops.contains(GuardOp::Release) {
            1nat
        } else {
            0nat
        },
        start.after_all(ops) == GuardState::Released <==> ops.contains(GuardOp::Release),
    decreases ops.len(),
{
    if ops.len() > 0 {
        let before = ops.drop_last();
        law_release_once(start, before);
        assert(ops.last() == ops[ops.len() - 1]);
        if before.contains(GuardOp::Release) {
            let i = choose|i: int| 0 <= i < before.len() && before[i] == GuardOp::Release;
            assert(ops[i] == GuardOp::Release);
        }
        if ops.contains(GuardOp::Release) && ops.last() != GuardOp::Release {
            let i = choose|i: int| 0 <= i < ops.len() && ops[i] == GuardOp::Release;
            assert(before[i] == GuardOp::Release);
        }
    }
}

} // verus!
