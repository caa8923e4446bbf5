//! The course of one walk: which tasks are still out, what has been
//! combined, and how the walk ended.
//!
//! A task is the work on one entry. The walk of a tree starts with one
//! task, for the root. A task on a directory starts one task for each
//! child and does not wait for them. The walk is over when no task is
//! out any more, and only then is there a checksum.

use vstd::prelude::*;
use crate::checksum::{lemma_xor_all_push, xor_all, Checksum};
use crate::sha::{absorbed, hashable, sha1_digest};

verus! {

/// Where a walk stands.
#[derive(Clone, Copy, Debug, PartialEq, Eq, Structural)]
pub enum Phase {
    /// Not started.
    Idle,
    /// Tasks are out.
    Walking,
    /// Every task has come back and none failed.
    Completed,
    /// A task failed. Nothing follows.
    Aborted,
}

/// A walk, for contracts.
pub struct WalkView {
    pub phase: Phase,
    /// Tasks that were started and have not come back.
    pub pending: nat,
    /// The digests that were combined, in the order in which they came.
    pub digests: Seq<Seq<u8>>,
}

/// A walk that holds together: tasks are out while it is under way and at
/// no other time, and before it starts nothing has been combined.
pub open spec fn coherent(walk: WalkView) -> bool {
    &&& (walk.phase == Phase::Walking) == (walk.pending > 0)
    &&& walk.phase == Phase::Idle ==> walk.digests.len() == 0
}

/// A walk that has not started.
pub open spec fn idle() -> WalkView {
    WalkView { phase: Phase::Idle, pending: 0, digests: Seq::empty() }
}

/// The walk once the task for the root is out. Only an idle walk starts.
pub open spec fn started(walk: WalkView) -> WalkView {
    if walk.phase == Phase::Idle {
        WalkView { phase: Phase::Walking, pending: 1, ..walk }
    } else {
        walk
    }
}

/// The walk once one more task is out, for a child of a directory.
pub open spec fn spawned(walk: WalkView) -> WalkView {
    if walk.phase == Phase::Walking {
        WalkView { pending: walk.pending + 1, ..walk }
    } else {
        walk
    }
}

/// The walk once `digest` has been combined. What comes in after the walk
/// has ended is dropped.
pub open spec fn combined(walk: WalkView, digest: Seq<u8>) -> WalkView {
    if walk.phase == Phase::Walking {
        WalkView { digests: walk.digests.push(digest), ..walk }
    } else {
        walk
    }
}

/// The walk once a task has come back. With the last one the walk is
/// complete.
pub open spec fn finished(walk: WalkView) -> WalkView {
    if walk.phase == Phase::Walking {
        WalkView {
            phase: if walk.pending == 1 {
                Phase::Completed
            } else {
                Phase::Walking
            },
            pending: (walk.pending - 1) as nat,
            ..walk
        }
    } else {
        walk
    }
}

/// The walk once a task has failed. A walk that is complete stays so.
pub open spec fn aborted(walk: WalkView) -> WalkView {
    if walk.phase == Phase::Idle || walk.phase == Phase::Walking {
        WalkView { phase: Phase::Aborted, pending: 0, ..walk }
    } else {
        walk
    }
}

/// Every step keeps a walk coherent.
pub proof fn lemma_steps_keep_coherent(walk: WalkView, digest: Seq<u8>)
    requires
        coherent(walk),
    ensures
        coherent(idle()),
        coherent(started(walk)),
        coherent(spawned(walk)),
        coherent(combined(walk, digest)),
        coherent(finished(walk)),
        coherent(aborted(walk)),
{
}

/// A walk that is complete or aborted stays as it is, whatever comes.
pub proof fn lemma_ended_is_final(walk: WalkView, digest: Seq<u8>)
    requires
        walk.phase == Phase::Completed || walk.phase == Phase::Aborted,
    ensures
        started(walk) == walk,
        spawned(walk) == walk,
        combined(walk, digest) == walk,
        finished(walk) == walk,
        aborted(walk) == walk,
{
}

/// A walk becomes complete in one way: its last task comes back.
pub proof fn lemma_completes_by_last_task(walk: WalkView, digest: Seq<u8>)
    requires
        walk.phase != Phase::Completed,
    ensures
        started(walk).phase != Phase::Completed,
        spawned(walk).phase != Phase::Completed,
        combined(walk, digest).phase != Phase::Completed,
        aborted(walk).phase != Phase::Completed,
        finished(walk).phase == Phase::Completed <==> walk.phase == Phase::Walking && walk.pending
            == 1,
{
}

/// The state of one walk: its phase, the count of tasks that are out and
/// the checksum so far.
pub struct Walk {
    phase: Phase,
    pending: usize,
    checksum: Checksum,
    digests: Ghost<Seq<Seq<u8>>>,
}

impl View for Walk {
    type V = WalkView;

    closed spec fn view(&self) -> WalkView {
        WalkView { phase: self.phase, pending: self.pending as nat, digests: self.digests@ }
    }
}

impl Walk {
    #[verifier::type_invariant]
    spec fn inv(&self) -> bool {
        &&& coherent(self@)
        &&& self.checksum@ == xor_all(self.digests@)
    }

    /// A walk that has not started.
    pub fn new() -> (walk: Walk)
        ensures
            walk@ == idle(),
    {
        Walk { phase: Phase::Idle, pending: 0, checksum: Checksum::new(), digests: Ghost(Seq::empty()) }
    }

    /// Where the walk stands. It is under way exactly while tasks are out.
    pub fn phase(&self) -> (phase: Phase)
        ensures
            phase == self@.phase,
            coherent(self@),
    {
        proof {
            use_type_invariant(self);
        }
        self.phase
    }

    /// The number of tasks that are out.
    pub fn pending(&self) -> (pending: usize)
        ensures
            pending == self@.pending,
            coherent(self@),
    {
        proof {
            use_type_invariant(self);
        }
        self.pending
    }

    /// Starts the walk: the task for the root is out. It says whether the
    /// walk was idle; if not, nothing happens.
    pub fn start(&mut self) -> (was_idle: bool)
        ensures
            was_idle == (old(self)@.phase == Phase::Idle),
            final(self)@ == started(old(self)@),
    {
        proof {
            use_type_invariant(&*self);
        }
        match self.phase {
            Phase::Idle => {
                *self = Walk {
                    phase: Phase::Walking,
                    pending: 1,
                    checksum: self.checksum,
                    digests: self.digests,
                };
                true
            },
            _ => false,
        }
    }

    /// Counts one more task as out, for a child of a directory. It says
    /// whether the task may start: not once the walk has ended, and not
    /// when the count is at its limit, in which cases nothing happens.
    pub fn spawn(&mut self) -> (may_start: bool)
        ensures
            may_start == (old(self)@.phase == Phase::Walking && old(self)@.pending < usize::MAX),
            may_start ==> final(self)@ == spawned(old(self)@),
            !may_start ==> final(self)@ == old(self)@,
    {
        proof {
            use_type_invariant(&*self);
        }
        if self.phase == Phase::Walking && self.pending < usize::MAX {
            *self = Walk {
                phase: self.phase,
                pending: self.pending + 1,
                checksum: self.checksum,
                digests: self.digests,
            };
            true
        } else {
            false
        }
    }

    /// Combines the digest of what `rhs` was fed into the checksum of the
    /// walk.
    pub fn put(&mut self, rhs: sha1::Sha1)
        requires
            hashable(absorbed(rhs).len()),
        ensures
            final(self)@ == combined(old(self)@, sha1_digest(absorbed(rhs))),
    {
        proof {
            use_type_invariant(&*self);
        }
        if self.phase == Phase::Walking {
            let mut checksum = self.checksum;
            checksum.put(rhs);
            proof {
                lemma_xor_all_push(self.digests@, sha1_digest(absorbed(rhs)));
            }
            *self = Walk {
                phase: self.phase,
                pending: self.pending,
                checksum,
                digests: Ghost(self.digests@.push(sha1_digest(absorbed(rhs)))),
            };
        }
    }

    /// Counts one task as back. With the last one the walk is complete.
    pub fn complete(&mut self)
        ensures
            final(self)@ == finished(old(self)@),
    {
        proof {
            use_type_invariant(&*self);
        }
        if self.phase == Phase::Walking {
            let left: usize = self.pending - 1;
            *self = Walk {
                phase: if left == 0 {
                    Phase::Completed
                } else {
                    Phase::Walking
                },
                pending: left,
                checksum: self.checksum,
                digests: self.digests,
            };
        }
    }

    /// Ends the walk for a task that failed. The tasks that are still out
    /// are given up.
    pub fn abort(&mut self)
        ensures
            final(self)@ == aborted(old(self)@),
    {
        proof {
            use_type_invariant(&*self);
        }
        match self.phase {
            Phase::Idle | Phase::Walking => {
                *self = Walk {
                    phase: Phase::Aborted,
                    pending: 0,
                    checksum: self.checksum,
                    digests: self.digests,
                };
            },
            _ => {},
        }
    }

    /// The checksum of the tree: the XOR of all digests that were
    /// combined. There is one only when the walk is complete.
    pub fn checksum(&self) -> (checksum: Option<Checksum>)
        ensures
            self@.phase == Phase::Completed ==> (checksum matches Some(sum) && sum@ == xor_all(
                self@.digests,
            )),
            self@.phase != Phase::Completed ==> checksum is None,
    {
        proof {
            use_type_invariant(self);
        }
        match self.phase {
            Phase::Completed => Some(self.checksum),
            _ => None,
        }
    }
}

} // verus!
