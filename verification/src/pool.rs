//! Bookkeeping of the persistent worker pool.
//!
//! The pool owns one slot per worker.  The caller dispatches a job to the
//! first free worker, by lowest identifier, and defers the job when none
//! is free.  Shutdown is pool-wide: it is requested of every worker, and
//! the join is complete only once every worker has recorded that its loop
//! exited.  The execution units themselves, and the two channels each one
//! is driven by, live with the caller; this module decides.

use crate::reconcile::SyncJob;
use vstd::prelude::*;

verus! {

/// A message from a worker to the caller: idle and awaiting work, progress
/// text for the running job, or how the job ended.
pub enum StatusMessage {
    Free,
    Progress(String),
    Done,
    Failed(String),
}

/// A command from the caller to a worker.
pub enum WorkerCommand {
    Sync(SyncJob),
    Shutdown,
}

/// What a worker is doing.
#[derive(Clone, Copy, PartialEq, Eq, Structural, Debug)]
pub enum WorkerStatus {
    Free,
    Busy,
}

/// One persistent worker's slot: its identifier, whether it may take a
/// job, and where it stands in the pool's shutdown.
#[derive(Clone, Copy, PartialEq, Eq, Structural, Debug)]
pub struct WorkerSlot {
    pub id: usize,
    pub status: WorkerStatus,
    pub shutdown_requested: bool,
    pub exited: bool,
}

/// The pool's view of its workers.
pub struct Pool {
    pub workers: Vec<WorkerSlot>,
}

impl Pool {
    /// Every slot carries its own index, and a worker has exited only
    /// after shutdown was requested of it.
    pub open spec fn wf(self) -> bool {
        &&& forall|i: int|
            0 <= i < self.workers@.len() ==> (#[trigger] self.workers@[i]).id == i
        &&& forall|i: int|
            0 <= i < self.workers@.len() ==> ((#[trigger] self.workers@[i]).exited
                ==> self.workers@[i].shutdown_requested)
    }

    /// A slot that may take a job now.
    pub open spec fn dispatchable(self, i: int) -> bool {
        &&& 0 <= i < self.workers@.len()
        &&& self.workers@[i].status is Free
        &&& !self.workers@[i].shutdown_requested
    }

    /// A pool of `n` workers, clamped to at least one, all free.
    pub fn new(n: usize) -> (p: Pool)
        ensures
            p.wf(),
            p.workers@.len() == if n == 0 {
                1int
            } else {
                n as int
            },
            forall|i: int|
                0 <= i < p.workers@.len() ==> (#[trigger] p.workers@[i]) == (WorkerSlot {
                    id: i as usize,
                    status: WorkerStatus::Free,
                    shutdown_requested: false,
                    exited: false,
                }),
    {
        let count = if n == 0 {
            1
        } else {
            n
        };
        let mut workers: Vec<WorkerSlot> = Vec::new();
        let mut i: usize = 0;
        while i < count
            invariant
                i <= count,
                workers@.len() == i,
                forall|j: int|
                    0 <= j < i ==> (#[trigger] workers@[j]) == (WorkerSlot {
                        id: j as usize,
                        status: WorkerStatus::Free,
                        shutdown_requested: false,
                        exited: false,
                    }),
            decreases count - i,
        {
            workers.push(
                WorkerSlot {
                    id: i,
                    status: WorkerStatus::Free,
                    shutdown_requested: false,
                    exited: false,
                },
            );
            i = i + 1;
        }
        Pool { workers }
    }

    /// Picks the worker for the next job: the free worker with the lowest
    /// identifier, marked busy; `None`, deferring the job to a later pass,
    /// when no worker is free.  After shutdown has been requested of every
    /// worker, nothing is dispatched any more.
    pub fn submit(&mut self) -> (r: Option<usize>)
        requires
            old(self).wf(),
        ensures
            final(self).wf(),
            final(self).workers@.len() == old(self).workers@.len(),
            r matches Some(i) ==> {
                &&& old(self).dispatchable(i as int)
                &&& forall|j: int| 0 <= j < i ==> !old(self).dispatchable(j)
                &&& final(self).workers@[i as int].status is Busy
                &&& final(self).workers@[i as int].id == old(self).workers@[i as int].id
                &&& final(self).workers@[i as int].shutdown_requested == old(
                    self,
                ).workers@[i as int].shutdown_requested
                &&& final(self).workers@[i as int].exited == old(self).workers@[i as int].exited
                &&& forall|j: int|
                    0 <= j < old(self).workers@.len() && j != i ==> final(self).workers@[j] == old(
                        self,
                    ).workers@[j]
            },
            r is None ==> (final(self).workers@ == old(self).workers@ && forall|j: int|
                !old(self).dispatchable(j)),
    {
        let mut i: usize = 0;
        while i < self.workers.len()
            invariant
                self.wf(),
                self.workers@ == old(self).workers@,
                i <= self.workers@.len(),
                forall|j: int| 0 <= j < i ==> !old(self).dispatchable(j),
            decreases self.workers@.len() - i,
        {
            let slot = self.workers[i];
            if slot.status == WorkerStatus::Free && !slot.shutdown_requested {
                let taken = WorkerSlot {
                    id: slot.id,
                    status: WorkerStatus::Busy,
                    shutdown_requested: slot.shutdown_requested,
                    exited: slot.exited,
                };
                self.workers.set(i, taken);
                return Some(i);
            }
            i = i + 1;
        }
        None
    }

    /// Marks a worker free again, after it reported that its job ended.
    pub fn mark_free(&mut self, id: usize)
        requires
            old(self).wf(),
            id < old(self).workers@.len(),
        ensures
            final(self).wf(),
            final(self).workers@.len() == old(self).workers@.len(),
            final(self).workers@[id as int].status is Free,
            final(self).workers@[id as int].id == old(self).workers@[id as int].id,
            final(self).workers@[id as int].shutdown_requested == old(
                self,
            ).workers@[id as int].shutdown_requested,
            final(self).workers@[id as int].exited == old(self).workers@[id as int].exited,
            forall|j: int|
                0 <= j < old(self).workers@.len() && j != id ==> final(self).workers@[j] == old(
                    self,
                ).workers@[j],
    {
        let slot = self.workers[id];
        let freed = WorkerSlot {
            id: slot.id,
            status: WorkerStatus::Free,
            shutdown_requested: slot.shutdown_requested,
            exited: slot.exited,
        };
        self.workers.set(id, freed);
    }

    /// Requests shutdown of every worker.
    pub fn request_shutdown(&mut self)
        requires
            old(self).wf(),
        ensures
            final(self).wf(),
            final(self).workers@.len() == old(self).workers@.len(),
            forall|i: int|
                0 <= i < old(self).workers@.len() ==> (#[trigger] final(self).workers@[i])
                    == (WorkerSlot { shutdown_requested: true, ..old(self).workers@[i] }),
    {
        let mut i: usize = 0;
        while i < self.workers.len()
            invariant
                self.wf(),
                i <= self.workers@.len(),
                self.workers@.len() == old(self).workers@.len(),
                forall|j: int|
                    i <= j < self.workers@.len() ==> #[trigger] self.workers@[j] == old(
                        self,
                    ).workers@[j],
                forall|j: int|
                    0 <= j < i ==> (#[trigger] self.workers@[j]) == (WorkerSlot {
                        shutdown_requested: true,
                        ..old(self).workers@[j]
                    }),
            decreases self.workers@.len() - i,
        {
            let slot = self.workers[i];
            let asked = WorkerSlot {
                id: slot.id,
                status: slot.status,
                shutdown_requested: true,
                exited: slot.exited,
            };
            self.workers.set(i, asked);
            i = i + 1;
        }
    }

    /// Records that a worker's loop exited.  A worker exits only on the
    /// shutdown command, so shutdown must have been requested of it.
    pub fn note_exited(&mut self, id: usize)
        requires
            old(self).wf(),
            id < old(self).workers@.len(),
            old(self).workers@[id as int].shutdown_requested,
        ensures
            final(self).wf(),
            final(self).workers@.len() == old(self).workers@.len(),
            final(self).workers@[id as int] == (WorkerSlot {
                exited: true,
                ..old(self).workers@[id as int]
            }),
            forall|j: int|
                0 <= j < old(self).workers@.len() && j != id ==> final(self).workers@[j] == old(
                    self,
                ).workers@[j],
    {
        let slot = self.workers[id];
        let gone = WorkerSlot {
            id: slot.id,
            status: slot.status,
            shutdown_requested: slot.shutdown_requested,
            exited: true,
        };
        self.workers.set(id, gone);
    }

    /// Whether the pool-wide join may complete: every worker has exited.
    pub fn join_complete(&self) -> (r: bool)
        ensures
            r == (forall|i: int|
                0 <= i < self.workers@.len() ==> (#[trigger] self.workers@[i]).exited),
    {
        let mut i: usize = 0;
        while i < self.workers.len()
            invariant
                i <= self.workers@.len(),
                forall|j: int| 0 <= j < i ==> (#[trigger] self.workers@[j]).exited,
            decreases self.workers@.len() - i,
        {
            if !self.workers[i].exited {
                return false;
            }
            i = i + 1;
        }
        true
    }
}

/// Law: when the pool's join completes, every worker had shutdown
/// requested of it and exited its loop; none is skipped.
pub proof fn lemma_join_after_shutdown(p: Pool)
    requires
        p.wf(),
        forall|i: int| 0 <= i < p.workers@.len() ==> (#[trigger] p.workers@[i]).exited,
    ensures
        forall|i: int|
            0 <= i < p.workers@.len() ==> (#[trigger] p.workers@[i]).shutdown_requested
                && p.workers@[i].exited,
{
}

} // verus!
