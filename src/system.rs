use crate::component::{Component, ComponentRuntime};
use crate::executor::{
    accepts, next_view, post_view, synced, ComponentExecutor, Envelope, ExecutorView,
};
use vstd::prelude::*;

verus! {

/// What the registry knows of one started component.
#[derive(Clone, Copy, Debug, PartialEq, Eq, Structural)]
pub struct Entry {
    /// Cancellation was triggered for it.
    pub cancelled: bool,
    /// Its executor loop has exited.
    pub finished: bool,
}

/// The supervision ledger of every started component.
pub struct Scheduler {
    entries: Vec<Entry>,
}

/// Every entry after a bulk stop: all cancelled, none finished by it.
pub open spec fn stopped_entries(e: Seq<Entry>) -> Seq<Entry> {
    Seq::new(e.len(), |i: int| Entry { cancelled: true, finished: e[i].finished })
}

/// The entries after the loop of component `id` is marked finished, when `done`.
pub open spec fn finish_if(e: Seq<Entry>, id: int, done: bool) -> Seq<Entry> {
    if done {
        e.update(id, Entry { cancelled: e[id].cancelled, finished: true })
    } else {
        e
    }
}

/// Whether every registered component has exited.
pub open spec fn all_finished(e: Seq<Entry>) -> bool {
    forall|i: int| 0 <= i < e.len() ==> #[trigger] e[i].finished
}

impl Scheduler {
    pub closed spec fn entries(&self) -> Seq<Entry> {
        self.entries@
    }

    pub fn new() -> (r: Self)
        ensures
            r.entries() == Seq::<Entry>::empty(),
    {
        Scheduler { entries: Vec::new() }
    }

    pub fn len(&self) -> (r: usize)
        ensures
            r == self.entries().len(),
    {
        self.entries.len()
    }

    /// Adds a running component and returns its identifier.
    pub fn register(&mut self) -> (r: usize)
        requires
            old(self).entries().len() < usize::MAX,
        ensures
            r == old(self).entries().len(),
            final(self).entries() == old(self).entries().push(
                Entry { cancelled: false, finished: false },
            ),
    {
        let id = self.entries.len();
        self.entries.push(Entry { cancelled: false, finished: false });
        id
    }

    /// Triggers cancellation of every registered component.
    pub fn stop(&mut self)
        ensures
            final(self).entries() == stopped_entries(old(self).entries()),
    {
        let n = self.entries.len();
        let mut i: usize = 0;
        while i < n
            invariant
                n == self.entries@.len(),
                n == old(self).entries@.len(),
                i <= n,
                forall|j: int|
                    0 <= j < i ==> #[trigger] self.entries@[j] == (Entry {
                        cancelled: true,
                        finished: old(self).entries@[j].finished,
                    }),
                forall|j: int| i <= j < n ==> #[trigger] self.entries@[j] == old(self).entries@[j],
            decreases n - i,
        {
            let finished = self.entries[i].finished;
            self.entries.set(i, Entry { cancelled: true, finished });
            i = i + 1;
        }
        assert(self.entries@ =~= stopped_entries(old(self).entries@));
    }

    /// Whether cancellation was triggered for component `id`.
    pub fn is_cancelled(&self, id: usize) -> (r: bool)
        requires
            id < self.entries().len(),
        ensures
            r == self.entries()[id as int].cancelled,
    {
        self.entries[id].cancelled
    }

    /// Records that the loop of component `id` has exited.
    pub fn mark_finished(&mut self, id: usize)
        requires
            id < old(self).entries().len(),
        ensures
            final(self).entries() == old(self).entries().update(
                id as int,
                Entry { cancelled: old(self).entries()[id as int].cancelled, finished: true },
            ),
    {
        let cancelled = self.entries[id].cancelled;
        self.entries.set(id, Entry { cancelled, finished: true });
    }

    /// Whether a join would return now: every registered component has exited.
    pub fn join(&self) -> (r: bool)
        ensures
            r == all_finished(self.entries()),
    {
        let mut i: usize = 0;
        while i < self.entries.len()
            invariant
                i <= self.entries@.len(),
                forall|j: int| 0 <= j < i ==> #[trigger] self.entries@[j].finished,
            decreases self.entries@.len() - i,
        {
            if !self.entries[i].finished {
                return false;
            }
            i = i + 1;
        }
        true
    }
}

/// Stopping twice is stopping once; once every component has exited, a join
/// returns at once, and stopping does not change that.
pub proof fn lemma_system_stop_idempotent(e: Seq<Entry>)
    ensures
        stopped_entries(stopped_entries(e)) == stopped_entries(e),
        all_finished(e) ==> all_finished(stopped_entries(e)),
{
    assert(stopped_entries(stopped_entries(e)) =~= stopped_entries(e));
}

/// After a bulk stop, every registered component refuses every post, its next
/// turn stops its loop for good and marks its entry finished.
pub proof fn lemma_system_stop_reaches_components<M>(
    e: Seq<Entry>,
    id: int,
    v: ExecutorView<M>,
    env: Envelope<M>,
)
    requires
        0 <= id < e.len(),
    ensures
        ({
            let w = synced(v, stopped_entries(e)[id].cancelled);
            &&& !accepts(w)
            &&& post_view(w, env) == w
            &&& next_view(w).stopped
            &&& !accepts(next_view(w))
            &&& next_view(next_view(w)) == next_view(w)
            &&& finish_if(stopped_entries(e), id, next_view(w).stopped)[id] == (Entry {
                cancelled: true,
                finished: true,
            })
        }),
{
}

/// A component that was started: its registry identifier, its placement and
/// its executor.
pub struct Started<C, M> {
    pub id: usize,
    pub runtime: ComponentRuntime,
    pub executor: ComponentExecutor<C, M>,
}

/// Why a component was not started.
#[derive(Clone, Copy, Debug, PartialEq, Eq, Structural)]
pub enum StartError {
    /// The component asked for a mailbox of capacity zero.
    ZeroQueueSize,
    /// The registry cannot hold another component.
    RegistryFull,
}

/// The runtime: a registry of started components with bulk stop and join.
pub struct System {
    scheduler: Scheduler,
}

impl Default for System {
    fn default() -> (r: System)
        ensures
            r.entries() == Seq::<Entry>::empty(),
    {
        System::new()
    }
}

impl System {
    pub closed spec fn entries(&self) -> Seq<Entry> {
        self.scheduler.entries()
    }

    pub fn new() -> (r: System)
        ensures
            r.entries() == Seq::<Entry>::empty(),
    {
        System { scheduler: Scheduler::new() }
    }

    /// Starts `component` with a mailbox of `capacity`, registering it.
    pub fn start_with_capacity<C, M>(
        &mut self,
        component: C,
        runtime: ComponentRuntime,
        capacity: usize,
    ) -> (r: Result<Started<C, M>, StartError>)
        ensures
            capacity == 0 ==> r == Err::<Started<C, M>, StartError>(StartError::ZeroQueueSize),
            capacity > 0 && old(self).entries().len() >= usize::MAX ==> r == Err::<
                Started<C, M>,
                StartError,
            >(StartError::RegistryFull),
            capacity > 0 && old(self).entries().len() < usize::MAX ==> r is Ok,
            r is Err ==> final(self).entries() == old(self).entries(),
            r matches Ok(s) ==> {
                &&& s.id == old(self).entries().len()
                &&& s.runtime == runtime
                &&& s.executor.wf()
                &&& s.executor.registry_id() == s.id
                &&& s.executor.view() == (ExecutorView::<M> {
                    queued: Seq::empty(),
                    capacity: capacity as nat,
                    cancelled: false,
                    senders_gone: false,
                    stopped: false,
                })
                &&& final(self).entries() == old(self).entries().push(
                    Entry { cancelled: false, finished: false },
                )
            },
    {
        if capacity == 0 {
            return Err(StartError::ZeroQueueSize);
        }
        if self.scheduler.len() == usize::MAX {
            return Err(StartError::RegistryFull);
        }
        let id = self.scheduler.register();
        let executor = ComponentExecutor::new(component, capacity, id);
        Ok(Started { id, runtime, executor })
    }

    /// Starts `component` with the capacity and placement it declares.
    pub fn start_component<C: Component, M>(&mut self, component: C) -> (r: Result<Started<C, M>, StartError>)
        ensures
            r is Err ==> final(self).entries() == old(self).entries(),
            r is Err ==> r == Err::<Started<C, M>, StartError>(StartError::ZeroQueueSize) || (r
                == Err::<Started<C, M>, StartError>(StartError::RegistryFull) && old(
                self,
            ).entries().len() >= usize::MAX),
            r matches Ok(s) ==> {
                &&& s.id == old(self).entries().len()
                &&& s.executor.wf()
                &&& s.executor.registry_id() == s.id
                &&& s.executor.view().queued.len() == 0
                &&& !s.executor.view().cancelled
                &&& !s.executor.view().stopped
                &&& s.executor.view().capacity > 0
                &&& final(self).entries() == old(self).entries().push(
                    Entry { cancelled: false, finished: false },
                )
            },
    {
        let capacity = component.queue_size();
        let runtime = component.runtime();
        self.start_with_capacity(component, runtime, capacity)
    }

    /// Triggers cancellation of every registered component; does not wait.
    pub fn stop(&mut self)
        ensures
            final(self).entries() == stopped_entries(old(self).entries()),
    {
        self.scheduler.stop();
    }

    /// Whether every registered component has exited.
    pub fn join(&self) -> (r: bool)
        ensures
            r == all_finished(self.entries()),
    {
        self.scheduler.join()
    }

    /// Whether cancellation was triggered for component `id`.
    pub fn is_cancelled(&self, id: usize) -> (r: bool)
        requires
            id < self.entries().len(),
        ensures
            r == self.entries()[id as int].cancelled,
    {
        self.scheduler.is_cancelled(id)
    }

    /// Records that the loop of component `id` has exited.
    pub fn mark_finished(&mut self, id: usize)
        requires
            id < old(self).entries().len(),
        ensures
            final(self).entries() == old(self).entries().update(
                id as int,
                Entry { cancelled: old(self).entries()[id as int].cancelled, finished: true },
            ),
    {
        self.scheduler.mark_finished(id);
    }
}

} // verus!
