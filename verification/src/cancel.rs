//! Cancellation shared between a session and the threads it starts.

use std::collections::HashMap;
use std::sync::Arc;
use std::sync::atomic::{AtomicBool, Ordering};
use vstd::prelude::*;
use vstd::std_specs::hash::*;
use vstd::std_specs::iter::IteratorSpec;

verus! {

broadcast use group_hash_axioms;

/// A flag that asks a running command to stop. Clones share the flag, and each
/// remembers whether it was itself asked through.
#[derive(Debug)]
pub struct CancelHandle {
    flag: Arc<AtomicBool>,
    asked: bool,
}

impl CancelHandle {
    /// Whether the command was asked to stop through this handle, or through
    /// the one it was cloned from before that.
    pub closed spec fn was_asked(&self) -> bool {
        self.asked
    }

    /// Whether this handle and another share one flag.
    pub closed spec fn shares_flag(&self, other: &CancelHandle) -> bool {
        self.flag == other.flag
    }

    /// Whether the flag was made lowered.
    pub closed spec fn started_lowered(&self) -> bool {
        call_ensures(AtomicBool::new, (false,), *self.flag)
    }

    /// Whether the flag was raised, for all handles that share it.
    pub closed spec fn raised(&self) -> bool {
        call_ensures(AtomicBool::store, (&*self.flag, true, Ordering::SeqCst), ())
    }

    /// Whether a look at the flag can come out so.
    pub closed spec fn can_read(&self, seen: bool) -> bool {
        call_ensures(AtomicBool::load, (&*self.flag, Ordering::SeqCst), seen)
    }

    /// Whether nothing was asked yet: the flag was made lowered, and this handle
    /// was not asked through.
    pub open spec fn is_fresh(&self) -> bool {
        !self.was_asked() && self.started_lowered()
    }

    /// Whether this is what another handle is once the command was asked to
    /// stop through it: the flag of both is raised.
    pub open spec fn stops(&self, other: &CancelHandle) -> bool {
        self.was_asked() && self.shares_flag(other) && other.raised()
    }

    /// A handle that has not been cancelled: its flag is lowered.
    pub fn new() -> (r: Self)
        ensures
            r.is_fresh(),
    {
        CancelHandle { flag: Arc::new(AtomicBool::new(false)), asked: false }
    }

    /// Ask the command to stop: raise the flag that it looks at. Asking again
    /// changes nothing.
    pub fn cancel(&mut self)
        ensures
            final(self).stops(old(self)),
            old(self).raised(),
    {
        self.flag.store(true, Ordering::SeqCst);
        self.asked = true;
    }

    /// Whether the command was asked to stop through this handle.
    pub fn asked(&self) -> (r: bool)
        ensures
            r == self.was_asked(),
    {
        self.asked
    }

    /// Whether the command was asked to stop, through this handle or another
    /// one of the same flag. What was asked through this handle is never
    /// forgotten; else the flag decides, which others may raise meanwhile.
    pub fn is_cancelled(&self) -> (r: bool)
        ensures
            self.was_asked() ==> r,
            !self.was_asked() ==> self.can_read(r),
    {
        self.asked || self.flag.load(Ordering::SeqCst)
    }
}

impl Clone for CancelHandle {
    fn clone(&self) -> (r: Self)
        ensures
            r == *self,
            r.shares_flag(self),
    {
        CancelHandle { flag: self.flag.clone(), asked: self.asked }
    }
}

/// Asking through one handle raises the flag of every handle that shares it:
/// what a command was given to look at is what tells it to stop.
pub proof fn asking_reaches_every_clone(
    handle: CancelHandle,
    asked: CancelHandle,
    held: CancelHandle,
)
    requires
        asked.stops(&handle),
        held.shares_flag(&handle),
    ensures
        held.raised(),
        asked.stops(&held),
{
}

/// Whether some handles are what others are once the command of each was asked
/// to stop.
pub open spec fn all_stopped(
    before: Map<u64, CancelHandle>,
    after: Map<u64, CancelHandle>,
) -> bool {
    &&& after.dom() == before.dom()
    &&& forall|id: u64| before.dom().contains(id) ==> (#[trigger] after[id]).stops(&before[id])
}

/// Ask every command to stop, through handles of the same flags.
pub fn cancel_all(handles: &HashMap<u64, CancelHandle>) -> (r: HashMap<u64, CancelHandle>)
    ensures
        all_stopped(handles@, r@),
{
    let mut stopped: HashMap<u64, CancelHandle> = HashMap::new();
    for entry in entries: handles.iter()
        invariant
            forall|id: u64| #[trigger]
                stopped@.dom().contains(id) ==> handles@.dom().contains(id) && stopped@[id].stops(
                    &handles@[id],
                ),
            forall|i: int|
                0 <= i < entries.index() ==> stopped@.dom().contains(
                    *(#[trigger] entries.seq()[i]).0,
                ),
            entries.seq() == handles.iter().remaining(),
    {
        let (id, handle) = entry;
        assert(handles@.contains_key(*entries.seq()[entries.index() as int].0));
        let mut stopping = handle.clone();
        stopping.cancel();
        stopped.insert(*id, stopping);
    }
    proof {
        let all = handles.iter().remaining();
        assert forall|id: u64| handles@.dom().contains(id) implies stopped@.dom().contains(
            id,
        ) by {
            assert(handles@.contains_key(id));
            assert(all.contains((&id, &handles@[id])));
            let i = choose|i: int| 0 <= i < all.len() && all[i] == (&id, &handles@[id]);
            assert(stopped@.dom().contains(*all[i].0));
        }
        assert(stopped@.dom() =~= handles@.dom());
    }
    stopped
}

} // verus!
