//! The scheduler's registry of task groups.
//!
//! Groups are kept in a slab and named by their slab key, a `SchedulerId`. For
//! each group the registry holds the handle by which its owner finds the
//! group's tasks again; polling the tasks themselves is the owner's work.

use vstd::prelude::*;
use slab::Slab;

verus! {

#[verifier::external_type_specification]
#[verifier::external_body]
#[verifier::reject_recursive_types(T)]
pub struct ExSlab<T>(Slab<T>);

/// What a slab of group handles holds: the handle stored under each key.
pub uninterp spec fn slab_entries(s: Slab<u64>) -> Map<usize, u64>;

/// `Slab::default`: an empty slab.
#[verifier::external_body]
fn slab_default() -> (empty: Slab<u64>)
    ensures
        slab_entries(empty).is_empty(),
{
    Slab::default()
}

/// `Slab::insert`: stores `val` under a key that held nothing and returns the
/// key.
#[verifier::external_body]
fn slab_insert(s: &mut Slab<u64>, val: u64) -> (key: usize)
    ensures
        !slab_entries(*old(s)).contains_key(key),
        slab_entries(*final(s)) == slab_entries(*old(s)).insert(key, val),
{
    s.insert(val)
}

/// `Slab::get`: the value stored under `key`, if any.
#[verifier::external_body]
fn slab_get(s: &Slab<u64>, key: usize) -> (r: Option<u64>)
    ensures
        r == (if slab_entries(*s).contains_key(key) {
            Some(slab_entries(*s)[key])
        } else {
            None
        }),
{
    match s.get(key) {
        Some(v) => Some(*v),
        None => None,
    }
}

/// Internal ids used by the scheduler. These should never be exposed to the
/// application without first going through the runtime.
#[derive(Clone, Copy, Hash, PartialEq, Eq, Debug, Structural)]
pub struct SchedulerId(pub usize);

impl From<usize> for SchedulerId {
    fn from(value: usize) -> (r: SchedulerId) {
        SchedulerId(value)
    }
}

impl vstd::std_specs::convert::FromSpecImpl<usize> for SchedulerId {
    open spec fn obeys_from_spec() -> bool {
        true
    }

    open spec fn from_spec(value: usize) -> SchedulerId {
        SchedulerId(value)
    }
}

impl From<SchedulerId> for usize {
    fn from(value: SchedulerId) -> (r: usize) {
        value.0
    }
}

impl vstd::std_specs::convert::FromSpecImpl<SchedulerId> for usize {
    open spec fn obeys_from_spec() -> bool {
        true
    }

    open spec fn from_spec(value: SchedulerId) -> usize {
        value.0
    }
}

impl From<u64> for SchedulerId {
    fn from(value: u64) -> (r: SchedulerId) {
        SchedulerId(value as usize)
    }
}

impl vstd::std_specs::convert::FromSpecImpl<u64> for SchedulerId {
    open spec fn obeys_from_spec() -> bool {
        true
    }

    open spec fn from_spec(value: u64) -> SchedulerId {
        SchedulerId(value as usize)
    }
}

impl From<SchedulerId> for u64 {
    fn from(value: SchedulerId) -> (r: u64) {
        value.0 as u64
    }
}

impl vstd::std_specs::convert::FromSpecImpl<SchedulerId> for u64 {
    open spec fn obeys_from_spec() -> bool {
        true
    }

    open spec fn from_spec(value: SchedulerId) -> u64 {
        value.0 as u64
    }
}

/// Possible outcomes for scheduling a task: it was scheduled under an id, or it
/// completed at once and is handed back.
#[derive(Debug)]
pub enum ScheduleResult<T> {
    Scheduled(SchedulerId),
    Completed(T),
}

/// The registry of task groups.
pub struct Scheduler {
    groups: Slab<u64>,
}

impl View for Scheduler {
    type V = Map<usize, u64>;

    /// The groups: for each group id, the handle of the group.
    closed spec fn view(&self) -> Map<usize, u64> {
        slab_entries(self.groups)
    }
}

impl Scheduler {
    /// A scheduler with no group.
    pub fn new() -> (s: Scheduler)
        ensures
            s.view() == Map::<usize, u64>::empty(),
    {
        Scheduler { groups: slab_default() }
    }

    /// Registers a new group, found again by `group`, and returns its id: an
    /// id that named no group before.
    pub fn create_group(&mut self, group: u64) -> (id: SchedulerId)
        ensures
            !old(self).view().contains_key(id.0),
            final(self).view() == old(self).view().insert(id.0, group),
    {
        let key = slab_insert(&mut self.groups, group);
        SchedulerId::from(key)
    }

    /// The handle of the group with id `id`, if there is such a group.
    pub fn get_group(&self, id: SchedulerId) -> (r: Option<u64>)
        ensures
            r == (if self.view().contains_key(id.0) {
                Some(self.view()[id.0])
            } else {
                None
            }),
    {
        slab_get(&self.groups, id.into())
    }
}

impl Default for Scheduler {
    fn default() -> (s: Scheduler)
        ensures
            s.view() == Map::<usize, u64>::empty(),
    {
        Scheduler::new()
    }
}

/// Looking up a group just created gives back its handle, and the groups that
/// were there before keep theirs.
pub proof fn lemma_create_then_get(groups: Map<usize, u64>, id: usize, group: u64)
    requires
        !groups.contains_key(id),
    ensures
        groups.insert(id, group).contains_key(id),
        groups.insert(id, group)[id] == group,
        forall|k: usize| #[trigger] groups.contains_key(k) ==> groups.insert(id, group).contains_key(k)
            && groups.insert(id, group)[k] == groups[k] && k != id,
{
}

} // verus!
