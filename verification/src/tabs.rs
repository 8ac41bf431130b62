//! What belongs to one task: its tabs and its share in the browser.

use vstd::prelude::*;

verus! {

/// The tabs that were opened through one task. Only those are closed when the task ends.
pub struct TaskOwnedTabs<T> {
    tabs: Vec<T>,
}

impl<T> View for TaskOwnedTabs<T> {
    type V = Seq<T>;

    closed spec fn view(&self) -> Seq<T> {
        self.tabs@
    }
}

impl<T> Default for TaskOwnedTabs<T> {
    fn default() -> (owned: Self)
        ensures
            owned@ == Seq::<T>::empty(),
    {
        TaskOwnedTabs { tabs: Vec::new() }
    }
}

impl<T> TaskOwnedTabs<T> {
    /// Adds a tab to the task's own.
    pub fn register(&mut self, tab: T)
        ensures
            final(self)@ == old(self)@.push(tab),
    {
        self.tabs.push(tab);
    }

    /// Hands the task's tabs out, in the order in which they were registered, and keeps none.
    pub fn drain(&mut self) -> (tabs: Vec<T>)
        ensures
            tabs@ == old(self)@,
            final(self)@ == Seq::<T>::empty(),
    {
        let mut tabs: Vec<T> = Vec::new();
        core::mem::swap(&mut self.tabs, &mut tabs);
        tabs
    }

    /// How many tabs the task owns.
    pub fn len(&self) -> (count: usize)
        ensures
            count == self@.len(),
    {
        self.tabs.len()
    }
}

/// The first failure among `outcomes`: an earlier one counts before a later one.
pub open spec fn first_failure<E>(outcomes: Seq<Result<(), E>>) -> Option<E>
    decreases outcomes.len(),
{
    if outcomes.len() == 0 {
        None
    } else if first_failure(outcomes.drop_last()) is Some {
        first_failure(outcomes.drop_last())
    } else {
        match outcomes.last() {
            Err(error) => Some(error),
            Ok(_) => None,
        }
    }
}

/// Closing an item was tried, with whatever outcome.
pub open spec fn was_closed<T, E, F: FnMut(T) -> Result<(), E>>(close: F, item: T) -> bool {
    exists|outcome: Result<(), E>| call_ensures(close, (item,), outcome)
}

/// Closes every item in the order of the list, even where closing one fails: an item's turn comes
/// once closing all earlier ones was tried. Reports the first failure.
pub fn close_owned_items<T, E, F>(items: Vec<T>, close: F) -> (closed: Result<(), E>) where
    F: FnMut(T) -> Result<(), E>,

    requires
        forall|i: int|
            0 <= i < items@.len() && (forall|j: int|
                0 <= j < i ==> was_closed(close, #[trigger] items@[j])) ==> #[trigger] call_requires(
                close,
                (items@[i],),
            ),
    ensures
        exists|outcomes: Seq<Result<(), E>>|
            {
                &&& outcomes.len() == items@.len()
                &&& forall|i: int|
                    0 <= i < items@.len() ==> call_ensures(
                        close,
                        (items@[i],),
                        #[trigger] outcomes[i],
                    )
                &&& #[trigger] first_failure(outcomes) == match closed {
                    Err(error) => Some(error),
                    Ok(_) => None,
                }
            },
{
    let mut close_one = close;
    let ghost mut outcomes: Seq<Result<(), E>> = seq![];
    let mut first_error: Option<E> = None;
    for item in it: items
        invariant
            it.seq() == items@,
            close_one == close,
            outcomes.len() == it.index(),
            first_failure(outcomes) == first_error,
            forall|i: int|
                0 <= i < items@.len() && (forall|j: int|
                    0 <= j < i ==> was_closed(close, #[trigger] items@[j]))
                    ==> #[trigger] call_requires(close, (items@[i],)),
            forall|i: int|
                0 <= i < outcomes.len() ==> call_ensures(
                    close,
                    (items@[i],),
                    #[trigger] outcomes[i],
                ),
    {
        assert forall|j: int| 0 <= j < outcomes.len() implies was_closed(
            close,
            #[trigger] items@[j],
        ) by {
            assert(call_ensures(close, (items@[j],), outcomes[j]));
        }
        let outcome = close_one(item);
        proof {
            let before = outcomes;
            outcomes = outcomes.push(outcome);
            assert(outcomes.drop_last() =~= before);
        }
        if let Err(error) = outcome {
            if first_error.is_none() {
                first_error = Some(error);
            }
        }
    }
    match first_error {
        Some(error) => Err(error),
        None => Ok(()),
    }
}

/// What remains of the result of a task's work once its tab was closed: a failure of the work
/// comes before a failure to close.
pub open spec fn after_closing<T, E>(result: Result<T, E>, closed: Result<(), E>) -> Result<T, E> {
    match (result, closed) {
        (Ok(value), Ok(())) => Ok(value),
        (Err(error), _) => Err(error),
        (Ok(_), Err(error)) => Err(error),
    }
}

/// The result of work on a tab that is closed afterwards.
pub fn result_after_closing<T, E>(result: Result<T, E>, closed: Result<(), E>) -> (outcome: Result<
    T,
    E,
>)
    ensures
        outcome == after_closing(result, closed),
{
    match (result, closed) {
        (Ok(value), Ok(())) => Ok(value),
        (Err(error), _) => Err(error),
        (Ok(_), Err(error)) => Err(error),
    }
}

/// How many tasks use the browser.
#[derive(Debug, Clone, Copy, PartialEq, Eq, Structural)]
pub struct TaskLeases {
    pub active: usize,
}

/// One task's share in the browser.
#[derive(Debug, PartialEq, Eq)]
pub struct TaskLease {
    /// The task is among those that are counted.
    pub counted_active: bool,
}

/// The count after a task joined.
pub open spec fn joined(active: usize) -> usize {
    if active == usize::MAX {
        0
    } else {
        (active + 1) as usize
    }
}

/// The count after a task left.
pub open spec fn left(active: usize) -> usize {
    if active == 0 {
        usize::MAX
    } else {
        (active - 1) as usize
    }
}

impl TaskLeases {
    /// No task uses the browser.
    pub fn new() -> (leases: TaskLeases)
        ensures
            leases.active == 0,
    {
        TaskLeases { active: 0 }
    }

    /// Counts a task.
    pub fn begin(&mut self) -> (lease: TaskLease)
        ensures
            final(self).active == joined(old(self).active),
            lease.counted_active,
    {
        self.active = self.active.wrapping_add(1);
        TaskLease { counted_active: true }
    }

    /// Ends a task's share. It is counted off once, however often this is called.
    pub fn end(&mut self, lease: &mut TaskLease)
        ensures
            !final(lease).counted_active,
            final(self).active == if old(lease).counted_active {
                left(old(self).active)
            } else {
                old(self).active
            },
    {
        if lease.counted_active {
            self.active = self.active.wrapping_sub(1);
            lease.counted_active = false;
        }
    }

    /// Goes on with a task whose preparation took a step, or counts it off where the step failed.
    pub fn settle<S, E>(&mut self, lease: TaskLease, step: Result<S, E>) -> (settled: Result<
        (S, TaskLease),
        E,
    >)
        ensures
            settled == match step {
                Ok(value) => Ok::<(S, TaskLease), E>((value, lease)),
                Err(error) => Err(error),
            },
            final(self).active == if step is Err && lease.counted_active {
                left(old(self).active)
            } else {
                old(self).active
            },
    {
        match step {
            Ok(value) => Ok((value, lease)),
            Err(error) => {
                let mut ended = lease;
                self.end(&mut ended);
                Err(error)
            },
        }
    }
}

/// One change of the count: a task joins or leaves.
#[derive(Debug, Clone, Copy, PartialEq, Eq, Structural)]
pub enum LeaseChange {
    Join,
    Leave,
}

/// The count after a list of changes.
pub open spec fn count_after(active: usize, changes: Seq<LeaseChange>) -> usize
    decreases changes.len(),
{
    if changes.len() == 0 {
        active
    } else {
        match changes.last() {
            LeaseChange::Join => joined(count_after(active, changes.drop_last())),
            LeaseChange::Leave => left(count_after(active, changes.drop_last())),
        }
    }
}

/// How many tasks joined and have not left.
pub open spec fn running(changes: Seq<LeaseChange>) -> int
    decreases changes.len(),
{
    if changes.len() == 0 {
        0
    } else {
        running(changes.drop_last()) + match changes.last() {
            LeaseChange::Join => 1int,
            LeaseChange::Leave => -1int,
        }
    }
}

/// Starting from none, the count is the number of tasks that joined and have not left, as long as
/// no more leave than joined.
pub proof fn law_count_is_running_tasks(changes: Seq<LeaseChange>)
    requires
        forall|k: int|
            0 <= k <= changes.len() ==> 0 <= #[trigger] running(changes.take(k)) <= usize::MAX,
    ensures
        count_after(0, changes) == running(changes),
    decreases changes.len(),
{
    assert(changes.take(changes.len() as int) =~= changes);
    if changes.len() > 0 {
        let before = changes.drop_last();
        assert forall|k: int| 0 <= k <= before.len() implies 0 <= #[trigger] running(before.take(k))
            <= usize::MAX by {
            assert(before.take(k) =~= changes.take(k));
        }
        law_count_is_running_tasks(before);
    }
}

/// A task that joins and leaves again leaves the count as it was.
pub proof fn law_leaving_undoes_joining(active: usize)
    ensures
        left(joined(active)) == active,
{
}

/// Work that is done without failure and a tab that closes give the work's value; anything else is
/// a failure, and the work's own failure is the one that is reported.
pub proof fn law_work_failure_comes_first<T, E>(result: Result<T, E>, closed: Result<(), E>)
    ensures
        after_closing(result, closed) is Ok <==> result is Ok && closed is Ok,
        result is Err ==> after_closing(result, closed) == result,
{
}

/// Closing reports a failure exactly where closing some item failed, and then the earliest one.
pub proof fn law_first_failure_is_reported<E>(outcomes: Seq<Result<(), E>>)
    ensures
        match first_failure(outcomes) {
            Some(error) => exists|i: int|
                0 <= i < outcomes.len() && #[trigger] outcomes[i] == Err::<(), E>(error) && (
                forall|j: int| 0 <= j < i ==> #[trigger] outcomes[j] is Ok),
            None => forall|i: int| 0 <= i < outcomes.len() ==> #[trigger] outcomes[i] is Ok,
        },
    decreases outcomes.len(),
{
    if outcomes.len() > 0 {
        let before = outcomes.drop_last();
        law_first_failure_is_reported(before);
        match first_failure(before) {
            Some(error) => {
                let i = choose|i: int|
                    0 <= i < before.len() && #[trigger] before[i] == Err::<(), E>(error) && (
                    forall|j: int| 0 <= j < i ==> #[trigger] before[j] is Ok);
                assert(outcomes[i] == before[i]);
                assert forall|j: int| 0 <= j < i implies #[trigger] outcomes[j] is Ok by {
                    assert(before[j] is Ok);
                }
            },
            None => {
                assert forall|j: int| 0 <= j < before.len() implies #[trigger] outcomes[j] is Ok by {
                    assert(before[j] is Ok);
                }
                assert(outcomes[outcomes.len() - 1] == outcomes.last());
            },
        }
    }
}

/// A task that joins makes the count one larger, and one that leaves makes it one smaller.
pub proof fn law_each_task_counts_once(active: usize)
    ensures
        active < usize::MAX ==> joined(active) == active + 1,
        active > 0 ==> left(active) == active - 1,
        joined(usize::MAX) == 0,
        left(0) == usize::MAX,
{
}

} // verus!
