//! Tasks and associated objects.

use vstd::prelude::*;

use crate::time::Timestamp;

pub use self::coefficients::Coefficients;
pub use self::coefficients::Weight;
pub use crate::priority::Priority;

pub mod coefficients;

verus! {

/// Whether `id` has the version and variant bits of a random (version 4)
/// UUID.
pub open spec fn is_random_uuid(id: u128) -> bool {
    (id >> 76) & 0xf == 4 && (id >> 62) & 0x3 == 2
}

/// Draws a random UUID with `uuid::Uuid::new_v4` and hands it on as the
/// 128-bit integer that `Uuid::as_u128` gives.
///
/// Trusted: the result carries the version and variant bits that `new_v4`
/// sets. Nothing is claimed of the random bits. `new_v4` panics where the
/// operating system gives no random numbers.
#[verifier::external_body]
fn random_uuid() -> (id: u128)
    ensures
        is_random_uuid(id),
{
    uuid::Uuid::new_v4().as_u128()
}

/// A task to be completed.
#[derive(Debug, PartialEq, Eq)]
pub struct Task {
    uuid: u128,
    created: Timestamp,
    description: String,
    completed: Option<Timestamp>,
    priority: Option<Priority>,
}

/// What a [`Task`] holds, as a mathematical value.
pub struct TaskView {
    /// The identity token: a UUID as a 128-bit integer.
    pub uuid: u128,
    /// When the task was created.
    pub created: Timestamp,
    /// The description.
    pub description: Seq<char>,
    /// When the task was completed, if it is.
    pub completed: Option<Timestamp>,
    /// The priority, if one is set.
    pub priority: Option<Priority>,
}

impl TaskView {
    /// The same task with its priority replaced.
    pub open spec fn set_priority(self, priority: Option<Priority>) -> TaskView {
        TaskView { priority, ..self }
    }

    /// The same task after it was marked completed at `when`: the completion
    /// time is set unless one is there already.
    pub open spec fn mark_completed_at(self, when: Timestamp) -> TaskView {
        if self.completed is Some {
            self
        } else {
            TaskView { completed: Some(when), ..self }
        }
    }

    /// The same task with its completion time cleared.
    pub open spec fn mark_active(self) -> TaskView {
        TaskView { completed: None, ..self }
    }

    /// The urgency of the task under `coefficients`: the weight of its
    /// priority, or zero without one.
    pub open spec fn urgency(self, coefficients: Coefficients) -> Weight {
        match self.priority {
            Some(Priority::One) => coefficients.priority.p1,
            Some(Priority::Two) => coefficients.priority.p2,
            Some(Priority::Three) => coefficients.priority.p3,
            None => Weight::spec_zero(),
        }
    }
}

impl View for Task {
    type V = TaskView;

    closed spec fn view(&self) -> TaskView {
        TaskView {
            uuid: self.uuid,
            created: self.created,
            description: self.description@,
            completed: self.completed,
            priority: self.priority,
        }
    }
}

impl Clone for Task {
    fn clone(&self) -> (copy: Self)
        ensures
            copy@ == self@,
    {
        Task {
            uuid: self.uuid,
            created: self.created,
            description: self.description.clone(),
            completed: self.completed,
            priority: self.priority,
        }
    }
}

impl Task {
    /// Create a new [`Task`]: not completed, without a priority, with a
    /// fresh random identity token and the current time as its creation time.
    #[must_use]
    pub fn new(description: String) -> (task: Self)
        ensures
            task@.description == description@,
            task@.completed is None,
            task@.priority is None,
            is_random_uuid(task@.uuid),
    {
        Task::from_parts(random_uuid(), Timestamp::now(), description, None, None)
    }

    /// The [`Task`] with exactly the given parts.
    #[must_use]
    pub fn from_parts(
        uuid: u128,
        created: Timestamp,
        description: String,
        completed: Option<Timestamp>,
        priority: Option<Priority>,
    ) -> (task: Self)
        ensures
            task@ == (TaskView {
                uuid,
                created,
                description: description@,
                completed,
                priority,
            }),
    {
        Task { uuid, created, description, completed, priority }
    }

    /// The UUID of the [`Task`], as a 128-bit integer.
    #[must_use]
    pub fn uuid(&self) -> (uuid: u128)
        ensures
            uuid == self@.uuid,
    {
        self.uuid
    }

    /// The creation timestamp of the [`Task`].
    #[must_use]
    pub fn created(&self) -> (created: Timestamp)
        ensures
            created == self@.created,
    {
        self.created
    }

    /// The description of the [`Task`].
    #[must_use]
    pub fn description(&self) -> (description: &String)
        ensures
            description@ == self@.description,
    {
        &self.description
    }

    /// Set the priority of the [`Task`].
    #[must_use]
    pub fn with_priority(self, priority: Priority) -> (task: Self)
        ensures
            task@ == self@.set_priority(Some(priority)),
    {
        let mut task = self;
        task.priority = Some(priority);
        task
    }

    /// The [`Task`] priority.
    #[must_use]
    pub fn priority(&self) -> (priority: Option<Priority>)
        ensures
            priority == self@.priority,
    {
        self.priority
    }

    /// Set the priority of the task, or clear it with `None`.
    pub fn set_priority(&mut self, priority: Option<Priority>)
        ensures
            final(self)@ == old(self)@.set_priority(priority),
    {
        self.priority = priority;
    }

    /// Check if the task is completed.
    #[must_use]
    pub fn is_completed(&self) -> (done: bool)
        ensures
            done == self@.completed is Some,
    {
        self.completed.is_some()
    }

    /// Get the completion timestamp if the task is completed.
    #[must_use]
    pub fn completed(&self) -> (completed: Option<Timestamp>)
        ensures
            completed == self@.completed,
    {
        self.completed
    }

    /// Mark the task as completed now. A task that is completed already
    /// keeps its completion time.
    pub fn mark_completed(&mut self)
        ensures
            exists|when: Timestamp| final(self)@ == old(self)@.mark_completed_at(when),
    {
        if self.completed.is_none() {
            let when = Timestamp::now();
            self.mark_completed_at(when);
            assert(self@ == old(self)@.mark_completed_at(when));
        } else {
            assert(self@ == old(self)@.mark_completed_at(self@.created));
        }
    }

    /// Mark the task as completed at `when`. A task that is completed
    /// already keeps its completion time.
    pub fn mark_completed_at(&mut self, when: Timestamp)
        ensures
            final(self)@ == old(self)@.mark_completed_at(when),
    {
        if self.completed.is_none() {
            self.completed = Some(when);
        }
    }

    /// Mark the task as active (not completed).
    pub fn mark_active(&mut self)
        ensures
            final(self)@ == old(self)@.mark_active(),
    {
        self.completed = None;
    }

    /// Calculate the urgency of the task: the weight that `coefficients`
    /// gives to its priority, and zero for a task without a priority.
    #[must_use]
    pub fn urgency(&self, coefficients: &Coefficients) -> (urgency: Weight)
        ensures
            urgency == self@.urgency(*coefficients),
    {
        match self.priority {
            Some(Priority::One) => coefficients.priority.p1,
            Some(Priority::Two) => coefficients.priority.p2,
            Some(Priority::Three) => coefficients.priority.p3,
            None => Weight::zero(),
        }
    }
}

/// A task that is marked completed twice keeps the completion time of the
/// first mark.
pub proof fn lemma_mark_completed_twice(task: TaskView, first: Timestamp, second: Timestamp)
    ensures
        task.mark_completed_at(first).mark_completed_at(second) == task.mark_completed_at(first),
        task.mark_completed_at(first).completed is Some,
{
}

/// The urgency of a task without a priority is the weight zero, and the
/// urgency of a task with a priority is the weight of that priority's level.
pub proof fn lemma_urgency_is_weight_of_priority(task: TaskView, coefficients: Coefficients)
    ensures
        task.priority is None ==> task.urgency(coefficients) == Weight(0),
        task.priority == Some(Priority::One) ==> task.urgency(coefficients)
            == coefficients.priority.p1,
        task.priority == Some(Priority::Two) ==> task.urgency(coefficients)
            == coefficients.priority.p2,
        task.priority == Some(Priority::Three) ==> task.urgency(coefficients)
            == coefficients.priority.p3,
{
}

/// A task that is marked active is not completed, whatever it was before,
/// and a mark as completed after that sets the completion time anew.
pub proof fn lemma_mark_active_reopens(task: TaskView, when: Timestamp)
    ensures
        task.mark_active().completed is None,
        task.mark_active().mark_completed_at(when).completed == Some(when),
{
}

} // verus!
