use vstd::prelude::*;
use crate::body::Probe;
use crate::executor::Task4Executor;
use crate::task::{Task, TaskV1, TaskV2, TaskV3, TaskV4};

verus! {

/// The number of tasks in a standard registry.
pub const REGISTRY_SIZE: usize = 1_000_000;

/// Which tasks of a registry get a prerequisite, and which one.
#[derive(Clone, Copy, Debug, PartialEq, Eq)]
pub struct Policy {
    /// Every task whose place is a multiple of `cadence` is guarded. With a
    /// cadence of zero no task is.
    pub cadence: usize,
    /// The prerequisite of the guarded tasks.
    pub threshold: i32,
}

impl Policy {
    /// Whether the task at place `i` is guarded.
    pub open spec fn guards(&self, i: int) -> bool {
        self.cadence != 0 && i % (self.cadence as int) == 0
    }

    /// The prerequisite of the task at place `i`.
    pub open spec fn prerequisite_at(&self, i: int) -> Option<i32> {
        if self.guards(i) {
            Some(self.threshold)
        } else {
            None
        }
    }

    /// The gates wrapped round the body of the task at place `i`.
    pub open spec fn gates_at(&self, i: int) -> Seq<i32> {
        if self.guards(i) {
            seq![self.threshold]
        } else {
            Seq::empty()
        }
    }

    /// The body of the task at place `i`. A guarded task returns the byte it
    /// reads, an unguarded one twice that byte. A seeded body shifts the
    /// order by its place before it derives the index.
    pub open spec fn probe_at(&self, i: int, seeded: bool) -> Probe {
        Probe { seed: if seeded { i as i32 } else { 0 }, doubled: !self.guards(i) }
    }

    /// The standard policy: every 128th task waits for order 32.
    pub fn standard() -> (policy: Self)
        ensures
            policy.cadence == 128,
            policy.threshold == 32,
    {
        Policy { cadence: 128, threshold: 32 }
    }

    /// Decides [`Policy::guards`].
    pub fn is_guarded(&self, i: usize) -> (guarded: bool)
        ensures
            guarded == self.guards(i as int),
    {
        self.cadence != 0 && i % self.cadence == 0
    }

    /// Builds [`Policy::probe_at`].
    pub fn probe(&self, i: usize, seeded: bool) -> (body: Probe)
        requires
            i <= i32::MAX,
        ensures
            body == self.probe_at(i as int, seeded),
    {
        let seed: i32 = if seeded {
            i as i32
        } else {
            0
        };
        Probe { seed, doubled: !self.is_guarded(i) }
    }
}

/// A registry of `count` self-gating tasks with seeded bodies.
pub fn build_v1(count: usize, policy: &Policy) -> (tasks: Vec<TaskV1<Probe>>)
    requires
        count <= i32::MAX,
    ensures
        tasks.len() == count,
        forall|i: int|
            0 <= i < count ==> (#[trigger] tasks[i]).body() == policy.probe_at(i, true)
                && tasks[i].prerequisite() == policy.prerequisite_at(i),
{
    let mut tasks: Vec<TaskV1<Probe>> = Vec::new();
    let mut i: usize = 0;
    while i < count
        invariant
            i <= count <= i32::MAX,
            tasks.len() == i,
            forall|k: int|
                0 <= k < i ==> (#[trigger] tasks[k]).body() == policy.probe_at(k, true)
                    && tasks[k].prerequisite() == policy.prerequisite_at(k),
        decreases count - i,
    {
        let task = TaskV1::new(Box::new(policy.probe(i, true)));
        if policy.is_guarded(i) {
            tasks.push(task.with_prereq(policy.threshold));
        } else {
            tasks.push(task);
        }
        i += 1;
    }
    tasks
}

/// A registry of `count` wrapping tasks with seeded bodies.
pub fn build_v2(count: usize, policy: &Policy) -> (tasks: Vec<TaskV2<Probe>>)
    requires
        count <= i32::MAX,
    ensures
        tasks.len() == count,
        forall|i: int|
            0 <= i < count ==> (#[trigger] tasks[i]).body().inner == policy.probe_at(i, true)
                && tasks[i].body().gates@ == policy.gates_at(i),
{
    let mut tasks: Vec<TaskV2<Probe>> = Vec::new();
    let mut i: usize = 0;
    while i < count
        invariant
            i <= count <= i32::MAX,
            tasks.len() == i,
            forall|k: int|
                0 <= k < i ==> (#[trigger] tasks[k]).body().inner == policy.probe_at(k, true)
                    && tasks[k].body().gates@ == policy.gates_at(k),
        decreases count - i,
    {
        let task = TaskV2::new(Box::new(policy.probe(i, true)));
        if policy.is_guarded(i) {
            tasks.push(task.with_prereq(policy.threshold));
        } else {
            tasks.push(task);
        }
        i += 1;
    }
    tasks
}

/// A registry of `count` self-gating tasks with unseeded bodies held in place.
pub fn build_v3(count: usize, policy: &Policy) -> (tasks: Vec<TaskV3<Probe>>)
    requires
        count <= i32::MAX,
    ensures
        tasks.len() == count,
        forall|i: int|
            0 <= i < count ==> (#[trigger] tasks[i]).body() == policy.probe_at(i, false)
                && tasks[i].prerequisite() == policy.prerequisite_at(i),
{
    let mut tasks: Vec<TaskV3<Probe>> = Vec::new();
    let mut i: usize = 0;
    while i < count
        invariant
            i <= count <= i32::MAX,
            tasks.len() == i,
            forall|k: int|
                0 <= k < i ==> (#[trigger] tasks[k]).body() == policy.probe_at(k, false)
                    && tasks[k].prerequisite() == policy.prerequisite_at(k),
        decreases count - i,
    {
        let task = TaskV3::new(policy.probe(i, false));
        if policy.is_guarded(i) {
            tasks.push(task.with_prereq(policy.threshold));
        } else {
            tasks.push(task);
        }
        i += 1;
    }
    tasks
}

/// An executor over a registry of `count` marked tasks with unseeded bodies.
pub fn build_v4(count: usize, policy: &Policy) -> (executor: Task4Executor<Probe>)
    requires
        count <= i32::MAX,
    ensures
        executor.registry().len() == count,
        forall|i: int|
            0 <= i < count ==> (#[trigger] executor.registry()[i]).body() == policy.probe_at(
                i,
                false,
            ) && executor.registry()[i].prerequisite() == policy.prerequisite_at(i),
{
    let mut tasks: Vec<TaskV4<Probe>> = Vec::new();
    let mut i: usize = 0;
    while i < count
        invariant
            i <= count <= i32::MAX,
            tasks.len() == i,
            forall|k: int|
                0 <= k < i ==> (#[trigger] tasks[k]).body() == policy.probe_at(k, false)
                    && tasks[k].prerequisite() == policy.prerequisite_at(k),
        decreases count - i,
    {
        let task = TaskV4::new(Box::new(policy.probe(i, false)));
        if policy.is_guarded(i) {
            tasks.push(task.with_prereq(policy.threshold));
        } else {
            tasks.push(task);
        }
        i += 1;
    }
    Task4Executor::new(tasks)
}

/// The standard registry of self-gating tasks.
pub fn prepare_v1() -> (tasks: Vec<TaskV1<Probe>>)
    ensures
        tasks.len() == REGISTRY_SIZE,
        forall|i: int|
            0 <= i < REGISTRY_SIZE ==> (#[trigger] tasks[i]).body() == (Probe {
                seed: i as i32,
                doubled: i % 128 != 0,
            }) && tasks[i].prerequisite() == (if i % 128 == 0 {
                Some(32i32)
            } else {
                None
            }),
{
    build_v1(REGISTRY_SIZE, &Policy::standard())
}

/// The standard registry of tasks with wrapped gates.
pub fn prepare_v2() -> (tasks: Vec<TaskV2<Probe>>)
    ensures
        tasks.len() == REGISTRY_SIZE,
        forall|i: int|
            0 <= i < REGISTRY_SIZE ==> (#[trigger] tasks[i]).body().inner == (Probe {
                seed: i as i32,
                doubled: i % 128 != 0,
            }) && tasks[i].body().gates@ == (if i % 128 == 0 {
                seq![32i32]
            } else {
                Seq::<i32>::empty()
            }),
{
    build_v2(REGISTRY_SIZE, &Policy::standard())
}

/// The standard registry of self-gating tasks with bodies held in place.
pub fn prepare_v3() -> (tasks: Vec<TaskV3<Probe>>)
    ensures
        tasks.len() == REGISTRY_SIZE,
        forall|i: int|
            0 <= i < REGISTRY_SIZE ==> (#[trigger] tasks[i]).body() == (Probe {
                seed: 0,
                doubled: i % 128 != 0,
            }) && tasks[i].prerequisite() == (if i % 128 == 0 {
                Some(32i32)
            } else {
                None
            }),
{
    build_v3(REGISTRY_SIZE, &Policy::standard())
}

/// The standard executor over marked tasks.
pub fn prepare_v4() -> (executor: Task4Executor<Probe>)
    ensures
        executor.registry().len() == REGISTRY_SIZE,
        forall|i: int|
            0 <= i < REGISTRY_SIZE ==> (#[trigger] executor.registry()[i]).body() == (Probe {
                seed: 0,
                doubled: i % 128 != 0,
            }) && executor.registry()[i].prerequisite() == (if i % 128 == 0 {
                Some(32i32)
            } else {
                None
            }),
{
    build_v4(REGISTRY_SIZE, &Policy::standard())
}

} // verus!
