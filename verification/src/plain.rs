use vstd::prelude::*;
use crate::gate::{
    admits, admits_all, gate_open, gates_open, lemma_one_more_gate, tighten, tightened,
};

verus! {

/// A body is total when it may be called on every input and order.
pub open spec fn total<F: Fn(i32, i32) -> i32>(body: F) -> bool {
    forall|inp: i32, order: i32| call_requires(body, (inp, order))
}

/// A body is a pure function of its arguments when each pair of them admits
/// at most one result.
pub open spec fn deterministic<F: Fn(i32, i32) -> i32>(body: F) -> bool {
    forall|inp: i32, order: i32, r1: i32, r2: i32|
        call_ensures(body, (inp, order), r1) && call_ensures(body, (inp, order), r2) ==> r1 == r2
}

/// What a gated call of `body` may return: a result of the body where the
/// order is admitted, the neutral result where it is not.
pub open spec fn outcome<F: Fn(i32, i32) -> i32>(
    body: F,
    threshold: Option<i32>,
    inp: i32,
    order: i32,
    r: i32,
) -> bool {
    if admits(threshold, order) {
        call_ensures(body, (inp, order), r)
    } else {
        r == 0
    }
}

/// A task that gates itself: it keeps the prerequisite beside the body and
/// tests it on every call.
pub struct TaskV1<F: Fn(i32, i32) -> i32> {
    task: F,
    prereq: Option<i32>,
}

impl<F: Fn(i32, i32) -> i32> TaskV1<F> {
    #[verifier::type_invariant]
    spec fn callable(&self) -> bool {
        total(self.task)
    }

    /// The body that the task was made with.
    pub closed spec fn body(&self) -> F {
        self.task
    }

    /// The prerequisite, if one was set.
    pub closed spec fn prerequisite(&self) -> Option<i32> {
        self.prereq
    }

    /// What `tick` may return on `inp` and `order`.
    pub open spec fn permits(&self, inp: i32, order: i32, r: i32) -> bool {
        outcome(self.body(), self.prerequisite(), inp, order, r)
    }

    /// A task without a prerequisite.
    pub fn new(task: F) -> (t: Self)
        requires
            total(task),
        ensures
            t.body() == task,
            t.prerequisite() is None,
    {
        TaskV1 { task, prereq: None }
    }

    /// The same task behind one more prerequisite. The task is consumed, and
    /// the new one is at least as strict: it runs its body at the orders at
    /// which the old one did and which have reached `prereq`.
    pub fn with_prereq(self, prereq: i32) -> (t: Self)
        ensures
            t.body() == self.body(),
            t.prerequisite() == tightened(self.prerequisite(), prereq),
            forall|order: i32| #[trigger]
                admits(t.prerequisite(), order) <==> admits(self.prerequisite(), order) && admits(
                    Some(prereq),
                    order,
                ),
    {
        proof {
            use_type_invariant(&self);
        }
        TaskV1 { task: self.task, prereq: tighten(self.prereq, prereq) }
    }

    /// Runs the body if `order` has reached the prerequisite, and returns `0`
    /// if it has not.
    pub fn tick(&self, inp: i32, order: i32) -> (r: i32)
        ensures
            self.permits(inp, order, r),
    {
        proof {
            use_type_invariant(self);
        }
        if gate_open(self.prereq, order) {
            (self.task)(inp, order)
        } else {
            0
        }
    }
}

/// A body with the gates that were wrapped round it. A call tests the order
/// against every gate before it reaches the body.
pub struct Wrapped<F: Fn(i32, i32) -> i32> {
    pub inner: F,
    pub gates: Vec<i32>,
}

impl<F: Fn(i32, i32) -> i32> Wrapped<F> {
    /// Whether a call on `inp` and `order` may return `r`: a result of the
    /// body where `order` passes every gate, and otherwise nothing but the
    /// neutral result.
    pub open spec fn permits(&self, inp: i32, order: i32, r: i32) -> bool {
        if admits_all(self.gates@, order) {
            call_ensures(self.inner, (inp, order), r)
        } else {
            r == 0
        }
    }

    /// Calls the body through its gates.
    pub fn run(&self, inp: i32, order: i32) -> (r: i32)
        requires
            total(self.inner),
        ensures
            self.permits(inp, order, r),
    {
        if gates_open(&self.gates, order) {
            (self.inner)(inp, order)
        } else {
            0
        }
    }
}

/// A task that keeps no prerequisite of its own: `with_prereq` wraps the body
/// into one that tests the order itself.
pub struct TaskV2<F: Fn(i32, i32) -> i32> {
    task: Wrapped<F>,
}

impl<F: Fn(i32, i32) -> i32> TaskV2<F> {
    #[verifier::type_invariant]
    spec fn callable(&self) -> bool {
        total(self.task.inner)
    }

    /// The body that the task holds, with its gates.
    pub closed spec fn body(&self) -> Wrapped<F> {
        self.task
    }

    /// What `tick` may return on `inp` and `order`.
    pub open spec fn permits(&self, inp: i32, order: i32, r: i32) -> bool {
        self.body().permits(inp, order, r)
    }

    /// A task without a prerequisite.
    pub fn new(task: F) -> (t: Self)
        requires
            total(task),
        ensures
            t.body().inner == task,
            t.body().gates@ == Seq::<i32>::empty(),
    {
        TaskV2 { task: Wrapped { inner: task, gates: Vec::new() } }
    }

    /// A task whose body is the old body behind one more gate, at `prereq`.
    /// The old task is consumed, and no gate is ever taken away again.
    pub fn with_prereq(self, prereq: i32) -> (t: Self)
        ensures
            t.body().inner == self.body().inner,
            t.body().gates@ == self.body().gates@.push(prereq),
            forall|order: i32| #[trigger]
                admits_all(t.body().gates@, order) <==> admits_all(self.body().gates@, order)
                    && admits(Some(prereq), order),
    {
        proof {
            use_type_invariant(&self);
            assert forall|order: i32| #[trigger]
                admits_all(self.task.gates@.push(prereq), order) <==> admits_all(
                    self.task.gates@,
                    order,
                ) && admits(Some(prereq), order) by {
                lemma_one_more_gate(self.task.gates@, prereq, order);
            }
        }
        let mut task = self.task;
        task.gates.push(prereq);
        TaskV2 { task }
    }

    /// Runs the body, which gates itself if a prerequisite was wrapped round it.
    pub fn tick(&self, inp: i32, order: i32) -> (r: i32)
        ensures
            self.permits(inp, order, r),
    {
        proof {
            use_type_invariant(self);
        }
        self.task.run(inp, order)
    }
}

/// The two designs agree: with the same body and the same prerequisite, the
/// wrapping task may return on an input and an order exactly what the
/// self-gating task may return.
pub proof fn lemma_designs_permit_the_same<F: Fn(i32, i32) -> i32>(
    gated: TaskV1<F>,
    wrapped: TaskV2<F>,
    threshold: i32,
    inp: i32,
    order: i32,
    r: i32,
)
    requires
        gated.prerequisite() == Some(threshold),
        wrapped.body().inner == gated.body(),
        wrapped.body().gates@ == seq![threshold],
    ensures
        wrapped.permits(inp, order, r) <==> gated.permits(inp, order, r),
{
    assert(wrapped.body().gates@[0] == threshold);
}

/// Without a prerequisite the two designs agree as well.
pub proof fn lemma_bare_designs_permit_the_same<F: Fn(i32, i32) -> i32>(
    gated: TaskV1<F>,
    wrapped: TaskV2<F>,
    inp: i32,
    order: i32,
    r: i32,
)
    requires
        gated.prerequisite() is None,
        wrapped.body().inner == gated.body(),
        wrapped.body().gates@ == Seq::<i32>::empty(),
    ensures
        wrapped.permits(inp, order, r) <==> gated.permits(inp, order, r),
{
}

/// The two designs stay in step: where a self-gating task and a wrapping task
/// hold the same body and are admitted at the same order, they may return the
/// same there, and setting the same prerequisite on both keeps them so.
pub proof fn lemma_designs_stay_in_step<F: Fn(i32, i32) -> i32>(
    gated: TaskV1<F>,
    wrapped: TaskV2<F>,
    prereq: i32,
    inp: i32,
    order: i32,
    r: i32,
)
    requires
        wrapped.body().inner == gated.body(),
        admits_all(wrapped.body().gates@, order) == admits(gated.prerequisite(), order),
    ensures
        wrapped.permits(inp, order, r) <==> gated.permits(inp, order, r),
        admits_all(wrapped.body().gates@.push(prereq), order) == admits(
            tightened(gated.prerequisite(), prereq),
            order,
        ),
{
    lemma_one_more_gate(wrapped.body().gates@, prereq, order);
}

/// At the order equal to its prerequisite a self-gating task returns what its
/// body returns, and at the order just below nothing but the neutral result.
pub proof fn lemma_boundary<F: Fn(i32, i32) -> i32>(
    task: TaskV1<F>,
    threshold: i32,
    inp: i32,
    r: i32,
)
    requires
        task.prerequisite() == Some(threshold),
    ensures
        task.permits(inp, threshold, r) <==> call_ensures(task.body(), (inp, threshold), r),
        threshold > i32::MIN ==> (task.permits(inp, (threshold - 1) as i32, r) <==> r == 0),
{
}

/// With a body that is a pure function of its arguments, the two designs
/// return the same result on every input and order.
pub proof fn lemma_designs_agree<F: Fn(i32, i32) -> i32>(
    gated: TaskV1<F>,
    wrapped: TaskV2<F>,
    threshold: i32,
    inp: i32,
    order: i32,
    r1: i32,
    r2: i32,
)
    requires
        deterministic(gated.body()),
        gated.prerequisite() == Some(threshold),
        wrapped.body().inner == gated.body(),
        wrapped.body().gates@ == seq![threshold],
        gated.permits(inp, order, r1),
        wrapped.permits(inp, order, r2),
    ensures
        r1 == r2,
{
    assert(wrapped.body().gates@[0] == threshold);
}

/// With a body that is a pure function of its arguments, two calls of `tick`
/// on the same input and order return the same result.
pub proof fn lemma_tick_repeatable<F: Fn(i32, i32) -> i32>(
    task: TaskV1<F>,
    inp: i32,
    order: i32,
    r1: i32,
    r2: i32,
)
    requires
        deterministic(task.body()),
        task.permits(inp, order, r1),
        task.permits(inp, order, r2),
    ensures
        r1 == r2,
{
}

} // verus!
