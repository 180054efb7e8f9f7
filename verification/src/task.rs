use vstd::prelude::*;
use crate::body::{Guarded, TaskCallable};
use crate::gate::{admits, admits_all, gate_open, lemma_one_more_gate, tighten, tightened};
use crate::scratch::Auxiliary;

verus! {

/// The common interface of the task designs. A design says what its body
/// does, at which orders its prerequisites are met, and whether `tick` asks
/// them; what `tick` returns follows from these.
pub trait Task: Sized {
    /// Whether every prerequisite set on the task admits `order`.
    spec fn admitted(&self, order: i32) -> bool;

    /// Whether `tick` asks the prerequisites. Where it does not, they are a
    /// mark for whoever drives the task.
    spec fn enforces(&self) -> bool;

    /// The result of the body, without any gate, on a buffer that holds `aux`.
    spec fn body_result(&self, aux: Seq<u8>, order: i32) -> i32;

    /// What the body, without any gate, leaves in a buffer that held `aux`.
    spec fn body_effect(&self, aux: Seq<u8>, order: i32) -> Seq<u8>;

    /// The task with one more prerequisite. The task is consumed, and no
    /// prerequisite is ever loosened or taken away again: the new task's
    /// prerequisites admit an order exactly if the old ones do and the order
    /// has reached `prereq`.
    fn with_prereq(self, prereq: i32) -> (t: Self)
        ensures
            t.enforces() == self.enforces(),
            forall|order: i32| #[trigger]
                t.admitted(order) <==> self.admitted(order) && admits(Some(prereq), order),
            forall|aux: Seq<u8>, order: i32| #[trigger]
                t.body_result(aux, order) == self.body_result(aux, order),
            forall|aux: Seq<u8>, order: i32| #[trigger]
                t.body_effect(aux, order) == self.body_effect(aux, order),
    ;

    /// One call of the task on the shared buffer. Where the task asks its
    /// prerequisites and they do not admit `order`, the body does not run: the
    /// result is neutral and the buffer is left as it was.
    fn tick(&self, inp: &mut Auxiliary, order: i32) -> (r: i32)
        ensures
            r == (if !self.enforces() || self.admitted(order) {
                self.body_result(old(inp)@, order)
            } else {
                0
            }),
            final(inp)@ == (if !self.enforces() || self.admitted(order) {
                self.body_effect(old(inp)@, order)
            } else {
                old(inp)@
            }),
    ;
}

/// Whether `tick` runs the body at `order`.
pub open spec fn executes<T: Task>(task: T, order: i32) -> bool {
    !task.enforces() || task.admitted(order)
}

/// The result of `tick` on a buffer that holds `aux`: the body's result where
/// the body runs, the neutral result where it does not.
pub open spec fn tick_result<T: Task>(task: T, aux: Seq<u8>, order: i32) -> i32 {
    if executes(task, order) {
        task.body_result(aux, order)
    } else {
        0
    }
}

/// What the buffer holds after `tick` on a buffer that held `aux`: what the
/// body leaves where it runs, and `aux` where it does not.
pub open spec fn tick_effect<T: Task>(task: T, aux: Seq<u8>, order: i32) -> Seq<u8> {
    if executes(task, order) {
        task.body_effect(aux, order)
    } else {
        aux
    }
}

/// What `with_prereq` gives: `after` is `before` with one more prerequisite.
pub open spec fn gains_prerequisite<T: Task>(before: T, after: T, prereq: i32) -> bool {
    &&& after.enforces() == before.enforces()
    &&& forall|order: i32| #[trigger]
        after.admitted(order) <==> before.admitted(order) && admits(Some(prereq), order)
    &&& forall|aux: Seq<u8>, order: i32| #[trigger]
        after.body_result(aux, order) == before.body_result(aux, order)
    &&& forall|aux: Seq<u8>, order: i32| #[trigger]
        after.body_effect(aux, order) == before.body_effect(aux, order)
}

/// A task that gates itself: it holds a boxed body and the prerequisite
/// beside it, and tests the prerequisite on every call.
pub struct TaskV1<B: TaskCallable> {
    task: Box<B>,
    prereq: Option<i32>,
}

impl<B: TaskCallable> TaskV1<B> {
    /// The body that the task was made with.
    pub closed spec fn body(&self) -> B {
        *self.task
    }

    /// The prerequisite, if one was set.
    pub closed spec fn prerequisite(&self) -> Option<i32> {
        self.prereq
    }

    /// A task without a prerequisite.
    pub fn new(task: Box<B>) -> (t: Self)
        ensures
            t.body() == *task,
            t.prerequisite() is None,
    {
        TaskV1 { task, prereq: None }
    }
}

impl<B: TaskCallable> Task for TaskV1<B> {
    open spec fn admitted(&self, order: i32) -> bool {
        admits(self.prerequisite(), order)
    }

    open spec fn enforces(&self) -> bool {
        true
    }

    open spec fn body_result(&self, aux: Seq<u8>, order: i32) -> i32 {
        self.body().result(aux, order)
    }

    open spec fn body_effect(&self, aux: Seq<u8>, order: i32) -> Seq<u8> {
        self.body().effect(aux, order)
    }

    fn with_prereq(self, prereq: i32) -> (t: TaskV1<B>)
        ensures
            t.body() == self.body(),
            t.prerequisite() == tightened(self.prerequisite(), prereq),
            forall|order: i32| #[trigger]
                admits(t.prerequisite(), order) <==> admits(self.prerequisite(), order) && admits(
                    Some(prereq),
                    order,
                ),
    {
        TaskV1 { task: self.task, prereq: tighten(self.prereq, prereq) }
    }

    fn tick(&self, inp: &mut Auxiliary, order: i32) -> (r: i32) {
        if gate_open(self.prereq, order) {
            self.task.call(inp, order)
        } else {
            0
        }
    }
}

/// A task that keeps no prerequisite of its own: `with_prereq` wraps one
/// more gate round the body, and the body tests the order itself.
pub struct TaskV2<B: TaskCallable> {
    task: Box<Guarded<B>>,
}

impl<B: TaskCallable> TaskV2<B> {
    /// The body that the task holds, with its gates.
    pub closed spec fn body(&self) -> Guarded<B> {
        *self.task
    }

    /// A task without a prerequisite.
    pub fn new(task: Box<B>) -> (t: Self)
        ensures
            t.body().inner == *task,
            t.body().gates@ == Seq::<i32>::empty(),
    {
        TaskV2 { task: Box::new(Guarded { inner: *task, gates: Vec::new() }) }
    }
}

impl<B: TaskCallable> Task for TaskV2<B> {
    open spec fn admitted(&self, order: i32) -> bool {
        admits_all(self.body().gates@, order)
    }

    open spec fn enforces(&self) -> bool {
        true
    }

    open spec fn body_result(&self, aux: Seq<u8>, order: i32) -> i32 {
        self.body().inner.result(aux, order)
    }

    open spec fn body_effect(&self, aux: Seq<u8>, order: i32) -> Seq<u8> {
        self.body().inner.effect(aux, order)
    }

    fn with_prereq(self, prereq: i32) -> (t: TaskV2<B>)
        ensures
            t.body().inner == self.body().inner,
            t.body().gates@ == self.body().gates@.push(prereq),
            forall|order: i32| #[trigger]
                admits_all(t.body().gates@, order) <==> admits_all(self.body().gates@, order)
                    && admits(Some(prereq), order),
    {
        proof {
            assert forall|order: i32| #[trigger]
                admits_all(self.task.gates@.push(prereq), order) <==> admits_all(
                    self.task.gates@,
                    order,
                ) && admits(Some(prereq), order) by {
                lemma_one_more_gate(self.task.gates@, prereq, order);
            }
        }
        let mut body = *self.task;
        body.gates.push(prereq);
        TaskV2 { task: Box::new(body) }
    }

    fn tick(&self, inp: &mut Auxiliary, order: i32) -> (r: i32) {
        self.task.call(inp, order)
    }
}

/// A self-gating task whose body is held in place, without a box. It suits
/// bodies that are plain values.
pub struct TaskV3<B: TaskCallable> {
    task: B,
    prereq: Option<i32>,
}

impl<B: TaskCallable> TaskV3<B> {
    /// The body that the task was made with.
    pub closed spec fn body(&self) -> B {
        self.task
    }

    /// The prerequisite, if one was set.
    pub closed spec fn prerequisite(&self) -> Option<i32> {
        self.prereq
    }

    /// A task without a prerequisite.
    pub fn new(task: B) -> (t: Self)
        ensures
            t.body() == task,
            t.prerequisite() is None,
    {
        TaskV3 { task, prereq: None }
    }
}

impl<B: TaskCallable> Task for TaskV3<B> {
    open spec fn admitted(&self, order: i32) -> bool {
        admits(self.prerequisite(), order)
    }

    open spec fn enforces(&self) -> bool {
        true
    }

    open spec fn body_result(&self, aux: Seq<u8>, order: i32) -> i32 {
        self.body().result(aux, order)
    }

    open spec fn body_effect(&self, aux: Seq<u8>, order: i32) -> Seq<u8> {
        self.body().effect(aux, order)
    }

    fn with_prereq(self, prereq: i32) -> (t: TaskV3<B>)
        ensures
            t.body() == self.body(),
            t.prerequisite() == tightened(self.prerequisite(), prereq),
            forall|order: i32| #[trigger]
                admits(t.prerequisite(), order) <==> admits(self.prerequisite(), order) && admits(
                    Some(prereq),
                    order,
                ),
    {
        TaskV3 { task: self.task, prereq: tighten(self.prereq, prereq) }
    }

    fn tick(&self, inp: &mut Auxiliary, order: i32) -> (r: i32) {
        if gate_open(self.prereq, order) {
            self.task.call(inp, order)
        } else {
            0
        }
    }
}

/// A task that carries its prerequisite as a mark only: `tick` never looks at
/// it and always runs the body. Whoever drives such tasks decides by the mark
/// which of them to call.
pub struct TaskV4<B: TaskCallable> {
    prereq: Option<i32>,
    task: Box<B>,
}

impl<B: TaskCallable> TaskV4<B> {
    /// The body that the task was made with.
    pub closed spec fn body(&self) -> B {
        *self.task
    }

    /// The prerequisite, if one was set.
    pub closed spec fn prerequisite(&self) -> Option<i32> {
        self.prereq
    }

    /// A task without a prerequisite.
    pub fn new(task: Box<B>) -> (t: Self)
        ensures
            t.body() == *task,
            t.prerequisite() is None,
    {
        TaskV4 { task, prereq: None }
    }

    /// Whether the mark admits `order`. `tick` does not ask.
    pub fn eligible(&self, order: i32) -> (open: bool)
        ensures
            open == admits(self.prerequisite(), order),
    {
        gate_open(self.prereq, order)
    }
}

impl<B: TaskCallable> Task for TaskV4<B> {
    open spec fn admitted(&self, order: i32) -> bool {
        admits(self.prerequisite(), order)
    }

    open spec fn enforces(&self) -> bool {
        false
    }

    open spec fn body_result(&self, aux: Seq<u8>, order: i32) -> i32 {
        self.body().result(aux, order)
    }

    open spec fn body_effect(&self, aux: Seq<u8>, order: i32) -> Seq<u8> {
        self.body().effect(aux, order)
    }

    fn with_prereq(self, prereq: i32) -> (t: TaskV4<B>)
        ensures
            t.body() == self.body(),
            t.prerequisite() == tightened(self.prerequisite(), prereq),
            forall|order: i32| #[trigger]
                admits(t.prerequisite(), order) <==> admits(self.prerequisite(), order) && admits(
                    Some(prereq),
                    order,
                ),
    {
        TaskV4 { task: self.task, prereq: tighten(self.prereq, prereq) }
    }

    fn tick(&self, inp: &mut Auxiliary, order: i32) -> (r: i32) {
        self.task.call(inp, order)
    }
}

/// Any task runs its body exactly at the orders that its prerequisites admit,
/// unless it does not ask them, and then at every order. Where it runs the
/// body, `tick` returns the body's result and leaves what the body leaves;
/// where it does not, the result is neutral and the buffer is left as it was.
pub proof fn lemma_runs_iff_admitted<T: Task>(task: T, aux: Seq<u8>, order: i32)
    ensures
        task.enforces() ==> (executes(task, order) <==> task.admitted(order)),
        !task.enforces() ==> executes(task, order),
        executes(task, order) ==> tick_result(task, aux, order) == task.body_result(aux, order)
            && tick_effect(task, aux, order) == task.body_effect(aux, order),
        !executes(task, order) ==> tick_result(task, aux, order) == 0 && tick_effect(task, aux, order) == aux,
{
}

/// A self-gating task is admitted at the orders that have reached its
/// prerequisite, and at every order when it has none.
pub proof fn lemma_self_gating_threshold<B: TaskCallable>(task: TaskV1<B>, order: i32)
    ensures
        executes(task, order) <==> (task.prerequisite() matches Some(p) ==> order >= p),
{
}

/// At the order equal to its prerequisite a self-gating task runs its body,
/// and at the order just below it does not: the result is neutral and the
/// buffer is left as it was.
pub proof fn lemma_boundary<B: TaskCallable>(task: TaskV1<B>, threshold: i32, aux: Seq<u8>)
    requires
        task.prerequisite() == Some(threshold),
    ensures
        executes(task, threshold),
        tick_result(task, aux, threshold) == task.body().result(aux, threshold),
        tick_effect(task, aux, threshold) == task.body().effect(aux, threshold),
        threshold > i32::MIN ==> !executes(task, (threshold - 1) as i32),
        threshold > i32::MIN ==> tick_result(task, aux, (threshold - 1) as i32) == 0,
        threshold > i32::MIN ==> tick_effect(task, aux, (threshold - 1) as i32) == aux,
{
}

/// The self-gating design and the wrapping design agree: with the same body
/// and the same prerequisite, `tick` returns the same result and leaves the
/// same buffer, on every buffer and at every order.
pub proof fn lemma_wrapping_matches_self_gating<B: TaskCallable>(
    gated: TaskV1<B>,
    wrapped: TaskV2<B>,
    threshold: i32,
    aux: Seq<u8>,
    order: i32,
)
    requires
        gated.prerequisite() == Some(threshold),
        wrapped.body().inner == gated.body(),
        wrapped.body().gates@ == seq![threshold],
    ensures
        executes(wrapped, order) == executes(gated, order),
        tick_result(wrapped, aux, order) == tick_result(gated, aux, order),
        tick_effect(wrapped, aux, order) == tick_effect(gated, aux, order),
{
    assert(wrapped.body().gates@[0] == threshold);
}

/// Two tasks of any two designs that ask their prerequisites stay in step:
/// where they hold bodies that do the same and are admitted at the same
/// orders, `tick` returns the same result and leaves the same buffer, and
/// setting the same prerequisite on both keeps them so.
pub proof fn lemma_designs_stay_in_step<S: Task, T: Task>(
    left: S,
    right: T,
    left_next: S,
    right_next: T,
    prereq: i32,
    aux: Seq<u8>,
    order: i32,
)
    requires
        left.enforces() && right.enforces(),
        forall|o: i32| left.admitted(o) == right.admitted(o),
        forall|a: Seq<u8>, o: i32| left.body_result(a, o) == right.body_result(a, o),
        forall|a: Seq<u8>, o: i32| left.body_effect(a, o) == right.body_effect(a, o),
        gains_prerequisite(left, left_next, prereq),
        gains_prerequisite(right, right_next, prereq),
    ensures
        tick_result(left, aux, order) == tick_result(right, aux, order),
        tick_effect(left, aux, order) == tick_effect(right, aux, order),
        tick_result(left_next, aux, order) == tick_result(right_next, aux, order),
        tick_effect(left_next, aux, order) == tick_effect(right_next, aux, order),
{
}

/// `tick` depends on nothing but the task, the order and what the buffer
/// holds: on equal buffers it returns equal results and leaves equal buffers.
pub proof fn lemma_tick_repeatable<T: Task>(task: T, first: Auxiliary, second: Auxiliary, order: i32)
    requires
        first@ == second@,
    ensures
        tick_result(task, first@, order) == tick_result(task, second@, order),
        tick_effect(task, first@, order) == tick_effect(task, second@, order),
{
}

} // verus!
