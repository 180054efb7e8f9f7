use vstd::prelude::*;
use crate::body::TaskCallable;
use crate::gate::admits;
use crate::scratch::Auxiliary;
use crate::task::{executes, tick_effect, tick_result, Task, TaskV4};

verus! {

/// The test that a task's mark admits `order`.
pub open spec fn admitted_at<B: TaskCallable>(order: i32) -> spec_fn(TaskV4<B>) -> bool {
    |t: TaskV4<B>| admits(t.prerequisite(), order)
}

/// The tasks of a registry whose mark admits `order`, in the registry's order.
pub open spec fn survivors<B: TaskCallable>(tasks: Seq<TaskV4<B>>, order: i32) -> Seq<TaskV4<B>> {
    tasks.filter(admitted_at(order))
}

/// The tasks that stand at the places `picked` of a registry.
pub open spec fn chosen<B: TaskCallable>(tasks: Seq<TaskV4<B>>, picked: Seq<usize>) -> Seq<
    TaskV4<B>,
> {
    picked.map_values(|i: usize| tasks[i as int])
}

/// `picked` is what the filtering pass owes for `order`: the places of the
/// admitted tasks, all of them, in rising order.
pub open spec fn selects<B: TaskCallable>(
    tasks: Seq<TaskV4<B>>,
    order: i32,
    picked: Seq<usize>,
) -> bool {
    &&& forall|a: int, b: int| 0 <= a < b < picked.len() ==> picked[a] < picked[b]
    &&& forall|k: int| 0 <= k < picked.len() ==> #[trigger] picked[k] < tasks.len()
    &&& forall|k: int|
        0 <= k < picked.len() ==> admits(tasks[#[trigger] picked[k] as int].prerequisite(), order)
    &&& forall|i: int|
        0 <= i < tasks.len() && admits(#[trigger] tasks[i].prerequisite(), order)
            ==> picked.contains(i as usize)
}

/// The running sum and the buffer after the first `n` tasks of `line` have
/// been called one after the other, each with its place in `line` as its
/// order. The sum wraps round.
pub open spec fn round<B: TaskCallable>(line: Seq<TaskV4<B>>, aux: Seq<u8>, n: nat) -> (
    i32,
    Seq<u8>,
)
    decreases n,
{
    if n == 0 {
        (0i32, aux)
    } else {
        let before = round(line, aux, (n - 1) as nat);
        let place = (n - 1) as i32;
        (
            before.0.wrapping_add(tick_result(line[n - 1], before.1, place)),
            tick_effect(line[n - 1], before.1, place),
        )
    }
}

/// What one filtered round over a registry gives: the sum of the survivors'
/// results, and the buffer that the last of them leaves.
pub open spec fn filtered_round<B: TaskCallable>(
    tasks: Seq<TaskV4<B>>,
    aux: Seq<u8>,
    order: i32,
) -> (i32, Seq<u8>) {
    let line = survivors(tasks, order);
    round(line, aux, line.len())
}

/// Runs a registry of marked tasks by filtering it first: a round picks the
/// tasks whose mark admits the order, then calls each of them once.
///
/// A survivor is called with its place among the survivors as its order, not
/// with its place in the registry.
pub struct Task4Executor<B: TaskCallable> {
    tasks: Vec<TaskV4<B>>,
}

impl<B: TaskCallable> Task4Executor<B> {
    #[verifier::type_invariant]
    spec fn countable(&self) -> bool {
        self.tasks.len() <= i32::MAX
    }

    /// The registry, in the order in which it was filled.
    pub closed spec fn registry(&self) -> Seq<TaskV4<B>> {
        self.tasks@
    }

    /// An executor over `tasks`. Every place in the registry must be an order.
    pub fn new(tasks: Vec<TaskV4<B>>) -> (e: Self)
        requires
            tasks.len() <= i32::MAX,
        ensures
            e.registry() == tasks@,
    {
        Task4Executor { tasks }
    }

    /// The number of tasks in the registry.
    pub fn len(&self) -> (n: usize)
        ensures
            n == self.registry().len(),
            n <= i32::MAX,
    {
        proof {
            use_type_invariant(self);
        }
        self.tasks.len()
    }

    /// The filtering pass: the places of the tasks whose mark admits `order`.
    /// The places rise, so the survivors keep the order of the registry, and
    /// no admitted task is left out.
    pub fn select(&self, order: i32) -> (picked: Vec<usize>)
        ensures
            selects(self.registry(), order, picked@),
            chosen(self.registry(), picked@) == survivors(self.registry(), order),
            picked.len() <= self.registry().len(),
    {
        let mut picked: Vec<usize> = Vec::new();
        let mut j: usize = 0;
        proof {
            reveal(Seq::filter);
            assert(self.tasks@.take(0) =~= Seq::empty());
            assert(chosen(self.tasks@, picked@) =~= self.tasks@.take(0).filter(admitted_at(order)));
        }
        while j < self.tasks.len()
            invariant
                j <= self.tasks.len(),
                picked.len() <= j,
                forall|a: int, b: int| 0 <= a < b < picked.len() ==> picked[a] < picked[b],
                forall|k: int| 0 <= k < picked.len() ==> #[trigger] picked[k] < j,
                forall|k: int|
                    0 <= k < picked.len() ==> admits(
                        self.tasks@[#[trigger] picked[k] as int].prerequisite(),
                        order,
                    ),
                forall|i: int|
                    0 <= i < j && admits(#[trigger] self.tasks@[i].prerequisite(), order)
                        ==> picked@.contains(i as usize),
                chosen(self.tasks@, picked@) == self.tasks@.take(j as int).filter(
                    admitted_at(order),
                ),
            decreases self.tasks.len() - j,
        {
            let ghost before = picked@;
            let open = self.tasks[j].eligible(order);
            if open {
                picked.push(j);
            }
            proof {
                reveal(Seq::filter);
                let head = self.tasks@.take(j as int);
                let wider = self.tasks@.take(j + 1);
                assert(wider.drop_last() =~= head);
                assert(wider.last() == self.tasks@[j as int]);
                if open {
                    assert(chosen(self.tasks@, picked@) =~= chosen(self.tasks@, before).push(
                        self.tasks@[j as int],
                    ));
                    assert(picked@[picked.len() - 1] == j);
                    assert forall|i: int|
                        0 <= i < j + 1 && admits(
                            #[trigger] self.tasks@[i].prerequisite(),
                            order,
                        ) implies picked@.contains(i as usize) by {
                        if i < j {
                            let k = choose|k: int| 0 <= k < before.len() && before[k] == i as usize;
                            assert(picked@[k] == i as usize);
                        }
                    }
                }
            }
            j += 1;
        }
        proof {
            assert(self.tasks@.take(j as int) =~= self.tasks@);
        }
        picked
    }

    /// One round: filters the registry by `order`, calls every survivor once,
    /// in the registry's order and each on the buffer that the one before it
    /// left, and returns the sum of their results.
    pub fn tick(&self, inp: &mut Auxiliary, order: i32) -> (sum: i32)
        ensures
            sum == filtered_round(self.registry(), old(inp)@, order).0,
            final(inp)@ == filtered_round(self.registry(), old(inp)@, order).1,
    {
        proof {
            use_type_invariant(self);
        }
        let picked = self.select(order);
        let ghost line = survivors(self.tasks@, order);
        let ghost start = inp@;
        let mut sum: i32 = 0;
        let mut k: usize = 0;
        assert(picked.len() == line.len());
        while k < picked.len()
            invariant
                k <= picked.len(),
                picked.len() == line.len(),
                picked.len() <= i32::MAX,
                chosen(self.tasks@, picked@) == line,
                forall|k: int| 0 <= k < picked.len() ==> #[trigger] picked[k] < self.tasks.len(),
                (sum, inp@) == round(line, start, k as nat),
            decreases picked.len() - k,
        {
            let task = &self.tasks[picked[k]];
            assert(line[k as int] == *task);
            let r = task.tick(inp, k as i32);
            sum = sum.wrapping_add(r);
            k += 1;
        }
        sum
    }
}

/// Filtering first and self-gating run the same tasks: a task of a registry
/// that asks its own prerequisites runs at `order` exactly if the filtering
/// pass picks its place in a registry of marked tasks with the same
/// prerequisites.
///
/// The sums of the two disciplines may differ all the same: a self-gating
/// registry is driven with each task's place in the registry as its order,
/// while a survivor of the filter is called with its place among the
/// survivors.
pub proof fn lemma_same_tasks_run<T: Task, B: TaskCallable>(
    gated: Seq<T>,
    marked: Seq<TaskV4<B>>,
    order: i32,
    picked: Seq<usize>,
)
    requires
        gated.len() == marked.len() <= usize::MAX,
        forall|i: int| 0 <= i < gated.len() ==> (#[trigger] gated[i]).enforces(),
        forall|i: int|
            0 <= i < gated.len() ==> ((#[trigger] gated[i]).admitted(order)
                <==> marked[i].admitted(order)),
        selects(marked, order, picked),
    ensures
        forall|i: int|
            0 <= i < gated.len() ==> (executes(#[trigger] gated[i], order) <==> picked.contains(
                i as usize,
            )),
{
    assert forall|i: int| 0 <= i < gated.len() implies (executes(#[trigger] gated[i], order)
        <==> picked.contains(i as usize)) by {
        if picked.contains(i as usize) {
            let k = choose|k: int| 0 <= k < picked.len() && picked[k] == i as usize;
            assert(admits(marked[picked[k] as int].prerequisite(), order));
        }
        if executes(gated[i], order) {
            assert(admits(marked[i].prerequisite(), order));
        }
    }
}

/// The survivors of the filter are the admitted tasks and no others, and two
/// survivors stand in the order in which they stand in the registry.
pub proof fn lemma_survivors_keep_order<B: TaskCallable>(
    tasks: Seq<TaskV4<B>>,
    order: i32,
    picked: Seq<usize>,
)
    requires
        selects(tasks, order, picked),
        chosen(tasks, picked) == survivors(tasks, order),
    ensures
        survivors(tasks, order).len() == picked.len(),
        forall|k: int|
            0 <= k < picked.len() ==> (#[trigger] survivors(tasks, order)[k]) == tasks[picked[k] as int]
                && admits(survivors(tasks, order)[k].prerequisite(), order),
        forall|a: int, b: int| 0 <= a < b < picked.len() ==> picked[a] < picked[b],
{
    assert forall|k: int| 0 <= k < picked.len() implies (#[trigger] survivors(tasks, order)[k])
        == tasks[picked[k] as int] && admits(survivors(tasks, order)[k].prerequisite(), order) by {
        assert(chosen(tasks, picked)[k] == tasks[picked[k] as int]);
    }
}

/// A filtered round depends on nothing but the registry, the order and what
/// the buffer holds: on equal buffers it gives equal sums and leaves equal
/// buffers.
pub proof fn lemma_round_repeatable<B: TaskCallable>(
    executor: Task4Executor<B>,
    first: Auxiliary,
    second: Auxiliary,
    order: i32,
)
    requires
        first@ == second@,
    ensures
        filtered_round(executor.registry(), first@, order) == filtered_round(
            executor.registry(),
            second@,
            order,
        ),
{
}

/// What the buffer holds after the first `n` tasks of a registry have been
/// called one after the other, each with its place in the registry as its
/// order.
pub open spec fn sweep<T: Task>(tasks: Seq<T>, aux: Seq<u8>, n: nat) -> Seq<u8>
    decreases n,
{
    if n == 0 {
        aux
    } else {
        tick_effect(tasks[n - 1], sweep(tasks, aux, (n - 1) as nat), (n - 1) as i32)
    }
}

/// One round over a registry whose tasks decide for themselves: calls every
/// task once, in the registry's order, with its place as its order, and drops
/// the results.
pub fn tick_each<T: Task>(tasks: &Vec<T>, inp: &mut Auxiliary)
    requires
        tasks.len() <= i32::MAX,
    ensures
        final(inp)@ == sweep(tasks@, old(inp)@, tasks.len() as nat),
{
    let ghost start = inp@;
    let mut i: usize = 0;
    while i < tasks.len()
        invariant
            i <= tasks.len() <= i32::MAX,
            inp@ == sweep(tasks@, start, i as nat),
        decreases tasks.len() - i,
    {
        let _ = tasks[i].tick(inp, i as i32);
        i += 1;
    }
}

} // verus!
