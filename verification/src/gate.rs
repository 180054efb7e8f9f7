use vstd::prelude::*;

verus! {

/// The gating relation: a task without a prerequisite is always admitted, and
/// one with prerequisite `p` is admitted exactly when `order >= p`.
pub open spec fn admits(threshold: Option<i32>, order: i32) -> bool {
    match threshold {
        None => true,
        Some(p) => order >= p,
    }
}

/// Decides the gating relation.
pub fn gate_open(threshold: Option<i32>, order: i32) -> (open: bool)
    ensures
        open == admits(threshold, order),
{
    match threshold {
        None => true,
        Some(p) => p <= order,
    }
}

/// The prerequisite of a task after one more prerequisite was set: the
/// stricter of the two, so that a prerequisite, once set, is never loosened.
pub open spec fn tightened(threshold: Option<i32>, prereq: i32) -> Option<i32> {
    match threshold {
        Some(p) if p >= prereq => Some(p),
        _ => Some(prereq),
    }
}

/// Computes [`tightened`]. The result admits an order exactly if both the
/// old prerequisite and the new one admit it.
pub fn tighten(threshold: Option<i32>, prereq: i32) -> (t: Option<i32>)
    ensures
        t == tightened(threshold, prereq),
        forall|order: i32| #[trigger]
            admits(t, order) <==> admits(threshold, order) && admits(Some(prereq), order),
{
    match threshold {
        Some(p) => if p >= prereq {
            Some(p)
        } else {
            Some(prereq)
        },
        None => Some(prereq),
    }
}

/// Whether `order` passes every gate of a chain: it has reached each of the
/// thresholds.
pub open spec fn admits_all(gates: Seq<i32>, order: i32) -> bool {
    forall|k: int| 0 <= k < gates.len() ==> admits(Some(#[trigger] gates[k]), order)
}

/// Decides whether `order` passes every gate of a chain.
pub fn gates_open(gates: &Vec<i32>, order: i32) -> (open: bool)
    ensures
        open == admits_all(gates@, order),
{
    let mut k: usize = 0;
    while k < gates.len()
        invariant
            k <= gates.len(),
            forall|j: int| 0 <= j < k ==> admits(Some(#[trigger] gates@[j]), order),
        decreases gates.len() - k,
    {
        if !gate_open(Some(gates[k]), order) {
            return false;
        }
        k += 1;
    }
    true
}

/// One more gate on a chain: the order passes the longer chain exactly if it
/// passes the shorter one and has reached the new threshold.
pub proof fn lemma_one_more_gate(gates: Seq<i32>, threshold: i32, order: i32)
    ensures
        admits_all(gates.push(threshold), order) <==> admits_all(gates, order) && admits(
            Some(threshold),
            order,
        ),
{
    let longer = gates.push(threshold);
    if admits_all(longer, order) {
        assert(longer[gates.len() as int] == threshold);
        assert forall|k: int| 0 <= k < gates.len() implies admits(
            Some(#[trigger] gates[k]),
            order,
        ) by {
            assert(longer[k] == gates[k]);
        }
    }
    if admits_all(gates, order) && admits(Some(threshold), order) {
        assert forall|k: int| 0 <= k < longer.len() implies admits(
            Some(#[trigger] longer[k]),
            order,
        ) by {
            if k < gates.len() {
                assert(longer[k] == gates[k]);
            }
        }
    }
}

/// The threshold is inclusive: an order equal to the prerequisite is admitted,
/// and the order just below it is not.
pub proof fn lemma_threshold_inclusive(p: i32)
    ensures
        admits(Some(p), p),
        p > i32::MIN ==> !admits(Some(p), (p - 1) as i32),
{
}

} // verus!
