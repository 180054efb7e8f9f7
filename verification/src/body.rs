use vstd::prelude::*;
use crate::gate::{admits_all, gates_open};
use crate::scratch::{Auxiliary, index_of, pseudo_random_ind};

verus! {

/// A task body that works on the scratch buffer: it returns a result and may
/// rewrite the buffer. Both are functions of the buffer's contents and the
/// order alone, so a body keeps nothing from one call to the next.
pub trait TaskCallable {
    /// The result of a call on a buffer that holds `aux`.
    spec fn result(&self, aux: Seq<u8>, order: i32) -> i32;

    /// What the buffer holds after a call on a buffer that held `aux`.
    spec fn effect(&self, aux: Seq<u8>, order: i32) -> Seq<u8>;

    /// Runs the body.
    fn call(&self, aux: &mut Auxiliary, order: i32) -> (r: i32)
        ensures
            r == self.result(old(aux)@, order),
            final(aux)@ == self.effect(old(aux)@, order),
    ;
}

/// A body that reads one byte of the buffer, at the index derived from the
/// order shifted by `seed`, and returns it, or twice it.
#[derive(Clone, Copy, Debug, PartialEq, Eq)]
pub struct Probe {
    pub seed: i32,
    pub doubled: bool,
}

impl Probe {
    /// The index that the probe reads at `order`. The shift wraps round.
    pub open spec fn target(&self, order: i32) -> int {
        index_of(self.seed.wrapping_add(order))
    }
}

impl TaskCallable for Probe {
    open spec fn result(&self, aux: Seq<u8>, order: i32) -> i32 {
        if self.doubled {
            (2 * aux[self.target(order)]) as i32
        } else {
            aux[self.target(order)] as i32
        }
    }

    open spec fn effect(&self, aux: Seq<u8>, order: i32) -> Seq<u8> {
        aux
    }

    fn call(&self, aux: &mut Auxiliary, order: i32) -> (r: i32) {
        let ind = pseudo_random_ind(self.seed.wrapping_add(order));
        let byte: i32 = aux.data[ind] as i32;
        if self.doubled {
            byte * 2
        } else {
            byte
        }
    }
}

/// A boxed body is a body: it does what the body in the box does. A registry
/// of tasks over boxed bodies may hold bodies of different kinds.
impl<B: TaskCallable + ?Sized> TaskCallable for Box<B> {
    open spec fn result(&self, aux: Seq<u8>, order: i32) -> i32 {
        (**self).result(aux, order)
    }

    open spec fn effect(&self, aux: Seq<u8>, order: i32) -> Seq<u8> {
        (**self).effect(aux, order)
    }

    fn call(&self, aux: &mut Auxiliary, order: i32) -> (r: i32) {
        (**self).call(aux, order)
    }
}

/// A body with the gates that were wrapped round it: `inner` where the order
/// passes every gate, and otherwise nothing but the neutral result.
pub struct Guarded<B: TaskCallable> {
    pub inner: B,
    pub gates: Vec<i32>,
}

impl<B: TaskCallable> TaskCallable for Guarded<B> {
    open spec fn result(&self, aux: Seq<u8>, order: i32) -> i32 {
        if admits_all(self.gates@, order) {
            self.inner.result(aux, order)
        } else {
            0
        }
    }

    open spec fn effect(&self, aux: Seq<u8>, order: i32) -> Seq<u8> {
        if admits_all(self.gates@, order) {
            self.inner.effect(aux, order)
        } else {
            aux
        }
    }

    fn call(&self, aux: &mut Auxiliary, order: i32) -> (r: i32) {
        if gates_open(&self.gates, order) {
            self.inner.call(aux, order)
        } else {
            0
        }
    }
}

} // verus!
