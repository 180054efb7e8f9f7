use vstd::prelude::*;
use vstd::arithmetic::div_mod::lemma_mod_multiples_vanish;

verus! {

/// The number of bytes in the scratch buffer.
pub const DATA_SIZE: usize = 2048;

/// The scratch buffer that is handed to each task body in turn. A round
/// starts from a fresh or reset buffer.
pub struct Auxiliary {
    pub data: [u8; DATA_SIZE],
}

impl View for Auxiliary {
    type V = Seq<u8>;

    open spec fn view(&self) -> Seq<u8> {
        self.data@
    }
}

impl Default for Auxiliary {
    /// A buffer of zeroes.
    fn default() -> (aux: Self)
        ensures
            aux@ == Seq::new(DATA_SIZE as nat, |i: int| 0u8),
    {
        let aux = Auxiliary { data: [0u8; 2048] };
        assert(aux@ =~= Seq::new(DATA_SIZE as nat, |i: int| 0u8));
        aux
    }
}

/// The index that `i` is sent to: `i` itself, or ten times `i` where the bit
/// of weight 128 is set in it, reduced into the buffer by the remainder that
/// is never negative.
pub open spec fn index_of(i: i32) -> int {
    let scaled: int = if i & 128 != 0 {
        10 * i
    } else {
        i as int
    };
    scaled % (DATA_SIZE as int)
}

/// Scatters accesses over the scratch buffer. Every `i32` has an index, the
/// negative ones and those whose multiple leaves the range of `i32` too, and
/// every index lies inside the buffer.
pub fn pseudo_random_ind(i: i32) -> (ind: usize)
    ensures
        ind == index_of(i),
        ind < DATA_SIZE,
{
    let wide: i64 = if (i & 128) != 0 {
        (i as i64) * 10
    } else {
        i as i64
    };
    // A multiple of the buffer's size that lifts every scaled value above zero.
    let lift: i64 = 0x8_0000_0000;
    let lifted: u64 = (wide + lift) as u64;
    proof {
        assert(lift == 2048 * 0x100_0000);
        lemma_mod_multiples_vanish(0x100_0000, wide as int, 2048);
    }
    (lifted % 2048) as usize
}

} // verus!
