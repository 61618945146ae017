//! Fixed-capacity rolling history of scalar samples.

use vstd::prelude::*;

verus! {

/// What a history of capacity `cap` holds after `value` is recorded: the
/// sample is appended, and the oldest one leaves once the capacity is reached.
pub open spec fn pushed(s: Seq<u64>, value: u64, cap: nat) -> Seq<u64> {
    if cap == 0 {
        s
    } else if s.len() < cap {
        s.push(value)
    } else {
        s.skip(s.len() - cap + 1).push(value)
    }
}

/// What a history holds after all of `values` are recorded in order.
pub open spec fn pushed_all(s: Seq<u64>, values: Seq<u64>, cap: nat) -> Seq<u64>
    decreases values.len(),
{
    if values.len() == 0 {
        s
    } else {
        pushed(pushed_all(s, values.drop_last(), cap), values.last(), cap)
    }
}

/// The last `cap` entries of `values`, or all of them if there are fewer.
pub open spec fn window(values: Seq<u64>, cap: nat) -> Seq<u64> {
    if values.len() <= cap {
        values
    } else {
        values.skip(values.len() - cap)
    }
}

/// Sliding-window law: after any sequence of samples is recorded into an
/// empty history of capacity `cap`, the history holds exactly the last `cap`
/// of them in the order in which they came. Its length is the smaller of the
/// number of samples and `cap`, and once more than `cap` samples have come,
/// its oldest entry is the one recorded `cap` places before the end.
pub proof fn lemma_history_is_sliding_window(values: Seq<u64>, cap: nat)
    ensures
        pushed_all(Seq::empty(), values, cap) == window(values, cap),
        window(values, cap).len() == if values.len() <= cap {
            values.len()
        } else {
            cap
        },
        values.len() > cap > 0 ==> window(values, cap)[0] == values[values.len() - cap],
    decreases values.len(),
{
    if values.len() > 0 {
        let init = values.drop_last();
        lemma_history_is_sliding_window(init, cap);
        assert(pushed(window(init, cap), values.last(), cap) =~= window(values, cap));
    } else {
        assert(window(values, cap) =~= Seq::<u64>::empty());
    }
}

/// Position in the backing array of the slot `offset` places after `start`.
spec fn slot(start: int, offset: int, cap: int) -> int {
    if start + offset >= cap {
        start + offset - cap
    } else {
        start + offset
    }
}

/// Circular buffer of the `N` most recent samples.
#[derive(Debug)]
pub struct RingBuffer<const N: usize> {
    data: [u64; N],
    head: usize,
    len: usize,
}

/// One minute of history at one sample per second.
pub type History60 = RingBuffer<60>;

impl<const N: usize> View for RingBuffer<N> {
    type V = Seq<u64>;

    /// The retained samples, oldest first.
    closed spec fn view(&self) -> Seq<u64> {
        Seq::new(
            self.len as nat,
            |i: int| self.data@[slot(self.head as int, N - self.len + i, N as int)],
        )
    }
}

impl<const N: usize> RingBuffer<N> {
    #[verifier::type_invariant]
    spec fn inv(&self) -> bool {
        &&& self.len <= N
        &&& self.head <= N
        &&& N > 0 ==> self.head < N
    }

    /// An empty history.
    pub fn new() -> (r: Self)
        ensures
            r@ == Seq::<u64>::empty(),
    {
        let r = RingBuffer { data: [0; N], head: 0, len: 0 };
        assert(r@ =~= Seq::<u64>::empty());
        r
    }

    /// Records one sample, overwriting the oldest when the buffer is full.
    pub fn push(&mut self, value: u64)
        ensures
            final(self)@ == pushed(old(self)@, value, N as nat),
            final(self)@.len() <= N,
    {
        proof {
            use_type_invariant(&*self);
        }
        if N == 0 {
            return ;
        }
        self.data[self.head] = value;
        self.head = if self.head + 1 == N {
            0
        } else {
            self.head + 1
        };
        if self.len < N {
            self.len += 1;
        }
        assert(self@ =~= pushed(old(self)@, value, N as nat));
    }

    /// The retained samples in chronological order, oldest first.
    pub fn as_vec(&self) -> (result: Vec<u64>)
        ensures
            result@ == self@,
            result@.len() <= N,
    {
        proof {
            use_type_invariant(self);
        }
        let mut result: Vec<u64> = Vec::with_capacity(self.len);
        let start: usize = if self.head >= self.len {
            self.head - self.len
        } else {
            self.head + (N - self.len)
        };
        let mut i: usize = 0;
        while i < self.len
            invariant
                i <= self.len <= N,
                self.head <= N,
                N > 0 ==> self.head < N,
                start as int == slot(self.head as int, N - self.len, N as int),
                result@ == self@.take(i as int),
            decreases self.len - i,
        {
            let idx: usize = if start >= N - i {
                start - (N - i)
            } else {
                start + i
            };
            result.push(self.data[idx]);
            assert(result@ =~= self@.take(i + 1));
            i += 1;
        }
        assert(result@ =~= self@);
        result
    }

    /// Number of retained samples.
    pub fn len(&self) -> (n: usize)
        ensures
            n == self@.len(),
            n <= N,
    {
        proof {
            use_type_invariant(self);
        }
        self.len
    }

    /// Whether no sample has been recorded yet.
    pub fn is_empty(&self) -> (b: bool)
        ensures
            b == (self@.len() == 0),
    {
        self.len == 0
    }
}

impl<const N: usize> Clone for RingBuffer<N> {
    fn clone(&self) -> (copy: Self)
        ensures
            copy@ == self@,
    {
        proof {
            use_type_invariant(self);
        }
        RingBuffer { data: self.data, head: self.head, len: self.len }
    }
}

impl<const N: usize> Default for RingBuffer<N> {
    fn default() -> (r: Self)
        ensures
            r@ == Seq::<u64>::empty(),
    {
        RingBuffer::new()
    }
}

} // verus!
