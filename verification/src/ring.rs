//! Fixed-capacity circular buffer for mono audio samples, with a monotonic
//! write counter, windowed "latest N" reads, and a sequential stream cursor
//! that detects and recovers from overwritten (lost) data.
//!
//! The buffer's abstract state is the full history of samples ever written
//! (kept as a ghost sequence): the concrete storage always holds the last
//! `capacity` entries of that history, arranged circularly.

use vstd::prelude::*;
use vstd::pervasive::VecAdditionalExecFns;
use vstd::arithmetic::div_mod::{
    lemma_fundamental_div_mod, lemma_fundamental_div_mod_converse_mod,
    lemma_mod_division_less_than_divisor, lemma_add_mod_noop, lemma_mod_add_multiples_vanish,
    lemma_mod_twice, lemma_small_mod,
};

verus! {

/// The most recent `n` samples of a history `h` kept by a buffer of capacity
/// `cap`, clamped to what was written and to what the buffer can hold.
pub open spec fn latest_of(h: Seq<i16>, cap: int, n: int) -> Seq<i16> {
    let k = min3(n, cap, h.len() as int);
    h.subrange(h.len() - k, h.len() as int)
}

/// The smaller of three values.
pub open spec fn min3(a: int, b: int, c: int) -> int {
    if a <= b && a <= c {
        a
    } else if b <= c {
        b
    } else {
        c
    }
}

/// A stream cursor at `pos`, rectified forward to the oldest position still
/// held by a buffer of capacity `cap` after `h_len` total writes.
pub open spec fn rectified(h_len: int, cap: int, pos: int) -> int {
    if h_len - pos > cap {
        h_len - cap
    } else {
        pos
    }
}

/// The number of samples a stream cursor at `pos` has not yet consumed and
/// that are still recoverable.
pub open spec fn unread_of(h_len: int, cap: int, pos: int) -> int {
    h_len - rectified(h_len, cap, pos)
}

/// The chunk a streaming read of `n` samples returns: the next `n` unread
/// samples after loss recovery, clamped to what is available.
pub open spec fn stream_chunk(h: Seq<i16>, cap: int, pos: int, n: int) -> Seq<i16> {
    let r = rectified(h.len() as int, cap, pos);
    let k = if n <= h.len() - r {
        n
    } else {
        h.len() - r
    };
    h.subrange(r, r + k)
}

/// Circular store of mono samples. `storage` holds the last
/// `min(total_written, capacity)` samples of the ghost `history`;
/// `stream_read_pos` is the sequential consumer's cursor, counted in the same
/// domain as `total_written`.
pub struct RingBuffer {
    storage: Vec<i16>,
    write_pos: usize,
    total_written: u64,
    stream_read_pos: u64,
    history: Ghost<Seq<i16>>,
}

impl RingBuffer {
    /// The fixed capacity of the buffer.
    pub closed spec fn capacity(self) -> int {
        self.storage@.len() as int
    }

    /// The full sequence of samples ever written.
    pub closed spec fn history(self) -> Seq<i16> {
        self.history@
    }

    /// The stream cursor's position in the write-counter domain.
    pub closed spec fn read_pos(self) -> int {
        self.stream_read_pos as int
    }

    /// Structural invariant: counters agree with the history and the storage
    /// holds the most recent window of it.
    pub closed spec fn wf(self) -> bool {
        &&& 0 < self.storage@.len() <= usize::MAX as int / 2
        &&& self.total_written == self.history@.len()
        &&& self.stream_read_pos <= self.total_written
        &&& self.write_pos == self.history@.len() as int % self.capacity()
        &&& forall|j: int|
            self.history@.len() - self.capacity() <= j < self.history@.len() && 0 <= j
                ==> self.storage@[j % self.capacity()] == self.history@[j]
    }

    /// Bounds that every well-formed buffer satisfies, for use by callers
    /// that cannot see the invariant's body.
    pub proof fn lemma_wf_bounds(self)
        requires
            self.wf(),
        ensures
            0 < self.capacity() <= usize::MAX as int / 2,
            0 <= self.read_pos() <= self.history().len(),
    {
    }

    /// Creates an empty buffer of the given capacity.
    pub fn new(capacity: usize) -> (r: RingBuffer)
        requires
            0 < capacity <= usize::MAX / 2,
        ensures
            r.wf(),
            r.capacity() == capacity,
            r.history() == Seq::<i16>::empty(),
            r.read_pos() == 0,
    {
        let mut storage: Vec<i16> = Vec::new();
        while storage.len() < capacity
            invariant
                storage.len() <= capacity,
            decreases capacity - storage.len(),
        {
            storage.push(0i16);
        }
        RingBuffer {
            storage,
            write_pos: 0,
            total_written: 0,
            stream_read_pos: 0,
            history: Ghost(Seq::empty()),
        }
    }

    /// Total number of samples ever written.
    pub fn total_written(&self) -> (r: u64)
        requires
            self.wf(),
        ensures
            r == self.history().len(),
    {
        self.total_written
    }

    /// Appends `samples` in order, overwriting the oldest data once the
    /// buffer is full. Writing never fails and never moves the stream cursor.
    pub fn write_samples(&mut self, samples: &Vec<i16>)
        requires
            old(self).wf(),
            old(self).history().len() + samples@.len() <= u64::MAX,
        ensures
            final(self).wf(),
            final(self).history() == old(self).history() + samples@,
            final(self).capacity() == old(self).capacity(),
            final(self).read_pos() == old(self).read_pos(),
    {
        let ghost orig = *self;
        let cap = self.storage.len();
        let mut i: usize = 0;
        while i < samples.len()
            invariant
                orig.wf(),
                cap == self.storage.len(),
                0 < cap <= usize::MAX / 2,
                self.write_pos < cap,
                i <= samples@.len(),
                orig.history@.len() + samples@.len() <= u64::MAX,
                self.stream_read_pos == orig.stream_read_pos,
                self.history@ == orig.history@ + samples@.subrange(0, i as int),
                self.total_written == self.history@.len(),
                self.write_pos == self.history@.len() as int % (cap as int),
                forall|j: int|
                    self.history@.len() - cap <= j < self.history@.len() && 0 <= j
                        ==> self.storage@[j % (cap as int)] == self.history@[j],
            decreases samples@.len() - i,
        {
            let s = samples[i];
            let ghost pre = *self;
            self.storage.set(self.write_pos, s);
            self.write_pos = if self.write_pos + 1 == cap {
                0
            } else {
                self.write_pos + 1
            };
            self.total_written = self.total_written + 1;
            proof {
                self.history@ = pre.history@ + seq![s];
                let c = cap as int;
                let l = pre.history@.len() as int;
                lemma_fundamental_div_mod(l, c);
                lemma_mod_division_less_than_divisor(l, c);
                // the write position steps to (l + 1) % c
                if pre.write_pos + 1 == cap {
                    assert(l + 1 == (l / c + 1) * c + 0) by (nonlinear_arith)
                        requires
                            l == c * (l / c) + l % c,
                            l % c == c - 1,
                    ;
                    lemma_fundamental_div_mod_converse_mod(l + 1, c, l / c + 1, 0);
                } else {
                    assert(l + 1 == (l / c) * c + (l % c + 1)) by (nonlinear_arith)
                        requires
                            l == c * (l / c) + l % c,
                    ;
                    lemma_fundamental_div_mod_converse_mod(l + 1, c, l / c, l % c + 1);
                }
                assert(self.write_pos == (l + 1) % c);
                assert(samples@.subrange(0, i as int) + seq![s]
                    =~= samples@.subrange(0, i + 1));
                assert(self.history@ =~= orig.history@ + samples@.subrange(0, i + 1));
                // the new write lands at index l of the history; every other
                // index in the retained window keeps its old slot
                assert forall|j: int|
                    self.history@.len() - c <= j < self.history@.len() && 0 <= j
                        implies self.storage@[j % c] == self.history@[j] by {
                    lemma_mod_division_less_than_divisor(j, c);
                    if j == l {
                        assert(self.storage@[l % c] == s);
                    } else {
                        if j % c == l % c {
                            lemma_mod_window(j, l, c);
                        }
                        assert(self.storage@[j % c] == pre.storage@[j % c]);
                    }
                }
            }
            i = i + 1;
        }
        proof {
            assert(samples@.subrange(0, samples@.len() as int) =~= samples@);
        }
    }

    /// Returns, in chronological order, an independent copy of the most
    /// recent `num_samples` samples (clamped to the capacity and to what has
    /// been written). Does not move any cursor.
    pub fn read_latest(&self, num_samples: usize) -> (r: Vec<i16>)
        requires
            self.wf(),
        ensures
            r@ == latest_of(self.history(), self.capacity(), num_samples as int),
    {
        let cap = self.storage.len();
        let n = if num_samples < cap {
            num_samples
        } else {
            cap
        };
        let available: usize = if self.total_written >= cap as u64 {
            cap
        } else {
            self.total_written as usize
        };
        let actual = if n < available {
            n
        } else {
            available
        };
        let ghost l = self.history@.len() as int;
        let ghost c = cap as int;
        assert(actual == min3(num_samples as int, c, l));

        let mut result: Vec<i16> = Vec::new();
        let start_pos = (self.write_pos + cap - actual) % cap;
        proof {
            lemma_mod_division_less_than_divisor(self.write_pos + cap - actual, c);
            // start_pos is congruent to l - actual modulo the capacity
            lemma_mod_twice(l, c);
            lemma_congruent_add(l % c, l, c - actual, c);
            lemma_mod_add_multiples_vanish(l - actual, c);
            lemma_mod_twice(self.write_pos as int + (cap - actual), c);
            assert(start_pos as int % c == (l - actual) % c);
        }
        let mut i: usize = 0;
        while i < actual
            invariant
                self.wf(),
                cap == self.storage.len(),
                c == cap as int,
                l == self.history@.len(),
                actual <= cap,
                actual == min3(num_samples as int, c, l),
                start_pos < cap,
                start_pos as int % c == (l - actual) % c,
                i <= actual,
                result@ == self.history@.subrange(l - actual, l - actual + i),
            decreases actual - i,
        {
            let idx = if start_pos + i >= cap {
                start_pos + i - cap
            } else {
                start_pos + i
            };
            proof {
                let j = l - actual + i;
                // idx == (start_pos + i) % c == j % c, and j lies in the
                // retained window, so the slot holds history[j]
                lemma_mod_in_range(start_pos as int + i, c);
                lemma_small_mod(start_pos as nat, c as nat);
                lemma_congruent_add(start_pos as int, l - actual, i as int, c);
                assert(idx as int == j % c);
                lemma_mod_division_less_than_divisor(j, c);
                assert(self.storage@[j % c] == self.history@[j]);
            }
            result.push(self.storage[idx]);
            proof {
                assert(result@ =~= self.history@.subrange(l - actual, l - actual + i + 1));
            }
            i = i + 1;
        }
        proof {
            assert(result@ =~= latest_of(self.history@, c, num_samples as int));
        }
        result
    }

    /// Number of unread samples still recoverable for the stream cursor.
    pub fn unread_samples(&self) -> (r: usize)
        requires
            self.wf(),
        ensures
            r == unread_of(self.history().len() as int, self.capacity(), self.read_pos()),
    {
        if self.total_written <= self.stream_read_pos {
            return 0;
        }
        let unread = self.total_written - self.stream_read_pos;
        if unread >= self.storage.len() as u64 {
            self.storage.len()
        } else {
            unread as usize
        }
    }

    /// Sequential read: returns up to `num_samples` samples starting at the
    /// stream cursor, after rectifying the cursor past any overwritten data,
    /// and advances the cursor by what was returned. Successive calls are
    /// disjoint and chronologically contiguous while the consumer keeps pace.
    pub fn read_stream(&mut self, num_samples: usize) -> (r: Vec<i16>)
        requires
            old(self).wf(),
        ensures
            final(self).wf(),
            final(self).history() == old(self).history(),
            final(self).capacity() == old(self).capacity(),
            r@ == stream_chunk(
                old(self).history(),
                old(self).capacity(),
                old(self).read_pos(),
                num_samples as int,
            ),
            r@.len() > 0 ==> final(self).read_pos() == rectified(
                old(self).history().len() as int,
                old(self).capacity(),
                old(self).read_pos(),
            ) + r@.len(),
            r@.len() == 0 ==> final(self).read_pos() == old(self).read_pos(),
    {
        let ghost orig = *self;
        let ghost c = self.storage.len() as int;
        let ghost l = self.history@.len() as int;
        let available = self.unread_samples();
        let to_read = if num_samples < available {
            num_samples
        } else {
            available
        };
        if to_read == 0 {
            proof {
                assert(stream_chunk(orig.history@, c, orig.stream_read_pos as int,
                    num_samples as int) =~= Seq::<i16>::empty());
            }
            return Vec::new();
        }

        let cap = self.storage.len();
        if self.total_written > cap as u64 {
            let oldest_valid = self.total_written - cap as u64;
            if self.stream_read_pos < oldest_valid {
                self.stream_read_pos = oldest_valid;
            }
        }
        let ghost rect = rectified(l, c, orig.stream_read_pos as int);
        assert(self.stream_read_pos == rect);
        assert(to_read <= l - rect);

        let buffer_start = (self.stream_read_pos % cap as u64) as usize;
        proof {
            lemma_mod_division_less_than_divisor(rect, c);
        }
        let mut result: Vec<i16> = Vec::new();
        let mut i: usize = 0;
        while i < to_read
            invariant
                self.wf(),
                cap == self.storage.len(),
                c == cap as int,
                l == self.history@.len(),
                self.stream_read_pos == rect,
                0 <= rect,
                l - c <= rect,
                to_read <= l - rect,
                to_read <= cap,
                buffer_start < cap,
                buffer_start as int == rect % c,
                i <= to_read,
                result@ == self.history@.subrange(rect, rect + i),
            decreases to_read - i,
        {
            let idx = if buffer_start + i >= cap {
                buffer_start + i - cap
            } else {
                buffer_start + i
            };
            proof {
                let j = rect + i;
                lemma_mod_in_range(buffer_start as int + i, c);
                lemma_small_mod(buffer_start as nat, c as nat);
                lemma_mod_twice(rect, c);
                lemma_congruent_add(buffer_start as int, rect, i as int, c);
                assert(idx as int == j % c);
                lemma_mod_division_less_than_divisor(j, c);
                // every index from the rectified cursor on lies in the
                // retained window
                assert(l - c <= j < l);
                assert(self.storage@[j % c] == self.history@[j]);
            }
            result.push(self.storage[idx]);
            proof {
                assert(result@ =~= self.history@.subrange(rect, rect + i + 1));
            }
            i = i + 1;
        }
        self.stream_read_pos = self.stream_read_pos + to_read as u64;
        proof {
            assert(result@ =~= stream_chunk(orig.history@, c, orig.stream_read_pos as int,
                num_samples as int));
        }
        result
    }

    /// Moves the stream cursor to "now", discarding any unread backlog.
    pub fn reset_stream_position(&mut self)
        requires
            old(self).wf(),
        ensures
            final(self).wf(),
            final(self).history() == old(self).history(),
            final(self).capacity() == old(self).capacity(),
            final(self).read_pos() == old(self).history().len(),
    {
        self.stream_read_pos = self.total_written;
    }

    /// Discards everything: zeroes the storage and resets both counters, as
    /// done after startup warmup to drop transients.
    pub fn clear(&mut self)
        requires
            old(self).wf(),
        ensures
            final(self).wf(),
            final(self).capacity() == old(self).capacity(),
            final(self).history() == Seq::<i16>::empty(),
            final(self).read_pos() == 0,
    {
        let cap = self.storage.len();
        let mut i: usize = 0;
        while i < cap
            invariant
                cap == self.storage.len(),
                i <= cap,
            decreases cap - i,
        {
            self.storage.set(i, 0i16);
            i = i + 1;
        }
        self.write_pos = 0;
        self.total_written = 0;
        self.stream_read_pos = 0;
        proof {
            self.history@ = Seq::empty();
        }
    }
}

/// Two congruent indices within one capacity-sized window are equal.
proof fn lemma_mod_window(j: int, l: int, c: int)
    requires
        c > 0,
        l - c < j <= l,
        j % c == l % c,
    ensures
        j == l,
{
    lemma_fundamental_div_mod(j, c);
    lemma_fundamental_div_mod(l, c);
    let d = l - j;
    assert(d == c * (l / c) - c * (j / c));
    assert(c * (l / c) - c * (j / c) == c * (l / c - j / c)) by (nonlinear_arith);
    assert(0 <= d < c);
    assert(l / c - j / c == 0) by (nonlinear_arith)
        requires
            d == c * (l / c - j / c),
            0 <= d < c,
            c > 0,
    ;
}

/// Reduction of a value already within twice the modulus.
proof fn lemma_mod_in_range(x: int, m: int)
    requires
        m > 0,
        0 <= x < 2 * m,
    ensures
        x % m == if x >= m {
            x - m
        } else {
            x
        },
{
    if x >= m {
        lemma_fundamental_div_mod_converse_mod(x, m, 1, x - m);
    } else {
        lemma_small_mod(x as nat, m as nat);
    }
}

/// Congruence is preserved by adding the same offset on both sides.
proof fn lemma_congruent_add(a: int, b: int, i: int, m: int)
    requires
        m > 0,
        a % m == b % m,
    ensures
        (a + i) % m == (b + i) % m,
{
    lemma_add_mod_noop(a, i, m);
    lemma_add_mod_noop(b, i, m);
}

/// The most recent `cap` samples of a history of at least `cap` writes are
/// exactly the last `cap` values, in write order.
pub proof fn lemma_read_latest_full_window(h: Seq<i16>, cap: int)
    requires
        0 < cap <= h.len(),
    ensures
        latest_of(h, cap, cap).len() == cap,
        forall|i: int|
            0 <= i < cap ==> latest_of(h, cap, cap)[i] == h[h.len() - cap + i],
{
}

/// Streaming reads with no intervening reset partition the history into
/// disjoint, contiguous, order-preserving chunks: the first read consumes
/// `[r1, r1 + k1)`; after the producer extends the history, the second read
/// starts at or after `r1 + k1`, and exactly there — no duplication, no
/// reordering — whenever the unread backlog does not exceed the capacity.
pub proof fn lemma_stream_reads_partition(h1: Seq<i16>, h2: Seq<i16>, cap: int, pos: int, n1: int, n2: int)
    requires
        0 < cap,
        0 <= pos <= h1.len(),
        h1.len() <= h2.len(),
        h2.subrange(0, h1.len() as int) == h1,
        0 < n1,
        0 <= n2,
        0 < stream_chunk(h1, cap, pos, n1).len(),
    ensures
        ({
            let r1 = rectified(h1.len() as int, cap, pos);
            let k1 = stream_chunk(h1, cap, pos, n1).len();
            let pos2 = r1 + k1;
            let r2 = rectified(h2.len() as int, cap, pos2);
            let k2 = stream_chunk(h2, cap, pos2, n2).len();
            &&& r2 >= pos2
            &&& h2.len() - pos2 <= cap ==> r2 == pos2
            &&& h2.len() - pos2 > cap ==> r2 == h2.len() - cap
            &&& forall|i: int| 0 <= i < k1 ==> stream_chunk(h1, cap, pos, n1)[i] == h2[r1 + i]
            &&& forall|i: int| 0 <= i < k2 ==> stream_chunk(h2, cap, pos2, n2)[i] == h2[r2 + i]
        }),
{
    let r1 = rectified(h1.len() as int, cap, pos);
    let k1 = stream_chunk(h1, cap, pos, n1).len();
    let pos2 = r1 + k1;
    let r2 = rectified(h2.len() as int, cap, pos2);
    let k2 = stream_chunk(h2, cap, pos2, n2).len();
    assert(0 <= r1 && k1 <= h1.len() - r1);
    assert(0 <= r2 && k2 <= h2.len() - r2);
    assert forall|i: int| 0 <= i < k1 implies stream_chunk(h1, cap, pos, n1)[i] == h2[r1 + i] by {
        assert(stream_chunk(h1, cap, pos, n1)[i] == h1[r1 + i]);
        assert(h2.subrange(0, h1.len() as int)[r1 + i] == h2[r1 + i]);
    }
    assert forall|i: int| 0 <= i < k2 implies stream_chunk(h2, cap, pos2, n2)[i] == h2[r2 + i] by {
        assert(stream_chunk(h2, cap, pos2, n2)[i] == h2.subrange(r2, r2 + k2)[i]);
    }
}

} // verus!
