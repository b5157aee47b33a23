//! Bounded single-producer single-consumer ring buffer of risk-constraint messages.
//!
//! The buffer is a fixed array of `CAPACITY` slots, `CAPACITY` a power of two, so that a
//! position is turned into a slot by masking with `CAPACITY - 1`. The producer and the
//! consumer each own a 64-bit position that only ever moves forward (wrapping at 2^64);
//! the number of queued messages is their wrapping difference, which never exceeds
//! `CAPACITY`. Pushing and popping take the queue by exclusive reference, so the
//! positions are plain integers. The abstract view of a queue is the sequence of queued
//! messages, oldest first; the queue holds up to `CAPACITY` of them.
use vstd::prelude::*;

verus! {

/// Branded type for queue element indices.
#[derive(Clone, Copy, Debug, PartialEq, Eq)]
pub struct QueueIndex(pub u32);

/// Branded type for element counts.
#[derive(Clone, Copy, Debug, PartialEq, Eq, PartialOrd)]
pub struct ElementCount(pub u32);

/// Result type for queue operations.
pub type QueueResult<T> = Result<T, QueueError>;

/// Queue protocol violations.
#[derive(Debug, Clone, Copy, PartialEq, Eq, Structural)]
pub enum QueueError {
    /// The queue holds `CAPACITY` messages; nothing more can be pushed.
    QueueFull,
    /// The queue holds no message; nothing can be popped.
    QueueEmpty,
    /// Element size mismatch during push/pop.
    ElementSizeMismatch,
}

/// A risk-constraint message as carried by the queue.
///
/// Floating-point quantities travel as their IEEE-754 binary64 bit patterns
/// (`f64::to_bits`), so that the queue moves them bit for bit.
#[derive(Clone, Copy, Debug, PartialEq, Eq)]
pub struct RiskConstraintMessage {
    /// Constraint sequence ID.
    pub constraint_seq_id: u64,
    /// Maximum portfolio VaR limit (binary64 bits).
    pub max_var_limit: u64,
    /// Maximum position concentration (binary64 bits).
    pub max_position_concentration: u64,
    /// Maximum intraday loss threshold (binary64 bits).
    pub max_intraday_loss: u64,
    /// Maximum leverage (binary64 bits).
    pub max_leverage: u64,
    /// Delta hedge target (binary64 bits).
    pub delta_hedge_target: u64,
    /// Vega hedge target (binary64 bits).
    pub vega_hedge_target: u64,
    /// Message timestamp (nanoseconds).
    pub message_timestamp_ns: u64,
    /// Reserved for extensions.
    pub reserved: [u64; 24],
}

/// Producer-owned position, padded to keep it apart from the consumer's.
struct ProducerState {
    /// Next position to write (wrapping 64-bit counter).
    write_pos: u64,
    _padding: [u64; 15],
}

/// Consumer-owned position, padded to keep it apart from the producer's.
struct ConsumerState {
    /// Next position to read (wrapping 64-bit counter).
    read_pos: u64,
    _padding: [u64; 15],
}

/// `n` is a positive power of two.
pub open spec fn is_power_of_two(n: usize) -> bool {
    n > 0 && n & ((n - 1) as usize) == 0
}

/// Number of positions from `read` forward to `write`, modulo 2^64.
pub open spec fn positions_between(write: u64, read: u64) -> int {
    if write >= read {
        write - read
    } else {
        write - read + 0x1_0000_0000_0000_0000
    }
}

/// The position `i` steps after `p`, modulo 2^64 (for `0 <= i < 2^64`).
pub open spec fn position_after(p: u64, i: int) -> u64 {
    if p + i >= 0x1_0000_0000_0000_0000 {
        (p + i - 0x1_0000_0000_0000_0000) as u64
    } else {
        (p + i) as u64
    }
}

/// The slot of the buffer that position `p` maps to under `mask`.
pub open spec fn slot_of(p: u64, mask: u64) -> int {
    (p & mask) as int
}

/// A masked position never exceeds the mask.
proof fn lemma_slot_bound(p: u64, m: u64)
    ensures
        p & m <= m,
{
    assert(p & m <= m) by (bit_vector);
}

/// Two positions that land in the same slot are a multiple of the slot count apart.
proof fn lemma_same_slot_difference(a: u64, b: u64, d: u64, m: u64)
    requires
        m < 0x8000_0000_0000_0000,
        m & ((m + 1) as u64) == 0,
        a & m == b & m,
        a + d == b || a + d == b + 0x1_0000_0000_0000_0000,
    ensures
        d & m == 0,
{
    assert(m < 0x8000_0000_0000_0000 && m & ((m + 1) as u64) == 0 && a & m == b & m && (a + d
        == b || a + d == b + 0x1_0000_0000_0000_0000) ==> d & m == 0) by (bit_vector);
}

/// A nonzero distance below the slot count is not a multiple of it.
proof fn lemma_small_distance_nonzero_slot(d: u64, m: u64)
    requires
        m < 0x8000_0000_0000_0000,
        m & ((m + 1) as u64) == 0,
        0 < d <= m,
    ensures
        d & m != 0,
{
    assert(m < 0x8000_0000_0000_0000 && m & ((m + 1) as u64) == 0 && 0 < d <= m ==> d & m
        != 0) by (bit_vector);
}

/// Positions fewer than `mask + 1` apart land in different slots.
proof fn lemma_distinct_slots(r: u64, i: int, j: int, m: u64)
    requires
        m < 0x8000_0000_0000_0000,
        m & ((m + 1) as u64) == 0,
        0 <= i < j,
        j - i <= m,
        j < 0x1_0000_0000_0000_0000,
    ensures
        slot_of(position_after(r, i), m) != slot_of(position_after(r, j), m),
{
    let a = position_after(r, i);
    let b = position_after(r, j);
    let d = (j - i) as u64;
    assert(a + d == b || a + d == b + 0x1_0000_0000_0000_0000);
    if a & m == b & m {
        lemma_same_slot_difference(a, b, d, m);
        lemma_small_distance_nonzero_slot(d, m);
    }
}

/// Pushing `m` onto a queue holding `q` with room for `capacity` messages: the queue
/// afterwards and the result.
pub open spec fn push_model(
    q: Seq<RiskConstraintMessage>,
    m: RiskConstraintMessage,
    capacity: nat,
) -> (Seq<RiskConstraintMessage>, QueueResult<()>) {
    if q.len() < capacity {
        (q.push(m), Ok(()))
    } else {
        (q, Err(QueueError::QueueFull))
    }
}

/// Popping from a queue holding `q`: the queue afterwards and the result.
pub open spec fn pop_model(q: Seq<RiskConstraintMessage>) -> (
    Seq<RiskConstraintMessage>,
    QueueResult<RiskConstraintMessage>,
) {
    if q.len() > 0 {
        (q.drop_first(), Ok(q[0]))
    } else {
        (q, Err(QueueError::QueueEmpty))
    }
}

/// Peeking at a queue holding `q`.
pub open spec fn peek_model(q: Seq<RiskConstraintMessage>) -> QueueResult<RiskConstraintMessage> {
    if q.len() > 0 {
        Ok(q[0])
    } else {
        Err(QueueError::QueueEmpty)
    }
}

/// The queue after pushing `ms` one by one onto a queue holding `q`.
pub open spec fn push_all(
    q: Seq<RiskConstraintMessage>,
    ms: Seq<RiskConstraintMessage>,
    capacity: nat,
) -> Seq<RiskConstraintMessage>
    decreases ms.len(),
{
    if ms.len() == 0 {
        q
    } else {
        push_model(push_all(q, ms.drop_last(), capacity), ms.last(), capacity).0
    }
}

/// Every push of `ms`, one by one onto a queue holding `q`, succeeds.
pub open spec fn push_all_succeeds(
    q: Seq<RiskConstraintMessage>,
    ms: Seq<RiskConstraintMessage>,
    capacity: nat,
) -> bool
    decreases ms.len(),
{
    ms.len() == 0 || (push_all_succeeds(q, ms.drop_last(), capacity) && push_model(
        push_all(q, ms.drop_last(), capacity),
        ms.last(),
        capacity,
    ).1 == Ok::<(), QueueError>(()))
}

/// The messages returned by `n` successive pops from a queue holding `q`, as long as
/// they succeed.
pub open spec fn pop_n(q: Seq<RiskConstraintMessage>, n: nat) -> Seq<RiskConstraintMessage>
    decreases n,
{
    if n == 0 {
        Seq::empty()
    } else {
        match pop_model(q).1 {
            Ok(m) => seq![m] + pop_n(pop_model(q).0, (n - 1) as nat),
            Err(_) => Seq::empty(),
        }
    }
}

/// The queue left after `n` successive pops from a queue holding `q`.
pub open spec fn after_pops(q: Seq<RiskConstraintMessage>, n: nat) -> Seq<RiskConstraintMessage>
    decreases n,
{
    if n == 0 {
        q
    } else {
        after_pops(pop_model(q).0, (n - 1) as nat)
    }
}

/// First in, first out: pushing up to `capacity` messages onto an empty queue succeeds
/// every time, popping as many times then returns them in the order they were pushed,
/// and the queue is empty afterwards, so that the next pop is refused with `QueueEmpty`.
pub proof fn law_fifo(ms: Seq<RiskConstraintMessage>, capacity: nat)
    requires
        ms.len() <= capacity,
    ensures
        push_all_succeeds(Seq::empty(), ms, capacity),
        push_all(Seq::empty(), ms, capacity) == ms,
        pop_n(push_all(Seq::empty(), ms, capacity), ms.len()) == ms,
        after_pops(push_all(Seq::empty(), ms, capacity), ms.len()) == Seq::<
            RiskConstraintMessage,
        >::empty(),
        pop_model(after_pops(push_all(Seq::empty(), ms, capacity), ms.len())).1 == Err::<
            RiskConstraintMessage,
            QueueError,
        >(QueueError::QueueEmpty),
{
    lemma_push_all_from_empty(ms, capacity);
    lemma_pop_n_all(ms);
    lemma_after_pops_all(ms);
}

proof fn lemma_after_pops_all(q: Seq<RiskConstraintMessage>)
    ensures
        after_pops(q, q.len()) == Seq::<RiskConstraintMessage>::empty(),
    decreases q.len(),
{
    if q.len() > 0 {
        lemma_after_pops_all(q.drop_first());
    } else {
        assert(q =~= Seq::<RiskConstraintMessage>::empty());
    }
}

proof fn lemma_push_all_from_empty(ms: Seq<RiskConstraintMessage>, capacity: nat)
    requires
        ms.len() <= capacity,
    ensures
        push_all_succeeds(Seq::empty(), ms, capacity),
        push_all(Seq::empty(), ms, capacity) == ms,
    decreases ms.len(),
{
    if ms.len() > 0 {
        lemma_push_all_from_empty(ms.drop_last(), capacity);
        assert(ms.drop_last().push(ms.last()) =~= ms);
    }
}

proof fn lemma_pop_n_all(q: Seq<RiskConstraintMessage>)
    ensures
        pop_n(q, q.len()) == q,
    decreases q.len(),
{
    if q.len() > 0 {
        lemma_pop_n_all(q.drop_first());
        assert(seq![q[0]] + q.drop_first() =~= q);
    }
}

/// The queue never holds more than its capacity: a push onto a queue within its
/// capacity leaves it within its capacity, and a push onto a full queue is refused with
/// `QueueFull`, leaving it as it was.
pub proof fn law_bounded(q: Seq<RiskConstraintMessage>, m: RiskConstraintMessage, capacity: nat)
    requires
        q.len() <= capacity,
    ensures
        push_model(q, m, capacity).0.len() <= capacity,
        q.len() == capacity ==> push_model(q, m, capacity) == (
            q,
            Err::<(), QueueError>(QueueError::QueueFull),
        ),
{
}

/// Peeking returns what popping would return, and a message pushed onto an empty queue
/// is the next one peeked and popped.
pub proof fn law_peek_agrees_with_pop(
    q: Seq<RiskConstraintMessage>,
    m: RiskConstraintMessage,
    capacity: nat,
)
    requires
        capacity >= 1,
    ensures
        peek_model(q) == pop_model(q).1,
        peek_model(push_model(Seq::empty(), m, capacity).0) == Ok::<
            RiskConstraintMessage,
            QueueError,
        >(m),
        pop_model(push_model(Seq::empty(), m, capacity).0) == (
            Seq::<RiskConstraintMessage>::empty(),
            Ok::<RiskConstraintMessage, QueueError>(m),
        ),
{
    assert(Seq::<RiskConstraintMessage>::empty().push(m).drop_first() =~= Seq::<
        RiskConstraintMessage,
    >::empty());
}

/// Single-Producer Single-Consumer ring buffer with `CAPACITY` slots.
pub struct SpscRingBuffer<const CAPACITY: usize> {
    /// Slot storage.
    buffer: [RiskConstraintMessage; CAPACITY],
    /// Producer state.
    producer: ProducerState,
    /// Consumer state.
    consumer: ConsumerState,
    /// `CAPACITY - 1`: a position masked with it is its slot.
    capacity_mask: usize,
}

impl<const CAPACITY: usize> SpscRingBuffer<CAPACITY> {
    #[verifier::type_invariant]
    spec fn inv(&self) -> bool {
        &&& is_power_of_two(CAPACITY)
        &&& self.capacity_mask == CAPACITY - 1
        &&& positions_between(self.producer.write_pos, self.consumer.read_pos) <= CAPACITY
    }

    /// The mask as a 64-bit value.
    spec fn mask(&self) -> u64 {
        self.capacity_mask as u64
    }

    /// The queued messages, oldest first.
    pub closed spec fn queued(&self) -> Seq<RiskConstraintMessage> {
        Seq::new(
            positions_between(self.producer.write_pos, self.consumer.read_pos) as nat,
            |i: int| self.buffer@[slot_of(position_after(self.consumer.read_pos, i), self.mask())],
        )
    }

    /// Facts about the mask that follow from the capacity being a power of two.
    proof fn lemma_mask_facts(&self)
        requires
            self.inv(),
        ensures
            self.mask() < 0x8000_0000_0000_0000,
            self.mask() & ((self.mask() + 1) as u64) == 0,
            self.mask() + 1 == CAPACITY,
    {
        let c = CAPACITY;
        let m = self.capacity_mask;
        assert(c > 0 && c & ((c - 1) as usize) == 0 && m == (c - 1) as usize ==> m
            < 0x8000_0000_0000_0000 && (m as u64) & (((m as u64) + 1) as u64) == 0)
            by (bit_vector);
    }
}

impl<const CAPACITY: usize> View for SpscRingBuffer<CAPACITY> {
    type V = Seq<RiskConstraintMessage>;

    open spec fn view(&self) -> Seq<RiskConstraintMessage> {
        self.queued()
    }
}

impl<const CAPACITY: usize> SpscRingBuffer<CAPACITY> {
    /// Create an empty ring buffer.
    pub fn new() -> (queue: Self)
        requires
            is_power_of_two(CAPACITY),
        ensures
            queue@ == Seq::<RiskConstraintMessage>::empty(),
    {
        let capacity_mask = CAPACITY - 1;
        let blank = RiskConstraintMessage {
            constraint_seq_id: 0,
            max_var_limit: 0,
            max_position_concentration: 0,
            max_intraday_loss: 0,
            max_leverage: 0,
            delta_hedge_target: 0,
            vega_hedge_target: 0,
            message_timestamp_ns: 0,
            reserved: [0; 24],
        };
        let buffer = [blank; CAPACITY];
        let queue = SpscRingBuffer {
            buffer,
            producer: ProducerState { write_pos: 0, _padding: [0; 15] },
            consumer: ConsumerState { read_pos: 0, _padding: [0; 15] },
            capacity_mask,
        };
        assert(queue.queued() =~= Seq::<RiskConstraintMessage>::empty());
        queue
    }

    /// Push a message at the back of the queue (producer side).
    ///
    /// Succeeds exactly when fewer than `CAPACITY` messages are queued; a full queue is
    /// left unchanged.
    pub fn push(&mut self, message: &RiskConstraintMessage) -> (result: QueueResult<()>)
        ensures
            (final(self)@, result) == push_model(old(self)@, *message, CAPACITY as nat),
            final(self)@.len() <= CAPACITY,
    {
        proof {
            use_type_invariant(&*self);
            self.lemma_mask_facts();
        }
        let write_pos = self.producer.write_pos;
        let read_pos = self.consumer.read_pos;
        let depth = write_pos.wrapping_sub(read_pos);
        let mask = self.capacity_mask as u64;
        if depth > mask {
            return Err(QueueError::QueueFull);
        }
        let ghost old_view = self@;
        let ghost m = mask;
        let index = (write_pos & mask) as usize;
        proof {
            lemma_slot_bound(write_pos, mask);
            assert(write_pos == position_after(read_pos, depth as int));
        }
        self.buffer[index] = *message;
        self.producer.write_pos = write_pos.wrapping_add(1);
        proof {
            let new_view = self@;
            assert(new_view.len() == old_view.len() + 1);
            assert forall|i: int| 0 <= i < old_view.len() implies new_view[i] == old_view[i] by {
                let k = slot_of(position_after(read_pos, i), m);
                lemma_distinct_slots(read_pos, i, depth as int, m);
                lemma_slot_bound(position_after(read_pos, i), m);
                assert(self.buffer@[k] == old(self).buffer@[k]);
            }
            assert(new_view =~= old_view.push(*message));
        }
        Ok(())
    }

    /// Pop the message at the front of the queue (consumer side).
    ///
    /// Succeeds exactly when the queue is not empty, and returns its oldest message; an
    /// empty queue is left unchanged.
    pub fn pop(&mut self) -> (result: QueueResult<RiskConstraintMessage>)
        ensures
            (final(self)@, result) == pop_model(old(self)@),
            final(self)@.len() <= CAPACITY,
    {
        proof {
            use_type_invariant(&*self);
            self.lemma_mask_facts();
        }
        let read_pos = self.consumer.read_pos;
        let write_pos = self.producer.write_pos;
        if read_pos == write_pos {
            return Err(QueueError::QueueEmpty);
        }
        let ghost old_view = self@;
        let mask = self.capacity_mask as u64;
        let index = (read_pos & mask) as usize;
        proof {
            lemma_slot_bound(read_pos, mask);
        }
        let message = self.buffer[index];
        self.consumer.read_pos = read_pos.wrapping_add(1);
        proof {
            assert(self@ =~= old_view.drop_first());
        }
        Ok(message)
    }

    /// Read the message at the front of the queue without removing it.
    pub fn peek(&self) -> (result: QueueResult<RiskConstraintMessage>)
        ensures
            result == peek_model(self@),
    {
        proof {
            use_type_invariant(self);
            self.lemma_mask_facts();
        }
        let read_pos = self.consumer.read_pos;
        let write_pos = self.producer.write_pos;
        if read_pos == write_pos {
            return Err(QueueError::QueueEmpty);
        }
        let mask = self.capacity_mask as u64;
        let index = (read_pos & mask) as usize;
        proof {
            lemma_slot_bound(read_pos, mask);
        }
        Ok(self.buffer[index])
    }

    /// Number of messages currently queued, as a `u32` (truncated above `u32::MAX`).
    pub fn is_current_depth(&self) -> (depth: u32)
        ensures
            depth == self@.len() as u32,
            self@.len() <= CAPACITY,
    {
        proof {
            use_type_invariant(self);
        }
        let write_pos = self.producer.write_pos;
        let read_pos = self.consumer.read_pos;
        #[verifier::truncate]
        (write_pos.wrapping_sub(read_pos) as u32)
    }

    /// Whether no message is queued.
    pub fn is_empty(&self) -> (empty: bool)
        ensures
            empty == (self@.len() == 0),
    {
        self.consumer.read_pos == self.producer.write_pos
    }

    /// Whether `CAPACITY` messages are queued, so that a push would be refused.
    pub fn is_full(&self) -> (full: bool)
        ensures
            full == (self@.len() == CAPACITY),
    {
        proof {
            use_type_invariant(self);
            self.lemma_mask_facts();
        }
        let write_pos = self.producer.write_pos;
        let read_pos = self.consumer.read_pos;
        let depth = write_pos.wrapping_sub(read_pos);
        depth > self.capacity_mask as u64
    }

    /// The number of slots.
    pub fn has_capacity(&self) -> (capacity: usize)
        ensures
            capacity == CAPACITY,
    {
        CAPACITY
    }
}

} // verus!
