//! Shared-memory protocol between the constraint producer and the execution core.
//!
//! The producer lays out a region (a memory-mapped file) as a header followed by
//! `max_payloads` fixed-size slots, and fills the slots in order, one constraint each.
//! The consumer validates the header of a region and reads constraints back, in order or
//! at any slot. The byte layout is in `wire`.
use vstd::prelude::*;
use vstd::bytes::*;

pub use crate::critical_path::constraint_engine::ConstraintSeqId;
use crate::critical_path::wire::{
    decode_header, decode_payload, encode_header, encode_payload, header_bytes,
    header_decodes_to, law_payload_round_trip, lemma_header_decode_unique,
    lemma_payload_bytes_len, lemma_payload_decode_unique, payload_bytes, payload_words,
    payload_decodes_to, zeros, HEADER_SIZE, PAYLOAD_SIZE,
};

verus! {

/// A risk-constraint payload as laid out in one slot of the shared region.
///
/// Floating-point quantities are held as their IEEE-754 binary64 bit patterns
/// (`f64::to_bits`).
#[derive(Clone, Copy, Debug, PartialEq, Eq)]
pub struct RiskConstraintPayload {
    /// Sequence ID: monotonically increasing constraint identifier.
    pub constraint_seq_id: u64,
    /// Maximum portfolio exposure (Value at Risk), binary64 bits.
    pub max_var_limit: u64,
    /// Maximum single-position concentration, binary64 bits.
    pub max_position_concentration: u64,
    /// Maximum intraday loss threshold (hard stop), binary64 bits.
    pub max_intraday_loss: u64,
    /// Maximum notional leverage allowed, binary64 bits.
    pub max_leverage: u64,
    /// Delta hedge ratio target, binary64 bits.
    pub delta_hedge_target: u64,
    /// Vega hedge ratio target, binary64 bits.
    pub vega_hedge_target: u64,
    /// Timestamp (Unix nanoseconds) of constraint generation.
    pub constraint_timestamp_ns: u64,
    /// Reserved for future extensions.
    pub reserved_a: [u64; 32],
}

/// Header of the shared region, written once by the producer and validated by the
/// consumer.
#[derive(Clone, Copy, Debug, PartialEq, Eq)]
pub struct MmapFileHeader {
    /// Magic validation token.
    pub magic: u32,
    /// Protocol version for compatibility tracking.
    pub protocol_version: u16,
    /// Reserved.
    pub _reserved_version: u16,
    /// Total region size in bytes.
    pub file_size_bytes: u64,
    /// Offset of the first payload slot.
    pub payload_offset: u64,
    /// Number of payload slots.
    pub max_payloads: u32,
    /// Padding.
    pub _padding: [u8; 20],
}

} // verus!

verus! {

/// Branded type for memory-mapped file handles.
#[derive(Clone, Copy, Debug, PartialEq, Eq, Structural)]
pub struct MmapHandle(pub usize);

/// Branded type for risk metric values (binary64 bits).
#[derive(Clone, Copy, Debug, PartialEq, Eq, Structural)]
pub struct RiskMetricValue(pub u64);

/// Header magic constant for region validation.
pub const MMAP_MAGIC: u32 = 0xDEADBEEF;

/// Protocol version of the region layout.
pub const PROTOCOL_VERSION: u16 = 1;

/// Largest number of payload slots a producer lays out.
pub const MAX_PAYLOADS: usize = 16384;

/// Result type for shared-region operations.
pub type MmapResult<T> = Result<T, MmapError>;

/// Shared-region protocol violations.
#[derive(Debug, Clone, Copy, PartialEq, Eq, Structural)]
pub enum MmapError {
    /// File open/create failed.
    FileIOError,
    /// Magic validation failed (file corruption or misalignment).
    MagicMismatch,
    /// Protocol version incompatible.
    VersionMismatch,
    /// Requested payload index out of bounds.
    PayloadIndexOutOfBounds,
    /// Mapping creation failed, or the mapping does not have the required size.
    MmapCreationFailed,
    /// Payload access violation (attempt to read beyond the mapped region).
    PayloadAccessViolation,
}

/// Declares `memmap2::MmapMut`, a writable memory mapping.
#[verifier::external_type_specification]
#[verifier::external_body]
pub struct ExMmapMut(memmap2::MmapMut);

/// Declares `memmap2::Mmap`, a read-only memory mapping.
#[verifier::external_type_specification]
#[verifier::external_body]
pub struct ExMmap(memmap2::Mmap);

/// Declares `std::io::Error`.
#[verifier::external_type_specification]
#[verifier::external_body]
pub struct ExIoError(std::io::Error);

/// The bytes of a writable mapping, as this process last wrote them. A file-backed mapping
/// whose file is modified from elsewhere is undefined behaviour for memmap2, so no other
/// writer is accounted for.
pub uninterp spec fn mapped_bytes(m: memmap2::MmapMut) -> Seq<u8>;

/// The bytes of a read-only mapping. They are fixed for the life of the mapping: memmap2
/// makes a file-backed mapping whose file is modified undefined behaviour.
pub uninterp spec fn mapped_ro_bytes(m: memmap2::Mmap) -> Seq<u8>;

/// Calls `len` on the bytes of a `memmap2::MmapMut` (through `Deref`): the length of the
/// mapping.
#[verifier::external_body]
fn mmap_mut_len(m: &memmap2::MmapMut) -> (len: usize)
    ensures
        len == mapped_bytes(*m).len(),
{
    m.len()
}

/// Calls `fill(0)` on the bytes of a `memmap2::MmapMut` (through `DerefMut`): every byte
/// of the mapping becomes zero, its length unchanged.
#[verifier::external_body]
fn mmap_mut_fill_zero(m: &mut memmap2::MmapMut)
    ensures
        mapped_bytes(*final(m)) == zeros(mapped_bytes(*old(m)).len()),
{
    m.fill(0u8)
}

/// Calls `copy_from_slice` on bytes `start..end` of a `memmap2::MmapMut` (through
/// `DerefMut`): those bytes become `bytes`, all others stay. `copy_from_slice` panics only
/// when the range lies outside the slice or differs in length from `bytes`, which
/// `requires` rules out.
#[verifier::external_body]
fn mmap_mut_write(m: &mut memmap2::MmapMut, start: usize, end: usize, bytes: &[u8])
    requires
        start <= end <= mapped_bytes(*old(m)).len(),
        end - start == bytes@.len(),
    ensures
        mapped_bytes(*final(m)) == mapped_bytes(*old(m)).subrange(0, start as int) + bytes@
            + mapped_bytes(*old(m)).subrange(end as int, mapped_bytes(*old(m)).len() as int),
{
    m[start..end].copy_from_slice(bytes)
}

/// Calls `memmap2::MmapMut::flush`: writes outstanding changes back to the file. Whether
/// it succeeds depends on the operating system, so nothing is stated of the result.
#[verifier::external_body]
fn mmap_mut_flush(m: &memmap2::MmapMut) -> std::result::Result<(), std::io::Error> {
    m.flush()
}

/// Calls `memmap2::MmapMut::make_read_only`: turns the writable mapping into a read-only
/// one over the same memory, so that on success the read-only mapping holds the bytes the
/// writable one held. Whether the system call succeeds depends on the operating system.
#[verifier::external_body]
fn mmap_mut_make_read_only(m: memmap2::MmapMut) -> (r: std::result::Result<
    memmap2::Mmap,
    std::io::Error,
>)
    ensures
        r matches Ok(ro) ==> mapped_ro_bytes(ro) == mapped_bytes(m),
{
    m.make_read_only()
}

/// Calls `len` on the bytes of a `memmap2::Mmap` (through `Deref`): the length of the
/// mapping.
#[verifier::external_body]
fn mmap_len(m: &memmap2::Mmap) -> (len: usize)
    ensures
        len == mapped_ro_bytes(*m).len(),
{
    m.len()
}

/// Borrows bytes `start..end` of a `memmap2::Mmap` (through `Deref`).
#[verifier::external_body]
fn mmap_bytes(m: &memmap2::Mmap, start: usize, end: usize) -> (bytes: &[u8])
    requires
        start <= end <= mapped_ro_bytes(*m).len(),
    ensures
        bytes@ == mapped_ro_bytes(*m).subrange(start as int, end as int),
{
    &m[start..end]
}

/// Size in bytes of a region of `n` payload slots.
pub open spec fn region_size(n: nat) -> nat {
    (HEADER_SIZE + PAYLOAD_SIZE * n) as nat
}

/// Offset of payload slot `i`.
pub open spec fn slot_offset(i: nat) -> nat {
    (HEADER_SIZE + PAYLOAD_SIZE * i) as nat
}

/// The header that a producer of `n` slots writes.
pub open spec fn producer_header_bytes(n: nat) -> Seq<u8> {
    spec_u32_to_le_bytes(MMAP_MAGIC) + spec_u16_to_le_bytes(PROTOCOL_VERSION)
        + spec_u16_to_le_bytes(0) + spec_u64_to_le_bytes(region_size(n) as u64)
        + spec_u64_to_le_bytes(HEADER_SIZE as u64) + spec_u32_to_le_bytes(n as u32) + zeros(36)
}

/// The slots holding `written`, one after the other.
pub open spec fn slots_bytes(written: Seq<RiskConstraintPayload>) -> Seq<u8>
    decreases written.len(),
{
    if written.len() == 0 {
        Seq::empty()
    } else {
        slots_bytes(written.drop_last()) + payload_bytes(written.last())
    }
}

/// The region of a producer of `n` slots that has written `written`: its header, the
/// written slots in order, and zero bytes in the slots not written yet.
pub open spec fn region_image(n: nat, written: Seq<RiskConstraintPayload>) -> Seq<u8> {
    producer_header_bytes(n) + slots_bytes(written) + zeros(
        (PAYLOAD_SIZE * (n - written.len())) as nat,
    )
}

/// The outcome of validating a decoded header: magic, then version, then payload offset.
pub open spec fn validated_header(h: MmapFileHeader) -> MmapResult<MmapFileHeader> {
    if h.magic != MMAP_MAGIC {
        Err(MmapError::MagicMismatch)
    } else if h.protocol_version != PROTOCOL_VERSION {
        Err(MmapError::VersionMismatch)
    } else if h.payload_offset != HEADER_SIZE as u64 {
        Err(MmapError::PayloadAccessViolation)
    } else {
        Ok(h)
    }
}

/// `result` is the outcome of reading slot `index` of `region`, whose header announces
/// `max_payloads` slots: `PayloadIndexOutOfBounds` when there is no such slot,
/// `PayloadAccessViolation` when the slot lies beyond the region, otherwise the payload
/// that the slot's bytes hold.
pub open spec fn slot_read_outcome(
    max_payloads: nat,
    region: Seq<u8>,
    index: nat,
    result: MmapResult<RiskConstraintPayload>,
) -> bool {
    if index >= max_payloads {
        result == Err::<RiskConstraintPayload, MmapError>(MmapError::PayloadIndexOutOfBounds)
    } else if slot_offset(index) + PAYLOAD_SIZE > region.len() {
        result == Err::<RiskConstraintPayload, MmapError>(MmapError::PayloadAccessViolation)
    } else {
        (result matches Ok(p) && payload_decodes_to(slot_bytes(region, index as int), p))
    }
}

/// A slot read has one outcome: two results that both are the outcome of reading the same
/// slot of the same region are equal.
pub proof fn law_slot_read_deterministic(
    max_payloads: nat,
    region: Seq<u8>,
    index: nat,
    r1: MmapResult<RiskConstraintPayload>,
    r2: MmapResult<RiskConstraintPayload>,
)
    requires
        slot_read_outcome(max_payloads, region, index, r1),
        slot_read_outcome(max_payloads, region, index, r2),
    ensures
        r1 == r2,
{
    if index < max_payloads && slot_offset(index) + PAYLOAD_SIZE <= region.len() {
        lemma_payload_decode_unique(slot_bytes(region, index as int), r1->Ok_0, r2->Ok_0);
    }
}

/// Length of the bytes of a sequence of payloads.
pub proof fn lemma_slots_bytes_len(written: Seq<RiskConstraintPayload>)
    ensures
        slots_bytes(written).len() == PAYLOAD_SIZE * written.len(),
    decreases written.len(),
{
    if written.len() > 0 {
        lemma_slots_bytes_len(written.drop_last());
        lemma_payload_bytes_len(written.last());
    }
}

/// Slot `i` of the bytes of a sequence of payloads holds payload `i`.
pub proof fn lemma_slots_bytes_slot(written: Seq<RiskConstraintPayload>, i: int)
    requires
        0 <= i < written.len(),
    ensures
        slots_bytes(written).subrange(PAYLOAD_SIZE * i, PAYLOAD_SIZE * i + PAYLOAD_SIZE)
            == payload_bytes(written[i]),
    decreases written.len(),
{
    let init = written.drop_last();
    lemma_slots_bytes_len(init);
    lemma_payload_bytes_len(written.last());
    let b = slots_bytes(written);
    if i == written.len() - 1 {
        assert(b.subrange(PAYLOAD_SIZE * i, PAYLOAD_SIZE * i + PAYLOAD_SIZE) =~= payload_bytes(
            written[i],
        ));
    } else {
        lemma_slots_bytes_slot(init, i);
        assert(b.subrange(PAYLOAD_SIZE * i, PAYLOAD_SIZE * i + PAYLOAD_SIZE) =~= slots_bytes(
            init,
        ).subrange(PAYLOAD_SIZE * i, PAYLOAD_SIZE * i + PAYLOAD_SIZE));
    }
}

/// Length of a producer's region.
pub proof fn lemma_region_image_len(n: nat, written: Seq<RiskConstraintPayload>)
    requires
        written.len() <= n,
    ensures
        region_image(n, written).len() == region_size(n),
{
    lemma_auto_spec_u16_to_from_le_bytes();
    lemma_auto_spec_u32_to_from_le_bytes();
    lemma_auto_spec_u64_to_from_le_bytes();
    lemma_slots_bytes_len(written);
    assert(PAYLOAD_SIZE * written.len() + PAYLOAD_SIZE * (n - written.len()) == PAYLOAD_SIZE
        * n) by (nonlinear_arith);
}

/// Writing the next payload into the next free slot of a producer's region gives the
/// region with that payload written.
pub proof fn lemma_region_image_write(
    n: nat,
    written: Seq<RiskConstraintPayload>,
    p: RiskConstraintPayload,
)
    requires
        written.len() < n,
    ensures
        ({
            let img = region_image(n, written);
            let off = slot_offset(written.len());
            &&& off + PAYLOAD_SIZE <= img.len()
            &&& img.subrange(0, off as int) + payload_bytes(p) + img.subrange(
                off + PAYLOAD_SIZE,
                img.len() as int,
            ) == region_image(n, written.push(p))
        }),
{
    let img = region_image(n, written);
    let k = written.len();
    let off = slot_offset(k);
    lemma_region_image_len(n, written);
    lemma_region_image_len(n, written.push(p));
    lemma_auto_spec_u16_to_from_le_bytes();
    lemma_auto_spec_u32_to_from_le_bytes();
    lemma_auto_spec_u64_to_from_le_bytes();
    lemma_slots_bytes_len(written);
    lemma_payload_bytes_len(p);
    assert(written.push(p).drop_last() =~= written);
    let rest = (PAYLOAD_SIZE * (n - k)) as nat;
    assert(rest == PAYLOAD_SIZE + PAYLOAD_SIZE * (n - (k + 1))) by (nonlinear_arith)
        requires
            rest == PAYLOAD_SIZE * (n - k),
            k < n,
    ;
    assert(img.subrange(0, off as int) =~= producer_header_bytes(n) + slots_bytes(written));
    assert(img.subrange(off + PAYLOAD_SIZE, img.len() as int) =~= zeros(
        (PAYLOAD_SIZE * (n - (k + 1))) as nat,
    ));
    assert(img.subrange(0, off as int) + payload_bytes(p) + img.subrange(
        off + PAYLOAD_SIZE,
        img.len() as int,
    ) =~= region_image(n, written.push(p)));
}

/// The bytes of slot `i` of a region.
pub open spec fn slot_bytes(region: Seq<u8>, i: int) -> Seq<u8> {
    region.subrange(HEADER_SIZE + PAYLOAD_SIZE * i, HEADER_SIZE + PAYLOAD_SIZE * i + PAYLOAD_SIZE)
}

/// What a consumer reads from a region laid out by a producer is what the producer
/// wrote: the region of `n` slots is `region_size(n)` bytes long; the header it holds
/// passes validation and announces `n` slots and that size; and every written slot lies
/// inside the region and holds exactly the payload written there.
pub proof fn law_consumer_reads_producer_writes(n: nat, written: Seq<RiskConstraintPayload>)
    requires
        1 <= n <= MAX_PAYLOADS,
        written.len() <= n,
    ensures
        region_image(n, written).len() == region_size(n),
        forall|h: MmapFileHeader|
            #![trigger header_decodes_to(region_image(n, written).subrange(0, HEADER_SIZE as int), h)]
            header_decodes_to(region_image(n, written).subrange(0, HEADER_SIZE as int), h)
                ==> validated_header(h) == Ok::<MmapFileHeader, MmapError>(h) && h.max_payloads
                == n && h.file_size_bytes == region_size(n),
        forall|i: int, p: RiskConstraintPayload|
            #![trigger payload_decodes_to(slot_bytes(region_image(n, written), i), p)]
            0 <= i < written.len() && payload_decodes_to(slot_bytes(region_image(n, written), i), p)
                ==> p == written[i],
        forall|i: int|
            0 <= i < n ==> #[trigger] slot_offset(i as nat) + PAYLOAD_SIZE <= region_size(n),
{
    lemma_auto_spec_u16_to_from_le_bytes();
    lemma_auto_spec_u32_to_from_le_bytes();
    lemma_auto_spec_u64_to_from_le_bytes();
    let img = region_image(n, written);
    lemma_region_image_len(n, written);
    lemma_slots_bytes_len(written);
    let hb = img.subrange(0, HEADER_SIZE as int);
    let prod = producer_header_bytes(n);
    assert(hb =~= prod);
    assert(hb.subrange(0, 4) =~= spec_u32_to_le_bytes(MMAP_MAGIC));
    assert(hb.subrange(4, 6) =~= spec_u16_to_le_bytes(PROTOCOL_VERSION));
    assert(hb.subrange(8, 16) =~= spec_u64_to_le_bytes(region_size(n) as u64));
    assert(hb.subrange(16, 24) =~= spec_u64_to_le_bytes(HEADER_SIZE as u64));
    assert(hb.subrange(24, 28) =~= spec_u32_to_le_bytes(n as u32));
    assert forall|i: int, p: RiskConstraintPayload|
        0 <= i < written.len() && #[trigger] payload_decodes_to(
            slot_bytes(region_image(n, written), i),
            p,
        ) implies p == written[i] by {
        lemma_slots_bytes_slot(written, i);
        assert(PAYLOAD_SIZE * i + PAYLOAD_SIZE <= PAYLOAD_SIZE * written.len()) by (nonlinear_arith)
            requires
                i < written.len(),
        ;
        assert(slot_bytes(img, i) =~= slots_bytes(written).subrange(
            PAYLOAD_SIZE * i,
            PAYLOAD_SIZE * i + PAYLOAD_SIZE,
        ));
        law_payload_round_trip(written[i]);
    }
    assert forall|i: int| 0 <= i < n implies #[trigger] slot_offset(i as nat) + PAYLOAD_SIZE
        <= region_size(n) by {
        assert(PAYLOAD_SIZE * i + PAYLOAD_SIZE <= PAYLOAD_SIZE * n) by (nonlinear_arith)
            requires
                i < n,
        ;
    }
}

/// Eight zero bytes hold the u64 zero.
proof fn lemma_zero_word()
    ensures
        spec_u64_from_le_bytes(zeros(8)) == 0,
{
    lemma_auto_spec_u64_to_from_le_bytes();
    spec_u64_to_le_bytes_to_open(0);
    assert(0u64 & 0xff == 0 && (0u64 >> 8) & 0xff == 0 && (0u64 >> 16) & 0xff == 0 && (0u64
        >> 24) & 0xff == 0 && (0u64 >> 32) & 0xff == 0 && (0u64 >> 40) & 0xff == 0 && (0u64 >> 48)
        & 0xff == 0 && (0u64 >> 56) & 0xff == 0) by (bit_vector);
    assert(spec_u64_to_le_bytes_open(0) =~= zeros(8));
}

/// Reading back a region that a producer of `n` slots laid out: a written slot gives the
/// payload written there, a slot not written yet gives the all-zero payload, and a slot
/// past `n` is refused with `PayloadIndexOutOfBounds`.
pub proof fn law_consumer_reads_back(
    n: nat,
    written: Seq<RiskConstraintPayload>,
    index: nat,
    result: MmapResult<RiskConstraintPayload>,
)
    requires
        1 <= n <= MAX_PAYLOADS,
        written.len() <= n,
        slot_read_outcome(n, region_image(n, written), index, result),
    ensures
        index < written.len() ==> result == Ok::<RiskConstraintPayload, MmapError>(
            written[index as int],
        ),
        written.len() <= index < n ==> (result matches Ok(p) && payload_words(p) == Seq::new(
            40,
            |k: int| 0u64,
        )),
        index >= n ==> result == Err::<RiskConstraintPayload, MmapError>(
            MmapError::PayloadIndexOutOfBounds,
        ),
{
    law_consumer_reads_producer_writes(n, written);
    let img = region_image(n, written);
    let i = index as int;
    if index < n {
        assert(slot_offset(index) + PAYLOAD_SIZE <= region_size(n));
        if index < written.len() {
            assert(payload_decodes_to(slot_bytes(img, i), result->Ok_0));
        } else {
            let p = result->Ok_0;
            lemma_auto_spec_u16_to_from_le_bytes();
            lemma_auto_spec_u32_to_from_le_bytes();
            lemma_auto_spec_u64_to_from_le_bytes();
            lemma_slots_bytes_len(written);
            let k = written.len();
            assert(PAYLOAD_SIZE * k <= PAYLOAD_SIZE * i) by (nonlinear_arith)
                requires
                    k <= i,
            ;
            assert(PAYLOAD_SIZE * i + PAYLOAD_SIZE <= PAYLOAD_SIZE * n) by (nonlinear_arith)
                requires
                    i < n,
            ;
            assert(slot_bytes(img, i) =~= zeros(512));
            lemma_zero_word();
            assert forall|j: int| 0 <= j < 40 implies #[trigger] payload_words(p)[j] == 0u64 by {
                assert(zeros(512).subrange(8 * j, 8 * j + 8) =~= zeros(8));
                assert(payload_words(p)[j] == crate::critical_path::wire::word_at(zeros(512), j));
            }
            assert(payload_words(p) =~= Seq::new(40, |k: int| 0u64));
        }
    }
}

/// Writing `c` through a producer of `capacity` slots that has written `written`: the
/// payloads written afterwards and the result.
pub open spec fn write_model(
    written: Seq<RiskConstraintPayload>,
    c: RiskConstraintPayload,
    capacity: nat,
) -> (Seq<RiskConstraintPayload>, MmapResult<ConstraintSeqId>) {
    if written.len() < capacity {
        (written.push(c), Ok(ConstraintSeqId(written.len() as u64)))
    } else {
        (written, Err(MmapError::PayloadIndexOutOfBounds))
    }
}

/// The payloads written after writing `cs` one by one through a producer of `capacity`
/// slots that has written `written`.
pub open spec fn write_all(
    written: Seq<RiskConstraintPayload>,
    cs: Seq<RiskConstraintPayload>,
    capacity: nat,
) -> Seq<RiskConstraintPayload>
    decreases cs.len(),
{
    if cs.len() == 0 {
        written
    } else {
        write_model(write_all(written, cs.drop_last(), capacity), cs.last(), capacity).0
    }
}

/// Writing a sequence of constraints through a fresh producer of `capacity` slots: the
/// `k`-th write (from 0) succeeds with slot ID `k` while `k < capacity` and is refused
/// with `PayloadIndexOutOfBounds` from then on, and the payloads written are the first
/// `min(cs.len(), capacity)` constraints, in order, one slot each.
pub proof fn law_write_sequence(cs: Seq<RiskConstraintPayload>, capacity: nat)
    requires
        capacity <= MAX_PAYLOADS,
    ensures
        write_all(Seq::empty(), cs, capacity) == cs.take(
            if cs.len() < capacity {
                cs.len() as int
            } else {
                capacity as int
            },
        ),
        forall|k: int|
            0 <= k < cs.len() ==> #[trigger] write_model(
                write_all(Seq::empty(), cs.take(k), capacity),
                cs[k],
                capacity,
            ).1 == if k < capacity {
                Ok::<ConstraintSeqId, MmapError>(ConstraintSeqId(k as u64))
            } else {
                Err::<ConstraintSeqId, MmapError>(MmapError::PayloadIndexOutOfBounds)
            },
    decreases cs.len(),
{
    if cs.len() > 0 {
        let init = cs.drop_last();
        law_write_sequence(init, capacity);
        assert(cs.take(cs.len() - 1) =~= init);
        if cs.len() <= capacity {
            assert(init.take(init.len() as int).push(cs.last()) =~= cs.take(cs.len() as int));
        } else {
            assert(init.take(capacity as int) =~= cs.take(capacity as int));
        }
        assert forall|k: int| 0 <= k < cs.len() implies #[trigger] write_model(
            write_all(Seq::empty(), cs.take(k), capacity),
            cs[k],
            capacity,
        ).1 == if k < capacity {
            Ok::<ConstraintSeqId, MmapError>(ConstraintSeqId(k as u64))
        } else {
            Err::<ConstraintSeqId, MmapError>(MmapError::PayloadIndexOutOfBounds)
        } by {
            if k < cs.len() - 1 {
                assert(init.take(k) =~= cs.take(k));
                assert(init[k] == cs[k]);
                assert(write_model(write_all(Seq::empty(), init.take(k), capacity), init[k], capacity).1
                    == if k < capacity {
                    Ok::<ConstraintSeqId, MmapError>(ConstraintSeqId(k as u64))
                } else {
                    Err::<ConstraintSeqId, MmapError>(MmapError::PayloadIndexOutOfBounds)
                });
            }
        }
    }
}

/// Producer: writes risk constraints into the slots of a writable mapping, in order.
pub struct MmapProducer {
    /// The writable mapping of the region.
    mmap: memmap2::MmapMut,
    /// Next slot to write.
    current_payload_index: usize,
    /// Number of slots of the region.
    max_payloads: usize,
    /// The payloads written so far, in slot order.
    written: Ghost<Seq<RiskConstraintPayload>>,
}

impl MmapProducer {
    /// Well-formedness: the capacity lies between 1 and `MAX_PAYLOADS`, the write position
    /// is the number of payloads written, and the region holds the header, the written
    /// payloads in slot order and zero bytes.
    pub closed spec fn wf(&self) -> bool {
        &&& 1 <= self.max_payloads <= MAX_PAYLOADS
        &&& self.current_payload_index == self.written@.len()
        &&& self.written@.len() <= self.max_payloads
        &&& mapped_bytes(self.mmap) == region_image(self.max_payloads as nat, self.written@)
    }

    /// The payloads written so far, in slot order.
    pub closed spec fn written(&self) -> Seq<RiskConstraintPayload> {
        self.written@
    }

    /// Number of slots of the region.
    pub closed spec fn capacity(&self) -> nat {
        self.max_payloads as nat
    }

    /// The bytes of the region.
    pub closed spec fn region(&self) -> Seq<u8> {
        mapped_bytes(self.mmap)
    }
}

impl MmapProducer {
    /// A well-formed producer's capacity lies between 1 and `MAX_PAYLOADS`, it has
    /// written at most that many payloads, and its region holds the header, the written
    /// payloads in slot order and zero bytes.
    pub proof fn lemma_wf_layout(&self)
        requires
            self.wf(),
        ensures
            1 <= self.capacity() <= MAX_PAYLOADS,
            self@.len() <= self.capacity(),
            self.region() == region_image(self.capacity(), self@),
    {
    }
}

impl View for MmapProducer {
    type V = Seq<RiskConstraintPayload>;

    open spec fn view(&self) -> Seq<RiskConstraintPayload> {
        self.written()
    }
}

impl MmapProducer {
    /// Size in bytes that the region of `max_payloads` slots must have, or
    /// `PayloadIndexOutOfBounds` when `max_payloads` is 0 or above `MAX_PAYLOADS`.
    pub fn required_file_size(max_payloads: usize) -> (size: MmapResult<usize>)
        ensures
            1 <= max_payloads <= MAX_PAYLOADS ==> size == Ok::<usize, MmapError>(
                region_size(max_payloads as nat) as usize,
            ),
            !(1 <= max_payloads <= MAX_PAYLOADS) ==> size == Err::<usize, MmapError>(
                MmapError::PayloadIndexOutOfBounds,
            ),
    {
        if max_payloads == 0 || max_payloads > MAX_PAYLOADS {
            return Err(MmapError::PayloadIndexOutOfBounds);
        }
        Ok(HEADER_SIZE + PAYLOAD_SIZE * max_payloads)
    }

    /// Lay out a region of `max_payloads` slots in `mmap`: zero it, then write the header.
    ///
    /// Refuses with `PayloadIndexOutOfBounds` when `max_payloads` is 0 or above
    /// `MAX_PAYLOADS`, and with `MmapCreationFailed` when the mapping is not exactly
    /// `required_file_size(max_payloads)` bytes long.
    pub fn new(mmap: memmap2::MmapMut, max_payloads: usize) -> (result: MmapResult<Self>)
        ensures
            !(1 <= max_payloads <= MAX_PAYLOADS) ==> result matches Err(
                MmapError::PayloadIndexOutOfBounds,
            ),
            1 <= max_payloads <= MAX_PAYLOADS && mapped_bytes(mmap).len() != region_size(
                max_payloads as nat,
            ) ==> result matches Err(MmapError::MmapCreationFailed),
            1 <= max_payloads <= MAX_PAYLOADS && mapped_bytes(mmap).len() == region_size(
                max_payloads as nat,
            ) ==> (result matches Ok(producer) && producer.wf() && producer@ == Seq::<RiskConstraintPayload>::empty()
                && producer.capacity() == max_payloads && producer.region() == region_image(
                max_payloads as nat,
                Seq::empty(),
            )),
    {
        if max_payloads == 0 || max_payloads > MAX_PAYLOADS {
            return Err(MmapError::PayloadIndexOutOfBounds);
        }
        let total_file_size = HEADER_SIZE + PAYLOAD_SIZE * max_payloads;
        let mut mmap = mmap;
        if mmap_mut_len(&mmap) != total_file_size {
            return Err(MmapError::MmapCreationFailed);
        }
        let header = MmapFileHeader {
            magic: MMAP_MAGIC,
            protocol_version: PROTOCOL_VERSION,
            _reserved_version: 0,
            file_size_bytes: total_file_size as u64,
            payload_offset: HEADER_SIZE as u64,
            max_payloads: max_payloads as u32,
            _padding: [0u8; 20],
        };
        mmap_mut_fill_zero(&mut mmap);
        let header_bytes_vec = encode_header(&header);
        mmap_mut_write(&mut mmap, 0, HEADER_SIZE, header_bytes_vec.as_slice());
        proof {
            let n = max_payloads as nat;
            let empty = Seq::<RiskConstraintPayload>::empty();
            lemma_region_image_len(n, empty);
            assert(header._padding@ =~= zeros(20));
            assert(header_bytes(header) =~= producer_header_bytes(n));
            assert(slots_bytes(empty) =~= Seq::<u8>::empty());
            assert(mapped_bytes(mmap) =~= region_image(n, empty));
        }
        Ok(MmapProducer {
            mmap,
            current_payload_index: 0,
            max_payloads,
            written: Ghost(Seq::empty()),
        })
    }

    /// Write `constraint` into the next free slot, and return the slot's index.
    ///
    /// Refuses with `PayloadIndexOutOfBounds`, leaving the producer unchanged, when every
    /// slot is written.
    pub fn write_constraint(&mut self, constraint: &RiskConstraintPayload) -> (result: MmapResult<
        ConstraintSeqId,
    >)
        requires
            old(self).wf(),
        ensures
            final(self).wf(),
            final(self).capacity() == old(self).capacity(),
            final(self)@.len() <= final(self).capacity(),
            final(self).region() == region_image(final(self).capacity(), final(self)@),
            (final(self)@, result) == write_model(old(self)@, *constraint, old(self).capacity()),
            old(self)@.len() >= old(self).capacity() ==> final(self).region() == old(self).region(),
    {
        if self.current_payload_index >= self.max_payloads {
            return Err(MmapError::PayloadIndexOutOfBounds);
        }
        let offset = HEADER_SIZE + PAYLOAD_SIZE * self.current_payload_index;
        proof {
            lemma_region_image_write(self.max_payloads as nat, self.written@, *constraint);
            lemma_region_image_len(self.max_payloads as nat, self.written@);
        }
        if offset + PAYLOAD_SIZE > mmap_mut_len(&self.mmap) {
            return Err(MmapError::PayloadAccessViolation);
        }
        let constraint_bytes = encode_payload(constraint);
        let seq_id = ConstraintSeqId(self.current_payload_index as u64);
        let ghost next = self.written@.push(*constraint);
        mmap_mut_write(&mut self.mmap, offset, offset + PAYLOAD_SIZE, constraint_bytes.as_slice());
        self.current_payload_index = self.current_payload_index + 1;
        self.written = Ghost(next);
        Ok(seq_id)
    }

    /// Flush the region to its file. The producer is unchanged; a failure of the
    /// operating system is reported as `FileIOError`.
    pub fn flush(&mut self) -> (result: MmapResult<()>)
        requires
            old(self).wf(),
        ensures
            final(self).wf(),
            final(self)@ == old(self)@,
            final(self).capacity() == old(self).capacity(),
            final(self).region() == old(self).region(),
            result matches Ok(()) || result matches Err(MmapError::FileIOError),
    {
        match mmap_mut_flush(&self.mmap) {
            Ok(()) => Ok(()),
            Err(_) => Err(MmapError::FileIOError),
        }
    }

    /// Give up the producer and hand back its mapping, holding the region as written.
    pub fn into_mapping(self) -> (mmap: memmap2::MmapMut)
        requires
            self.wf(),
        ensures
            mapped_bytes(mmap) == region_image(self.capacity(), self@),
    {
        self.mmap
    }

    /// Index of the next slot to write: the number of payloads written so far.
    pub fn is_current_payload_index(&self) -> (index: usize)
        requires
            self.wf(),
        ensures
            index == self@.len(),
    {
        self.current_payload_index
    }
}

/// Consumer: validates the header of a read-only mapping and reads constraints from its
/// slots.
pub struct MmapConsumer {
    /// The read-only mapping of the region.
    mmap: memmap2::Mmap,
    /// The validated header.
    header: MmapFileHeader,
    /// Next slot to read.
    current_payload_index: usize,
}

impl MmapConsumer {
    #[verifier::type_invariant]
    spec fn inv(&self) -> bool {
        &&& validated_header(self.header) == Ok::<MmapFileHeader, MmapError>(self.header)
        &&& self.current_payload_index <= self.header.max_payloads
        &&& mapped_ro_bytes(self.mmap).len() >= HEADER_SIZE
        &&& header_decodes_to(mapped_ro_bytes(self.mmap).subrange(0, HEADER_SIZE as int), self.header)
    }

    /// The validated header of the region.
    pub closed spec fn header(&self) -> MmapFileHeader {
        self.header
    }

    /// The next slot to read.
    pub closed spec fn index(&self) -> nat {
        self.current_payload_index as nat
    }

    /// The bytes of the region.
    pub closed spec fn region(&self) -> Seq<u8> {
        mapped_ro_bytes(self.mmap)
    }

    /// Validate the header held by 64 header bytes: `MagicMismatch`, `VersionMismatch`
    /// or `PayloadAccessViolation` (payload offset other than the header size), checked
    /// in that order; otherwise the decoded header.
    pub fn check_header(bytes: &[u8]) -> (result: MmapResult<MmapFileHeader>)
        requires
            bytes@.len() == HEADER_SIZE,
        ensures
            exists|h: MmapFileHeader| #[trigger] header_decodes_to(bytes@, h),
            forall|h: MmapFileHeader|
                #[trigger] header_decodes_to(bytes@, h) ==> result == validated_header(h),
    {
        let header = decode_header(bytes);
        proof {
            assert(header_decodes_to(bytes@, header));
            assert forall|h: MmapFileHeader| #[trigger] header_decodes_to(bytes@, h) implies h
                == header by {
                lemma_header_decode_unique(bytes@, h, header);
            }
        }
        if header.magic != MMAP_MAGIC {
            return Err(MmapError::MagicMismatch);
        }
        if header.protocol_version != PROTOCOL_VERSION {
            return Err(MmapError::VersionMismatch);
        }
        if header.payload_offset != HEADER_SIZE as u64 {
            return Err(MmapError::PayloadAccessViolation);
        }
        Ok(header)
    }

    /// Open a region through its read-only mapping: refuses with `PayloadAccessViolation`
    /// when the mapping is shorter than a header, otherwise validates the header held by
    /// its first 64 bytes as `check_header` does; the consumer starts at slot 0.
    pub fn new(mmap: memmap2::Mmap) -> (result: MmapResult<Self>)
        ensures
            mapped_ro_bytes(mmap).len() < HEADER_SIZE ==> result matches Err(
                MmapError::PayloadAccessViolation,
            ),
            mapped_ro_bytes(mmap).len() >= HEADER_SIZE ==> exists|h: MmapFileHeader|
                #[trigger] header_decodes_to(
                    mapped_ro_bytes(mmap).subrange(0, HEADER_SIZE as int),
                    h,
                ),
            forall|h: MmapFileHeader|
                mapped_ro_bytes(mmap).len() >= HEADER_SIZE && #[trigger] header_decodes_to(
                    mapped_ro_bytes(mmap).subrange(0, HEADER_SIZE as int),
                    h,
                ) ==> match result {
                    Ok(consumer) => validated_header(h) == Ok::<MmapFileHeader, MmapError>(
                        consumer.header(),
                    ) && consumer.index() == 0 && consumer.region() == mapped_ro_bytes(mmap),
                    Err(e) => validated_header(h) == Err::<MmapFileHeader, MmapError>(e),
                },
    {
        if mmap_len(&mmap) < HEADER_SIZE {
            return Err(MmapError::PayloadAccessViolation);
        }
        let header_slice = mmap_bytes(&mmap, 0, HEADER_SIZE);
        let checked = Self::check_header(header_slice);
        match checked {
            Ok(header) => {
                proof {
                    let h0 = choose|h: MmapFileHeader| #[trigger] header_decodes_to(header_slice@, h);
                    assert(validated_header(h0) == Ok::<MmapFileHeader, MmapError>(header));
                    assert(h0 == header);
                }
                Ok(MmapConsumer { mmap, header, current_payload_index: 0 })
            },
            Err(e) => Err(e),
        }
    }

    /// Open the region that `producer` laid out, through a read-only mapping of the same
    /// memory: the consumer starts at slot 0, holds the producer's region, and its header
    /// announces the producer's slot count. Fails with `MmapCreationFailed` only when the
    /// operating system refuses to make the mapping read-only.
    pub fn from_producer(producer: MmapProducer) -> (result: MmapResult<Self>)
        requires
            producer.wf(),
        ensures
            result matches Ok(consumer) ==> consumer.index() == 0 && consumer.region()
                == region_image(producer.capacity(), producer@) && consumer.header().max_payloads
                == producer.capacity(),
            result matches Err(e) ==> e == MmapError::MmapCreationFailed,
    {
        proof {
            producer.lemma_wf_layout();
            law_consumer_reads_producer_writes(producer.capacity(), producer@);
        }
        let ghost img = region_image(producer.capacity(), producer@);
        let mapping = producer.into_mapping();
        match mmap_mut_make_read_only(mapping) {
            Ok(read_only) => {
                let opened = Self::new(read_only);
                proof {
                    assert(mapped_ro_bytes(read_only).subrange(0, HEADER_SIZE as int) == img.subrange(
                        0,
                        HEADER_SIZE as int,
                    ));
                    let h = choose|h: MmapFileHeader| #[trigger] header_decodes_to(
                        mapped_ro_bytes(read_only).subrange(0, HEADER_SIZE as int),
                        h,
                    );
                    assert(header_decodes_to(img.subrange(0, HEADER_SIZE as int), h));
                }
                opened
            },
            Err(_) => Err(MmapError::MmapCreationFailed),
        }
    }

    /// Read the constraint in slot `index` of the region without moving the read
    /// position: `PayloadIndexOutOfBounds` when the header announces no such slot,
    /// `PayloadAccessViolation` when the slot lies beyond the mapping, otherwise the
    /// payload that bytes `64 + 512 * index` to `64 + 512 * (index + 1)` hold.
    pub fn read_constraint_at(&self, index: usize) -> (result: MmapResult<RiskConstraintPayload>)
        ensures
            slot_read_outcome(self.header().max_payloads as nat, self.region(), index as nat, result),
    {
        proof {
            use_type_invariant(self);
        }
        if index >= self.header.max_payloads as usize {
            return Err(MmapError::PayloadIndexOutOfBounds);
        }
        let offset = self.header.payload_offset + (index as u64) * (PAYLOAD_SIZE as u64);
        let len = mmap_len(&self.mmap);
        if offset + PAYLOAD_SIZE as u64 > len as u64 {
            return Err(MmapError::PayloadAccessViolation);
        }
        let start = offset as usize;
        let slot = mmap_bytes(&self.mmap, start, start + PAYLOAD_SIZE);
        let payload = decode_payload(slot);
        proof {
            assert(slot@ == slot_bytes(self.region(), index as int));
        }
        Ok(payload)
    }

    /// Read the constraint in the slot at the read position, as `read_constraint_at`,
    /// and on success move the read position to the next slot; on failure the consumer
    /// is unchanged.
    pub fn read_constraint(&mut self) -> (result: MmapResult<RiskConstraintPayload>)
        ensures
            final(self).header() == old(self).header(),
            final(self).region() == old(self).region(),
            slot_read_outcome(
                old(self).header().max_payloads as nat,
                old(self).region(),
                old(self).index(),
                result,
            ),
            result is Ok ==> final(self).index() == old(self).index() + 1,
            result is Err ==> final(self).index() == old(self).index(),
    {
        proof {
            use_type_invariant(&*self);
        }
        let result = self.read_constraint_at(self.current_payload_index);
        if result.is_ok() {
            self.current_payload_index = self.current_payload_index + 1;
        }
        result
    }

    /// Move the read position to slot `index`; `PayloadIndexOutOfBounds`, with the
    /// consumer unchanged, when the header announces no such slot.
    pub fn seek_to_index(&mut self, index: usize) -> (result: MmapResult<()>)
        ensures
            final(self).header() == old(self).header(),
            final(self).region() == old(self).region(),
            index < old(self).header().max_payloads ==> result == Ok::<(), MmapError>(())
                && final(self).index() == index,
            index >= old(self).header().max_payloads ==> result == Err::<(), MmapError>(
                MmapError::PayloadIndexOutOfBounds,
            ) && final(self).index() == old(self).index(),
    {
        proof {
            use_type_invariant(&*self);
        }
        if index >= self.header.max_payloads as usize {
            return Err(MmapError::PayloadIndexOutOfBounds);
        }
        self.current_payload_index = index;
        Ok(())
    }

    /// The read position.
    pub fn is_current_payload_index(&self) -> (index: usize)
        ensures
            index == self.index(),
    {
        self.current_payload_index
    }

    /// Number of slots that the header announces.
    pub fn has_max_payloads(&self) -> (n: usize)
        ensures
            n == self.header().max_payloads,
    {
        self.header.max_payloads as usize
    }
}

} // verus!
