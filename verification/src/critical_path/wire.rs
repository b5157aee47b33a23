//! Byte layout of the shared region: a 64-byte header followed by 512-byte payload slots,
//! every integer little-endian.
//!
//! Header: magic (u32, bytes 0..4), protocol version (u16, 4..6), reserved (u16, 6..8),
//! file size (u64, 8..16), payload offset (u64, 16..24), maximum payloads (u32, 24..28),
//! padding (20 bytes, 28..48), then zero bytes up to 64.
//!
//! Payload slot: forty u64 words (the eight scalar fields in declaration order, then the
//! thirty-two reserved words), 320 bytes, then zero bytes up to 512.
use vstd::prelude::*;
use vstd::bytes::*;
use vstd::slice::slice_subrange;

use crate::critical_path::ipc_mmap::{MmapFileHeader, RiskConstraintPayload};

verus! {

/// Size in bytes of the region header.
pub const HEADER_SIZE: usize = 64;

/// Size in bytes of one payload slot.
pub const PAYLOAD_SIZE: usize = 512;

/// Number of u64 words that a payload is made of.
pub const PAYLOAD_WORDS: usize = 40;

/// `n` zero bytes.
pub open spec fn zeros(n: nat) -> Seq<u8> {
    Seq::new(n, |i: int| 0u8)
}

/// The little-endian bytes of a sequence of u64 words, one after the other.
pub open spec fn words_bytes(words: Seq<u64>) -> Seq<u8>
    decreases words.len(),
{
    if words.len() == 0 {
        Seq::empty()
    } else {
        words_bytes(words.drop_last()) + spec_u64_to_le_bytes(words.last())
    }
}

/// The u64 stored little-endian at word `k` of `bytes`.
pub open spec fn word_at(bytes: Seq<u8>, k: int) -> u64 {
    spec_u64_from_le_bytes(bytes.subrange(8 * k, 8 * k + 8))
}

/// The forty words of a payload, in layout order.
pub open spec fn payload_words(p: RiskConstraintPayload) -> Seq<u64> {
    seq![
        p.constraint_seq_id,
        p.max_var_limit,
        p.max_position_concentration,
        p.max_intraday_loss,
        p.max_leverage,
        p.delta_hedge_target,
        p.vega_hedge_target,
        p.constraint_timestamp_ns,
    ] + p.reserved_a@
}

/// The 512 bytes of the slot that holds `p`.
pub open spec fn payload_bytes(p: RiskConstraintPayload) -> Seq<u8> {
    words_bytes(payload_words(p)) + zeros(192)
}

/// `p` is what the slot bytes `bytes` hold.
pub open spec fn payload_decodes_to(bytes: Seq<u8>, p: RiskConstraintPayload) -> bool {
    &&& bytes.len() == PAYLOAD_SIZE
    &&& payload_words(p) == Seq::new(PAYLOAD_WORDS as nat, |k: int| word_at(bytes, k))
}

/// The 64 bytes of the header `h`.
pub open spec fn header_bytes(h: MmapFileHeader) -> Seq<u8> {
    spec_u32_to_le_bytes(h.magic) + spec_u16_to_le_bytes(h.protocol_version)
        + spec_u16_to_le_bytes(h._reserved_version) + spec_u64_to_le_bytes(h.file_size_bytes)
        + spec_u64_to_le_bytes(h.payload_offset) + spec_u32_to_le_bytes(h.max_payloads)
        + h._padding@ + zeros(16)
}

/// `h` is what the header bytes `bytes` hold.
pub open spec fn header_decodes_to(bytes: Seq<u8>, h: MmapFileHeader) -> bool {
    &&& bytes.len() == HEADER_SIZE
    &&& h.magic == spec_u32_from_le_bytes(bytes.subrange(0, 4))
    &&& h.protocol_version == spec_u16_from_le_bytes(bytes.subrange(4, 6))
    &&& h._reserved_version == spec_u16_from_le_bytes(bytes.subrange(6, 8))
    &&& h.file_size_bytes == spec_u64_from_le_bytes(bytes.subrange(8, 16))
    &&& h.payload_offset == spec_u64_from_le_bytes(bytes.subrange(16, 24))
    &&& h.max_payloads == spec_u32_from_le_bytes(bytes.subrange(24, 28))
    &&& h._padding@ == bytes.subrange(28, 48)
}

/// Length of the bytes of a sequence of words.
pub proof fn lemma_words_bytes_len(words: Seq<u64>)
    ensures
        words_bytes(words).len() == 8 * words.len(),
    decreases words.len(),
{
    lemma_auto_spec_u64_to_from_le_bytes();
    if words.len() > 0 {
        lemma_words_bytes_len(words.drop_last());
    }
}

/// Word `k` of the bytes of a sequence of words is that word.
pub proof fn lemma_words_bytes_word(words: Seq<u64>, k: int)
    requires
        0 <= k < words.len(),
    ensures
        words_bytes(words).subrange(8 * k, 8 * k + 8) == spec_u64_to_le_bytes(words[k]),
        word_at(words_bytes(words), k) == words[k],
    decreases words.len(),
{
    lemma_auto_spec_u64_to_from_le_bytes();
    let init = words.drop_last();
    lemma_words_bytes_len(init);
    let b = words_bytes(words);
    if k == words.len() - 1 {
        assert(b.subrange(8 * k, 8 * k + 8) =~= spec_u64_to_le_bytes(words[k]));
    } else {
        lemma_words_bytes_word(init, k);
        assert(b.subrange(8 * k, 8 * k + 8) =~= words_bytes(init).subrange(8 * k, 8 * k + 8));
    }
}

/// Appending one word appends its little-endian bytes.
pub proof fn lemma_words_bytes_push(words: Seq<u64>, w: u64)
    ensures
        words_bytes(words.push(w)) == words_bytes(words) + spec_u64_to_le_bytes(w),
{
    assert(words.push(w).drop_last() =~= words);
}

/// A slot is 512 bytes long.
pub proof fn lemma_payload_bytes_len(p: RiskConstraintPayload)
    ensures
        payload_bytes(p).len() == PAYLOAD_SIZE,
{
    lemma_words_bytes_len(payload_words(p));
}

/// Append the little-endian bytes of `x` to `out`.
fn push_u64_le(out: &mut Vec<u8>, x: u64)
    ensures
        final(out)@ == old(out)@ + spec_u64_to_le_bytes(x),
{
    let mut bytes = u64_to_le_bytes(x);
    out.append(&mut bytes);
}

/// Append `n` zero bytes to `out`.
fn push_zeros(out: &mut Vec<u8>, n: usize)
    ensures
        final(out)@ == old(out)@ + zeros(n as nat),
{
    let ghost start = out@;
    let mut i: usize = 0;
    while i < n
        invariant
            i <= n,
            out@ == start + zeros(i as nat),
        decreases n - i,
    {
        out.push(0u8);
        i = i + 1;
        assert(out@ =~= start + zeros(i as nat));
    }
}

/// Encode a payload as the 512 bytes of its slot.
pub fn encode_payload(p: &RiskConstraintPayload) -> (bytes: Vec<u8>)
    ensures
        bytes@ == payload_bytes(*p),
        bytes@.len() == PAYLOAD_SIZE,
{
    let ghost words = payload_words(*p);
    let mut out: Vec<u8> = Vec::new();
    push_u64_le(&mut out, p.constraint_seq_id);
    push_u64_le(&mut out, p.max_var_limit);
    push_u64_le(&mut out, p.max_position_concentration);
    push_u64_le(&mut out, p.max_intraday_loss);
    push_u64_le(&mut out, p.max_leverage);
    push_u64_le(&mut out, p.delta_hedge_target);
    push_u64_le(&mut out, p.vega_hedge_target);
    push_u64_le(&mut out, p.constraint_timestamp_ns);
    proof {
        reveal_with_fuel(words_bytes, 9);
        assert(words.take(8) =~= seq![
            p.constraint_seq_id,
            p.max_var_limit,
            p.max_position_concentration,
            p.max_intraday_loss,
            p.max_leverage,
            p.delta_hedge_target,
            p.vega_hedge_target,
            p.constraint_timestamp_ns,
        ]);
        assert(words.take(8).drop_last().drop_last().drop_last().drop_last().drop_last()
            .drop_last().drop_last().drop_last() =~= Seq::<u64>::empty());
        assert(out@ =~= words_bytes(words.take(8)));
    }
    let mut k: usize = 0;
    while k < 32
        invariant
            k <= 32,
            words == payload_words(*p),
            words.len() == 40,
            out@ == words_bytes(words.take(8 + k)),
        decreases 32 - k,
    {
        proof {
            assert(words.take(8 + k + 1) =~= words.take(8 + k).push(p.reserved_a@[k as int]));
            lemma_words_bytes_push(words.take(8 + k), p.reserved_a@[k as int]);
        }
        push_u64_le(&mut out, p.reserved_a[k]);
        k = k + 1;
    }
    push_zeros(&mut out, 192);
    proof {
        assert(words.take(40) =~= words);
        lemma_words_bytes_len(words);
    }
    out
}

/// Decode the payload held by the 512 bytes of a slot.
pub fn decode_payload(bytes: &[u8]) -> (p: RiskConstraintPayload)
    requires
        bytes@.len() == PAYLOAD_SIZE,
    ensures
        payload_decodes_to(bytes@, p),
{
    let mut reserved_a = [0u64; 32];
    let mut k: usize = 0;
    while k < 32
        invariant
            k <= 32,
            bytes@.len() == PAYLOAD_SIZE,
            forall|j: int| 0 <= j < k ==> reserved_a@[j] == word_at(bytes@, 8 + j),
        decreases 32 - k,
    {
        let start = 64 + 8 * k;
        reserved_a[k] = u64_from_le_bytes(slice_subrange(bytes, start, start + 8));
        k = k + 1;
    }
    let p = RiskConstraintPayload {
        constraint_seq_id: u64_from_le_bytes(slice_subrange(bytes, 0, 8)),
        max_var_limit: u64_from_le_bytes(slice_subrange(bytes, 8, 16)),
        max_position_concentration: u64_from_le_bytes(slice_subrange(bytes, 16, 24)),
        max_intraday_loss: u64_from_le_bytes(slice_subrange(bytes, 24, 32)),
        max_leverage: u64_from_le_bytes(slice_subrange(bytes, 32, 40)),
        delta_hedge_target: u64_from_le_bytes(slice_subrange(bytes, 40, 48)),
        vega_hedge_target: u64_from_le_bytes(slice_subrange(bytes, 48, 56)),
        constraint_timestamp_ns: u64_from_le_bytes(slice_subrange(bytes, 56, 64)),
        reserved_a,
    };
    assert(payload_words(p) =~= Seq::new(PAYLOAD_WORDS as nat, |k: int| word_at(bytes@, k)));
    p
}

/// Encode a header as its 64 bytes.
pub fn encode_header(h: &MmapFileHeader) -> (bytes: Vec<u8>)
    ensures
        bytes@ == header_bytes(*h),
        bytes@.len() == HEADER_SIZE,
{
    proof {
        lemma_auto_spec_u16_to_from_le_bytes();
        lemma_auto_spec_u32_to_from_le_bytes();
        lemma_auto_spec_u64_to_from_le_bytes();
    }
    let mut out = u32_to_le_bytes(h.magic);
    let mut b = u16_to_le_bytes(h.protocol_version);
    out.append(&mut b);
    let mut b = u16_to_le_bytes(h._reserved_version);
    out.append(&mut b);
    push_u64_le(&mut out, h.file_size_bytes);
    push_u64_le(&mut out, h.payload_offset);
    let mut b = u32_to_le_bytes(h.max_payloads);
    out.append(&mut b);
    let ghost before_padding = out@;
    let mut k: usize = 0;
    while k < 20
        invariant
            k <= 20,
            out@ == before_padding + h._padding@.take(k as int),
        decreases 20 - k,
    {
        out.push(h._padding[k]);
        k = k + 1;
        assert(out@ =~= before_padding + h._padding@.take(k as int));
    }
    assert(h._padding@.take(20) =~= h._padding@);
    push_zeros(&mut out, 16);
    out
}

/// Decode the header held by 64 header bytes.
pub fn decode_header(bytes: &[u8]) -> (h: MmapFileHeader)
    requires
        bytes@.len() == HEADER_SIZE,
    ensures
        header_decodes_to(bytes@, h),
{
    let mut padding = [0u8; 20];
    let mut k: usize = 0;
    while k < 20
        invariant
            k <= 20,
            bytes@.len() == HEADER_SIZE,
            forall|j: int| 0 <= j < k ==> padding@[j] == bytes@[28 + j],
        decreases 20 - k,
    {
        padding[k] = bytes[28 + k];
        k = k + 1;
    }
    let h = MmapFileHeader {
        magic: u32_from_le_bytes(slice_subrange(bytes, 0, 4)),
        protocol_version: u16_from_le_bytes(slice_subrange(bytes, 4, 6)),
        _reserved_version: u16_from_le_bytes(slice_subrange(bytes, 6, 8)),
        file_size_bytes: u64_from_le_bytes(slice_subrange(bytes, 8, 16)),
        payload_offset: u64_from_le_bytes(slice_subrange(bytes, 16, 24)),
        max_payloads: u32_from_le_bytes(slice_subrange(bytes, 24, 28)),
        _padding: padding,
    };
    assert(h._padding@ =~= bytes@.subrange(28, 48));
    h
}

} // verus!

verus! {

/// The payload that slot bytes hold is unique: two payloads decoded from the same bytes
/// are equal.
pub proof fn lemma_payload_decode_unique(bytes: Seq<u8>, p: RiskConstraintPayload, q: RiskConstraintPayload)
    requires
        payload_decodes_to(bytes, p),
        payload_decodes_to(bytes, q),
    ensures
        p == q,
{
    let wp = payload_words(p);
    let wq = payload_words(q);
    assert(wp =~= wq);
    assert(wp[0] == wq[0] && wp[1] == wq[1] && wp[2] == wq[2] && wp[3] == wq[3]);
    assert(wp[4] == wq[4] && wp[5] == wq[5] && wp[6] == wq[6] && wp[7] == wq[7]);
    assert forall|i: int| 0 <= i < 32 implies p.reserved_a[i] == q.reserved_a[i] by {
        assert(wp[8 + i] == p.reserved_a@[i]);
        assert(wq[8 + i] == q.reserved_a@[i]);
    }
    assert(p.reserved_a =~= q.reserved_a);
}

/// The header that header bytes hold is unique: two headers decoded from the same bytes
/// are equal.
pub proof fn lemma_header_decode_unique(bytes: Seq<u8>, h: MmapFileHeader, g: MmapFileHeader)
    requires
        header_decodes_to(bytes, h),
        header_decodes_to(bytes, g),
    ensures
        h == g,
{
    assert forall|i: int| 0 <= i < 20 implies h._padding[i] == g._padding[i] by {
        assert(h._padding@[i] == g._padding@[i]);
    }
    assert(h._padding =~= g._padding);
}

/// Decoding an encoded payload gives it back, and nothing else.
pub proof fn law_payload_round_trip(p: RiskConstraintPayload)
    ensures
        payload_decodes_to(payload_bytes(p), p),
        forall|q: RiskConstraintPayload| payload_decodes_to(payload_bytes(p), q) ==> q == p,
{
    let words = payload_words(p);
    let b = payload_bytes(p);
    lemma_words_bytes_len(words);
    lemma_payload_bytes_len(p);
    assert forall|k: int| 0 <= k < PAYLOAD_WORDS implies #[trigger] word_at(b, k) == words[k] by {
        lemma_words_bytes_word(words, k);
        assert(b.subrange(8 * k, 8 * k + 8) =~= words_bytes(words).subrange(8 * k, 8 * k + 8));
    }
    assert(words =~= Seq::new(PAYLOAD_WORDS as nat, |k: int| word_at(b, k)));
    assert forall|q: RiskConstraintPayload| payload_decodes_to(b, q) implies q == p by {
        lemma_payload_decode_unique(b, p, q);
    }
}

/// Decoding encoded header bytes gives the header back, and nothing else.
pub proof fn law_header_round_trip(h: MmapFileHeader)
    ensures
        header_decodes_to(header_bytes(h), h),
        forall|g: MmapFileHeader| header_decodes_to(header_bytes(h), g) ==> g == h,
{
    lemma_auto_spec_u16_to_from_le_bytes();
    lemma_auto_spec_u32_to_from_le_bytes();
    lemma_auto_spec_u64_to_from_le_bytes();
    let b = header_bytes(h);
    assert(b.subrange(0, 4) =~= spec_u32_to_le_bytes(h.magic));
    assert(b.subrange(4, 6) =~= spec_u16_to_le_bytes(h.protocol_version));
    assert(b.subrange(6, 8) =~= spec_u16_to_le_bytes(h._reserved_version));
    assert(b.subrange(8, 16) =~= spec_u64_to_le_bytes(h.file_size_bytes));
    assert(b.subrange(16, 24) =~= spec_u64_to_le_bytes(h.payload_offset));
    assert(b.subrange(24, 28) =~= spec_u32_to_le_bytes(h.max_payloads));
    assert(b.subrange(28, 48) =~= h._padding@);
    assert forall|g: MmapFileHeader| header_decodes_to(b, g) implies g == h by {
        lemma_header_decode_unique(b, h, g);
    }
}

} // verus!

verus! {

/// The slot layout of a payload: its eight scalar fields are the little-endian u64 words
/// at bytes 0..8 (sequence ID), 8..16 (VaR limit), 16..24 (concentration limit), 24..32
/// (intraday loss), 32..40 (leverage), 40..48 (delta target), 48..56 (vega target) and
/// 56..64 (timestamp); reserved word `i` is at bytes `64 + 8i` to `72 + 8i`; bytes 320 to
/// 512 are zero.
pub proof fn law_payload_layout(p: RiskConstraintPayload)
    ensures
        payload_bytes(p).len() == PAYLOAD_SIZE,
        spec_u64_from_le_bytes(payload_bytes(p).subrange(0, 8)) == p.constraint_seq_id,
        spec_u64_from_le_bytes(payload_bytes(p).subrange(8, 16)) == p.max_var_limit,
        spec_u64_from_le_bytes(payload_bytes(p).subrange(16, 24)) == p.max_position_concentration,
        spec_u64_from_le_bytes(payload_bytes(p).subrange(24, 32)) == p.max_intraday_loss,
        spec_u64_from_le_bytes(payload_bytes(p).subrange(32, 40)) == p.max_leverage,
        spec_u64_from_le_bytes(payload_bytes(p).subrange(40, 48)) == p.delta_hedge_target,
        spec_u64_from_le_bytes(payload_bytes(p).subrange(48, 56)) == p.vega_hedge_target,
        spec_u64_from_le_bytes(payload_bytes(p).subrange(56, 64)) == p.constraint_timestamp_ns,
        forall|i: int|
            0 <= i < 32 ==> spec_u64_from_le_bytes(
                #[trigger] payload_bytes(p).subrange(64 + 8 * i, 72 + 8 * i),
            ) == p.reserved_a[i],
        forall|j: int| 320 <= j < 512 ==> #[trigger] payload_bytes(p)[j] == 0u8,
{
    let words = payload_words(p);
    let b = payload_bytes(p);
    lemma_words_bytes_len(words);
    lemma_payload_bytes_len(p);
    assert forall|k: int| 0 <= k < PAYLOAD_WORDS implies #[trigger] word_at(b, k) == words[k] by {
        lemma_words_bytes_word(words, k);
        assert(b.subrange(8 * k, 8 * k + 8) =~= words_bytes(words).subrange(8 * k, 8 * k + 8));
    }
    assert(word_at(b, 0) == words[0]);
    assert(word_at(b, 1) == words[1]);
    assert(word_at(b, 2) == words[2]);
    assert(word_at(b, 3) == words[3]);
    assert(word_at(b, 4) == words[4]);
    assert(word_at(b, 5) == words[5]);
    assert(word_at(b, 6) == words[6]);
    assert(word_at(b, 7) == words[7]);
    assert forall|i: int| 0 <= i < 32 implies spec_u64_from_le_bytes(
        #[trigger] b.subrange(64 + 8 * i, 72 + 8 * i),
    ) == p.reserved_a[i] by {
        assert(word_at(b, 8 + i) == words[8 + i]);
        assert(b.subrange(8 * (8 + i), 8 * (8 + i) + 8) == b.subrange(64 + 8 * i, 72 + 8 * i));
    }
}

/// The slot layout as a decoder reads it: a payload decoded from slot bytes has each
/// scalar field equal to the little-endian u64 at its offset (sequence ID at 0, VaR limit
/// at 8, concentration at 16, intraday loss at 24, leverage at 32, delta target at 40,
/// vega target at 48, timestamp at 56) and reserved word `i` equal to the u64 at
/// `64 + 8i`.
pub proof fn law_payload_decode_layout(bytes: Seq<u8>, p: RiskConstraintPayload)
    requires
        payload_decodes_to(bytes, p),
    ensures
        p.constraint_seq_id == spec_u64_from_le_bytes(bytes.subrange(0, 8)),
        p.max_var_limit == spec_u64_from_le_bytes(bytes.subrange(8, 16)),
        p.max_position_concentration == spec_u64_from_le_bytes(bytes.subrange(16, 24)),
        p.max_intraday_loss == spec_u64_from_le_bytes(bytes.subrange(24, 32)),
        p.max_leverage == spec_u64_from_le_bytes(bytes.subrange(32, 40)),
        p.delta_hedge_target == spec_u64_from_le_bytes(bytes.subrange(40, 48)),
        p.vega_hedge_target == spec_u64_from_le_bytes(bytes.subrange(48, 56)),
        p.constraint_timestamp_ns == spec_u64_from_le_bytes(bytes.subrange(56, 64)),
        forall|i: int|
            0 <= i < 32 ==> p.reserved_a[i] == spec_u64_from_le_bytes(
                #[trigger] bytes.subrange(64 + 8 * i, 72 + 8 * i),
            ),
{
    let words = payload_words(p);
    assert(words[0] == word_at(bytes, 0));
    assert(words[1] == word_at(bytes, 1));
    assert(words[2] == word_at(bytes, 2));
    assert(words[3] == word_at(bytes, 3));
    assert(words[4] == word_at(bytes, 4));
    assert(words[5] == word_at(bytes, 5));
    assert(words[6] == word_at(bytes, 6));
    assert(words[7] == word_at(bytes, 7));
    assert forall|i: int| 0 <= i < 32 implies p.reserved_a[i] == spec_u64_from_le_bytes(
        #[trigger] bytes.subrange(64 + 8 * i, 72 + 8 * i),
    ) by {
        assert(words[8 + i] == word_at(bytes, 8 + i));
    }
}

/// The header layout: magic at bytes 0..4, protocol version at 4..6, reserved at 6..8,
/// file size at 8..16, payload offset at 16..24, slot count at 24..28 (little-endian),
/// padding at 28..48, and zero bytes from 48 to 64.
pub proof fn law_header_layout(h: MmapFileHeader)
    ensures
        header_bytes(h).len() == HEADER_SIZE,
        spec_u32_from_le_bytes(header_bytes(h).subrange(0, 4)) == h.magic,
        spec_u16_from_le_bytes(header_bytes(h).subrange(4, 6)) == h.protocol_version,
        spec_u16_from_le_bytes(header_bytes(h).subrange(6, 8)) == h._reserved_version,
        spec_u64_from_le_bytes(header_bytes(h).subrange(8, 16)) == h.file_size_bytes,
        spec_u64_from_le_bytes(header_bytes(h).subrange(16, 24)) == h.payload_offset,
        spec_u32_from_le_bytes(header_bytes(h).subrange(24, 28)) == h.max_payloads,
        header_bytes(h).subrange(28, 48) == h._padding@,
        forall|j: int| 48 <= j < 64 ==> #[trigger] header_bytes(h)[j] == 0u8,
{
    law_header_round_trip(h);
}

} // verus!
