//! Framing of API messages over BLE characteristic values.
//!
//! A message is cut into chunks; each chunk carries an eleven-byte header
//! (protocol version, message id, chunk index, chunk count; integers in
//! little endian) followed by a slice of the message.

use std::collections::HashMap;
use std::time::Instant;
use crate::text::{decimal, u32_to_decimal};
use vstd::prelude::*;
use vstd::string::StringExecFns;

verus! {

pub const PROTOCOL_VERSION: u8 = 1;

pub const HEADER_LENGTH: usize = 11;

pub const MAX_MESSAGE_SIZE: usize = 16 * 1024 * 1024;

pub const MAX_CHUNKS: u32 = 262_144;

/// Why a frame or a message was refused.
#[derive(Debug, Clone, Copy, PartialEq, Eq)]
pub enum FramingError {
    /// The message is larger than `MAX_MESSAGE_SIZE`.
    MessageTooLarge,
    /// The characteristic value cannot hold a header and one payload byte.
    ValueLengthTooSmall,
    /// The message would need more than `MAX_CHUNKS` chunks.
    TooManyChunks,
    /// The frame is shorter than its header.
    FrameTooShort,
    /// The frame announces a protocol version other than `PROTOCOL_VERSION`.
    UnsupportedVersion(u8),
    /// The chunk count is zero or larger than `MAX_CHUNKS`.
    InvalidChunkCount(u32),
    /// The chunk index is not below the chunk count.
    ChunkIndexOutOfRange(u32, u32),
    /// A chunk of another message arrived while one was pending.
    Interleaved,
    /// A chunk arrived twice with different payloads.
    ConflictingDuplicate,
}

/// The header and payload of one frame.
pub struct DecodedChunk<'a> {
    pub message_id: u16,
    pub chunk_index: u32,
    pub chunk_count: u32,
    pub payload: &'a [u8],
}

pub open spec fn le_u16(b0: u8, b1: u8) -> int {
    b0 as int + 256 * (b1 as int)
}

pub open spec fn le_u32(b0: u8, b1: u8, b2: u8, b3: u8) -> int {
    b0 as int + 256 * (b1 as int) + 65536 * (b2 as int) + 16777216 * (b3 as int)
}

/// The header fields of `value`, read as the frame layout places them.
pub open spec fn frame_message_id(value: Seq<u8>) -> int {
    le_u16(value[1], value[2])
}

pub open spec fn frame_chunk_index(value: Seq<u8>) -> int {
    le_u32(value[3], value[4], value[5], value[6])
}

pub open spec fn frame_chunk_count(value: Seq<u8>) -> int {
    le_u32(value[7], value[8], value[9], value[10])
}

/// What decoding `value` gives: its header fields and payload, or the
/// reason it is refused.
pub open spec fn spec_decode_chunk(value: Seq<u8>) -> Result<(u16, u32, u32, Seq<u8>), FramingError> {
    if value.len() < HEADER_LENGTH {
        Err(FramingError::FrameTooShort)
    } else if value[0] != PROTOCOL_VERSION {
        Err(FramingError::UnsupportedVersion(value[0]))
    } else if frame_chunk_count(value) == 0 || frame_chunk_count(value) > MAX_CHUNKS {
        Err(FramingError::InvalidChunkCount(frame_chunk_count(value) as u32))
    } else if frame_chunk_index(value) >= frame_chunk_count(value) {
        Err(FramingError::ChunkIndexOutOfRange(
            frame_chunk_index(value) as u32,
            frame_chunk_count(value) as u32,
        ))
    } else {
        Ok((
            frame_message_id(value) as u16,
            frame_chunk_index(value) as u32,
            frame_chunk_count(value) as u32,
            value.subrange(HEADER_LENGTH as int, value.len() as int),
        ))
    }
}

fn read_u16_le(b0: u8, b1: u8) -> (r: u16)
    ensures
        r == le_u16(b0, b1),
{
    (b0 as u16) + 256 * (b1 as u16)
}

fn read_u32_le(b0: u8, b1: u8, b2: u8, b3: u8) -> (r: u32)
    ensures
        r == le_u32(b0, b1, b2, b3),
{
    (b0 as u32) + 256 * (b1 as u32) + 65536 * (b2 as u32) + 16777216 * (b3 as u32)
}

/// Reads the header of one frame and hands back its payload.
pub fn decode_chunk(value: &[u8]) -> (r: Result<DecodedChunk<'_>, FramingError>)
    ensures
        match r {
            Ok(chunk) => spec_decode_chunk(value@) == Ok::<_, FramingError>(
                (chunk.message_id, chunk.chunk_index, chunk.chunk_count, chunk.payload@),
            ),
            Err(e) => spec_decode_chunk(value@) == Err::<(u16, u32, u32, Seq<u8>), _>(e),
        },
{
    if value.len() < HEADER_LENGTH {
        return Err(FramingError::FrameTooShort);
    }
    if value[0] != PROTOCOL_VERSION {
        return Err(FramingError::UnsupportedVersion(value[0]));
    }
    let message_id = read_u16_le(value[1], value[2]);
    let chunk_index = read_u32_le(value[3], value[4], value[5], value[6]);
    let chunk_count = read_u32_le(value[7], value[8], value[9], value[10]);
    if chunk_count == 0 || chunk_count > MAX_CHUNKS {
        return Err(FramingError::InvalidChunkCount(chunk_count));
    }
    if chunk_index >= chunk_count {
        return Err(FramingError::ChunkIndexOutOfRange(chunk_index, chunk_count));
    }
    let payload = &value[HEADER_LENGTH..value.len()];
    Ok(DecodedChunk { message_id, chunk_index, chunk_count, payload })
}


pub open spec fn le16_bytes(x: u16) -> Seq<u8> {
    seq![(x % 256) as u8, (x / 256) as u8]
}

pub open spec fn le32_bytes(x: u32) -> Seq<u8> {
    seq![(x % 256) as u8, ((x / 256) % 256) as u8, ((x / 65536) % 256) as u8, (x / 16777216) as u8]
}

/// The header of the chunk `index` of `count` of message `message_id`.
pub open spec fn frame_header(message_id: u16, index: u32, count: u32) -> Seq<u8> {
    seq![PROTOCOL_VERSION] + le16_bytes(message_id) + le32_bytes(index) + le32_bytes(count)
}

/// How many chunks a message of `len` bytes takes with `payload_len` bytes per chunk:
/// one for the empty message, else the length divided by the payload size, rounded up.
pub open spec fn chunk_count_for(len: int, payload_len: int) -> int {
    if len == 0 {
        1
    } else {
        (len - 1) / payload_len + 1
    }
}

/// The bytes of `message` that chunk `index` carries.
pub open spec fn chunk_payload(message: Seq<u8>, index: int, payload_len: int) -> Seq<u8> {
    let start = index * payload_len;
    let end = if start + payload_len <= message.len() { start + payload_len } else { message.len() as int };
    message.subrange(start, end)
}

/// What `encode_message` gives for a message, an id and a maximum value length.
pub open spec fn spec_encode_message(message: Seq<u8>, message_id: u16, maximum_value_length: int) -> Result<
    Seq<Seq<u8>>,
    FramingError,
> {
    if message.len() > MAX_MESSAGE_SIZE {
        Err(FramingError::MessageTooLarge)
    } else if maximum_value_length <= HEADER_LENGTH {
        Err(FramingError::ValueLengthTooSmall)
    } else {
        let payload_len = maximum_value_length - HEADER_LENGTH;
        let count = chunk_count_for(message.len() as int, payload_len);
        if count > MAX_CHUNKS {
            Err(FramingError::TooManyChunks)
        } else {
            Ok(
                Seq::new(
                    count as nat,
                    |i: int|
                        frame_header(message_id, i as u32, count as u32) + chunk_payload(
                            message,
                            i,
                            payload_len,
                        ),
                ),
            )
        }
    }
}

fn push_u16_le(value: &mut Vec<u8>, x: u16)
    ensures
        final(value)@ == old(value)@ + le16_bytes(x),
{
    value.push((x % 256) as u8);
    value.push((x / 256) as u8);
}

fn push_u32_le(value: &mut Vec<u8>, x: u32)
    ensures
        final(value)@ == old(value)@ + le32_bytes(x),
{
    value.push((x % 256) as u8);
    value.push(((x / 256) % 256) as u8);
    value.push(((x / 65536) % 256) as u8);
    value.push((x / 16777216) as u8);
}

/// Cuts `message` into frames whose length is at most `maximum_value_length`.
pub fn encode_message(message: &[u8], message_id: u16, maximum_value_length: usize) -> (r: Result<
    Vec<Vec<u8>>,
    FramingError,
>)
    ensures
        match r {
            Ok(chunks) => spec_encode_message(message@, message_id, maximum_value_length as int)
                == Ok::<_, FramingError>(chunks@.map_values(|c: Vec<u8>| c@)),
            Err(e) => spec_encode_message(message@, message_id, maximum_value_length as int) == Err::<
                Seq<Seq<u8>>,
                _,
            >(e),
        },
{
    if message.len() > MAX_MESSAGE_SIZE {
        return Err(FramingError::MessageTooLarge);
    }
    if maximum_value_length <= HEADER_LENGTH {
        return Err(FramingError::ValueLengthTooSmall);
    }
    let payload_length = maximum_value_length - HEADER_LENGTH;
    let len = message.len();
    let chunk_count: usize = if len == 0 {
        1
    } else {
        (len - 1) / payload_length + 1
    };
    if chunk_count > MAX_CHUNKS as usize {
        return Err(FramingError::TooManyChunks);
    }
    let ghost expected = spec_encode_message(message@, message_id, maximum_value_length as int)->Ok_0;
    let mut chunks: Vec<Vec<u8>> = Vec::with_capacity(chunk_count);
    let mut chunk_index: usize = 0;
    let mut start: usize = 0;
    while chunk_index < chunk_count
        invariant
            chunk_count == chunk_count_for(len as int, payload_length as int),
            chunk_count <= MAX_CHUNKS,
            len == message@.len(),
            len <= MAX_MESSAGE_SIZE,
            payload_length == maximum_value_length - HEADER_LENGTH,
            payload_length > 0,
            chunk_index <= chunk_count,
            chunk_index < chunk_count ==> start == chunk_index * payload_length && start <= len,
            expected.len() == chunk_count,
            expected == spec_encode_message(message@, message_id, maximum_value_length as int)->Ok_0,
            chunks@.len() == chunk_index,
            forall|j: int| 0 <= j < chunk_index ==> #[trigger] chunks@[j]@ == expected[j],
        decreases chunk_count - chunk_index,
    {
        let end = if payload_length <= len - start {
            start + payload_length
        } else {
            len
        };
        let payload = &message[start..end];
        let mut value: Vec<u8> = Vec::with_capacity(HEADER_LENGTH + payload.len());
        value.push(PROTOCOL_VERSION);
        push_u16_le(&mut value, message_id);
        push_u32_le(&mut value, chunk_index as u32);
        push_u32_le(&mut value, chunk_count as u32);
        value.extend_from_slice(payload);
        assert(value@ == expected[chunk_index as int]);
        chunks.push(value);
        proof {
            assert((chunk_index + 1) * payload_length == chunk_index * payload_length + payload_length)
                by (nonlinear_arith);
            if chunk_index + 1 < chunk_count {
                assert(start + payload_length <= len) by (nonlinear_arith)
                    requires
                        start as int == chunk_index as int * payload_length as int,
                        chunk_index + 1 < chunk_count,
                        chunk_count as int == (len as int - 1) / (payload_length as int) + 1,
                        len > 0,
                        payload_length > 0,
                ;
            }
        }
        chunk_index = chunk_index + 1;
        start = if chunk_index < chunk_count { start + payload_length } else { start };
    }
    assert(chunks@.map_values(|c: Vec<u8>| c@) =~= expected);
    Ok(chunks)
}


/// Seconds after which an incomplete message is abandoned.
pub const MESSAGE_IDLE_TIMEOUT_SECS: u64 = 15;

/// The same timeout in nanoseconds, the unit of the reassembler's clock.
pub const MESSAGE_IDLE_TIMEOUT_NANOS: u128 = 15_000_000_000;

#[verifier::external_type_specification]
#[verifier::external_body]
pub struct ExInstant(Instant);

/// Reads the monotonic clock (`std::time::Instant::now`). Nothing is
/// stated of the instant it returns: it depends on the time of the call.
#[verifier::external_body]
fn instant_now() -> Instant {
    Instant::now()
}

/// Nanoseconds from `earlier` to `later`, zero when `later` comes first
/// (`Instant::saturating_duration_since`, read with `Duration::as_nanos`).
/// Nothing is stated of the result: the instants are clock readings, which
/// Verus does not see.
#[verifier::external_body]
fn nanos_between(earlier: &Instant, later: &Instant) -> u128 {
    later.saturating_duration_since(*earlier).as_nanos()
}

/// The state of a message of which some chunks have arrived.
pub struct PendingView {
    pub message_id: u16,
    pub chunk_count: u32,
    pub chunks: Map<u32, Seq<u8>>,
    pub total_size: nat,
}

/// The payloads of chunks `0 .. n`, in order, joined.
pub open spec fn assemble(chunks: Map<u32, Seq<u8>>, n: nat) -> Seq<u8>
    decreases n,
{
    if n == 0 {
        Seq::empty()
    } else {
        assemble(chunks, (n - 1) as nat) + chunks[(n - 1) as u32]
    }
}

/// The joined length of the payloads held at indices `0 .. n`.
pub open spec fn payload_total(chunks: Map<u32, Seq<u8>>, n: nat) -> nat
    decreases n,
{
    if n == 0 {
        0
    } else {
        payload_total(chunks, (n - 1) as nat) + if chunks.contains_key((n - 1) as u32) {
            chunks[(n - 1) as u32].len()
        } else {
            0
        }
    }
}

/// A pending message: a valid chunk count, only indices below it, never
/// complete (a complete message leaves at once), its size the joined length
/// of its payloads, within the size bound.
pub open spec fn pending_wf(p: PendingView) -> bool {
    &&& p.chunks.dom().finite()
    &&& 0 < p.chunk_count <= MAX_CHUNKS
    &&& forall|k: u32| #[trigger] p.chunks.contains_key(k) ==> k < p.chunk_count
    &&& p.chunks.len() < p.chunk_count
    &&& p.total_size == payload_total(p.chunks, p.chunk_count as nat)
    &&& p.total_size <= MAX_MESSAGE_SIZE
}

/// With nothing held, the joined length is zero.
pub proof fn lemma_payload_total_empty(n: nat)
    ensures
        payload_total(Map::<u32, Seq<u8>>::empty(), n) == 0,
    decreases n,
{
    if n > 0 {
        lemma_payload_total_empty((n - 1) as nat);
    }
}

/// Adding a payload at a new index below `n` adds its length.
pub proof fn lemma_payload_total_insert(chunks: Map<u32, Seq<u8>>, k: u32, v: Seq<u8>, n: nat)
    requires
        !chunks.contains_key(k),
        k < n,
        n <= MAX_CHUNKS,
    ensures
        payload_total(chunks.insert(k, v), n) == payload_total(chunks, n) + v.len(),
    decreases n,
{
    let j = (n - 1) as u32;
    if k < n - 1 {
        lemma_payload_total_insert(chunks, k, v, (n - 1) as nat);
        assert(chunks.insert(k, v).contains_key(j) == chunks.contains_key(j));
    } else {
        lemma_payload_total_same(chunks.insert(k, v), chunks, (n - 1) as nat);
    }
}

/// Two maps that agree below `n` have the same joined length there.
pub proof fn lemma_payload_total_same(a: Map<u32, Seq<u8>>, b: Map<u32, Seq<u8>>, n: nat)
    requires
        n <= MAX_CHUNKS,
        forall|k: u32| k < n ==> (#[trigger] a.contains_key(k) == b.contains_key(k)) && (a.contains_key(k)
            ==> a[k] == b[k]),
    ensures
        payload_total(a, n) == payload_total(b, n),
    decreases n,
{
    if n > 0 {
        lemma_payload_total_same(a, b, (n - 1) as nat);
        assert(a.contains_key((n - 1) as u32) == b.contains_key((n - 1) as u32));
    }
}

/// A map that holds no more than `b` below `n`, with the same payloads,
/// has no greater joined length there.
pub proof fn lemma_payload_total_le(a: Map<u32, Seq<u8>>, b: Map<u32, Seq<u8>>, n: nat)
    requires
        n <= MAX_CHUNKS,
        forall|k: u32| k < n && #[trigger] a.contains_key(k) ==> b.contains_key(k) && a[k] == b[k],
    ensures
        payload_total(a, n) <= payload_total(b, n),
    decreases n,
{
    if n > 0 {
        lemma_payload_total_le(a, b, (n - 1) as nat);
        assert(a.contains_key((n - 1) as u32) ==> b.contains_key((n - 1) as u32));
    }
}

/// Where every index below `n` is held, the joined message is as long as
/// the joined length.
pub proof fn lemma_assemble_len(chunks: Map<u32, Seq<u8>>, n: nat)
    requires
        n <= MAX_CHUNKS,
        forall|k: u32| k < n ==> #[trigger] chunks.contains_key(k),
    ensures
        assemble(chunks, n).len() == payload_total(chunks, n),
    decreases n,
{
    if n > 0 {
        lemma_assemble_len(chunks, (n - 1) as nat);
        assert(chunks.contains_key((n - 1) as u32));
    }
}

/// What pushing the frame `value` into the reassembler state `state` gives:
/// the next state and the result.
pub open spec fn spec_push(state: Option<PendingView>, value: Seq<u8>) -> (
    Option<PendingView>,
    Result<Option<Seq<u8>>, FramingError>,
) {
    match spec_decode_chunk(value) {
        Err(e) => (state, Err(e)),
        Ok((id, index, count, payload)) => {
            if state is Some && (state->0.message_id != id || state->0.chunk_count != count) {
                (state, Err(FramingError::Interleaved))
            } else {
                let p = match state {
                    Some(p) => p,
                    None => PendingView {
                        message_id: id,
                        chunk_count: count,
                        chunks: Map::empty(),
                        total_size: 0,
                    },
                };
                if p.chunks.contains_key(index) {
                    if p.chunks[index] == payload {
                        (Some(p), Ok(None))
                    } else {
                        (None, Err(FramingError::ConflictingDuplicate))
                    }
                } else if p.total_size + payload.len() > MAX_MESSAGE_SIZE {
                    (None, Err(FramingError::MessageTooLarge))
                } else {
                    let chunks = p.chunks.insert(index, payload);
                    if chunks.len() != count {
                        (
                            Some(
                                PendingView {
                                    chunks,
                                    total_size: p.total_size + payload.len(),
                                    ..p
                                },
                            ),
                            Ok(None),
                        )
                    } else {
                        (None, Ok(Some(assemble(chunks, count as nat))))
                    }
                }
            }
        },
    }
}

/// The text of a framing error.
pub open spec fn error_text(e: FramingError) -> Seq<char> {
    match e {
        FramingError::MessageTooLarge => "BLE message exceeds the maximum size"@,
        FramingError::ValueLengthTooSmall => "BLE characteristic value length is too small for framing"@,
        FramingError::TooManyChunks => "BLE message requires too many chunks"@,
        FramingError::FrameTooShort => "BLE frame is shorter than its header"@,
        FramingError::UnsupportedVersion(v) => "Unsupported BLE protocol version "@ + decimal(v as nat),
        FramingError::InvalidChunkCount(c) => "Invalid BLE chunk count "@ + decimal(c as nat),
        FramingError::ChunkIndexOutOfRange(i, c) => "BLE chunk index "@ + decimal(i as nat) + " is outside chunk count "@
            + decimal(c as nat),
        FramingError::Interleaved => "BLE messages may not be interleaved"@,
        FramingError::ConflictingDuplicate => "Conflicting duplicate BLE chunk"@,
    }
}

impl FramingError {
    /// The text of the error.
    pub fn message(&self) -> (r: String)
        ensures
            r@ == error_text(*self),
    {
        match *self {
            FramingError::MessageTooLarge => String::from_str("BLE message exceeds the maximum size"),
            FramingError::ValueLengthTooSmall => String::from_str(
                "BLE characteristic value length is too small for framing",
            ),
            FramingError::TooManyChunks => String::from_str("BLE message requires too many chunks"),
            FramingError::FrameTooShort => String::from_str("BLE frame is shorter than its header"),
            FramingError::UnsupportedVersion(v) => {
                let mut m = String::from_str("Unsupported BLE protocol version ");
                m.append(u32_to_decimal(v as u32).as_str());
                m
            },
            FramingError::InvalidChunkCount(c) => {
                let mut m = String::from_str("Invalid BLE chunk count ");
                m.append(u32_to_decimal(c).as_str());
                m
            },
            FramingError::ChunkIndexOutOfRange(i, c) => {
                let mut m = String::from_str("BLE chunk index ");
                m.append(u32_to_decimal(i).as_str());
                m.append(" is outside chunk count ");
                m.append(u32_to_decimal(c).as_str());
                m
            },
            FramingError::Interleaved => String::from_str("BLE messages may not be interleaved"),
            FramingError::ConflictingDuplicate => String::from_str("Conflicting duplicate BLE chunk"),
        }
    }
}

/// A push result with the message taken by its view.
pub open spec fn push_result_view(r: Result<Option<Vec<u8>>, FramingError>) -> Result<
    Option<Seq<u8>>,
    FramingError,
> {
    match r {
        Ok(Some(m)) => Ok(Some(m@)),
        Ok(None) => Ok(None),
        Err(e) => Err(e),
    }
}

struct PendingMessage {
    message_id: u16,
    chunk_count: u32,
    chunks: HashMap<u32, Vec<u8>>,
    total_size: usize,
    /// When the last chunk arrived, in nanoseconds of the reassembler's clock.
    last_activity: u128,
}

impl PendingMessage {
    spec fn view(&self) -> PendingView {
        PendingView {
            message_id: self.message_id,
            chunk_count: self.chunk_count,
            chunks: self.chunks@.map_values(|v: Vec<u8>| v@),
            total_size: self.total_size as nat,
        }
    }
}

/// Collects the chunks of one message at a time and hands back the
/// message once every chunk has arrived. Its clock counts nanoseconds from
/// `origin`, the moment it was made.
pub struct Reassembler {
    pending: Option<PendingMessage>,
    origin: Instant,
}

/// Whether a message last active at `last` (if any) has been idle for the
/// timeout at `now`.
pub open spec fn idle_expired(last: Option<u128>, now: u128) -> bool {
    match last {
        Some(t) => now - t >= MESSAGE_IDLE_TIMEOUT_NANOS,
        None => false,
    }
}

/// What `push_at` does at `now` to a state last active at `last`: abandons
/// an idle message, then pushes the frame; gives the next state, its stamp
/// and the result. A pending message that remains is stamped `now`, unless
/// the frame was refused (then it keeps its stamp).
pub open spec fn spec_push_at(state: Option<PendingView>, last: Option<u128>, value: Seq<u8>, now: u128) -> (
    Option<PendingView>,
    Option<u128>,
    Result<Option<Seq<u8>>, FramingError>,
) {
    let expired = idle_expired(last, now);
    let kept = if expired { None } else { state };
    let kept_last = if expired { None } else { last };
    let (next, result) = spec_push(kept, value);
    (next, if next is None {
        None
    } else if result is Err {
        kept_last
    } else {
        Some(now)
    }, result)
}

/// `push_at` took `old_state` (stamped `old_last`) to `new_state` (stamped
/// `new_last`) with `result`.
pub open spec fn push_at_outcome(
    old_state: Option<PendingView>,
    old_last: Option<u128>,
    value: Seq<u8>,
    now: u128,
    new_state: Option<PendingView>,
    new_last: Option<u128>,
    result: Result<Option<Seq<u8>>, FramingError>,
) -> bool {
    (new_state, new_last, result) == spec_push_at(old_state, old_last, value, now)
}

impl View for Reassembler {
    type V = Option<PendingView>;

    closed spec fn view(&self) -> Option<PendingView> {
        match self.pending {
            Some(p) => Some(p.view()),
            None => None,
        }
    }
}

impl Default for Reassembler {
    /// Nothing pending; the clock starts now.
    fn default() -> (r: Self)
        ensures
            r@ == None::<PendingView>,
            r.wf(),
    {
        Reassembler { pending: None, origin: instant_now() }
    }
}

/// `a@ == b@`, compared byte by byte.
fn bytes_equal(a: &[u8], b: &[u8]) -> (r: bool)
    ensures
        r == (a@ == b@),
{
    if a.len() != b.len() {
        return false;
    }
    let mut i: usize = 0;
    while i < a.len()
        invariant
            a@.len() == b@.len(),
            i <= a@.len(),
            forall|j: int| 0 <= j < i ==> a@[j] == b@[j],
        decreases a@.len() - i,
    {
        if a[i] != b[i] {
            return false;
        }
        i = i + 1;
    }
    assert(a@ =~= b@);
    true
}

pub proof fn lemma_bounded_set_len(s: Set<u32>, n: nat)
    requires
        s.finite(),
        n <= MAX_CHUNKS,
        forall|x: u32| #[trigger] s.contains(x) ==> x < n,
    ensures
        s.len() <= n,
    decreases n,
{
    if n == 0 {
        assert(s =~= Set::<u32>::empty());
    } else {
        let top = (n - 1) as u32;
        lemma_bounded_set_len(s.remove(top), (n - 1) as nat);
    }
}

/// A set of indices below `n` that has `n` elements holds every index below `n`.
pub proof fn lemma_full_index_set(s: Set<u32>, n: nat)
    requires
        s.finite(),
        n <= MAX_CHUNKS,
        forall|x: u32| #[trigger] s.contains(x) ==> x < n,
        s.len() >= n,
    ensures
        forall|x: u32| x < n ==> #[trigger] s.contains(x),
    decreases n,
{
    if n > 0 {
        let top = (n - 1) as u32;
        if s.contains(top) {
            lemma_full_index_set(s.remove(top), (n - 1) as nat);
            assert forall|x: u32| x < n implies #[trigger] s.contains(x) by {
                if x != top {
                    assert(s.remove(top).contains(x));
                }
            }
        } else {
            lemma_bounded_set_len(s, (n - 1) as nat);
        }
    }
}

impl Reassembler {
    /// The state invariant: the pending message, if any, is well formed.
    pub closed spec fn wf(&self) -> bool {
        match self.pending {
            Some(p) => pending_wf(p.view()) && p.chunks@.dom().finite(),
            None => true,
        }
    }

    /// When the pending message last received a chunk, in nanoseconds of
    /// the reassembler's clock; `None` when nothing is pending.
    pub closed spec fn last_activity(&self) -> Option<u128> {
        match self.pending {
            Some(p) => Some(p.last_activity),
            None => None,
        }
    }

    /// Adds one frame, reading the clock to abandon an idle message first.
    /// Whatever the clock reads, the frame is pushed either onto the state
    /// as it was or, where a message was pending, onto an empty one.
    pub fn push(&mut self, value: &[u8]) -> (r: Result<Option<Vec<u8>>, FramingError>)
        requires
            old(self).wf(),
        ensures
            final(self).wf(),
            ({
                let expected = spec_push(old(self)@, value@);
                let after_expiry = spec_push(None, value@);
                ||| (final(self)@, push_result_view(r)) == expected
                ||| (old(self)@ is Some && (final(self)@, push_result_view(r))
                    == after_expiry)
            }),
    {
        let now = nanos_between(&self.origin, &instant_now());
        self.push_at(value, now)
    }

    /// Adds one frame received at `now` (nanoseconds of the reassembler's
    /// clock): a message idle for `MESSAGE_IDLE_TIMEOUT_NANOS` or longer is
    /// abandoned first.
    pub fn push_at(&mut self, value: &[u8], now: u128) -> (r: Result<Option<Vec<u8>>, FramingError>)
        requires
            old(self).wf(),
        ensures
            final(self).wf(),
            push_at_outcome(
                old(self)@,
                old(self).last_activity(),
                value@,
                now,
                final(self)@,
                final(self).last_activity(),
                push_result_view(r),
            ),
    {
        self.expire_idle_message(now);
        self.push_chunk(value, now)
    }

    /// Abandons the pending message when it has been idle for
    /// `MESSAGE_IDLE_TIMEOUT_NANOS` or longer at `now`.
    pub fn expire_idle_message(&mut self, now: u128)
        requires
            old(self).wf(),
        ensures
            final(self).wf(),
            final(self)@ == if idle_expired(old(self).last_activity(), now) {
                None::<PendingView>
            } else {
                old(self)@
            },
            final(self).last_activity() == if idle_expired(old(self).last_activity(), now) {
                None::<u128>
            } else {
                old(self).last_activity()
            },
    {
        let expired = match &self.pending {
            Some(pending) => now >= pending.last_activity && now - pending.last_activity >= MESSAGE_IDLE_TIMEOUT_NANOS,
            None => false,
        };
        if expired {
            self.pending = None;
        }
    }

    /// Adds one frame received at `now`, without looking at the idle timer.
    pub fn push_chunk(&mut self, value: &[u8], now: u128) -> (r: Result<Option<Vec<u8>>, FramingError>)
        requires
            old(self).wf(),
        ensures
            final(self).wf(),
            (final(self)@, push_result_view(r)) == spec_push(old(self)@, value@),
            final(self).last_activity() == if final(self)@ is None {
                None
            } else if push_result_view(r) is Err {
                old(self).last_activity()
            } else {
                Some(now)
            },
    {
        broadcast use vstd::std_specs::hash::group_hash_axioms;

        let chunk = match decode_chunk(value) {
            Ok(chunk) => chunk,
            Err(e) => return Err(e),
        };
        let ghost state = self@;
        let mut pending = match self.pending.take() {
            Some(pending) => {
                if pending.message_id != chunk.message_id || pending.chunk_count != chunk.chunk_count {
                    self.pending = Some(pending);
                    return Err(FramingError::Interleaved);
                }
                pending
            },
            None => PendingMessage {
                message_id: chunk.message_id,
                chunk_count: chunk.chunk_count,
                chunks: HashMap::new(),
                total_size: 0,
                last_activity: now,
            },
        };
        assert(pending.view().chunks =~= (match state {
            Some(p) => p,
            None => PendingView {
                message_id: chunk.message_id,
                chunk_count: chunk.chunk_count,
                chunks: Map::empty(),
                total_size: 0,
            },
        }).chunks);
        proof {
            if state is None {
                lemma_payload_total_empty(chunk.chunk_count as nat);
            }
        }
        pending.last_activity = now;
        let duplicate = match pending.chunks.get(&chunk.chunk_index) {
            Some(existing) => Some(bytes_equal(existing.as_slice(), chunk.payload)),
            None => None,
        };
        match duplicate {
            Some(same) => {
                if same {
                    self.pending = Some(pending);
                    return Ok(None);
                } else {
                    return Err(FramingError::ConflictingDuplicate);
                }
            },
            None => {},
        }
        if chunk.payload.len() > MAX_MESSAGE_SIZE - pending.total_size {
            return Err(FramingError::MessageTooLarge);
        }
        let mut stored: Vec<u8> = Vec::new();
        stored.extend_from_slice(chunk.payload);
        assert(stored@ =~= chunk.payload@);
        let ghost old_chunks = pending.view().chunks;
        proof {
            lemma_payload_total_insert(old_chunks, chunk.chunk_index, chunk.payload@, chunk.chunk_count as nat);
        }
        pending.total_size = pending.total_size + chunk.payload.len();
        pending.chunks.insert(chunk.chunk_index, stored);
        assert(pending.view().chunks =~= old_chunks.insert(chunk.chunk_index, chunk.payload@));
        assert(pending.view().chunks.dom() =~= pending.chunks@.dom());
        if pending.chunks.len() != chunk.chunk_count as usize {
            proof {
                lemma_bounded_set_len(pending.view().chunks.dom(), chunk.chunk_count as nat);
            }
            self.pending = Some(pending);
            return Ok(None);
        }
        let ghost chunks = pending.view().chunks;
        proof {
            lemma_full_index_set(chunks.dom(), chunk.chunk_count as nat);
        }
        let mut message: Vec<u8> = Vec::with_capacity(pending.total_size);
        let mut index: u32 = 0;
        while index < pending.chunk_count
            invariant
                chunks == pending.view().chunks,
                pending.chunk_count == chunk.chunk_count,
                forall|x: u32| x < pending.chunk_count ==> #[trigger] chunks.contains_key(x),
                index <= pending.chunk_count,
                message@ == assemble(chunks, index as nat),
            decreases pending.chunk_count - index,
        {
            assert(chunks.contains_key(index));
            let payload = pending.chunks.get(&index).unwrap();
            message.extend_from_slice(payload.as_slice());
            assert(message@ =~= assemble(chunks, index as nat) + chunks[index]);
            index = index + 1;
        }
        Ok(Some(message))
    }

    /// Abandons the pending message.
    pub fn reset(&mut self)
        ensures
            final(self)@ == None::<PendingView>,
            final(self).wf(),
    {
        self.pending = None;
    }
}

} // verus!
