//! What the framing promises across calls: a message cut by
//! `encode_message` comes back whole from a `Reassembler`.

use crate::framing::{
    assemble, chunk_count_for, chunk_payload, frame_chunk_count, frame_chunk_index, frame_header,
    frame_message_id, le16_bytes, le32_bytes, le_u16, le_u32, spec_decode_chunk, spec_encode_message,
    spec_push, FramingError, PendingView, HEADER_LENGTH, MAX_CHUNKS, MAX_MESSAGE_SIZE, payload_total,
    pending_wf, lemma_payload_total_empty, lemma_payload_total_insert, lemma_payload_total_le,
    lemma_assemble_len, lemma_bounded_set_len, lemma_full_index_set, spec_push_at, idle_expired,
    MESSAGE_IDLE_TIMEOUT_NANOS,
};
use vstd::prelude::*;

verus! {

/// The states and results of pushing `frames`, in order, starting from `state`.
pub open spec fn push_sequence(state: Option<PendingView>, frames: Seq<Seq<u8>>) -> (
    Option<PendingView>,
    Seq<Result<Option<Seq<u8>>, FramingError>>,
)
    decreases frames.len(),
{
    if frames.len() == 0 {
        (state, Seq::empty())
    } else {
        let (before, results) = push_sequence(state, frames.drop_last());
        let (after, result) = spec_push(before, frames.last());
        (after, results.push(result))
    }
}

/// The chunks `0 .. k` of `message` cut into payloads of `payload_len` bytes.
pub open spec fn prefix_chunks(message: Seq<u8>, payload_len: int, k: nat) -> Map<u32, Seq<u8>>
    decreases k,
{
    if k == 0 {
        Map::empty()
    } else {
        prefix_chunks(message, payload_len, (k - 1) as nat).insert(
            (k - 1) as u32,
            chunk_payload(message, k - 1, payload_len),
        )
    }
}

proof fn lemma_le16(x: u16)
    ensures
        le_u16(le16_bytes(x)[0], le16_bytes(x)[1]) == x,
{
}

proof fn lemma_le32(x: u32)
    ensures
        le_u32(le32_bytes(x)[0], le32_bytes(x)[1], le32_bytes(x)[2], le32_bytes(x)[3]) == x,
{
}

/// A frame built from a valid header decodes to that header and its payload.
pub proof fn lemma_decode_frame(message_id: u16, index: u32, count: u32, payload: Seq<u8>)
    requires
        0 < count <= MAX_CHUNKS,
        index < count,
    ensures
        spec_decode_chunk(frame_header(message_id, index, count) + payload) == Ok::<_, FramingError>(
            (message_id, index, count, payload),
        ),
{
    let frame = frame_header(message_id, index, count) + payload;
    lemma_le16(message_id);
    lemma_le32(index);
    lemma_le32(count);
    assert(frame_message_id(frame) == message_id);
    assert(frame_chunk_index(frame) == index);
    assert(frame_chunk_count(frame) == count);
    assert(frame.subrange(HEADER_LENGTH as int, frame.len() as int) =~= payload);
}

/// With `n` chunks for a message of `len` bytes, every chunk but the last is
/// full and the last one ends the message.
proof fn lemma_chunk_bounds(len: int, p: int, n: int, i: int)
    requires
        len >= 0,
        p > 0,
        n == chunk_count_for(len, p),
        0 <= i < n,
    ensures
        i * p <= len,
        i < n - 1 ==> i * p + p <= len,
        i == n - 1 ==> len <= i * p + p,
        0 <= i * p,
{
    if len > 0 {
        assert(i * p <= len && (i < n - 1 ==> i * p + p <= len) && (i == n - 1 ==> len <= i * p + p)
            && 0 <= i * p) by (nonlinear_arith)
            requires
                len > 0,
                p > 0,
                n == (len - 1) / p + 1,
                0 <= i < n,
        ;
    } else {
        assert(i == 0);
    }
}

/// Joining the first `j` payloads gives the first `j` full chunks of the message.
proof fn lemma_assemble_prefix(message: Seq<u8>, chunks: Map<u32, Seq<u8>>, p: int, n: int, j: nat)
    requires
        p > 0,
        n == chunk_count_for(message.len() as int, p),
        n <= MAX_CHUNKS,
        j <= n,
        forall|i: u32| i < j ==> #[trigger] chunks[i] == chunk_payload(message, i as int, p),
    ensures
        j < n ==> assemble(chunks, j) == message.subrange(0, j * p),
        j == n ==> assemble(chunks, j) == message,
    decreases j,
{
    if j > 0 {
        let i = j - 1;
        lemma_assemble_prefix(message, chunks, p, n, i as nat);
        lemma_chunk_bounds(message.len() as int, p, n, i);
        assert((i + 1) * p == i * p + p) by (nonlinear_arith);
        assert(chunks[i as u32] == chunk_payload(message, i, p));
        if i == 0 {
            assert(assemble(chunks, 0) =~= message.subrange(0, 0 * p));
        }
        if j < n {
            lemma_chunk_bounds(message.len() as int, p, n, j as int);
            assert(assemble(chunks, j) =~= message.subrange(0, j * p));
        } else {
            assert(assemble(chunks, j) =~= message);
        }
    } else {
        if n == 0 {
        } else {
            assert(assemble(chunks, 0) =~= message.subrange(0, 0 * p));
        }
    }
}

proof fn lemma_prefix_chunks(message: Seq<u8>, p: int, k: nat)
    requires
        k <= MAX_CHUNKS,
    ensures
        prefix_chunks(message, p, k).dom().finite(),
        prefix_chunks(message, p, k).len() == k,
        forall|x: u32| #[trigger] prefix_chunks(message, p, k).contains_key(x) <==> x < k,
        forall|x: u32| x < k ==> #[trigger] prefix_chunks(message, p, k)[x] == chunk_payload(message, x as int, p),
    decreases k,
{
    if k > 0 {
        lemma_prefix_chunks(message, p, (k - 1) as nat);
        let prev = prefix_chunks(message, p, (k - 1) as nat);
        assert(!prev.contains_key((k - 1) as u32));
        assert(prefix_chunks(message, p, k).dom() =~= prev.dom().insert((k - 1) as u32));
    } else {
        assert(prefix_chunks(message, p, k).dom() =~= Set::<u32>::empty());
    }
}

/// After `k` frames of an `n`-frame message (`0 < k < n`), the message is pending
/// with chunks `0 .. k`, and every push gave nothing.
proof fn lemma_push_prefix(message: Seq<u8>, message_id: u16, maximum_value_length: int, k: nat)
    requires
        spec_encode_message(message, message_id, maximum_value_length) is Ok,
        1 <= k < spec_encode_message(message, message_id, maximum_value_length)->Ok_0.len(),
    ensures
        ({
            let frames = spec_encode_message(message, message_id, maximum_value_length)->Ok_0;
            let p = maximum_value_length - HEADER_LENGTH;
            push_sequence(None, frames.take(k as int)) == (
                Some(
                    PendingView {
                        message_id,
                        chunk_count: frames.len() as u32,
                        chunks: prefix_chunks(message, p, k),
                        total_size: (k * p) as nat,
                    },
                ),
                Seq::new(k, |i: int| Ok::<Option<Seq<u8>>, FramingError>(None)),
            )
        }),
    decreases k,
{
    let frames = spec_encode_message(message, message_id, maximum_value_length)->Ok_0;
    let p = maximum_value_length - HEADER_LENGTH;
    let n = frames.len() as int;
    let i = (k - 1) as int;
    let count = n as u32;
    lemma_chunk_bounds(message.len() as int, p, n, i);
    lemma_decode_frame(message_id, i as u32, count, chunk_payload(message, i, p));
    let payload = chunk_payload(message, i, p);
    assert(frames[i] == frame_header(message_id, i as u32, count) + payload);
    assert(payload.len() == p);
    assert(frames.take(k as int).drop_last() =~= frames.take(i));
    assert(frames.take(k as int).last() == frames[i]);
    lemma_prefix_chunks(message, p, k);
    lemma_prefix_chunks(message, p, i as nat);
    let frame = frames[i];
    let after = PendingView {
        message_id,
        chunk_count: count,
        chunks: prefix_chunks(message, p, k),
        total_size: (k * p) as nat,
    };
    assert(prefix_chunks(message, p, k) == prefix_chunks(message, p, i as nat).insert(i as u32, payload));
    assert((i + 1) * p == i * p + p) by (nonlinear_arith);
    assert(k * p <= message.len()) by {
        lemma_chunk_bounds(message.len() as int, p, n, i);
    }
    if k == 1 {
        assert(frames.take(0) =~= Seq::<Seq<u8>>::empty());
        assert(prefix_chunks(message, p, 0) =~= Map::<u32, Seq<u8>>::empty());
        assert(push_sequence(None, frames.take(0)) == (
            None::<PendingView>,
            Seq::<Result<Option<Seq<u8>>, FramingError>>::empty(),
        ));
        assert(spec_decode_chunk(frame) == Ok::<_, FramingError>((message_id, 0u32, count, payload)));
        let fresh = PendingView { message_id, chunk_count: count, chunks: Map::empty(), total_size: 0 };
        assert(!fresh.chunks.contains_key(0u32));
        assert(fresh.total_size + payload.len() <= MAX_MESSAGE_SIZE);
        assert(fresh.chunks.insert(0u32, payload) == prefix_chunks(message, p, 1));
        assert(fresh.chunks.insert(0u32, payload).len() == 1);
        assert(1 * p == p);
        assert(spec_push(None, frame) == (Some(after), Ok::<Option<Seq<u8>>, FramingError>(None)));
        assert(Seq::new(1, |i: int| Ok::<Option<Seq<u8>>, FramingError>(None)) =~= Seq::<
            Result<Option<Seq<u8>>, FramingError>,
        >::empty().push(Ok(None)));
    } else {
        lemma_push_prefix(message, message_id, maximum_value_length, i as nat);
        let before = PendingView {
            message_id,
            chunk_count: count,
            chunks: prefix_chunks(message, p, i as nat),
            total_size: (i * p) as nat,
        };
        assert(i * p <= message.len());
        assert(spec_push(Some(before), frame) == (Some(after), Ok::<Option<Seq<u8>>, FramingError>(None)));
        assert(Seq::new(k, |j: int| Ok::<Option<Seq<u8>>, FramingError>(None)) =~= Seq::new(
            i as nat,
            |j: int| Ok::<Option<Seq<u8>>, FramingError>(None),
        ).push(Ok(None)));
    }
}

/// Pushing the frames of an encoded message, in order, into an empty
/// reassembler gives nothing for every frame but the last, which gives the
/// message back and leaves the reassembler empty.
pub proof fn lemma_round_trip_in_order(message: Seq<u8>, message_id: u16, maximum_value_length: int)
    requires
        spec_encode_message(message, message_id, maximum_value_length) is Ok,
    ensures
        ({
            let frames = spec_encode_message(message, message_id, maximum_value_length)->Ok_0;
            let n = frames.len() as int;
            push_sequence(None, frames) == (
                None::<PendingView>,
                Seq::new(
                    n as nat,
                    |i: int|
                        if i < n - 1 {
                            Ok::<Option<Seq<u8>>, FramingError>(None)
                        } else {
                            Ok(Some(message))
                        },
                ),
            )
        }),
{
    let frames = spec_encode_message(message, message_id, maximum_value_length)->Ok_0;
    let p = maximum_value_length - HEADER_LENGTH;
    let n = frames.len() as int;
    let i = n - 1;
    let count = n as u32;
    lemma_chunk_bounds(message.len() as int, p, n, i);
    let payload = chunk_payload(message, i, p);
    lemma_decode_frame(message_id, i as u32, count, payload);
    assert(frames[i] == frame_header(message_id, i as u32, count) + payload);
    assert(frames.drop_last() =~= frames.take(i));
    lemma_prefix_chunks(message, p, n as nat);
    lemma_prefix_chunks(message, p, i as nat);
    lemma_assemble_prefix(message, prefix_chunks(message, p, n as nat), p, n, n as nat);
    let expected = Seq::new(
        n as nat,
        |j: int|
            if j < n - 1 {
                Ok::<Option<Seq<u8>>, FramingError>(None)
            } else {
                Ok(Some(message))
            },
    );
    assert(prefix_chunks(message, p, n as nat) == prefix_chunks(message, p, i as nat).insert(i as u32, payload));
    assert(spec_decode_chunk(frames[i]) == Ok::<_, FramingError>((message_id, i as u32, count, payload)));
    assert(i * p + payload.len() <= message.len());
    let done = (None::<PendingView>, Ok::<Option<Seq<u8>>, FramingError>(Some(message)));
    assert(frames.last() == frames[i]);
    let prior = push_sequence(None, frames.take(i));
    assert(push_sequence(None, frames) == (spec_push(prior.0, frames[i]).0, prior.1.push(
        spec_push(prior.0, frames[i]).1,
    )));
    if n == 1 {
        assert(frames.take(0) =~= Seq::<Seq<u8>>::empty());
        let fresh = PendingView { message_id, chunk_count: count, chunks: Map::empty(), total_size: 0 };
        assert(prefix_chunks(message, p, 0) =~= Map::<u32, Seq<u8>>::empty());
        assert(fresh.chunks.insert(0u32, payload) == prefix_chunks(message, p, 1));
        assert(spec_push(None, frames[i]) == done);
        assert(expected =~= Seq::<Result<Option<Seq<u8>>, FramingError>>::empty().push(
            Ok(Some(message)),
        ));
    } else {
        lemma_push_prefix(message, message_id, maximum_value_length, i as nat);
        let before = PendingView {
            message_id,
            chunk_count: count,
            chunks: prefix_chunks(message, p, i as nat),
            total_size: (i * p) as nat,
        };
        assert(spec_push(Some(before), frames[i]) == done);
        assert(expected =~= Seq::new(
            i as nat,
            |j: int| Ok::<Option<Seq<u8>>, FramingError>(None),
        ).push(Ok(Some(message))));
    }
}

/// Every frame of an encoded message fits the characteristic value and
/// decodes to its own index, the chunk count and the message id.
pub proof fn lemma_frames_fit_and_decode(message: Seq<u8>, message_id: u16, maximum_value_length: int, i: int)
    requires
        spec_encode_message(message, message_id, maximum_value_length) is Ok,
        0 <= i < spec_encode_message(message, message_id, maximum_value_length)->Ok_0.len(),
    ensures
        ({
            let frames = spec_encode_message(message, message_id, maximum_value_length)->Ok_0;
            let p = maximum_value_length - HEADER_LENGTH;
            &&& frames[i].len() <= maximum_value_length
            &&& spec_decode_chunk(frames[i]) == Ok::<_, FramingError>(
                (message_id, i as u32, frames.len() as u32, chunk_payload(message, i, p)),
            )
        }),
{
    let frames = spec_encode_message(message, message_id, maximum_value_length)->Ok_0;
    let p = maximum_value_length - HEADER_LENGTH;
    let n = frames.len() as int;
    lemma_chunk_bounds(message.len() as int, p, n, i);
    lemma_decode_frame(message_id, i as u32, n as u32, chunk_payload(message, i, p));
}

/// A chunk that arrives again with another payload abandons the pending
/// message and is refused.
pub proof fn lemma_conflicting_duplicate_abandons(state: PendingView, value: Seq<u8>)
    requires
        spec_decode_chunk(value) is Ok,
        spec_decode_chunk(value)->Ok_0.0 == state.message_id,
        spec_decode_chunk(value)->Ok_0.2 == state.chunk_count,
        state.chunks.contains_key(spec_decode_chunk(value)->Ok_0.1),
        state.chunks[spec_decode_chunk(value)->Ok_0.1] != spec_decode_chunk(value)->Ok_0.3,
    ensures
        spec_push(Some(state), value) == (None::<PendingView>, Err::<Option<Seq<u8>>, _>(
            FramingError::ConflictingDuplicate,
        )),
{
}

/// A chunk that arrives again with the same payload changes nothing.
pub proof fn lemma_identical_duplicate_ignored(state: PendingView, value: Seq<u8>)
    requires
        spec_decode_chunk(value) is Ok,
        spec_decode_chunk(value)->Ok_0.0 == state.message_id,
        spec_decode_chunk(value)->Ok_0.2 == state.chunk_count,
        state.chunks.contains_key(spec_decode_chunk(value)->Ok_0.1),
        state.chunks[spec_decode_chunk(value)->Ok_0.1] == spec_decode_chunk(value)->Ok_0.3,
    ensures
        spec_push(Some(state), value) == (Some(state), Ok::<Option<Seq<u8>>, FramingError>(None)),
{
}

/// A chunk of another message, while one is pending, is refused and leaves
/// the pending message as it was.
pub proof fn lemma_interleaved_refused(state: PendingView, value: Seq<u8>)
    requires
        spec_decode_chunk(value) is Ok,
        spec_decode_chunk(value)->Ok_0.0 != state.message_id || spec_decode_chunk(value)->Ok_0.2
            != state.chunk_count,
    ensures
        spec_push(Some(state), value) == (Some(state), Err::<Option<Seq<u8>>, _>(FramingError::Interleaved)),
{
}

/// A frame that does not decode is refused and leaves the state as it was.
pub proof fn lemma_undecodable_refused(state: Option<PendingView>, value: Seq<u8>)
    requires
        spec_decode_chunk(value) is Err,
    ensures
        spec_push(state, value) == (state, Err::<Option<Seq<u8>>, _>(spec_decode_chunk(value)->Err_0)),
{
}

/// The chunks of `message` whose indices come among the first `k` of `order`.
pub open spec fn received_chunks(message: Seq<u8>, p: int, order: Seq<int>, k: nat) -> Map<u32, Seq<u8>>
    decreases k,
{
    if k == 0 {
        Map::empty()
    } else {
        received_chunks(message, p, order, (k - 1) as nat).insert(
            order[k - 1] as u32,
            chunk_payload(message, order[k - 1], p),
        )
    }
}

/// The frames of an encoded message taken in the order of `order`.
pub open spec fn frames_in_order(frames: Seq<Seq<u8>>, order: Seq<int>) -> Seq<Seq<u8>> {
    order.map_values(|i: int| frames[i])
}

/// The pending state once the chunks among the first `k` of `order` came.
pub open spec fn received_state(message: Seq<u8>, message_id: u16, p: int, n: int, order: Seq<int>, k: nat) -> PendingView {
    PendingView {
        message_id,
        chunk_count: n as u32,
        chunks: received_chunks(message, p, order, k),
        total_size: payload_total(received_chunks(message, p, order, k), n as nat),
    }
}

proof fn lemma_received(message: Seq<u8>, p: int, n: int, order: Seq<int>, k: nat)
    requires
        0 < n <= MAX_CHUNKS,
        k <= order.len(),
        forall|j: int| 0 <= j < order.len() ==> 0 <= #[trigger] order[j] < n,
    ensures
        received_chunks(message, p, order, k).dom().finite(),
        forall|x: u32| #[trigger] received_chunks(message, p, order, k).contains_key(x) ==> x < n
            && received_chunks(message, p, order, k)[x] == chunk_payload(message, x as int, p)
            && exists|j: int| 0 <= j < k && order[j] == x as int,
        forall|j: int| 0 <= j < k ==> #[trigger] received_chunks(message, p, order, k).contains_key(order[j] as u32),
    decreases k,
{
    if k > 0 {
        lemma_received(message, p, n, order, (k - 1) as nat);
        let prev = received_chunks(message, p, order, (k - 1) as nat);
        let cur = received_chunks(message, p, order, k);
        assert forall|x: u32| #[trigger] cur.contains_key(x) implies x < n && cur[x] == chunk_payload(
            message,
            x as int,
            p,
        ) && exists|j: int| 0 <= j < k && order[j] == x as int by {
            if x == order[k - 1] as u32 {
                assert(order[k - 1] == x as int);
            } else {
                assert(prev.contains_key(x));
                let j = choose|j: int| 0 <= j < k - 1 && order[j] == x as int;
                assert(0 <= j < k && order[j] == x as int);
            }
        }
        assert forall|j: int| 0 <= j < k implies #[trigger] cur.contains_key(order[j] as u32) by {
            if j < k - 1 {
                assert(prev.contains_key(order[j] as u32));
            }
        }
    } else {
        assert(received_chunks(message, p, order, k).dom() =~= Set::<u32>::empty());
    }
}

/// A set of indices that are exactly those below `n` has `n` elements.
proof fn lemma_interval_len(s: Set<u32>, n: nat)
    requires
        s.finite(),
        n <= MAX_CHUNKS,
        forall|x: u32| #[trigger] s.contains(x) <==> x < n,
    ensures
        s.len() == n,
    decreases n,
{
    if n == 0 {
        assert(s =~= Set::<u32>::empty());
    } else {
        let top = (n - 1) as u32;
        assert(s.contains(top));
        lemma_interval_len(s.remove(top), (n - 1) as nat);
    }
}

/// One push of the frames in `order`: the state before it holds fewer than
/// all chunks; the push adds the chunk (a repeated one changes nothing) and
/// gives the message once every chunk is held.
proof fn lemma_any_order_step(message: Seq<u8>, message_id: u16, maximum_value_length: int, order: Seq<int>, k: nat)
    requires
        spec_encode_message(message, message_id, maximum_value_length) is Ok,
        k < order.len(),
        forall|j: int|
            0 <= j < order.len() ==> 0 <= #[trigger] order[j] < spec_encode_message(
                message,
                message_id,
                maximum_value_length,
            )->Ok_0.len(),
        received_chunks(message, maximum_value_length - HEADER_LENGTH, order, k).len()
            < spec_encode_message(message, message_id, maximum_value_length)->Ok_0.len(),
    ensures
        ({
            let frames = spec_encode_message(message, message_id, maximum_value_length)->Ok_0;
            let p = maximum_value_length - HEADER_LENGTH;
            let n = frames.len() as int;
            let before = if k == 0 {
                None
            } else {
                Some(received_state(message, message_id, p, n, order, k))
            };
            let after = received_chunks(message, p, order, k + 1);
            spec_push(before, frames[order[k as int]]) == if after.len() == n {
                (None::<PendingView>, Ok::<Option<Seq<u8>>, FramingError>(Some(assemble(after, n as nat))))
            } else {
                (Some(received_state(message, message_id, p, n, order, k + 1)), Ok(None))
            }
        }),
{
    let frames = spec_encode_message(message, message_id, maximum_value_length)->Ok_0;
    let p = maximum_value_length - HEADER_LENGTH;
    let n = frames.len() as int;
    let idx = order[k as int];
    let x = idx as u32;
    let payload = chunk_payload(message, idx, p);
    lemma_frames_fit_and_decode(message, message_id, maximum_value_length, idx);
    lemma_received(message, p, n, order, k);
    lemma_received(message, p, n, order, k + 1);
    lemma_prefix_chunks(message, p, n as nat);
    let full = prefix_chunks(message, p, n as nat);
    let cur = received_chunks(message, p, order, k);
    let after = received_chunks(message, p, order, k + 1);
    assert(after == cur.insert(x, payload));
    lemma_payload_total_empty(n as nat);
    assert(k == 0 ==> cur =~= Map::<u32, Seq<u8>>::empty());
    let pv = PendingView { message_id, chunk_count: n as u32, chunks: cur, total_size: payload_total(cur, n as nat) };
    if cur.contains_key(x) {
        assert(after =~= cur);
    } else {
        lemma_payload_total_insert(cur, x, payload, n as nat);
        lemma_payload_total_le(after, full, n as nat);
        lemma_assemble_prefix(message, full, p, n, n as nat);
        assert forall|i: u32| i < n implies #[trigger] full.contains_key(i) by {}
        lemma_assemble_len(full, n as nat);
        assert(payload_total(after, n as nat) <= message.len());
    }
}

/// After the first `k` frames in `order` (`k` short of the last, whose
/// chunk comes for the first time at the end), the message is pending
/// with the chunks received so far, and every push gave nothing.
proof fn lemma_any_order_prefix(message: Seq<u8>, message_id: u16, maximum_value_length: int, order: Seq<int>, k: nat)
    requires
        spec_encode_message(message, message_id, maximum_value_length) is Ok,
        0 < order.len(),
        k < order.len(),
        forall|j: int|
            0 <= j < order.len() ==> 0 <= #[trigger] order[j] < spec_encode_message(
                message,
                message_id,
                maximum_value_length,
            )->Ok_0.len(),
        !order.drop_last().contains(order.last()),
    ensures
        ({
            let frames = spec_encode_message(message, message_id, maximum_value_length)->Ok_0;
            let p = maximum_value_length - HEADER_LENGTH;
            let n = frames.len() as int;
            &&& received_chunks(message, p, order, k).len() < n
            &&& push_sequence(None, frames_in_order(frames, order).take(k as int)) == (
                if k == 0 {
                    None
                } else {
                    Some(received_state(message, message_id, p, n, order, k))
                },
                Seq::new(k, |i: int| Ok::<Option<Seq<u8>>, FramingError>(None)),
            )
        }),
    decreases k,
{
    let frames = spec_encode_message(message, message_id, maximum_value_length)->Ok_0;
    let p = maximum_value_length - HEADER_LENGTH;
    let n = frames.len() as int;
    let last = order.last();
    lemma_received(message, p, n, order, k);
    let cur = received_chunks(message, p, order, k);
    assert(!cur.contains_key(last as u32)) by {
        if cur.contains_key(last as u32) {
            let j = choose|j: int| 0 <= j < k && order[j] == (last as u32) as int;
            assert(order.drop_last()[j] == last);
        }
    }
    assert forall|y: u32| #[trigger] cur.dom().insert(last as u32).contains(y) implies y < n by {}
    lemma_bounded_set_len(cur.dom().insert(last as u32), n as nat);
    if k == 0 {
        assert(frames_in_order(frames, order).take(0) =~= Seq::<Seq<u8>>::empty());
        assert(Seq::new(0, |i: int| Ok::<Option<Seq<u8>>, FramingError>(None)) =~= Seq::<
            Result<Option<Seq<u8>>, FramingError>,
        >::empty());
    } else {
        let i = (k - 1) as nat;
        lemma_any_order_prefix(message, message_id, maximum_value_length, order, i);
        lemma_received(message, p, n, order, i);
        lemma_any_order_step(message, message_id, maximum_value_length, order, i);
        let fo = frames_in_order(frames, order);
        assert(fo.take(k as int).drop_last() =~= fo.take(i as int));
        assert(fo.take(k as int).last() == frames[order[i as int]]);
        assert(Seq::new(k, |j: int| Ok::<Option<Seq<u8>>, FramingError>(None)) =~= Seq::new(
            i,
            |j: int| Ok::<Option<Seq<u8>>, FramingError>(None),
        ).push(Ok(None)));
    }
}

/// Pushing the frames of an encoded message in any order, with repeated
/// frames among them, into an empty reassembler gives nothing for every
/// frame but the last, which gives the message back and leaves the
/// reassembler empty, where every chunk comes at least once and the last
/// frame carries a chunk that came for the first time.
pub proof fn lemma_round_trip_any_order(message: Seq<u8>, message_id: u16, maximum_value_length: int, order: Seq<int>)
    requires
        spec_encode_message(message, message_id, maximum_value_length) is Ok,
        0 < order.len(),
        forall|j: int|
            0 <= j < order.len() ==> 0 <= #[trigger] order[j] < spec_encode_message(
                message,
                message_id,
                maximum_value_length,
            )->Ok_0.len(),
        forall|i: int|
            0 <= i < spec_encode_message(message, message_id, maximum_value_length)->Ok_0.len()
                ==> #[trigger] order.contains(i),
        !order.drop_last().contains(order.last()),
    ensures
        ({
            let frames = spec_encode_message(message, message_id, maximum_value_length)->Ok_0;
            let m = order.len() as int;
            push_sequence(None, frames_in_order(frames, order)) == (
                None::<PendingView>,
                Seq::new(
                    m as nat,
                    |i: int|
                        if i < m - 1 {
                            Ok::<Option<Seq<u8>>, FramingError>(None)
                        } else {
                            Ok(Some(message))
                        },
                ),
            )
        }),
{
    let frames = spec_encode_message(message, message_id, maximum_value_length)->Ok_0;
    let p = maximum_value_length - HEADER_LENGTH;
    let n = frames.len() as int;
    let m = order.len() as int;
    let k = (m - 1) as nat;
    lemma_any_order_prefix(message, message_id, maximum_value_length, order, k);
    lemma_any_order_step(message, message_id, maximum_value_length, order, k);
    lemma_received(message, p, n, order, (k + 1) as nat);
    let all = received_chunks(message, p, order, (k + 1) as nat);
    assert forall|y: u32| #[trigger] all.dom().contains(y) <==> y < n by {
        if y < n {
            assert(order.contains(y as int));
            let j = choose|j: int| 0 <= j < order.len() && order[j] == y as int;
            assert(all.contains_key(order[j] as u32));
        }
    }
    lemma_interval_len(all.dom(), n as nat);
    assert forall|i: u32| i < n as nat implies #[trigger] all[i] == chunk_payload(message, i as int, p) by {
        assert(all.dom().contains(i));
    }
    lemma_assemble_prefix(message, all, p, n, n as nat);
    let fo = frames_in_order(frames, order);
    assert(fo =~= fo.take(m));
    assert(fo.take(m).drop_last() =~= fo.take(k as int));
    assert(fo.take(m).last() == frames[order[k as int]]);
    let expected = Seq::new(
        m as nat,
        |i: int|
            if i < m - 1 {
                Ok::<Option<Seq<u8>>, FramingError>(None)
            } else {
                Ok(Some(message))
            },
    );
    assert(expected =~= Seq::new(k, |j: int| Ok::<Option<Seq<u8>>, FramingError>(None)).push(Ok(Some(message))));
}

/// From a well formed state, a push leaves a well formed state, and a
/// message it completes is at most `MAX_MESSAGE_SIZE` bytes long.
pub proof fn lemma_push_keeps_size_bound(state: Option<PendingView>, value: Seq<u8>)
    requires
        state matches Some(p) ==> pending_wf(p),
    ensures
        spec_push(state, value).0 matches Some(p) ==> pending_wf(p),
        spec_push(state, value).1 matches Ok(Some(m)) ==> m.len() <= MAX_MESSAGE_SIZE,
{
    if let Ok((id, index, count, payload)) = spec_decode_chunk(value) {
        if !(state is Some && (state->0.message_id != id || state->0.chunk_count != count)) {
            let p = match state {
                Some(p) => p,
                None => PendingView { message_id: id, chunk_count: count, chunks: Map::empty(), total_size: 0 },
            };
            lemma_payload_total_empty(count as nat);
            if !p.chunks.contains_key(index) && p.total_size + payload.len() <= MAX_MESSAGE_SIZE {
                let chunks = p.chunks.insert(index, payload);
                lemma_payload_total_insert(p.chunks, index, payload, count as nat);
                if chunks.len() == count {
                    lemma_full_index_set(chunks.dom(), count as nat);
                    lemma_assemble_len(chunks, count as nat);
                } else {
                    assert forall|y: u32| #[trigger] chunks.dom().contains(y) implies y < count by {}
                    lemma_bounded_set_len(chunks.dom(), count as nat);
                }
            }
        }
    }
}

/// The states, stamps and results of pushing `frames` in order with
/// `push_at`, frame `i` at `times[i]`, starting from `state` stamped `last`.
pub open spec fn push_at_sequence(
    state: Option<PendingView>,
    last: Option<u128>,
    frames: Seq<Seq<u8>>,
    times: Seq<u128>,
) -> (Option<PendingView>, Option<u128>, Seq<Result<Option<Seq<u8>>, FramingError>>)
    decreases frames.len(),
{
    if frames.len() == 0 {
        (state, last, Seq::empty())
    } else {
        let (before, stamp, results) = push_at_sequence(state, last, frames.drop_last(), times);
        let (after, after_stamp, result) = spec_push_at(before, stamp, frames.last(), times[frames.len() - 1]);
        (after, after_stamp, results.push(result))
    }
}

/// Frames pushed with `push_at` at times that lie less than the idle
/// timeout apart (and less than it after the starting stamp) give what
/// `spec_push` gives: no message is abandoned for idleness.
pub proof fn lemma_timely_pushes_never_expire(
    state: Option<PendingView>,
    last: Option<u128>,
    frames: Seq<Seq<u8>>,
    times: Seq<u128>,
)
    requires
        frames.len() <= times.len(),
        forall|i: int, j: int|
            0 <= i < frames.len() && 0 <= j < frames.len() ==> #[trigger] times[i] - #[trigger] times[j]
                < MESSAGE_IDLE_TIMEOUT_NANOS,
        last matches Some(t) ==> forall|i: int| 0 <= i < frames.len() ==> #[trigger] times[i] - t
            < MESSAGE_IDLE_TIMEOUT_NANOS,
    ensures
        ({
            let (s, l, rs) = push_at_sequence(state, last, frames, times);
            &&& (s, rs) == push_sequence(state, frames)
            &&& l matches Some(t) ==> (last == Some(t) || exists|j: int| 0 <= j < frames.len() && times[j] == t)
        }),
    decreases frames.len(),
{
    if frames.len() > 0 {
        let n = frames.len() - 1;
        let prior = frames.drop_last();
        assert forall|i: int, j: int| 0 <= i < prior.len() && 0 <= j < prior.len() implies #[trigger] times[i]
            - #[trigger] times[j] < MESSAGE_IDLE_TIMEOUT_NANOS by {
            assert(times[i] - times[j] < MESSAGE_IDLE_TIMEOUT_NANOS);
        }
        lemma_timely_pushes_never_expire(state, last, prior, times);
        let (before, stamp, results) = push_at_sequence(state, last, prior, times);
        let now = times[n];
        if let Some(t) = stamp {
            if last == Some(t) {
                assert(now - t < MESSAGE_IDLE_TIMEOUT_NANOS);
            } else {
                let j = choose|j: int| 0 <= j < prior.len() && times[j] == t;
                assert(times[n] - times[j] < MESSAGE_IDLE_TIMEOUT_NANOS);
            }
        }
        assert(!idle_expired(stamp, now));
        let after_stamp = spec_push_at(before, stamp, frames.last(), now).1;
        if let Some(t) = after_stamp {
            if stamp == Some(t) {
                if last != Some(t) {
                    let j = choose|j: int| 0 <= j < prior.len() && times[j] == t;
                    assert(0 <= j < frames.len() && times[j] == t);
                }
            } else {
                assert(t == now);
            }
        }
    }
}

/// The round trip in any order through `push_at`: frames of an encoded
/// message pushed into a new reassembler within a span shorter than the idle
/// timeout, in any order with repeats (every chunk coming at least once, the
/// last frame carrying a chunk seen for the first time), give nothing but
/// for the last, which gives the message back, and leave nothing pending.
pub proof fn lemma_round_trip_any_order_at_times(
    message: Seq<u8>,
    message_id: u16,
    maximum_value_length: int,
    order: Seq<int>,
    times: Seq<u128>,
)
    requires
        spec_encode_message(message, message_id, maximum_value_length) is Ok,
        0 < order.len(),
        forall|j: int|
            0 <= j < order.len() ==> 0 <= #[trigger] order[j] < spec_encode_message(
                message,
                message_id,
                maximum_value_length,
            )->Ok_0.len(),
        forall|i: int|
            0 <= i < spec_encode_message(message, message_id, maximum_value_length)->Ok_0.len()
                ==> #[trigger] order.contains(i),
        !order.drop_last().contains(order.last()),
        times.len() == order.len(),
        forall|i: int, j: int|
            0 <= i < times.len() && 0 <= j < times.len() ==> #[trigger] times[i] - #[trigger] times[j]
                < MESSAGE_IDLE_TIMEOUT_NANOS,
    ensures
        ({
            let frames = spec_encode_message(message, message_id, maximum_value_length)->Ok_0;
            let m = order.len() as int;
            let (s, l, rs) = push_at_sequence(None, None, frames_in_order(frames, order), times);
            &&& s == None::<PendingView>
            &&& l == None::<u128>
            &&& rs == Seq::new(
                m as nat,
                |i: int|
                    if i < m - 1 {
                        Ok::<Option<Seq<u8>>, FramingError>(None)
                    } else {
                        Ok(Some(message))
                    },
            )
        }),
{
    let frames = spec_encode_message(message, message_id, maximum_value_length)->Ok_0;
    let fo = frames_in_order(frames, order);
    lemma_timely_pushes_never_expire(None, None, fo, times);
    lemma_round_trip_any_order(message, message_id, maximum_value_length, order);
    lemma_push_at_sequence_stamp(None, None, fo, times);
}

/// Where `push_at` leaves nothing pending, it leaves no stamp.
proof fn lemma_push_at_sequence_stamp(
    state: Option<PendingView>,
    last: Option<u128>,
    frames: Seq<Seq<u8>>,
    times: Seq<u128>,
)
    requires
        state is None ==> last is None,
    ensures
        push_at_sequence(state, last, frames, times).0 is None ==> push_at_sequence(state, last, frames, times).1 is None,
    decreases frames.len(),
{
    if frames.len() > 0 {
        lemma_push_at_sequence_stamp(state, last, frames.drop_last(), times);
    }
}

} // verus!
