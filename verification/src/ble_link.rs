//! The decisions of the BLE peripheral: one client at a time, the frames of
//! that client's session reassembled into requests, and the schedule on
//! which a failed peripheral is registered again.

use crate::framing::{error_text, spec_push, FramingError, PendingView, Reassembler};
use vstd::prelude::*;
use vstd::string::StringExecFns;

verus! {

/// The delays between registration attempts, in seconds; the last repeats.
pub open spec fn retry_delays() -> Seq<u64> {
    seq![1u64, 2u64, 5u64, 10u64, 30u64]
}

/// The delay before the next attempt and the index of the one after it.
pub fn next_retry(retry_index: usize) -> (r: (u64, usize))
    ensures
        r.0 == retry_delays()[if retry_index < 4 { retry_index as int } else { 4 }],
        r.1 == if retry_index < 3 { retry_index + 1 } else { 4 },
{
    let index = if retry_index < 4 { retry_index } else { 4 };
    let delay = if index == 0 {
        1
    } else if index == 1 {
        2
    } else if index == 2 {
        5
    } else if index == 3 {
        10
    } else {
        30
    };
    let next = if retry_index < 3 { retry_index + 1 } else { 4 };
    (delay, next)
}

/// A connected client: its device address and the session it opened.
#[derive(Debug, Clone, Copy, PartialEq, Eq, Structural)]
pub struct ClientSession {
    pub address: u64,
    pub session_id: u64,
}

/// What becomes of a frame that a client wrote.
#[derive(Debug)]
pub enum ChunkOutcome {
    /// The writer is not the active client's session: dropped.
    Ignored,
    /// The frame was taken; the message is not complete yet.
    Pending,
    /// The frame was refused; the client is told why.
    Rejected(String),
    /// The frame completed a message.
    Complete(Vec<u8>),
}

pub enum ChunkOutcomeView {
    Ignored,
    Pending,
    Rejected(Seq<char>),
    Complete(Seq<u8>),
}

impl View for ChunkOutcome {
    type V = ChunkOutcomeView;

    open spec fn view(&self) -> ChunkOutcomeView {
        match self {
            ChunkOutcome::Ignored => ChunkOutcomeView::Ignored,
            ChunkOutcome::Pending => ChunkOutcomeView::Pending,
            ChunkOutcome::Rejected(m) => ChunkOutcomeView::Rejected(m@),
            ChunkOutcome::Complete(b) => ChunkOutcomeView::Complete(b@),
        }
    }
}

/// The outcome of a push, and the pending message after it (a refused frame
/// abandons the pending message).
pub open spec fn outcome_of(
    pushed: (Option<PendingView>, Result<Option<Seq<u8>>, FramingError>),
) -> (Option<PendingView>, ChunkOutcomeView) {
    match pushed.1 {
        Ok(Some(m)) => (pushed.0, ChunkOutcomeView::Complete(m)),
        Ok(None) => (pushed.0, ChunkOutcomeView::Pending),
        Err(e) => (None, ChunkOutcomeView::Rejected("Invalid BLE frame: "@ + error_text(e))),
    }
}

/// The client's link: who is connected, and the message being reassembled
/// for which session.
pub struct BleLink {
    active: Option<ClientSession>,
    reassembler: Reassembler,
    reassembly_session: Option<u64>,
}

pub struct BleLinkView {
    pub active: Option<ClientSession>,
    pub pending: Option<PendingView>,
    pub reassembly_session: Option<u64>,
}

impl View for BleLink {
    type V = BleLinkView;

    closed spec fn view(&self) -> BleLinkView {
        BleLinkView {
            active: self.active,
            pending: self.reassembler@,
            reassembly_session: self.reassembly_session,
        }
    }
}

impl BleLink {
    pub closed spec fn wf(&self) -> bool {
        self.reassembler.wf()
    }

    /// No client, nothing pending.
    pub fn new() -> (r: Self)
        ensures
            r.wf(),
            r@ == (BleLinkView { active: None, pending: None, reassembly_session: None }),
    {
        BleLink { active: None, reassembler: Reassembler::default(), reassembly_session: None }
    }

    /// A client subscribed to responses in a new session: it becomes the
    /// active client unless one already is (then it is refused).
    pub fn register_notification_client(&mut self, client: ClientSession) -> (accepted: bool)
        requires
            old(self).wf(),
        ensures
            final(self).wf(),
            accepted == old(self)@.active is None,
            final(self)@ == if accepted {
                BleLinkView { active: Some(client), ..old(self)@ }
            } else {
                old(self)@
            },
    {
        if self.active.is_some() {
            return false;
        }
        self.active = Some(client);
        true
    }

    /// The active client, where it has the address `address`.
    pub fn active_client_for(&self, address: u64) -> (r: Option<ClientSession>)
        ensures
            r == match self@.active {
                Some(c) => if c.address == address {
                    Some(c)
                } else {
                    None
                },
                None => None,
            },
    {
        match self.active {
            Some(c) => if c.address == address {
                Some(c)
            } else {
                None
            },
            None => None,
        }
    }

    /// Whether `client` is the active client's session.
    pub fn is_active_client(&self, client: ClientSession) -> (r: bool)
        ensures
            r == (self@.active == Some(client)),
    {
        match self.active {
            Some(c) => c.address == client.address && c.session_id == client.session_id,
            None => false,
        }
    }

    /// A frame written by `client`. A frame of another session than the one
    /// being reassembled abandons that message first. A frame of a session
    /// that is not the active one is dropped; otherwise it is pushed (the
    /// reassembler may first abandon an idle message, as its clock says).
    pub fn on_incoming_chunk(&mut self, client: ClientSession, value: &[u8]) -> (r: ChunkOutcome)
        requires
            old(self).wf(),
        ensures
            final(self).wf(),
            final(self)@.active == old(self)@.active,
            final(self)@.reassembly_session == Some(client.session_id),
            ({
                let before = if old(self)@.reassembly_session == Some(client.session_id) {
                    old(self)@.pending
                } else {
                    None
                };
                if old(self)@.active != Some(client) {
                    r@ == ChunkOutcomeView::Ignored && final(self)@.pending == before
                } else {
                    ||| (final(self)@.pending, r@) == outcome_of(spec_push(before, value@))
                    ||| (before is Some && (final(self)@.pending, r@) == outcome_of(spec_push(None, value@)))
                }
            }),
    {
        if self.reassembly_session != Some(client.session_id) {
            self.reassembler.reset();
            self.reassembly_session = Some(client.session_id);
        }
        if !self.is_active_client(client) {
            return ChunkOutcome::Ignored;
        }
        match self.reassembler.push(value) {
            Ok(Some(bytes)) => ChunkOutcome::Complete(bytes),
            Ok(None) => ChunkOutcome::Pending,
            Err(error) => {
                self.reassembler.reset();
                let mut message = String::from_str("Invalid BLE frame: ");
                message.append(error.message().as_str());
                ChunkOutcome::Rejected(message)
            },
        }
    }

    /// The response writer of `client` stopped: it is no longer the active
    /// client (unless another session has taken its place).
    pub fn on_writer_closed(&mut self, client: ClientSession)
        requires
            old(self).wf(),
        ensures
            final(self).wf(),
            final(self)@ == if old(self)@.active == Some(client) {
                BleLinkView { active: None, ..old(self)@ }
            } else {
                old(self)@
            },
    {
        if self.is_active_client(client) {
            self.active = None;
        }
    }
}

/// The error a client is sent when its response stream fell behind.
pub fn lagged_error(count: u64) -> (r: String)
    ensures
        r@ == "BLE response stream skipped "@ + crate::text::decimal(count as nat)
            + " updates; request ALL to resynchronise"@,
{
    let mut m = String::from_str("BLE response stream skipped ");
    m.append(crate::text::u64_to_decimal(count).as_str());
    m.append(" updates; request ALL to resynchronise");
    m
}

/// The id of the next response message: one more, wrapping.
pub fn next_message_id(message_id: u16) -> (r: u16)
    ensures
        r == (if message_id == u16::MAX { 0 } else { message_id + 1 }),
{
    message_id.wrapping_add(1)
}

} // verus!
