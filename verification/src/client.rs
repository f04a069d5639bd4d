//! What each connected client configured, and how its progress updates are
//! sampled: the newest progress waits for the client's next tick, other
//! fields go out at once.

use vstd::prelude::*;
use vstd::string::StringExecFns;

verus! {

pub const DEFAULT_PROGRESS_UPDATES_PER_SECOND: u32 = 10;

pub const MAX_PROGRESS_UPDATES_PER_SECOND: u32 = 60;

/// The progress update rate of one client (updates per second; 0 sends
/// only terminal progress).
pub struct ClientConfigurationHandle {
    progress_updates_per_second: u32,
}

impl ClientConfigurationHandle {
    pub closed spec fn rate(&self) -> u32 {
        self.progress_updates_per_second
    }

    /// A client starts at the default rate.
    pub fn new() -> (r: Self)
        ensures
            r.rate() == DEFAULT_PROGRESS_UPDATES_PER_SECOND,
    {
        ClientConfigurationHandle { progress_updates_per_second: DEFAULT_PROGRESS_UPDATES_PER_SECOND }
    }

    pub fn progress_updates_per_second(&self) -> (r: u32)
        ensures
            r == self.rate(),
    {
        self.progress_updates_per_second
    }

    fn set_progress_updates_per_second(&mut self, rate: u32)
        ensures
            final(self).rate() == rate,
    {
        self.progress_updates_per_second = rate;
    }
}

/// The answer to a client configuration request.
#[derive(Debug)]
pub enum ClientConfigurationResponse {
    Error(String),
    Configured { progress_updates_per_second: u32 },
}

/// Configures a client from a request that asks for `requested_rate`
/// (`None`: the request configures nothing, and gets no answer here).
/// Configuration must come alone (`has_other_fields` false) and ask for at
/// most 60 updates per second; a refused request leaves the rate as it was.
pub fn handle_client_configuration(
    requested_rate: Option<u32>,
    has_other_fields: bool,
    configuration: &mut ClientConfigurationHandle,
) -> (r: Option<ClientConfigurationResponse>)
    ensures
        match requested_rate {
            None => r is None && final(configuration).rate() == old(configuration).rate(),
            Some(rate) => if has_other_fields {
                &&& r matches Some(ClientConfigurationResponse::Error(m))
                    && m@ == "Client configuration must be a standalone request"@
                &&& final(configuration).rate() == old(configuration).rate()
            } else if rate > MAX_PROGRESS_UPDATES_PER_SECOND {
                &&& r matches Some(ClientConfigurationResponse::Error(m))
                    && m@ == "Progress update rate must be between 0 and 60 Hz"@
                &&& final(configuration).rate() == old(configuration).rate()
            } else {
                &&& r == Some(ClientConfigurationResponse::Configured { progress_updates_per_second: rate })
                &&& final(configuration).rate() == rate
            },
        },
{
    let rate = match requested_rate {
        Some(rate) => rate,
        None => return None,
    };
    if has_other_fields {
        return Some(ClientConfigurationResponse::Error(String::from_str("Client configuration must be a standalone request")));
    }
    if rate > MAX_PROGRESS_UPDATES_PER_SECOND {
        return Some(ClientConfigurationResponse::Error(String::from_str("Progress update rate must be between 0 and 60 Hz")));
    }
    configuration.set_progress_updates_per_second(rate);
    let effective_rate = configuration.progress_updates_per_second();
    Some(ClientConfigurationResponse::Configured { progress_updates_per_second: effective_rate })
}

/// What becomes of a response that reached a client.
#[derive(Debug)]
pub enum ResponseDelivery<P> {
    /// Nothing goes out now.
    Hold,
    /// The response goes out, with this progress attached.
    Deliver { progress: Option<P> },
}

/// The progress held back after a response with `progress`: a terminal one
/// clears what was held, any other replaces it.
pub open spec fn next_pending<P>(pending: Option<P>, progress: Option<P>, terminal: bool) -> Option<P> {
    match progress {
        None => pending,
        Some(p) => if terminal {
            None
        } else {
            Some(p)
        },
    }
}

/// What goes out for a response with `progress`; `rest_is_empty` tells that
/// it holds nothing but that progress.
pub open spec fn delivery<P>(progress: Option<P>, terminal: bool, rest_is_empty: bool) -> ResponseDelivery<P> {
    match progress {
        None => ResponseDelivery::Deliver { progress: None },
        Some(p) => if terminal {
            ResponseDelivery::Deliver { progress: Some(p) }
        } else if rest_is_empty {
            ResponseDelivery::Hold
        } else {
            ResponseDelivery::Deliver { progress: None }
        },
    }
}

/// The newest progress not yet sent to one client.
pub struct ProgressSampler<P> {
    pending: Option<P>,
}

impl<P> ProgressSampler<P> {
    pub closed spec fn pending(&self) -> Option<P> {
        self.pending
    }

    pub fn new() -> (r: Self)
        ensures
            r.pending() is None,
    {
        ProgressSampler { pending: None }
    }

    /// Takes the progress out of a response: terminal progress goes out at
    /// once (and drops what was held); other progress waits for the next
    /// tick, and the rest of the response goes out unless it is empty.
    pub fn on_response(&mut self, progress: Option<P>, terminal: bool, rest_is_empty: bool) -> (r: ResponseDelivery<P>)
        ensures
            final(self).pending() == next_pending(old(self).pending(), progress, terminal),
            r == delivery(progress, terminal, rest_is_empty),
    {
        match progress {
            None => ResponseDelivery::Deliver { progress: None },
            Some(p) => {
                if terminal {
                    self.pending = None;
                    ResponseDelivery::Deliver { progress: Some(p) }
                } else {
                    self.pending = Some(p);
                    if rest_is_empty {
                        ResponseDelivery::Hold
                    } else {
                        ResponseDelivery::Deliver { progress: None }
                    }
                }
            },
        }
    }

    /// At a tick of the client's rate: the held progress, which then goes out.
    pub fn on_deadline(&mut self) -> (r: Option<P>)
        ensures
            r == old(self).pending(),
            final(self).pending() is None,
    {
        let mut taken: Option<P> = None;
        std::mem::swap(&mut taken, &mut self.pending);
        taken
    }
}

/// Of two progress updates before a tick, only the newer one is sent at the
/// tick.
pub proof fn lemma_keeps_only_newest_progress<P>(pending: Option<P>, first: P, second: P)
    ensures
        next_pending(next_pending(pending, Some(first), false), Some(second), false) == Some(second),
{
}

/// Terminal progress is delivered at once, whatever was held, and nothing
/// is held after it.
pub proof fn lemma_terminal_progress_is_delivered<P>(pending: Option<P>, progress: P, rest_is_empty: bool)
    ensures
        delivery(Some(progress), true, rest_is_empty) == (ResponseDelivery::Deliver { progress: Some(progress) }),
        next_pending(pending, Some(progress), true) is None,
{
}

/// A response with no progress goes out unchanged and leaves what is held.
pub proof fn lemma_other_fields_are_immediate<P>(pending: Option<P>, rest_is_empty: bool)
    ensures
        delivery::<P>(None, false, rest_is_empty) == (ResponseDelivery::Deliver::<P> { progress: None }),
        next_pending::<P>(pending, None, false) == pending,
{
}

} // verus!
