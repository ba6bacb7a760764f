//! The order of the network steps for one domain: which request comes
//! next, and what the finished probe holds.

use crate::domain::{HttpResponse, Probe};
use vstd::prelude::*;

verus! {

/// Where the probing of a domain stands.
#[derive(Debug)]
pub enum ProbeState {
    /// Nothing was asked yet.
    Idle,
    /// The HTTP request is under way.
    Fetching,
    /// The HTTP request was answered with the response held here, and the
    /// TLS handshake is under way.
    Handshaking(HttpResponse),
    /// The probe was handed out.
    Finished,
}

/// What the network reported.
#[derive(Debug)]
pub enum Event {
    /// Probing is to begin.
    Begin,
    /// The HTTP request failed.
    HttpFailed,
    /// The HTTP request was answered.
    HttpAnswered(HttpResponse),
    /// The handshake failed or brought no certificate.
    HandshakeFailed,
    /// The handshake brought the peer's certificates, each in DER.
    HandshakeDone(Vec<Vec<u8>>),
}

/// What to do next.
#[derive(Debug)]
pub enum Action {
    /// Request this URL with a plain HTTP GET.
    Fetch { url: String },
    /// Shake hands over TLS with this host on this port, without asking
    /// that the certificates be trusted.
    Handshake { host: String, port: u16 },
    /// Probing is over; this is what it showed.
    Finish(Probe),
    /// The event was not waited for; nothing is to be done.
    Nothing,
}

/// What an action is, with its texts as character sequences.
pub enum ActionView {
    Fetch { url: Seq<char> },
    Handshake { host: Seq<char>, port: u16 },
    Finish(Probe),
    Nothing,
}

impl View for Action {
    type V = ActionView;

    open spec fn view(&self) -> ActionView {
        match *self {
            Action::Fetch { url } => ActionView::Fetch { url: url@ },
            Action::Handshake { host, port } => ActionView::Handshake { host: host@, port },
            Action::Finish(probe) => ActionView::Finish(probe),
            Action::Nothing => ActionView::Nothing,
        }
    }
}

/// The port of the TLS handshake.
pub const HTTPS_PORT: u16 = 443;

/// The state after `event` came in `state`. The HTTP request comes first;
/// where it fails, probing is over. Where it is answered, the handshake
/// follows, and probing is over however that ends. An event that the state
/// does not wait for changes nothing.
pub open spec fn next_state(state: ProbeState, event: Event) -> ProbeState {
    match (state, event) {
        (ProbeState::Idle, Event::Begin) => ProbeState::Fetching,
        (ProbeState::Fetching, Event::HttpFailed) => ProbeState::Finished,
        (ProbeState::Fetching, Event::HttpAnswered(response)) => ProbeState::Handshaking(response),
        (ProbeState::Handshaking(_), Event::HandshakeFailed) => ProbeState::Finished,
        (ProbeState::Handshaking(_), Event::HandshakeDone(_)) => ProbeState::Finished,
        (state, _) => state,
    }
}

/// What is to be done after `event` came in `state` while probing the
/// domain called `name`.
pub open spec fn next_action(name: Seq<char>, state: ProbeState, event: Event) -> ActionView {
    match (state, event) {
        (ProbeState::Idle, Event::Begin) => ActionView::Fetch { url: "http://"@ + name },
        (ProbeState::Fetching, Event::HttpFailed) => ActionView::Finish(Probe::Unreachable),
        (ProbeState::Fetching, Event::HttpAnswered(_)) => ActionView::Handshake {
            host: name,
            port: HTTPS_PORT,
        },
        (ProbeState::Handshaking(response), Event::HandshakeFailed) => ActionView::Finish(
            Probe::Reached { response, certificates: None },
        ),
        (ProbeState::Handshaking(response), Event::HandshakeDone(chain)) => ActionView::Finish(
            Probe::Reached { response, certificates: Some(chain) },
        ),
        _ => ActionView::Nothing,
    }
}

/// Takes one step in probing the domain called `name`: from the state and
/// what the network reported to the next state and what to do.
pub fn advance(name: &str, state: ProbeState, event: Event) -> (step: (ProbeState, Action))
    ensures
        step.0 == next_state(state, event),
        step.1@ == next_action(name@, state, event),
{
    match (state, event) {
        (ProbeState::Idle, Event::Begin) => (
            ProbeState::Fetching,
            Action::Fetch { url: "http://".to_owned().concat(name) },
        ),
        (ProbeState::Fetching, Event::HttpFailed) => (
            ProbeState::Finished,
            Action::Finish(Probe::Unreachable),
        ),
        (ProbeState::Fetching, Event::HttpAnswered(response)) => (
            ProbeState::Handshaking(response),
            Action::Handshake { host: name.to_owned(), port: HTTPS_PORT },
        ),
        (ProbeState::Handshaking(response), Event::HandshakeFailed) => (
            ProbeState::Finished,
            Action::Finish(Probe::Reached { response, certificates: None }),
        ),
        (ProbeState::Handshaking(response), Event::HandshakeDone(chain)) => (
            ProbeState::Finished,
            Action::Finish(Probe::Reached { response, certificates: Some(chain) }),
        ),
        (state, _) => (state, Action::Nothing),
    }
}

/// A probe is handed out only after the HTTP request: as unreachable where
/// the request failed, and with the response where it was answered. No
/// handshake is asked for before an answer.
pub proof fn lemma_probe_follows_the_http_outcome(name: Seq<char>, state: ProbeState, event: Event)
    ensures
        next_action(name, state, event) matches ActionView::Finish(probe) ==> {
            &&& probe is Unreachable <==> (state is Fetching && event is HttpFailed)
            &&& probe matches Probe::Reached { response, .. } ==> state == ProbeState::Handshaking(
                response,
            )
        },
        next_action(name, state, event) is Handshake ==> state is Fetching && event
            is HttpAnswered,
{
}

} // verus!
