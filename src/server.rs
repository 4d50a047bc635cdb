//! The decisions of the background web server and of the host's poll hook.
//! The server answers reads with the page and turns each write into an
//! event on a channel; the host takes at most one event per tick and routes
//! it to its record.
use vstd::prelude::*;
use crossbeam_channel::{Receiver, Sender};
use crate::text::{split_once, split_once_spec};
use crate::Inspectable;
use crate::record::UpdateError;

verus! {

/// The sending end of a `crossbeam_channel` channel, carried through opaque.
#[verifier::external_type_specification]
#[verifier::external_body]
#[verifier::reject_recursive_types(T)]
pub struct ExSender<T>(Sender<T>);

/// The receiving end of a `crossbeam_channel` channel, carried through opaque.
#[verifier::external_type_specification]
#[verifier::external_body]
#[verifier::reject_recursive_types(T)]
pub struct ExReceiver<T>(Receiver<T>);

/// An edit as it arrives: the path of a field and the text of its new value.
pub type Event = (String, String);

/// Relies on `crossbeam_channel::Sender::try_send`, which queues the event
/// without blocking, or refuses it when the channel is full (a bounded or
/// zero-capacity channel) or has no receiver left; a refusal is `false`.
/// Whether it is refused depends on the channel's state, so nothing is
/// promised of the result.
#[verifier::external_body]
fn send_event(tx: &Sender<Event>, event: Event) -> bool {
    tx.try_send(event).is_ok()
}

/// Relies on `crossbeam_channel::Receiver::try_recv`, which takes the oldest
/// queued event without blocking. Whether one is there depends on the other
/// thread, so nothing is promised of the result.
#[verifier::external_body]
fn try_recv_event(rx: &Receiver<Event>) -> Option<Event> {
    rx.try_recv().ok()
}

/// The page that the server hands out on a read.
pub struct ServerConfig {
    html: String,
}

impl ServerConfig {
    pub closed spec fn html_view(&self) -> Seq<char> {
        self.html@
    }

    pub fn new(html: String) -> (r: ServerConfig)
        ensures
            r.html_view() == html@,
    {
        ServerConfig { html }
    }

    /// Replaces the page with a fresher render of the record.
    pub fn set_html(&mut self, html: String)
        ensures
            final(self).html_view() == html@,
    {
        self.html = html;
    }

    pub fn html(&self) -> (r: &str)
        ensures
            r@ == self.html_view(),
    {
        self.html.as_str()
    }
}

/// The method of a request, as far as the server tells methods apart.
#[derive(Clone, Copy, Debug, PartialEq, Eq, Structural)]
pub enum RequestMethod {
    Get,
    Put,
    Other,
}

/// The answer to a request.
pub enum Response {
    /// The page, as markup.
    Document(String),
    /// An empty success.
    Empty,
}

/// What a request asks of the server: the answer, and the event to queue.
pub struct RequestOutcome {
    pub response: Response,
    pub event: Option<Event>,
}

/// The body of a write cut at its first `:` into a path and a value; a body
/// without `:` gives no event.
pub fn parse_body(body: &str) -> (r: Option<Event>)
    ensures
        match split_once_spec(body@, ':') {
            Some((p, v)) => r is Some && (r->0).0@ == p && (r->0).1@ == v,
            None => r is None,
        },
{
    split_once(body, ':')
}

/// How the server answers a request: a read gets the page, a write gets an
/// empty success and queues the event of its body, if it holds one, and any
/// other request gets an empty success.
pub fn decide_request(config: &ServerConfig, method: RequestMethod, body: &str) -> (r:
    RequestOutcome)
    ensures
        method == RequestMethod::Get ==> (r.response matches Response::Document(d) && d@
            == config.html_view()) && r.event is None,
        method == RequestMethod::Put ==> r.response is Empty && match split_once_spec(
            body@,
            ':',
        ) {
            Some((p, v)) => r.event is Some && (r.event->0).0@ == p && (r.event->0).1@ == v,
            None => r.event is None,
        },
        method == RequestMethod::Other ==> r.response is Empty && r.event is None,
{
    match method {
        RequestMethod::Get => RequestOutcome {
            response: Response::Document(String::from_str(config.html())),
            event: None,
        },
        RequestMethod::Put => RequestOutcome { response: Response::Empty, event: parse_body(body) },
        RequestMethod::Other => RequestOutcome { response: Response::Empty, event: None },
    }
}

/// Answers a request, and queues on `tx` the event that a write holds.
/// Never blocks: an event that a full channel refuses is dropped, as a
/// channel with a bound rejects what does not fit. Returns the answer, and
/// whether an event was queued.
pub fn handle_request(
    config: &ServerConfig,
    method: RequestMethod,
    body: &str,
    tx: &Sender<Event>,
) -> (r: (Response, bool))
    ensures
        method == RequestMethod::Get ==> (r.0 matches Response::Document(d) && d@
            == config.html_view()),
        method != RequestMethod::Get ==> r.0 is Empty,
        r.1 ==> method == RequestMethod::Put && split_once_spec(body@, ':') is Some,
{
    let outcome = decide_request(config, method, body);
    let sent = match outcome.event {
        Some(event) => send_event(tx, event),
        None => false,
    };
    (outcome.response, sent)
}

/// Routes an event, if one came, to the record.
pub fn apply_event<T: Inspectable>(record: &mut T, event: &Option<Event>) -> (r: Option<
    Result<(), UpdateError>,
>)
    requires
        old(record).inv(),
    ensures
        final(record).inv(),
        match event {
            None => r is None && *final(record) == *old(record),
            Some((path, value)) => r is Some && old(record).update_spec(
                path@,
                value@,
                *final(record),
                r->0,
            ),
        },
{
    match event {
        None => None,
        Some((path, value)) => Some(record.update(path.as_str(), value.as_str())),
    }
}

/// The host's hook, called once per tick: takes at most one queued event,
/// without blocking, and routes it to the record. Returns the event and
/// what routing it gave.
pub fn poll_once<T: Inspectable>(rx: &Receiver<Event>, record: &mut T) -> (r: Option<
    (Event, Result<(), UpdateError>),
>)
    requires
        old(record).inv(),
    ensures
        final(record).inv(),
        match r {
            None => *final(record) == *old(record),
            Some((event, res)) => old(record).update_spec(
                event.0@,
                event.1@,
                *final(record),
                res,
            ),
        },
{
    let event = try_recv_event(rx);
    let applied = apply_event(record, &event);
    match (event, applied) {
        (Some(event), Some(res)) => Some((event, res)),
        _ => None,
    }
}

} // verus!
