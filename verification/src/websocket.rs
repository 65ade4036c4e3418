//! The live log stream of one deployment: which broadcast log messages reach
//! it and when the stream ends.

use vstd::prelude::*;
use crate::deploy::executor::opt_view;

verus! {

/// The deployment that a broadcast log message names: the text of its
/// `deployment_id` field, where the message is a JSON object holding such a
/// text field.
pub uninterp spec fn message_deployment(message: Seq<char>) -> Option<Seq<char>>;

/// The `deployment_id` text field of a JSON message.
///
/// Trusted: `serde_json::from_str::<serde_json::Value>`, then
/// `Value::get("deployment_id")` and `Value::as_str`. The result is a
/// function of the message alone and is named `message_deployment`; what the
/// JSON parser accepts is not written out.
#[verifier::external_body]
fn broadcast_deployment_id(message: &str) -> (r: Option<String>)
    ensures
        opt_view(r) == message_deployment(message@),
{
    let value: serde_json::Value = serde_json::from_str(message).ok()?;
    let id = value.get("deployment_id")?.as_str()?;
    Some(id.to_string())
}

/// Whether a message that names the deployment `named` (if any) is forwarded
/// to the log stream of `deployment_id`: only when it names that deployment.
pub fn forwards_to_stream(deployment_id: &str, named: Option<&str>) -> (r: bool)
    ensures
        r == (match named {
            Some(m) => m@ == deployment_id@,
            None => false,
        }),
{
    match named {
        Some(m) => crate::text::str_equal(m, deployment_id),
        None => false,
    }
}

/// Whether a broadcast log message belongs on the log stream of
/// `deployment_id`: only when it names that deployment.
pub fn forwards_message(deployment_id: &str, message: &str) -> (r: bool)
    ensures
        r == (message_deployment(message@) == Some(deployment_id@)),
{
    let named = broadcast_deployment_id(message);
    match &named {
        Some(id) => forwards_to_stream(deployment_id, Some(id.as_str())),
        None => forwards_to_stream(deployment_id, None),
    }
}

/// What happens on the live log stream of a deployment.
#[derive(Debug)]
pub enum StreamEvent {
    /// The client sent a message other than a close.
    ClientMessage,
    /// The client closed the connection, or its side of it ended.
    ClientClosed,
    /// Reading from the client failed.
    ClientError,
    /// A log message was broadcast.
    Broadcast(String),
    /// The stream fell behind the broadcast and messages were skipped.
    Lagged,
    /// The broadcast channel closed.
    ChannelClosed,
    /// Sending to the client failed.
    SendFailed,
}

/// What the stream does next.
#[derive(Debug)]
pub enum StreamAction {
    /// Wait for the next event.
    Continue,
    /// Send this message to the client, then wait for the next event.
    Send(String),
    /// End the stream.
    Stop,
}

/// The answer of the stream of `deployment_id` to an event: a broadcast
/// message is sent on when it names the deployment and skipped otherwise; a
/// client message or a lag is passed over; a close, an error on either side
/// or the end of the broadcast ends the stream.
pub open spec fn stream_next(deployment_id: Seq<char>, event: StreamEvent) -> StreamAction {
    match event {
        StreamEvent::Broadcast(m) => if message_deployment(m@) == Some(deployment_id) {
            StreamAction::Send(m)
        } else {
            StreamAction::Continue
        },
        StreamEvent::ClientMessage => StreamAction::Continue,
        StreamEvent::Lagged => StreamAction::Continue,
        StreamEvent::ClientClosed => StreamAction::Stop,
        StreamEvent::ClientError => StreamAction::Stop,
        StreamEvent::ChannelClosed => StreamAction::Stop,
        StreamEvent::SendFailed => StreamAction::Stop,
    }
}

/// The next action of the log stream of `deployment_id` on `event`.
pub fn stream_step(deployment_id: &str, event: StreamEvent) -> (a: StreamAction)
    ensures
        a == stream_next(deployment_id@, event),
{
    match event {
        StreamEvent::Broadcast(m) => if forwards_message(deployment_id, m.as_str()) {
            StreamAction::Send(m)
        } else {
            StreamAction::Continue
        },
        StreamEvent::ClientMessage => StreamAction::Continue,
        StreamEvent::Lagged => StreamAction::Continue,
        StreamEvent::ClientClosed => StreamAction::Stop,
        StreamEvent::ClientError => StreamAction::Stop,
        StreamEvent::ChannelClosed => StreamAction::Stop,
        StreamEvent::SendFailed => StreamAction::Stop,
    }
}

/// A stream sends only what was broadcast to it, and only messages that name
/// its own deployment; every message that names it is sent.
pub proof fn lemma_stream_sends_only_own(deployment_id: Seq<char>, event: StreamEvent)
    ensures
        stream_next(deployment_id, event) matches StreamAction::Send(m) ==> {
            &&& event == StreamEvent::Broadcast(m)
            &&& message_deployment(m@) == Some(deployment_id)
        },
        event matches StreamEvent::Broadcast(m) ==> (message_deployment(m@) == Some(deployment_id)
            ==> stream_next(deployment_id, event) == StreamAction::Send(m)),
{
}

} // verus!
