//! A client record and the channel through which frames reach its connection.

use tokio::sync::mpsc::UnboundedSender;
use vstd::prelude::*;
use warp::ws::Message;

verus! {

/// The sending half of tokio's unbounded channel. Its inside is hidden from
/// the verifier: a value of it only names a channel.
#[verifier::external_type_specification]
#[verifier::external_body]
#[verifier::reject_recursive_types(T)]
pub struct ExUnboundedSender<T>(UnboundedSender<T>);

/// A WebSocket frame of warp. Its inside is hidden from the verifier.
#[verifier::external_type_specification]
#[verifier::external_body]
pub struct ExMessage(Message);

/// warp's error type. Its inside is hidden from the verifier.
#[verifier::external_type_specification]
#[verifier::external_body]
pub struct ExWarpError(warp::Error);

/// The handle by which frames are queued for one live connection.
pub type Outbound = UnboundedSender<Result<Message, warp::Error>>;

/// One entry of the registry: a name and, once a connection is live, the
/// handle of its outbound queue.
#[derive(Debug, Clone)]
pub struct Client {
    pub username: String,
    pub sender: Option<Outbound>,
}

impl Client {
    /// Whether the client has a live channel.
    pub fn is_connected(&self) -> (live: bool)
        ensures
            live == (self.sender is Some),
    {
        self.sender.is_some()
    }
}

} // verus!
