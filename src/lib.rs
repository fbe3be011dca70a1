use vstd::prelude::*;

pub mod config;
pub mod connection_manager;
pub mod stream_relay;
pub mod webrtc_server;
pub mod table;

verus! {

use crate::webrtc_server::WebRTCServer;
use crate::stream_relay::SubscriberView;

/// How many frames a viewer may have waiting before further frames are
/// dropped for it.
pub const RELAY_CAPACITY: usize = 100;

/// Builds the engine that a server runs for its whole life: no sessions,
/// nothing registered, no relay channel.
pub fn init() -> (r: WebRTCServer)
    ensures
        r.wf(),
        r.sessions() == Map::<Seq<char>, crate::webrtc_server::SessionState>::empty(),
        r.registered() == Map::<Seq<char>, u64>::empty(),
        r.relays() == Map::<Seq<char>, Seq<SubscriberView>>::empty(),
        r.relay_capacity() == RELAY_CAPACITY,
        r.relay_issued() == 0,
{
    WebRTCServer::new(RELAY_CAPACITY)
}

} // verus!
