use vstd::prelude::*;
use crate::config::CameraStatus;
use crate::connection_manager::ConnectionManager;
use crate::stream_relay::{deliver, drop_viewer, has_subscriber, relay_ok, Poll, StreamRelay, SubscriberView};
use crate::table::Table;

verus! {

/// The lifecycle of one camera's transport session.
#[derive(Clone, Copy, Debug, PartialEq, Eq, Structural)]
pub enum SessionState {
    Negotiating,
    Active,
    Degraded,
    Closed,
}

/// What the transport reports about a session.
#[derive(Clone, Copy, Debug, PartialEq, Eq, Structural)]
pub enum TransportEvent {
    /// The transport is fully connected.
    Connected,
    /// Connectivity was lost for a while; it may come back.
    Disconnected,
    /// The transport failed for good.
    Failed,
    /// The transport was closed.
    Closed,
}

/// Why an offer was refused. The session state is left as it was.
#[derive(Clone, Copy, Debug, PartialEq, Eq, Structural)]
pub enum NegotiationError {
    /// The offer is not a session description.
    MalformedOffer,
    /// The camera already has a session that is not closed.
    DuplicateSession,
}

/// The state a session moves to on an event.
pub open spec fn next_state(s: SessionState, e: TransportEvent) -> SessionState {
    match e {
        TransportEvent::Failed | TransportEvent::Closed => SessionState::Closed,
        TransportEvent::Connected => match s {
            SessionState::Negotiating | SessionState::Degraded => SessionState::Active,
            _ => s,
        },
        TransportEvent::Disconnected => match s {
            SessionState::Active => SessionState::Degraded,
            _ => s,
        },
    }
}

/// Whether `offer` parses as a session description (SDP) offer.
pub uninterp spec fn sdp_parses(offer: Seq<char>) -> bool;

/// Relies on webrtc's `RTCSessionDescription::offer`, which parses the text
/// as SDP and fails where it is not a well-formed session description; the
/// verdict depends on the text alone.
#[verifier::external_body]
fn parses_as_sdp_offer(offer: &String) -> (r: bool)
    ensures
        r == sdp_parses(offer@),
{
    webrtc::peer_connection::sdp::session_description::RTCSessionDescription::offer(offer.clone()).is_ok()
}

/// An offer is structurally valid when it parses as a session description.
pub open spec fn offer_well_formed(offer: Seq<char>) -> bool {
    sdp_parses(offer)
}

/// What an offer gets, given the state of the camera's session and whether
/// the offer parses.
pub open spec fn decide_offer_spec(state: SessionState, parses: bool) -> Result<(), NegotiationError> {
    if !parses {
        Err(NegotiationError::MalformedOffer)
    } else if state != SessionState::Closed {
        Err(NegotiationError::DuplicateSession)
    } else {
        Ok(())
    }
}

/// What an offer gets, given the state of the camera's session.
pub open spec fn offer_outcome(state: SessionState, offer: Seq<char>) -> Result<(), NegotiationError> {
    decide_offer_spec(state, offer_well_formed(offer))
}

/// The state of `camera` in a map of live sessions: absent means closed.
pub open spec fn state_in(sessions: Map<Seq<char>, SessionState>, camera: Seq<char>) -> SessionState {
    if sessions.contains_key(camera) {
        sessions[camera]
    } else {
        SessionState::Closed
    }
}

/// Viewer `id` of `camera` has nothing more to receive: its channel is
/// closed or it is no longer subscribed.
pub open spec fn stream_ended(relays: Map<Seq<char>, Seq<SubscriberView>>, camera: Seq<char>, id: u64) -> bool {
    !(relays.contains_key(camera) && has_subscriber(relays[camera], id))
}

/// Frames flow only while the session is connected or briefly degraded.
pub open spec fn forwards_frames(s: SessionState) -> bool {
    s == SessionState::Active || s == SessionState::Degraded
}

/// The transition function of the session state machine.
pub fn transition(s: SessionState, e: TransportEvent) -> (r: SessionState)
    ensures
        r == next_state(s, e),
{
    match e {
        TransportEvent::Failed | TransportEvent::Closed => SessionState::Closed,
        TransportEvent::Connected => match s {
            SessionState::Negotiating | SessionState::Degraded => SessionState::Active,
            _ => s,
        },
        TransportEvent::Disconnected => match s {
            SessionState::Active => SessionState::Degraded,
            _ => s,
        },
    }
}

/// Whether `offer` is a structurally valid session description.
pub fn is_well_formed_offer(offer: &String) -> (r: bool)
    ensures
        r == offer_well_formed(offer@),
{
    parses_as_sdp_offer(offer)
}

/// Decides an offer from the state of the camera's session and from whether
/// the offer parsed: a malformed offer is refused first, then an offer for a
/// camera whose session is not closed.
pub fn decide_offer(state: SessionState, parses: bool) -> (r: Result<(), NegotiationError>)
    ensures
        r == decide_offer_spec(state, parses),
{
    if !parses {
        Err(NegotiationError::MalformedOffer)
    } else if state != SessionState::Closed {
        Err(NegotiationError::DuplicateSession)
    } else {
        Ok(())
    }
}

/// Drives each camera's session through its lifecycle and keeps the session
/// registry and the relay hub in step with it.
pub struct WebRTCServer {
    sessions: Table<SessionState>,
    registry: ConnectionManager,
    hub: StreamRelay,
}

impl WebRTCServer {
    /// The live sessions; a camera that is absent is closed.
    pub closed spec fn sessions(&self) -> Map<Seq<char>, SessionState> {
        self.sessions@
    }

    /// The session registry's bindings.
    pub closed spec fn registered(&self) -> Map<Seq<char>, u64> {
        self.registry@
    }

    /// The relay channels and their subscribers.
    pub closed spec fn relays(&self) -> Map<Seq<char>, Seq<SubscriberView>> {
        self.hub@
    }

    pub closed spec fn relay_capacity(&self) -> nat {
        self.hub.capacity_spec()
    }

    /// Every viewer identifier handed out so far is below this bound.
    pub closed spec fn relay_issued(&self) -> nat {
        self.hub.issued()
    }

    /// No further viewer identifier can be handed out.
    pub open spec fn relay_exhausted(&self) -> bool {
        self.relay_issued() == u64::MAX as nat
    }

    pub open spec fn state_of(&self, camera: Seq<char>) -> SessionState {
        state_in(self.sessions(), camera)
    }

    /// The registry holds exactly the live sessions, no live session is
    /// closed, and every live session has a relay channel.
    pub open spec fn wf(&self) -> bool {
        &&& self.hub_wf()
        &&& self.relay_capacity() > 0
        &&& relay_ok(self.relays(), self.relay_capacity(), self.relay_issued())
        &&& self.registered().dom() == self.sessions().dom()
        &&& forall|k: Seq<char>| #[trigger] self.sessions().contains_key(k) ==>
                self.sessions()[k] != SessionState::Closed && self.relays().contains_key(k)
    }

    pub closed spec fn hub_wf(&self) -> bool {
        self.hub.wf()
    }

    pub fn new(relay_capacity: usize) -> (r: Self)
        requires
            relay_capacity > 0,
        ensures
            r.wf(),
            r.sessions() == Map::<Seq<char>, SessionState>::empty(),
            r.registered() == Map::<Seq<char>, u64>::empty(),
            r.relays() == Map::<Seq<char>, Seq<SubscriberView>>::empty(),
            r.relay_capacity() == relay_capacity,
            r.relay_issued() == 0,
    {
        let r = WebRTCServer {
            sessions: Table::new(),
            registry: ConnectionManager::new(),
            hub: StreamRelay::new(relay_capacity),
        };
        assert(r.registered().dom() =~= r.sessions().dom());
        r
    }

    /// The state of `camera_id`'s session; `Closed` where there is none.
    pub fn status(&self, camera_id: &String) -> (r: SessionState)
        ensures
            r == self.state_of(camera_id@),
    {
        match self.sessions.get(camera_id) {
            Some(s) => *s,
            None => SessionState::Closed,
        }
    }

    /// Whether `camera_id` is connected and streaming.
    pub fn is_streaming(&self, camera_id: &str) -> (r: bool)
        ensures
            r == (self.state_of(camera_id@) == SessionState::Active),
    {
        let key = camera_id.to_owned();
        self.status(&key) == SessionState::Active
    }

    /// The status of `camera_id` as the control surface reports it.
    pub fn camera_status(&self, camera_id: String) -> (r: CameraStatus)
        ensures
            r.camera_id@ == camera_id@,
            r.is_streaming == (self.state_of(camera_id@) == SessionState::Active),
    {
        let is_streaming = self.is_streaming(camera_id.as_str());
        CameraStatus { camera_id, is_streaming }
    }

    /// The control handle registered for `camera_id`, if any.
    pub fn lookup(&self, camera_id: &String) -> (r: Option<u64>)
        ensures
            r == (if self.registered().contains_key(camera_id@) {
                Some(self.registered()[camera_id@])
            } else {
                None::<u64>
            }),
    {
        self.registry.get_connection(camera_id.as_str())
    }

    /// Closes `camera_id`'s session: it leaves the registry and its relay
    /// channel closes, ending every stream of it. Does nothing more where
    /// there is no session; a second call changes nothing.
    pub fn stop_stream(&mut self, camera_id: &String)
        requires
            old(self).wf(),
        ensures
            final(self).wf(),
            final(self).state_of(camera_id@) == SessionState::Closed,
            final(self).sessions() == old(self).sessions().remove(camera_id@),
            final(self).registered() == old(self).registered().remove(camera_id@),
            final(self).relays() == old(self).relays().remove(camera_id@),
            final(self).relay_capacity() == old(self).relay_capacity(),
            final(self).relay_issued() == old(self).relay_issued(),
    {
        let _ = self.sessions.remove(camera_id);
        self.registry.remove_connection(camera_id.as_str());
        self.hub.close(camera_id);
        assert(self.registered().dom() =~= self.sessions().dom());
    }

    /// Accepts an offer for `camera_id` whose transport session is known by
    /// `handle`: the session starts negotiating, `handle` is registered, and
    /// the camera's relay channel is opened. Refused, with nothing changed,
    /// where the offer is malformed or the camera already has a live session.
    pub fn handle_offer(&mut self, camera_id: &String, offer: &String, handle: u64) -> (r: Result<(), NegotiationError>)
        requires
            old(self).wf(),
        ensures
            final(self).wf(),
            r == offer_outcome(old(self).state_of(camera_id@), offer@),
            r is Err ==> *final(self) == *old(self),
            r is Ok ==> {
                &&& final(self).sessions() == old(self).sessions().insert(camera_id@, SessionState::Negotiating)
                &&& final(self).registered() == old(self).registered().insert(camera_id@, handle)
                &&& final(self).relays() == (if old(self).relays().contains_key(camera_id@) {
                        old(self).relays()
                    } else {
                        old(self).relays().insert(camera_id@, Seq::<SubscriberView>::empty())
                    })
            },
            final(self).relay_capacity() == old(self).relay_capacity(),
            final(self).relay_issued() == old(self).relay_issued(),
    {
        let parses = parses_as_sdp_offer(offer);
        let decision = decide_offer(self.status(camera_id), parses);
        if decision.is_err() {
            return decision;
        }
        self.sessions.insert(camera_id.clone(), SessionState::Negotiating);
        self.registry.add_connection(camera_id.clone(), handle);
        self.hub.add_stream(camera_id);
        assert(self.registered().dom() =~= self.sessions().dom());
        Ok(())
    }

    /// Applies what the transport reported for `camera_id`. Reaching
    /// `Closed` tears the session down as `stop_stream` does; an event for a camera
    /// without a session is ignored.
    pub fn on_transport_event(&mut self, camera_id: &String, event: TransportEvent)
        requires
            old(self).wf(),
        ensures
            final(self).wf(),
            final(self).state_of(camera_id@) == next_state(old(self).state_of(camera_id@), event),
            final(self).relay_capacity() == old(self).relay_capacity(),
            final(self).relay_issued() == old(self).relay_issued(),
            old(self).state_of(camera_id@) == SessionState::Closed ==> *final(self) == *old(self),
            old(self).state_of(camera_id@) != SessionState::Closed
                && next_state(old(self).state_of(camera_id@), event) == SessionState::Closed ==> {
                &&& final(self).sessions() == old(self).sessions().remove(camera_id@)
                &&& final(self).registered() == old(self).registered().remove(camera_id@)
                &&& final(self).relays() == old(self).relays().remove(camera_id@)
            },
            next_state(old(self).state_of(camera_id@), event) != SessionState::Closed ==> {
                &&& final(self).sessions() == old(self).sessions().insert(camera_id@,
                        next_state(old(self).state_of(camera_id@), event))
                &&& final(self).registered() == old(self).registered()
                &&& final(self).relays() == old(self).relays()
            },
    {
        let current = self.status(camera_id);
        if current == SessionState::Closed {
            return;
        }
        let next = transition(current, event);
        if next == SessionState::Closed {
            self.stop_stream(camera_id);
        } else {
            self.sessions.insert(camera_id.clone(), next);
            assert(self.registered().dom() =~= self.sessions().dom());
        }
    }

    /// Forwards one encoded frame from `camera_id`'s transport into its relay
    /// channel. Only a connected or degraded session forwards; an empty frame
    /// is malformed and skipped without touching the session. Returns whether
    /// the frame was published.
    pub fn forward_frame(&mut self, camera_id: &String, frame: &Vec<u8>) -> (r: bool)
        requires
            old(self).wf(),
        ensures
            final(self).wf(),
            r == (forwards_frames(old(self).state_of(camera_id@)) && frame@.len() > 0),
            final(self).sessions() == old(self).sessions(),
            final(self).registered() == old(self).registered(),
            final(self).relay_capacity() == old(self).relay_capacity(),
            final(self).relay_issued() == old(self).relay_issued(),
            r ==> final(self).relays() == old(self).relays().insert(camera_id@,
                deliver(old(self).relays()[camera_id@], frame@, old(self).relay_capacity())),
            !r ==> final(self).relays() == old(self).relays(),
    {
        let state = self.status(camera_id);
        if !(state == SessionState::Active || state == SessionState::Degraded) || frame.len() == 0 {
            return false;
        }
        self.hub.relay_frame(camera_id, frame);
        true
    }

    /// Publishes a frame straight into `camera_id`'s relay channel, whatever
    /// the session's state; without a channel the frame is discarded.
    pub fn publish(&mut self, camera_id: &String, frame: &Vec<u8>)
        requires
            old(self).wf(),
        ensures
            final(self).wf(),
            final(self).sessions() == old(self).sessions(),
            final(self).registered() == old(self).registered(),
            final(self).relay_capacity() == old(self).relay_capacity(),
            final(self).relay_issued() == old(self).relay_issued(),
            final(self).relays() == (if old(self).relays().contains_key(camera_id@) {
                old(self).relays().insert(camera_id@, deliver(old(self).relays()[camera_id@], frame@, old(self).relay_capacity()))
            } else {
                old(self).relays()
            }),
    {
        self.hub.relay_frame(camera_id, frame);
    }

    /// Subscribes a viewer to `camera_id`, opening its relay channel where
    /// none is open, and returns an identifier never handed out before. `None`
    /// only once every identifier has been handed out.
    pub fn subscribe(&mut self, camera_id: &String) -> (r: Option<u64>)
        requires
            old(self).wf(),
        ensures
            final(self).wf(),
            final(self).sessions() == old(self).sessions(),
            final(self).registered() == old(self).registered(),
            final(self).relay_capacity() == old(self).relay_capacity(),
            r is None <==> old(self).relay_exhausted(),
            match r {
                Some(id) => {
                    let before = if old(self).relays().contains_key(camera_id@) {
                        old(self).relays()[camera_id@]
                    } else {
                        Seq::<SubscriberView>::empty()
                    };
                    &&& id as nat == old(self).relay_issued()
                    &&& final(self).relay_issued() == old(self).relay_issued() + 1
                    &&& !has_subscriber(before, id)
                    &&& final(self).relays() == old(self).relays().insert(camera_id@,
                        before.push((id, Seq::<Seq<u8>>::empty())))
                },
                None => final(self).relays() == old(self).relays()
                    && final(self).relay_issued() == old(self).relay_issued(),
            },
    {
        self.hub.subscribe(camera_id)
    }

    /// The next frame for viewer `id` of `camera_id`; `Ended` once the
    /// channel is closed or the viewer unsubscribed.
    pub fn next_frame(&mut self, camera_id: &String, id: u64) -> (r: Poll)
        requires
            old(self).wf(),
        ensures
            final(self).wf(),
            final(self).sessions() == old(self).sessions(),
            final(self).registered() == old(self).registered(),
            final(self).relay_capacity() == old(self).relay_capacity(),
            r is Ended <==> stream_ended(old(self).relays(), camera_id@, id),
            match r {
                Poll::Ended => final(self).relays() == old(self).relays(),
                Poll::Empty => exists|i: int|
                    0 <= i < old(self).relays()[camera_id@].len() && old(self).relays()[camera_id@][i].0 == id
                    && old(self).relays()[camera_id@][i].1.len() == 0 && final(self).relays() == old(self).relays(),
                Poll::Frame(f) => exists|i: int|
                    0 <= i < old(self).relays()[camera_id@].len() && old(self).relays()[camera_id@][i].0 == id
                    && old(self).relays()[camera_id@][i].1.len() > 0 && f@ == old(self).relays()[camera_id@][i].1[0]
                    && final(self).relays() == old(self).relays().insert(camera_id@,
                        old(self).relays()[camera_id@].update(i, (id, old(self).relays()[camera_id@][i].1.drop_first()))),
            },
            final(self).relay_issued() == old(self).relay_issued(),
    {
        self.hub.next_frame(camera_id, id)
    }

    /// Removes viewer `id` of `camera_id`, keeping the subscriber count exact.
    /// A channel that no session owns is closed once its last viewer leaves.
    pub fn unsubscribe(&mut self, camera_id: &String, id: u64)
        requires
            old(self).wf(),
        ensures
            final(self).wf(),
            final(self).sessions() == old(self).sessions(),
            final(self).registered() == old(self).registered(),
            final(self).relay_capacity() == old(self).relay_capacity(),
            final(self).relay_issued() == old(self).relay_issued(),
            final(self).relays() == (if old(self).relays().contains_key(camera_id@) {
                if old(self).state_of(camera_id@) == SessionState::Closed
                    && drop_viewer(old(self).relays()[camera_id@], id).len() == 0 {
                    old(self).relays().remove(camera_id@)
                } else {
                    old(self).relays().insert(camera_id@, drop_viewer(old(self).relays()[camera_id@], id))
                }
            } else {
                old(self).relays()
            }),
            stream_ended(final(self).relays(), camera_id@, id),
    {
        self.hub.unsubscribe(camera_id, id);
        if self.hub.subscriber_count(camera_id) == 0 && self.hub.is_open(camera_id)
            && self.status(camera_id) == SessionState::Closed {
            self.hub.close(camera_id);
        }
    }

    /// The number of viewers of `camera_id`.
    pub fn subscriber_count(&self, camera_id: &String) -> (r: usize)
        ensures
            r == (if self.relays().contains_key(camera_id@) { self.relays()[camera_id@].len() } else { 0 }),
    {
        self.hub.subscriber_count(camera_id)
    }
}

/// In every well-formed engine a camera is registered exactly when its
/// session is not closed.
pub proof fn lemma_registered_iff_live(e: &WebRTCServer)
    requires
        e.wf(),
    ensures
        forall|k: Seq<char>| e.registered().contains_key(k) <==> e.state_of(k) != SessionState::Closed,
{
    assert forall|k: Seq<char>| e.registered().contains_key(k) <==> e.state_of(k) != SessionState::Closed by {
        if e.sessions().contains_key(k) {
            assert(e.registered().dom().contains(k));
        } else {
            assert(!e.registered().dom().contains(k));
        }
    }
}

/// Once a camera's session is torn down (by `stop_stream`, or by a transport
/// failure), its status is closed and the stream of every viewer of it has
/// ended.
pub proof fn lemma_teardown_ends_streams(before: &WebRTCServer, after: &WebRTCServer, camera: Seq<char>)
    requires
        before.wf(),
        after.sessions() == before.sessions().remove(camera),
        after.relays() == before.relays().remove(camera),
    ensures
        after.state_of(camera) == SessionState::Closed,
        forall|id: u64| stream_ended(after.relays(), camera, id),
{
}

/// Of two offers for a camera that has no session, at most one is
/// accepted: once the first has started a session, the second is refused as
/// a duplicate, whichever offer it carries.
pub proof fn lemma_second_offer_refused(first: Seq<char>, second: Seq<char>)
    requires
        offer_well_formed(second),
    ensures
        offer_outcome(SessionState::Closed, first) is Ok ==> offer_outcome(SessionState::Negotiating, second)
            == Err::<(), NegotiationError>(NegotiationError::DuplicateSession),
{
}

} // verus!
