//! Per-connection state: the RTC engine of one client and the handshake state
//! machine run over the events that the engine reports.
//!
//! A connection waits for the client to open a data channel, then for the
//! client's handshake request on it, then serves requests; it ends when ICE
//! reports a disconnection or the channel in use is closed.
use vstd::prelude::*;

use std::time::Instant;
use str0m::channel::ChannelId;
use str0m::change::SdpAnswer;
use str0m::change::SdpOffer;
use str0m::net::Transmit;
use str0m::Candidate;
use str0m::Input;
use str0m::RtcConfig;
use str0m::Event;
use str0m::IceConnectionState as Ice;
use str0m::Output;
use str0m::Rtc;
use str0m::RtcError;

use crate::frame::FrameError;
use crate::frame::HandshakeRequestFrame;
use crate::frame::RequestFrame;
use crate::frame::SERVICE_PAYLOAD_TAG;

verus! {

#[verifier::external_type_specification]
#[verifier::external_body]
pub struct ExRtc(Rtc);

#[verifier::external_type_specification]
#[verifier::external_body]
pub struct ExRtcError(RtcError);

#[verifier::external_type_specification]
#[verifier::external_body]
pub struct ExChannelId(ChannelId);

#[verifier::external_type_specification]
#[verifier::external_body]
pub struct ExTransmit(Transmit);

#[verifier::external_type_specification]
#[verifier::external_body]
pub struct ExInstant(Instant);

#[verifier::external_type_specification]
#[verifier::external_body]
pub struct ExCandidate(Candidate);

#[verifier::external_type_specification]
#[verifier::external_body]
pub struct ExSdpOffer(SdpOffer);

#[verifier::external_type_specification]
#[verifier::external_body]
pub struct ExSdpAnswer(SdpAnswer);


/// What one poll of the RTC engine produced, with the events that the
/// connection reacts to told apart.
pub enum Polled {
    /// The engine is idle until the given instant.
    Timeout(Instant),
    /// A datagram to send on the socket.
    Transmit(Transmit),
    /// An event.
    Event(RtcEvent),
}

/// The engine events that the connection reacts to.
#[derive(Debug)]
pub enum RtcEvent {
    /// ICE reports a new connection state.
    IceStateChange(IceState),
    /// The peer opened a data channel.
    ChannelOpen(ChannelId),
    /// The peer sent a message on a data channel.
    ChannelData { binary: bool, data: Vec<u8> },
    /// A data channel was closed.
    ChannelClose(ChannelId),
    /// Any other event; the connection ignores it.
    Other,
}

/// The states of the ICE agent, as the engine reports them.
#[derive(Debug, Clone, Copy, PartialEq, Eq)]
pub enum IceState {
    New,
    Checking,
    Connected,
    Completed,
    Disconnected,
}

/// State of the handshake with the client.
pub enum ConnectionState<S> {
    /// No data channel is open yet.
    AwaitingDataChannel,
    /// The channel is open; the client's handshake request is awaited on it.
    AwaitingHandshake(ChannelId),
    /// The handshake is done; requests go to the sender.
    AwaitingRequest(ChannelId, S),
    /// The connection is over.
    Disconnected,
}

/// The phase of a connection, without its data.
#[derive(Debug, Clone, Copy, PartialEq, Eq)]
pub enum Phase {
    AwaitingDataChannel,
    AwaitingHandshake,
    AwaitingRequest,
    Disconnected,
}

/// What the caller is to do after a step of the connection.
pub enum Step {
    /// Nothing is pending until the given instant.
    Idle(Instant),
    /// Send this datagram on the socket.
    Transmit(Transmit),
    /// Nothing to do; poll again.
    Continue,
    /// A client finished its handshake request: announce the new connection
    /// with this frame, then call `accept_handshake` with the request sender.
    Handshake(HandshakeRequestFrame),
    /// Forward this request frame to the request sender.
    Request(RequestFrame),
}

/// Why a step of the connection failed.
#[derive(Debug)]
pub enum ConnectionError {
    /// The RTC engine reported an error.
    Rtc(RtcError),
    /// A request frame could not be decoded.
    Frame(FrameError),
    /// Binary data arrived before any data channel was opened, which the
    /// engine never reports.
    DataBeforeChannelOpen,
}

/// Why a payload could not be written to the connection.
#[derive(Debug)]
pub enum WriteError {
    /// The data channel has not been opened by the client yet.
    NotOpened,
    /// The engine has no writable channel for the connection's channel id.
    NoChannel,
    /// The engine refused the payload.
    Rtc(RtcError),
    /// The connection is disconnected.
    Disconnected,
}

/// `Rtc::poll_output` of str0m, with the output told apart by variant:
/// a timeout, a datagram to transmit, an ICE state change (each ICE state
/// mapped to the `IceState` of the same name), a channel being opened (its
/// label dropped), channel data, a channel closed, or another event. Nothing
/// is stated of the result: it depends on the engine's state.
#[verifier::external_body]
fn rtc_poll_output(rtc: &mut Rtc) -> (r: Result<Polled, RtcError>) {
    Ok(match rtc.poll_output()? {
        Output::Timeout(t) => Polled::Timeout(t),
        Output::Transmit(t) => Polled::Transmit(t),
        Output::Event(e) => Polled::Event(match e {
            Event::IceConnectionStateChange(s) => RtcEvent::IceStateChange(match s {
                Ice::New => IceState::New, Ice::Checking => IceState::Checking,
                Ice::Connected => IceState::Connected, Ice::Completed => IceState::Completed,
                Ice::Disconnected => IceState::Disconnected,
            }),
            Event::ChannelOpen(id, _) => RtcEvent::ChannelOpen(id),
            Event::ChannelData(d) => RtcEvent::ChannelData { binary: d.binary, data: d.data },
            Event::ChannelClose(id) => RtcEvent::ChannelClose(id),
            _ => RtcEvent::Other,
        }),
    })
}

/// Whether str0m's `Rtc::channel` gives a writer for channel `id`: the engine
/// is alive and the channel's stream is open.
pub uninterp spec fn channel_is_open(rtc: Rtc, id: ChannelId) -> bool;

/// The messages, each a binary flag and its bytes, that the engine has
/// queued for sending on channel `id`, in the order they were written. An
/// empty write queues nothing, so no message here is empty.
pub uninterp spec fn accepted_messages(rtc: Rtc, id: ChannelId) -> Seq<(bool, Seq<u8>)>;

/// Whether str0m's `Channel::write` of `buf` with flag `binary` succeeds on
/// channel `id` of the engine: the association is established, the stream is
/// writable and `buf` fits in one message.
pub uninterp spec fn write_succeeds(rtc: Rtc, id: ChannelId, binary: bool, buf: Seq<u8>) -> bool;

/// `Rtc::channel` of str0m, then `Channel::write` on the writer it gives (the
/// writer borrows the engine and lives only for this write).
///
/// As str0m's source shows: without a writer (`channel_is_open` false) the
/// result is `None` and the engine is untouched, `Rtc::channel` only reads;
/// a successful write reports the whole buffer's length (a buffer longer
/// than the largest message is refused before anything is sent, and the rest
/// is taken whole). A non-empty buffer is queued as one message with the
/// given flag on that channel's stream, and on no other; an empty buffer is
/// packetized into nothing, so no message is queued. Nothing is stated of the
/// engine after a failed write.
#[verifier::external_body]
fn rtc_channel_write(rtc: &mut Rtc, id: ChannelId, binary: bool, buf: &[u8]) -> (r: Option<
    Result<usize, RtcError>,
>)
    ensures
        r is None <==> !channel_is_open(*old(rtc), id),
        r is None ==> *final(rtc) == *old(rtc),
        (r matches Some(Ok(_))) <==> channel_is_open(*old(rtc), id) && write_succeeds(
            *old(rtc),
            id,
            binary,
            buf@,
        ),
        r matches Some(Ok(n)) ==> n == buf@.len() && accepted_messages(*final(rtc), id) == (if buf@.len()
            > 0 {
            accepted_messages(*old(rtc), id).push((binary, buf@))
        } else {
            accepted_messages(*old(rtc), id)
        }) && forall|other: ChannelId|
            other != id ==> #[trigger] accepted_messages(*final(rtc), other) == accepted_messages(
                *old(rtc),
                other,
            ),
{
    match rtc.channel(id) {
        Some(mut channel) => Some(channel.write(binary, buf)),
        None => None,
    }
}

/// `Rtc::handle_input` of str0m with a timeout at `now`, which drives the
/// engine's time forward. Nothing is stated of the result: it depends on the
/// engine's state.
#[verifier::external_body]
fn rtc_handle_timeout(rtc: &mut Rtc, now: Instant) -> (r: Result<(), RtcError>) {
    rtc.handle_input(Input::Timeout(now))
}

/// Whether the engine is alive (str0m's `Rtc::is_alive`).
pub uninterp spec fn engine_is_alive(rtc: Rtc) -> bool;

/// `Rtc::is_alive` of str0m.
#[verifier::external_body]
fn rtc_is_alive(rtc: &Rtc) -> (r: bool)
    ensures
        r == engine_is_alive(*rtc),
{
    rtc.is_alive()
}

/// str0m's `RtcConfig::new`, `set_ice_lite(ice_lite)` and `build`, then
/// `Rtc::add_local_candidate` with a clone of `host`, then
/// `SdpApi::accept_offer` with `offer`: a new engine and its SDP answer.
/// Nothing is stated of the result: the engine draws its ICE credentials and
/// DTLS keys at random.
#[verifier::external_body]
fn rtc_answer_offer(ice_lite: bool, host: &Candidate, offer: SdpOffer) -> (r: Result<(Rtc, SdpAnswer), RtcError>) {
    let mut rtc = RtcConfig::new().set_ice_lite(ice_lite).build();
    rtc.add_local_candidate(host.clone());
    let answer = rtc.sdp_api().accept_offer(offer)?;
    Ok((rtc, answer))
}

/// The `==` that str0m derives for `ChannelId`, a wrapper around one integer:
/// two ids are equal exactly when they are the same value.
#[verifier::external_body]
fn channel_id_eq(a: &ChannelId, b: &ChannelId) -> (r: bool)
    ensures
        r == (*a == *b),
{
    *a == *b
}

impl<S> ConnectionState<S> {
    /// The phase of the state.
    pub open spec fn spec_phase(&self) -> Phase {
        match self {
            ConnectionState::AwaitingDataChannel => Phase::AwaitingDataChannel,
            ConnectionState::AwaitingHandshake(_) => Phase::AwaitingHandshake,
            ConnectionState::AwaitingRequest(_, _) => Phase::AwaitingRequest,
            ConnectionState::Disconnected => Phase::Disconnected,
        }
    }

    /// The data channel in use, if one is.
    pub open spec fn channel(&self) -> Option<ChannelId> {
        match self {
            ConnectionState::AwaitingHandshake(id) => Some(*id),
            ConnectionState::AwaitingRequest(id, _) => Some(*id),
            _ => None,
        }
    }
}

/// Rank of a phase in the order in which a connection goes through them.
pub open spec fn phase_rank(p: Phase) -> int {
    match p {
        Phase::AwaitingDataChannel => 0,
        Phase::AwaitingHandshake => 1,
        Phase::AwaitingRequest => 2,
        Phase::Disconnected => 3,
    }
}

/// Whether event `ev` carries binary data that arrives while no channel is
/// open, which the engine never reports.
pub open spec fn is_data_before_open<S>(state: ConnectionState<S>, ev: RtcEvent) -> bool {
    &&& ev matches RtcEvent::ChannelData { binary, .. } && binary
    &&& state is AwaitingDataChannel
}

/// The state that event `ev` leads to from `state`.
pub open spec fn next_state<S>(state: ConnectionState<S>, ev: RtcEvent) -> ConnectionState<S> {
    match ev {
        RtcEvent::IceStateChange(ice) => if ice == IceState::Disconnected {
            ConnectionState::Disconnected
        } else {
            state
        },
        RtcEvent::ChannelOpen(id) => match state {
            ConnectionState::AwaitingDataChannel => ConnectionState::AwaitingHandshake(id),
            _ => state,
        },
        RtcEvent::ChannelClose(id) => if state.channel() == Some(id) {
            ConnectionState::Disconnected
        } else {
            state
        },
        _ => state,
    }
}

/// Whether `r` is what handling event `ev` in `state` returns.
pub open spec fn event_result<S>(
    state: ConnectionState<S>,
    ev: RtcEvent,
    r: Result<Step, ConnectionError>,
) -> bool {
    match ev {
        RtcEvent::ChannelData { binary, data } => if !binary {
            r is Ok && r->Ok_0 is Continue
        } else {
            match state {
                ConnectionState::AwaitingDataChannel => r is Err && r->Err_0 is DataBeforeChannelOpen,
                ConnectionState::AwaitingHandshake(_) => r matches Ok(Step::Handshake(f))
                    && f.bytes@ == data@,
                ConnectionState::AwaitingRequest(_, _) => if data@.len() == 0 {
                    r matches Err(ConnectionError::Frame(e)) && e == FrameError::Empty
                } else if data@[0] != SERVICE_PAYLOAD_TAG {
                    r matches Err(ConnectionError::Frame(e)) && e == FrameError::UnknownTag(
                        data@[0],
                    )
                } else {
                    r matches Ok(Step::Request(f)) && f.payload() == data@.drop_first()
                },
                ConnectionState::Disconnected => r is Ok && r->Ok_0 is Continue,
            }
        },
        _ => r is Ok && r->Ok_0 is Continue,
    }
}

/// Whether event `ev` in `state` carries a request frame that cannot be
/// decoded.
pub open spec fn event_fails<S>(state: ConnectionState<S>, ev: RtcEvent) -> bool {
    &&& ev matches RtcEvent::ChannelData { binary, data } && binary && (data@.len() == 0
        || data@[0] != SERVICE_PAYLOAD_TAG)
    &&& state is AwaitingRequest
}

/// The state that handling the engine's output (or error) `p` leads to.
pub open spec fn polled_next_state<S>(
    state: ConnectionState<S>,
    p: Result<Polled, RtcError>,
) -> ConnectionState<S> {
    match p {
        Err(_) => ConnectionState::Disconnected,
        Ok(Polled::Event(ev)) => if is_data_before_open(state, ev) {
            state
        } else if event_fails(state, ev) {
            ConnectionState::Disconnected
        } else {
            next_state(state, ev)
        },
        _ => state,
    }
}

/// Whether `r` is what handling the engine's output (or error) `p` in
/// `state` returns.
pub open spec fn polled_result<S>(
    state: ConnectionState<S>,
    p: Result<Polled, RtcError>,
    r: Result<Step, ConnectionError>,
) -> bool {
    match p {
        Err(e) => r == Err::<Step, ConnectionError>(ConnectionError::Rtc(e)),
        Ok(Polled::Timeout(t)) => r == Ok::<Step, ConnectionError>(Step::Idle(t)),
        Ok(Polled::Transmit(t)) => r == Ok::<Step, ConnectionError>(Step::Transmit(t)),
        Ok(Polled::Event(ev)) => if is_data_before_open(state, ev) {
            r is Err && r->Err_0 is DataBeforeChannelOpen
        } else {
            event_result(state, ev, r)
        },
    }
}

/// A connection to one client.
pub struct Connection<A, S> {
    /// The RTC engine of the client. Received datagrams are handed to it
    /// directly (see `handle_timeout` for time and `handle_output` for its
    /// output).
    pub rtc: Rtc,
    addr: A,
    state: ConnectionState<S>,
}

impl<A, S> Connection<A, S> {
    /// The handshake state.
    pub closed spec fn state(&self) -> ConnectionState<S> {
        self.state
    }

    /// The client's RTC engine.
    pub closed spec fn spec_rtc(&self) -> Rtc {
        self.rtc
    }

    /// The client's address.
    pub closed spec fn spec_addr(&self) -> A {
        self.addr
    }

    /// A new connection for the client at `addr`, waiting for a data channel.
    pub fn new(rtc: Rtc, addr: A) -> (r: Self)
        ensures
            r.state() is AwaitingDataChannel,
            r.spec_addr() == addr,
            r.spec_rtc() == rtc,
    {
        Connection { rtc, addr, state: ConnectionState::AwaitingDataChannel }
    }

    /// A new connection for the client at `addr` that offered `offer`: an
    /// ICE-lite engine with `host` as its local candidate, waiting for a data
    /// channel, and the SDP answer to send back.
    pub fn from_offer(host: &Candidate, offer: SdpOffer, addr: A) -> (r: Result<(Self, SdpAnswer), RtcError>)
        ensures
            r matches Ok((c, _)) ==> c.state() is AwaitingDataChannel && c.spec_addr() == addr,
    {
        let (rtc, answer) = rtc_answer_offer(true, host, offer)?;
        Ok((Connection::new(rtc, addr), answer))
    }

    /// Whether the connection's engine is alive.
    pub fn is_alive(&self) -> (r: bool)
        ensures
            r == engine_is_alive(self.spec_rtc()),
    {
        rtc_is_alive(&self.rtc)
    }

    /// Drives the engine's time forward to `now`.
    pub fn handle_timeout(&mut self, now: Instant) -> (r: Result<(), RtcError>)
        ensures
            final(self).state() == old(self).state(),
            final(self).spec_addr() == old(self).spec_addr(),
    {
        rtc_handle_timeout(&mut self.rtc, now)
    }

    /// The client's address.
    pub fn addr(&self) -> (r: &A)
        ensures
            *r == self.spec_addr(),
    {
        &self.addr
    }

    /// The phase of the handshake.
    pub fn phase(&self) -> (r: Phase)
        ensures
            r == self.state().spec_phase(),
    {
        match &self.state {
            ConnectionState::AwaitingDataChannel => Phase::AwaitingDataChannel,
            ConnectionState::AwaitingHandshake(_) => Phase::AwaitingHandshake,
            ConnectionState::AwaitingRequest(_, _) => Phase::AwaitingRequest,
            ConnectionState::Disconnected => Phase::Disconnected,
        }
    }

    /// The sender that requests go to, once the handshake is done.
    pub fn request_sender(&self) -> (r: Option<&S>)
        ensures
            match self.state() {
                ConnectionState::AwaitingRequest(_, s) => r == Some(&s),
                _ => r is None,
            },
    {
        match &self.state {
            ConnectionState::AwaitingRequest(_, s) => Some(s),
            _ => None,
        }
    }

    /// Handles one event of the engine: opening of the data channel, the
    /// client's handshake request, requests, disconnection and channel close.
    pub fn handle_event(&mut self, ev: RtcEvent) -> (r: Result<Step, ConnectionError>)
        requires
            !is_data_before_open(old(self).state(), ev),
        ensures
            final(self).state() == next_state(old(self).state(), ev),
            event_result(old(self).state(), ev, r),
            ev matches RtcEvent::IceStateChange(ice) ==> (final(self).state() is Disconnected
                <==> (ice == IceState::Disconnected || old(self).state() is Disconnected)),
            final(self).spec_addr() == old(self).spec_addr(),
            final(self).spec_rtc() == old(self).spec_rtc(),
    {
        match ev {
            RtcEvent::IceStateChange(ice) => {
                if let IceState::Disconnected = ice {
                    self.state = ConnectionState::Disconnected;
                }
                Ok(Step::Continue)
            },
            RtcEvent::ChannelOpen(id) => {
                if let ConnectionState::AwaitingDataChannel = self.state {
                    self.state = ConnectionState::AwaitingHandshake(id);
                }
                Ok(Step::Continue)
            },
            RtcEvent::ChannelData { binary, data } => {
                if !binary {
                    return Ok(Step::Continue);
                }
                match &self.state {
                    ConnectionState::AwaitingDataChannel => Err(
                        ConnectionError::DataBeforeChannelOpen,
                    ),
                    ConnectionState::AwaitingHandshake(_) => {
                        Ok(Step::Handshake(HandshakeRequestFrame::decode(data.as_slice())))
                    },
                    ConnectionState::AwaitingRequest(_, _) => {
                        match RequestFrame::decode(data.as_slice()) {
                            Ok(f) => Ok(Step::Request(f)),
                            Err(e) => Err(ConnectionError::Frame(e)),
                        }
                    },
                    ConnectionState::Disconnected => Ok(Step::Continue),
                }
            },
            RtcEvent::ChannelClose(id) => {
                let close = match &self.state {
                    ConnectionState::AwaitingHandshake(current) => channel_id_eq(&id, current),
                    ConnectionState::AwaitingRequest(current, _) => channel_id_eq(&id, current),
                    _ => false,
                };
                if close {
                    self.state = ConnectionState::Disconnected;
                }
                Ok(Step::Continue)
            },
            RtcEvent::Other => Ok(Step::Continue),
        }
    }

    /// Whether handling `ev` now would mean binary data before any channel
    /// was opened.
    pub fn is_data_before_open(&self, ev: &RtcEvent) -> (r: bool)
        ensures
            r == is_data_before_open(self.state(), *ev),
    {
        match ev {
            RtcEvent::ChannelData { binary, .. } => *binary && match &self.state {
                ConnectionState::AwaitingDataChannel => true,
                _ => false,
            },
            _ => false,
        }
    }

    /// Handles one output of the engine, or the engine's error. An idle
    /// engine yields `Step::Idle` with the instant it is idle until; a
    /// datagram to send yields `Step::Transmit` with that datagram; an event is
    /// handled as `handle_event` does, except that binary data before any
    /// channel was opened yields `DataBeforeChannelOpen`. On an error of the
    /// engine or of a request frame, the connection is considered
    /// disconnected.
    pub fn handle_polled(&mut self, p: Result<Polled, RtcError>) -> (r: Result<
        Step,
        ConnectionError,
    >)
        ensures
            final(self).state() == polled_next_state(old(self).state(), p),
            polled_result(old(self).state(), p, r),
            final(self).spec_addr() == old(self).spec_addr(),
            final(self).spec_rtc() == old(self).spec_rtc(),
    {
        match p {
            Err(e) => {
                self.state = ConnectionState::Disconnected;
                Err(ConnectionError::Rtc(e))
            },
            Ok(Polled::Timeout(t)) => Ok(Step::Idle(t)),
            Ok(Polled::Transmit(t)) => Ok(Step::Transmit(t)),
            Ok(Polled::Event(ev)) => {
                if self.is_data_before_open(&ev) {
                    Err(ConnectionError::DataBeforeChannelOpen)
                } else {
                    let r = self.handle_event(ev);
                    if let Err(ConnectionError::Frame(_)) = r {
                        self.state = ConnectionState::Disconnected;
                    }
                    r
                }
            },
        }
    }

    /// Polls the engine once and handles what it produced with
    /// `handle_polled`.
    pub fn handle_output(&mut self) -> (r: Result<Step, ConnectionError>)
        ensures
            final(self).spec_addr() == old(self).spec_addr(),
            exists|p: Result<Polled, RtcError>|
                final(self).state() == polled_next_state(old(self).state(), p) && polled_result(
                    old(self).state(),
                    p,
                    r,
                ),
    {
        let p = rtc_poll_output(&mut self.rtc);
        let ghost before = self.state();
        let ghost q = p;
        let r = self.handle_polled(p);
        assert(self.state() == polled_next_state(before, q) && polled_result(before, q, r));
        r
    }

    /// Ends the handshake: requests on the channel now go to `sender`.
    pub fn accept_handshake(&mut self, sender: S)
        requires
            old(self).state() is AwaitingHandshake,
        ensures
            final(self).state() == ConnectionState::AwaitingRequest(
                old(self).state()->AwaitingHandshake_0,
                sender,
            ),
            final(self).spec_addr() == old(self).spec_addr(),
            final(self).spec_rtc() == old(self).spec_rtc(),
    {
        if let ConnectionState::AwaitingHandshake(id) = self.state {
            self.state = ConnectionState::AwaitingRequest(id, sender);
        }
    }

    /// Writes `payload` as one binary message on the connection's data
    /// channel.
    pub fn write(&mut self, payload: &[u8]) -> (r: Result<(), WriteError>)
        ensures
            final(self).state() == old(self).state(),
            final(self).spec_addr() == old(self).spec_addr(),
            old(self).state() is AwaitingDataChannel <==> (r matches Err(WriteError::NotOpened)),
            old(self).state() is Disconnected <==> (r matches Err(WriteError::Disconnected)),
            match old(self).state().channel() {
                None => final(self).spec_rtc() == old(self).spec_rtc(),
                Some(id) => {
                    &&& (r matches Err(WriteError::NoChannel)) <==> !channel_is_open(
                        old(self).spec_rtc(),
                        id,
                    )
                    &&& (r matches Err(WriteError::NoChannel)) ==> final(self).spec_rtc() == old(
                        self,
                    ).spec_rtc()
                    &&& r is Ok <==> channel_is_open(old(self).spec_rtc(), id) && write_succeeds(
                        old(self).spec_rtc(),
                        id,
                        true,
                        payload@,
                    )
                    &&& r is Ok && payload@.len() > 0 ==> accepted_messages(
                        final(self).spec_rtc(),
                        id,
                    ) == accepted_messages(old(self).spec_rtc(), id).push((true, payload@))
                    &&& r is Ok && payload@.len() == 0 ==> accepted_messages(
                        final(self).spec_rtc(),
                        id,
                    ) == accepted_messages(old(self).spec_rtc(), id)
                    &&& r is Ok ==> forall|other: ChannelId|
                        other != id ==> #[trigger] accepted_messages(final(self).spec_rtc(), other)
                            == accepted_messages(old(self).spec_rtc(), other)
                    &&& r is Err ==> (r matches Err(WriteError::NoChannel)) || (r matches Err(
                        WriteError::Rtc(_),
                    ))
                },
            },
    {
        let id = match &self.state {
            ConnectionState::AwaitingDataChannel => {
                return Err(WriteError::NotOpened);
            },
            ConnectionState::AwaitingHandshake(id) => *id,
            ConnectionState::AwaitingRequest(id, _) => *id,
            ConnectionState::Disconnected => {
                return Err(WriteError::Disconnected);
            },
        };
        match rtc_channel_write(&mut self.rtc, id, true, payload) {
            None => Err(WriteError::NoChannel),
            Some(Ok(_)) => Ok(()),
            Some(Err(e)) => Err(WriteError::Rtc(e)),
        }
    }

    /// Ends the connection.
    pub fn disconnect(&mut self)
        ensures
            final(self).state() is Disconnected,
            final(self).spec_addr() == old(self).spec_addr(),
            final(self).spec_rtc() == old(self).spec_rtc(),
    {
        self.state = ConnectionState::Disconnected;
    }
}

/// A connection goes through its phases in order and never back: every
/// event leaves it in the same phase or a later one; a disconnected
/// connection stays disconnected; the data channel in use, once chosen, is
/// never replaced by another.
pub proof fn lemma_event_keeps_phase_order<S>(state: ConnectionState<S>, ev: RtcEvent)
    ensures
        phase_rank(next_state(state, ev).spec_phase()) >= phase_rank(state.spec_phase()),
        state is Disconnected ==> next_state(state, ev) is Disconnected,
        state.channel() is Some && next_state(state, ev).channel() is Some ==> next_state(
            state,
            ev,
        ).channel() == state.channel(),
{
}

/// The same order holds for every output or error of the engine that a
/// connection handles: the phase never goes back, a disconnected connection
/// stays disconnected, the channel in use is never replaced, and an error of
/// the engine ends the connection.
pub proof fn lemma_polled_keeps_phase_order<S>(state: ConnectionState<S>, p: Result<Polled, RtcError>)
    ensures
        phase_rank(polled_next_state(state, p).spec_phase()) >= phase_rank(state.spec_phase()),
        state is Disconnected ==> polled_next_state(state, p) is Disconnected,
        state.channel() is Some && polled_next_state(state, p).channel() is Some
            ==> polled_next_state(state, p).channel() == state.channel(),
        p is Err ==> polled_next_state(state, p) is Disconnected,
{
    if let Ok(Polled::Event(ev)) = p {
        lemma_event_keeps_phase_order(state, ev);
    }
}

/// ICE decides whether the client is still there: a report that ICE is
/// disconnected ends the connection whatever its phase, and no other ICE
/// state changes the connection at all.
pub proof fn lemma_ice_disconnect_ends_connection<S>(state: ConnectionState<S>, ice: IceState)
    ensures
        ice == IceState::Disconnected ==> next_state(state, RtcEvent::IceStateChange(ice))
            is Disconnected,
        ice != IceState::Disconnected ==> next_state(state, RtcEvent::IceStateChange(ice))
            == state,
        ice == IceState::Disconnected ==> polled_next_state(
            state,
            Ok(Polled::Event(RtcEvent::IceStateChange(ice))),
        ) is Disconnected,
{
}

/// Accepting the handshake moves a connection one phase on and keeps its
/// channel.
pub proof fn lemma_accept_handshake_keeps_channel<S>(id: ChannelId, sender: S)
    ensures
        phase_rank(ConnectionState::<S>::AwaitingRequest(id, sender).spec_phase()) == phase_rank(
            ConnectionState::<S>::AwaitingHandshake(id).spec_phase(),
        ) + 1,
        ConnectionState::<S>::AwaitingRequest(id, sender).channel()
            == ConnectionState::<S>::AwaitingHandshake(id).channel(),
{
}

} // verus!
