//! The client and server session state machines.
//!
//! One connection is one session.  The machines here make every
//! decision of the lifecycle — handshake, streaming, termination — as
//! pure transitions from state and received message to next state and
//! reply bytes; the unverified shell only moves bytes between these
//! machines and a socket.  Any message illegal in the current state is
//! a protocol violation that ends the session: once framing or
//! sequencing is lost there is no resynchronization, only disconnect.

use vstd::prelude::*;

use crate::error::AudioError;
use crate::format::AudioHeader;
use crate::playback::CpalFileWrite;
use crate::protocol::Message;
use crate::protocol::MessageView;
use crate::protocol::ProtocolInfo;
use crate::protocol::PROTOCOL_VERSION;
use crate::protocol::MAX_PAYLOAD;
use crate::protocol::make_data_message;
use crate::protocol::encode;
use crate::protocol::spec_encode;
use crate::sink::Sink;
use crate::sink::SinkView;
use crate::sink::fan_finalize;
use crate::sink::fan_format;
use crate::sink::fan_pop_frames;
use crate::sink::fan_write;
use crate::sink::fan_out_finalize;
use crate::sink::fan_out_format;
use crate::sink::fan_out_pop_frames;
use crate::sink::fan_out_write;
use crate::sink::sink_inv;
use crate::sink::sink_views;
use crate::wav::WavFileRead;
use crate::wav::WavFileWrite;
use crate::wav::spec_read_amount;
use crate::wav::WavWriteView;
use crate::playback::PlaybackView;

verus! {

/// Why a session ended or refused to act.
#[derive(Clone, Copy, Debug, PartialEq, Eq, Structural)]
pub enum SessionError {
    /// The peer sent a message illegal in the current state.  Fatal:
    /// the session closes, there is no retry.
    ProtocolViolation,
    /// The machine was driven out of turn, or before it was configured.
    NotReady,
    /// A registered sink refused an operation.
    Audio(AudioError),
}

/// What a client can attach to the received stream.
pub enum Capabilities {
    SaveToFile(String),
    RealTimePlayback,
}

/// The client lifecycle over one connection.
#[derive(Clone, Copy, Debug, PartialEq, Eq, Structural)]
pub enum ClientState {
    Start,
    AwaitServerHello,
    Idle,
    AwaitHeader,
    Streaming,
    Draining,
    AwaitBye,
    Closed,
}

/// The client transition for a received message: next state, reply
/// bytes, and whether the message was legal where it arrived.
pub open spec fn spec_client_next(s: ClientState, m: MessageView) -> (ClientState, Seq<u8>, bool) {
    match (s, m) {
        (ClientState::AwaitServerHello, MessageView::Hello) => (
            ClientState::Idle,
            spec_encode(MessageView::Okay),
            true,
        ),
        (ClientState::AwaitHeader, MessageView::AudioHeader(_)) => (
            ClientState::Streaming,
            Seq::empty(),
            true,
        ),
        (ClientState::Streaming, MessageView::Data(_)) => (
            ClientState::Streaming,
            Seq::empty(),
            true,
        ),
        (ClientState::Streaming, MessageView::StopPlaying) => (
            ClientState::Draining,
            Seq::empty(),
            true,
        ),
        (ClientState::AwaitBye, MessageView::Bye) => (ClientState::Closed, Seq::empty(), true),
        _ => (ClientState::Closed, Seq::empty(), false),
    }
}

/// The mathematical state of a client session.
pub struct ClientView {
    pub state: ClientState,
    pub sinks: Seq<SinkView>,
    pub format: Option<AudioHeader>,
    pub info: Option<ProtocolInfo>,
}

impl ClientView {
    /// Every registered sink is well formed.
    pub open spec fn wf(self) -> bool {
        forall|i: int| 0 <= i < self.sinks.len() ==> sink_inv(#[trigger] self.sinks[i])
    }
}

/// The client half of a session: drives the handshake, requests the
/// stream, fans received audio out to its sinks, and closes down.
pub struct ClientSession {
    state: ClientState,
    sinks: Vec<Sink>,
    format: Option<AudioHeader>,
    info: Option<ProtocolInfo>,
}

impl View for ClientSession {
    type V = ClientView;

    closed spec fn view(&self) -> ClientView {
        ClientView {
            state: self.state,
            sinks: sink_views(self.sinks@),
            format: self.format,
            info: self.info,
        }
    }
}

impl ClientSession {
    pub fn new() -> (r: Self)
        ensures
            r@.state == ClientState::Start,
            r@.sinks == Seq::<SinkView>::empty(),
            r@.format is None,
            r@.info is None,
            r@.wf(),
    {
        let r = ClientSession { state: ClientState::Start, sinks: Vec::new(), format: None, info: None };
        proof {
            assert(sink_views(r.sinks@) =~= Seq::<SinkView>::empty());
        }
        r
    }

    pub fn state(&self) -> (r: ClientState)
        ensures
            r == self@.state,
    {
        self.state
    }

    pub fn format(&self) -> (r: Option<AudioHeader>)
        ensures
            r == self@.format,
    {
        self.format
    }

    pub fn protocol_info(&self) -> (r: Option<ProtocolInfo>)
        ensures
            r == self@.info,
    {
        self.info
    }

    /// Register a sink for the stream to come: a WAV file at a path, or
    /// the real-time playback buffer.
    pub fn add_capability(&mut self, capability: Capabilities)
        requires
            old(self)@.wf(),
        ensures
            final(self)@.wf(),
            final(self)@.state == old(self)@.state,
            final(self)@.format == old(self)@.format,
            final(self)@.info == old(self)@.info,
            match capability {
                Capabilities::SaveToFile(p) => final(self)@.sinks == old(self)@.sinks.push(
                    SinkView::File(
                        WavWriteView {
                            path: p@,
                            format: None,
                            data: Seq::empty(),
                            finalized: false,
                            output: None,
                        },
                    ),
                ),
                Capabilities::RealTimePlayback => final(self)@.sinks == old(self)@.sinks.push(
                    SinkView::Playback(
                        PlaybackView {
                            queue: Seq::empty(),
                            format: None,
                            started: false,
                            finalized: false,
                            notified: false,
                            pushed: Seq::empty(),
                            played: Seq::empty(),
                        },
                    ),
                ),
            },
    {
        let s = match capability {
            Capabilities::SaveToFile(p) => Sink::File(WavFileWrite::new(p)),
            Capabilities::RealTimePlayback => Sink::Playback(CpalFileWrite::new()),
        };
        let ghost sv = s@;
        proof {
            assert(sink_inv(sv));
        }
        self.sinks.push(s);
        proof {
            assert(sink_views(self.sinks@) =~= old(self)@.sinks.push(sv));
            assert forall|i: int| 0 <= i < self@.sinks.len() implies sink_inv(
                #[trigger] self@.sinks[i],
            ) by {
                if i < old(self)@.sinks.len() {
                    assert(sink_inv(old(self)@.sinks[i]));
                    assert(self@.sinks[i] == old(self)@.sinks[i]);
                } else {
                    assert(self@.sinks[i] == sv);
                }
            }
        }
    }

    /// Open the handshake: emit `Hello`.  Legal only once, at the start.
    pub fn begin(&mut self) -> (r: Result<Vec<u8>, SessionError>)
        requires
            old(self)@.wf(),
        ensures
            final(self)@.wf(),
            old(self)@.state != ClientState::Start ==> r == Err::<Vec<u8>, SessionError>(
                SessionError::NotReady,
            ) && final(self)@ == old(self)@,
            old(self)@.state == ClientState::Start ==> (r matches Ok(v) && v@ == spec_encode(
                MessageView::Hello,
            )) && final(self)@ == (ClientView { state: ClientState::AwaitServerHello, ..old(self)@ }),
    {
        if !matches!(self.state, ClientState::Start) {
            return Err(SessionError::NotReady);
        }
        self.state = ClientState::AwaitServerHello;
        Ok(encode(&Message::Hello))
    }

    /// Ask the server to start the stream: emit `StartPlaying`.  Legal
    /// only when idle after the handshake.
    pub fn request_play(&mut self) -> (r: Result<Vec<u8>, SessionError>)
        requires
            old(self)@.wf(),
        ensures
            final(self)@.wf(),
            old(self)@.state != ClientState::Idle ==> r == Err::<Vec<u8>, SessionError>(
                SessionError::NotReady,
            ) && final(self)@ == old(self)@,
            old(self)@.state == ClientState::Idle ==> (r matches Ok(v) && v@ == spec_encode(
                MessageView::StartPlaying,
            )) && final(self)@ == (ClientView { state: ClientState::AwaitHeader, ..old(self)@ }),
    {
        if !matches!(self.state, ClientState::Idle) {
            return Err(SessionError::NotReady);
        }
        self.state = ClientState::AwaitHeader;
        Ok(encode(&Message::StartPlaying))
    }

    /// Feed one received message into the machine and collect the bytes
    /// to send back.  An illegal message is a protocol violation that
    /// closes the session with nothing sent; a sink failure likewise
    /// closes it, with the earlier sinks already updated.
    pub fn on_message(&mut self, m: &Message) -> (r: Result<Vec<u8>, SessionError>)
        requires
            old(self)@.wf(),
        ensures
            final(self)@.wf(),
            !spec_client_next(old(self)@.state, m@).2 ==> r == Err::<Vec<u8>, SessionError>(
                SessionError::ProtocolViolation,
            ) && final(self)@ == (ClientView { state: ClientState::Closed, ..old(self)@ }),
            spec_client_next(old(self)@.state, m@).2 ==> match m@ {
                MessageView::Hello => (r matches Ok(v) && v@ == spec_encode(MessageView::Okay))
                    && final(self)@ == (ClientView {
                    state: ClientState::Idle,
                    info: Some(ProtocolInfo { version: PROTOCOL_VERSION }),
                    ..old(self)@
                }),
                MessageView::AudioHeader(h) => {
                    let fan = fan_format(old(self)@.sinks, h);
                    match fan.1 {
                        Ok(()) => (r matches Ok(v) && v@ == Seq::<u8>::empty()) && final(self)@
                            == (ClientView {
                            state: ClientState::Streaming,
                            sinks: fan.0,
                            format: Some(h),
                            ..old(self)@
                        }),
                        Err(e) => r == Err::<Vec<u8>, SessionError>(SessionError::Audio(e))
                            && final(self)@ == (ClientView {
                            state: ClientState::Closed,
                            sinks: fan.0,
                            ..old(self)@
                        }),
                    }
                },
                MessageView::Data(d) => {
                    let fan = fan_write(old(self)@.sinks, d);
                    match fan.1 {
                        Ok(()) => (r matches Ok(v) && v@ == Seq::<u8>::empty()) && final(self)@
                            == (ClientView { sinks: fan.0, ..old(self)@ }),
                        Err(e) => r == Err::<Vec<u8>, SessionError>(SessionError::Audio(e))
                            && final(self)@ == (ClientView {
                            state: ClientState::Closed,
                            sinks: fan.0,
                            ..old(self)@
                        }),
                    }
                },
                MessageView::StopPlaying => (r matches Ok(v) && v@ == Seq::<u8>::empty()) && final(self)@ == (ClientView { state: ClientState::Draining, ..old(self)@ }),
                MessageView::Bye => (r matches Ok(v) && v@ == Seq::<u8>::empty()) && final(self)@
                    == (ClientView { state: ClientState::Closed, ..old(self)@ }),
                _ => false,
            },
    {
        match (self.state, m) {
            (ClientState::AwaitServerHello, Message::Hello) => {
                self.state = ClientState::Idle;
                self.info = Some(ProtocolInfo::new());
                Ok(encode(&Message::Okay))
            },
            (ClientState::AwaitHeader, Message::AudioHeader(h)) => {
                let h = *h;
                match fan_out_format(&mut self.sinks, &h) {
                    Ok(()) => {
                        self.state = ClientState::Streaming;
                        self.format = Some(h);
                        Ok(Vec::new())
                    },
                    Err(e) => {
                        self.state = ClientState::Closed;
                        Err(SessionError::Audio(e))
                    },
                }
            },
            (ClientState::Streaming, Message::Data(d)) => {
                let payload = d.as_slice();
                match fan_out_write(&mut self.sinks, payload) {
                    Ok(()) => Ok(Vec::new()),
                    Err(e) => {
                        self.state = ClientState::Closed;
                        Err(SessionError::Audio(e))
                    },
                }
            },
            (ClientState::Streaming, Message::StopPlaying) => {
                self.state = ClientState::Draining;
                Ok(Vec::new())
            },
            (ClientState::AwaitBye, Message::Bye) => {
                self.state = ClientState::Closed;
                Ok(Vec::new())
            },
            _ => {
                self.state = ClientState::Closed;
                Err(SessionError::ProtocolViolation)
            },
        }
    }

    /// Finalize every sink: file sinks produce their finished bytes,
    /// the playback buffer goes inert.  The shell drains playback
    /// first, on its own task — never on the audio thread.
    pub fn end_audio(&mut self) -> (r: Result<(), SessionError>)
        requires
            old(self)@.wf(),
        ensures
            final(self)@.wf(),
            final(self)@.sinks == fan_finalize(old(self)@.sinks).0,
            match fan_finalize(old(self)@.sinks).1 {
                Ok(()) => r == Ok::<(), SessionError>(()) && final(self)@ == (ClientView {
                    sinks: fan_finalize(old(self)@.sinks).0,
                    ..old(self)@
                }),
                Err(e) => r == Err::<(), SessionError>(SessionError::Audio(e)) && final(self)@
                    == (ClientView {
                    state: ClientState::Closed,
                    sinks: fan_finalize(old(self)@.sinks).0,
                    ..old(self)@
                }),
            },
    {
        match fan_out_finalize(&mut self.sinks) {
            Ok(()) => Ok(()),
            Err(e) => {
                self.state = ClientState::Closed;
                Err(SessionError::Audio(e))
            },
        }
    }

    /// Close the stream from our side: emit `Bye` after draining.
    pub fn bye(&mut self) -> (r: Result<Vec<u8>, SessionError>)
        requires
            old(self)@.wf(),
        ensures
            final(self)@.wf(),
            old(self)@.state != ClientState::Draining ==> r == Err::<Vec<u8>, SessionError>(
                SessionError::NotReady,
            ) && final(self)@ == old(self)@,
            old(self)@.state == ClientState::Draining ==> (r matches Ok(v) && v@ == spec_encode(
                MessageView::Bye,
            )) && final(self)@ == (ClientView { state: ClientState::AwaitBye, ..old(self)@ }),
    {
        if !matches!(self.state, ClientState::Draining) {
            return Err(SessionError::NotReady);
        }
        self.state = ClientState::AwaitBye;
        Ok(encode(&Message::Bye))
    }

    /// The peer closed the connection (a zero-byte read): a clean end,
    /// never a protocol error.
    pub fn on_peer_closed(&mut self)
        requires
            old(self)@.wf(),
        ensures
            final(self)@.wf(),
            final(self)@ == (ClientView { state: ClientState::Closed, ..old(self)@ }),
    {
        self.state = ClientState::Closed;
    }

    /// The audio callback: draw `frames` frames from every playback
    /// sink.  Returns the frame bytes and whether a drain signal fired.
    pub fn pop_playback_frames(&mut self, frames: usize) -> (r: (Vec<u8>, bool))
        requires
            old(self)@.wf(),
        ensures
            final(self)@.wf(),
            final(self)@ == (ClientView {
                sinks: fan_pop_frames(old(self)@.sinks, frames as nat).0,
                ..old(self)@
            }),
            r.0@ == fan_pop_frames(old(self)@.sinks, frames as nat).1,
            r.1 == fan_pop_frames(old(self)@.sinks, frames as nat).2,
    {
        fan_out_pop_frames(&mut self.sinks, frames)
    }

    /// Hand the sinks over to the shell once the session is done, so it
    /// can write finished files to disk.
    pub fn take_sinks(&mut self) -> (r: Vec<Sink>)
        requires
            old(self)@.wf(),
        ensures
            final(self)@.wf(),
            sink_views(r@) == old(self)@.sinks,
            final(self)@ == (ClientView { sinks: Seq::empty(), ..old(self)@ }),
    {
        let r = self.sinks.split_off(0);
        proof {
            assert(sink_views(r@) =~= old(self)@.sinks);
            assert(sink_views(self.sinks@) =~= Seq::<SinkView>::empty());
        }
        r
    }
}

/// The server lifecycle over one accepted connection.
#[derive(Clone, Copy, Debug, PartialEq, Eq, Structural)]
pub enum ServerState {
    AwaitHello,
    AwaitOk,
    Idle,
    Closed,
}

/// The server transition for a received message: next state, reply
/// bytes, whether to stream the configured file now, and whether the
/// message was legal where it arrived.  The reply to `StartPlaying` —
/// the audio header — depends on the configured format and is stated in
/// [`ServerSession::on_message`].
pub open spec fn spec_server_next(s: ServerState, m: MessageView) -> (
    ServerState,
    Seq<u8>,
    bool,
    bool,
) {
    match (s, m) {
        (ServerState::AwaitHello, MessageView::Hello) => (
            ServerState::AwaitOk,
            spec_encode(MessageView::Hello),
            false,
            true,
        ),
        (ServerState::AwaitOk, MessageView::Okay) => (ServerState::Idle, Seq::empty(), false, true),
        (ServerState::Idle, MessageView::StartPlaying) => (ServerState::Idle, Seq::empty(), true, true),
        (ServerState::Idle, MessageView::Bye) => (
            ServerState::Closed,
            spec_encode(MessageView::Bye),
            false,
            true,
        ),
        _ => (ServerState::Closed, Seq::empty(), false, false),
    }
}

/// What the server shell must do after feeding a message in.
pub struct ServerReply {
    /// Bytes to send to the peer first.
    pub reply: Vec<u8>,
    /// Then stream the configured file as data messages, ending with
    /// `StopPlaying`.
    pub start_stream: bool,
    /// The session is over; close the socket.
    pub done: bool,
}

/// The server half of a session: answers the handshake, hands out the
/// stream on request, and confirms the goodbye.
pub struct ServerSession {
    state: ServerState,
    format: Option<AudioHeader>,
}

impl ServerSession {
    /// The machine's current state.
    pub closed spec fn spec_state(&self) -> ServerState {
        self.state
    }

    /// The configured format, if any.
    pub closed spec fn spec_format(&self) -> Option<AudioHeader> {
        self.format
    }

    pub fn new() -> (r: Self)
        ensures
            r.spec_state() == ServerState::AwaitHello,
            r.spec_format() is None,
    {
        ServerSession { state: ServerState::AwaitHello, format: None }
    }

    pub fn state(&self) -> (r: ServerState)
        ensures
            r == self.spec_state(),
    {
        self.state
    }

    pub fn format(&self) -> (r: Option<AudioHeader>)
        ensures
            r == self.spec_format(),
    {
        self.format
    }

    /// Configure the format of the file this server streams (taken from
    /// the opened WAV source).  A format outside the supported matrix is
    /// refused.
    pub fn set_format(&mut self, header: &AudioHeader) -> (r: Result<(), SessionError>)
        ensures
            !header.spec_valid() ==> r == Err::<(), SessionError>(
                SessionError::Audio(AudioError::UnsupportedFormat),
            ) && *final(self) == *old(self),
            header.spec_valid() ==> r == Ok::<(), SessionError>(()) && final(self).spec_format()
                == Some(*header) && final(self).spec_state() == old(self).spec_state(),
    {
        if !header.is_valid() {
            return Err(SessionError::Audio(AudioError::UnsupportedFormat));
        }
        self.format = Some(*header);
        Ok(())
    }

    /// Feed one received message in.  The reply to a legal message is
    /// fixed by the machine; `StartPlaying` additionally needs the
    /// configured format, whose announcement it returns.
    pub fn on_message(&mut self, m: &Message) -> (r: Result<ServerReply, SessionError>)
        ensures
            final(self).spec_format() == old(self).spec_format(),
            !spec_server_next(old(self).spec_state(), m@).3 ==> r == Err::<
                ServerReply,
                SessionError,
            >(SessionError::ProtocolViolation) && final(self).spec_state() == ServerState::Closed,
            spec_server_next(old(self).spec_state(), m@).3 ==> if old(self).spec_state()
                == ServerState::Idle && m@ == MessageView::StartPlaying {
                match old(self).spec_format() {
                    Some(f) => (r matches Ok(rep) && rep.reply@ == spec_encode(
                        MessageView::AudioHeader(f),
                    ) && rep.start_stream && !rep.done) && final(self).spec_state()
                        == ServerState::Idle,
                    None => r == Err::<ServerReply, SessionError>(SessionError::NotReady) && final(self).spec_state() == ServerState::Closed,
                }
            } else {
                (r matches Ok(rep) && rep.reply@ == spec_server_next(
                    old(self).spec_state(),
                    m@,
                ).1 && !rep.start_stream && rep.done == (spec_server_next(
                    old(self).spec_state(),
                    m@,
                ).0 is Closed)) && final(self).spec_state() == spec_server_next(
                    old(self).spec_state(),
                    m@,
                ).0
            },
    {
        match (self.state, m) {
            (ServerState::AwaitHello, Message::Hello) => {
                self.state = ServerState::AwaitOk;
                Ok(ServerReply { reply: encode(&Message::Hello), start_stream: false, done: false })
            },
            (ServerState::AwaitOk, Message::Okay) => {
                self.state = ServerState::Idle;
                Ok(ServerReply { reply: Vec::new(), start_stream: false, done: false })
            },
            (ServerState::Idle, Message::StartPlaying) => {
                match &self.format {
                    Some(f) => {
                        let header = *f;
                        Ok(
                            ServerReply {
                                reply: encode(&Message::AudioHeader(header)),
                                start_stream: true,
                                done: false,
                            },
                        )
                    },
                    None => {
                        self.state = ServerState::Closed;
                        Err(SessionError::NotReady)
                    },
                }
            },
            (ServerState::Idle, Message::Bye) => {
                self.state = ServerState::Closed;
                Ok(ServerReply { reply: encode(&Message::Bye), start_stream: false, done: true })
            },
            _ => {
                self.state = ServerState::Closed;
                Err(SessionError::ProtocolViolation)
            },
        }
    }

    /// The peer closed the connection: a clean end.
    pub fn on_peer_closed(&mut self)
        ensures
            final(self).spec_state() == ServerState::Closed,
            final(self).spec_format() == old(self).spec_format(),
    {
        self.state = ServerState::Closed;
    }
}

/// One step of the server's streaming loop: read the next run of whole
/// samples from the opened WAV source and frame it as a data message.
/// `None` signals end of stream, after which the shell sends
/// `StopPlaying`.
pub fn next_data_message(reader: &mut WavFileRead, max_len: usize) -> (r: Option<Vec<u8>>)
    requires
        old(reader)@.wf(),
        max_len <= MAX_PAYLOAD,
    ensures
        final(reader)@.wf(),
        final(reader)@.format == old(reader)@.format,
        final(reader)@.data == old(reader)@.data,
        final(reader)@.pos == old(reader)@.pos + spec_read_amount(old(reader)@, max_len as nat),
        match r {
            Some(v) => spec_read_amount(old(reader)@, max_len as nat) > 0 && v@ == spec_encode(
                MessageView::Data(
                    old(reader)@.data.subrange(
                        old(reader)@.pos,
                        old(reader)@.pos + spec_read_amount(old(reader)@, max_len as nat),
                    ),
                ),
            ),
            None => spec_read_amount(old(reader)@, max_len as nat) == 0,
        },
{
    let chunk = reader.read(max_len);
    if chunk.len() == 0 {
        return None;
    }
    proof {
        let v = old(reader)@;
        match v.format {
            Some(f) => {
                let bps = f.spec_bytes_per_sample() as int;
                let avail = v.data.len() - v.pos;
                let take = if (max_len as int) < avail {
                    max_len as int
                } else {
                    avail
                };
                assert((take / bps) * bps <= take) by (nonlinear_arith)
                    requires
                        bps > 0,
                        take >= 0,
                ;
            },
            None => {},
        }
        assert(chunk@.len() <= max_len);
    }
    Some(make_data_message(chunk.as_slice()))
}

/// Handshake rejection: a first message that is not a well-formed
/// `Hello` closes the server session as illegal, with no reply and in
/// particular no audio header.  (A hello bearing the wrong magic number
/// never even decodes: see `lemma_wrong_magic_refused`.)
pub proof fn lemma_handshake_rejection(m: MessageView)
    requires
        !(m is Hello),
    ensures
        !spec_server_next(ServerState::AwaitHello, m).3,
        spec_server_next(ServerState::AwaitHello, m).0 == ServerState::Closed,
        spec_server_next(ServerState::AwaitHello, m).1 == Seq::<u8>::empty(),
        !spec_server_next(ServerState::AwaitHello, m).2,
{
}

} // verus!
