use streamapp::error::AudioError;
use streamapp::format::AudioHeader;
use streamapp::format::SampleFormat;
use streamapp::protocol::Message;
use streamapp::protocol::make_stop_playing_message;
use streamapp::recv::RecvBuffer;
use streamapp::session::Capabilities;
use streamapp::session::ClientSession;
use streamapp::session::ClientState;
use streamapp::session::ServerSession;
use streamapp::session::ServerState;
use streamapp::session::SessionError;
use streamapp::session::next_data_message;
use streamapp::sink::Sink;
use streamapp::wav::WavFileRead;
use streamapp::wav::build_wav_bytes;

const CHUNK: usize = 4096;

fn test_format() -> AudioHeader {
    AudioHeader {
        sample_rate: 8000,
        channels: 1,
        bits_per_sample: 16,
        sample_format: SampleFormat::Int,
    }
}

/// One second of 8000 Hz mono 16-bit audio: a simple ramp.
fn test_samples() -> Vec<u8> {
    let mut data = Vec::new();
    for i in 0..8000i32 {
        let s = ((i % 997) - 498) as i16;
        data.extend_from_slice(&s.to_le_bytes());
    }
    data
}

/// Feed bytes into the server side; return what it sends back and how
/// many data frames it streamed.
fn pump_server(
    server: &mut ServerSession,
    reader: &mut WavFileRead,
    buf: &mut RecvBuffer,
    incoming: &[u8],
) -> (Vec<u8>, usize) {
    let mut out = Vec::new();
    let mut data_frames = 0;
    buf.feed(incoming);
    while let Some(m) = buf.poll_message().expect("client bytes are well formed") {
        let reply = server.on_message(&m).expect("client message is legal");
        out.extend_from_slice(&reply.reply);
        if reply.start_stream {
            while let Some(frame) = next_data_message(reader, CHUNK) {
                out.extend_from_slice(&frame);
                data_frames += 1;
            }
            out.extend_from_slice(&make_stop_playing_message());
        }
    }
    (out, data_frames)
}

/// Feed bytes into the client side; return what it sends back.
fn pump_client(client: &mut ClientSession, buf: &mut RecvBuffer, incoming: &[u8]) -> Vec<u8> {
    let mut out = Vec::new();
    buf.feed(incoming);
    while let Some(m) = buf.poll_message().expect("server bytes are well formed") {
        let reply = client.on_message(&m).expect("server message is legal");
        out.extend_from_slice(&reply);
    }
    out
}

#[test]
fn end_to_end_file_transfer() {
    let fmt = test_format();
    let data = test_samples();
    let wav_in = build_wav_bytes(&fmt, &data);

    // server side: the configured source file
    let mut reader = WavFileRead::new();
    reader.open_bytes(&wav_in).unwrap();
    let mut hdr = AudioHeader {
        sample_rate: 0,
        channels: 0,
        bits_per_sample: 0,
        sample_format: SampleFormat::Int,
    };
    reader.update_header(&mut hdr);
    assert_eq!(hdr, fmt, "the source file's format is carried verbatim");
    let mut server = ServerSession::new();
    server.set_format(&hdr).unwrap();
    let mut srv_buf = RecvBuffer::new();

    // client side: save the stream to a file
    let mut client = ClientSession::new();
    client.add_capability(Capabilities::SaveToFile(String::from("received.wav")));
    let mut cli_buf = RecvBuffer::new();

    // handshake
    let hello = client.begin().unwrap();
    let (srv_hello, _) = pump_server(&mut server, &mut reader, &mut srv_buf, &hello);
    let ok = pump_client(&mut client, &mut cli_buf, &srv_hello);
    assert_eq!(client.state(), ClientState::Idle);
    let (none, _) = pump_server(&mut server, &mut reader, &mut srv_buf, &ok);
    assert!(none.is_empty());
    assert_eq!(server.state(), ServerState::Idle);

    // streaming
    let play = client.request_play().unwrap();
    let (stream, frames) = pump_server(&mut server, &mut reader, &mut srv_buf, &play);
    assert_eq!(frames, 4, "16000 bytes in 4096-byte chunks is four frames");
    let silent = pump_client(&mut client, &mut cli_buf, &stream);
    assert!(silent.is_empty());
    assert_eq!(client.state(), ClientState::Draining);

    // termination
    client.end_audio().unwrap();
    let bye = client.bye().unwrap();
    let (srv_bye, _) = pump_server(&mut server, &mut reader, &mut srv_buf, &bye);
    assert_eq!(server.state(), ServerState::Closed);
    let nothing = pump_client(&mut client, &mut cli_buf, &srv_bye);
    assert!(nothing.is_empty());
    assert_eq!(client.state(), ClientState::Closed);

    // the received file is identical to the source file
    let mut sinks = client.take_sinks();
    assert_eq!(sinks.len(), 1);
    match &mut sinks[0] {
        Sink::File(w) => {
            assert_eq!(w.path().as_str(), "received.wav");
            let wav_out = w.take_output().expect("the sink was finalized");
            assert_eq!(wav_out, wav_in, "byte-for-byte identical output");
        },
        _ => panic!("expected the file sink"),
    }
}

#[test]
fn end_to_end_with_playback_sink() {
    let fmt = test_format();
    let data = test_samples();
    let wav_in = build_wav_bytes(&fmt, &data);

    let mut reader = WavFileRead::new();
    reader.open_bytes(&wav_in).unwrap();
    let mut server = ServerSession::new();
    server.set_format(&fmt).unwrap();
    let mut srv_buf = RecvBuffer::new();

    let mut client = ClientSession::new();
    client.add_capability(Capabilities::RealTimePlayback);
    let mut cli_buf = RecvBuffer::new();

    let hello = client.begin().unwrap();
    let (srv_hello, _) = pump_server(&mut server, &mut reader, &mut srv_buf, &hello);
    let ok = pump_client(&mut client, &mut cli_buf, &srv_hello);
    let _ = pump_server(&mut server, &mut reader, &mut srv_buf, &ok);
    let play = client.request_play().unwrap();
    let (stream, _) = pump_server(&mut server, &mut reader, &mut srv_buf, &play);
    let _ = pump_client(&mut client, &mut cli_buf, &stream);
    assert_eq!(client.state(), ClientState::Draining);

    // drain the playback buffer as the audio callback would, then check
    // everything came out in order
    let mut played = Vec::new();
    let mut signaled = false;
    while !signaled {
        let (frame, sig) = client.pop_playback_frames(64);
        played.extend_from_slice(&frame);
        signaled = sig;
    }
    assert_eq!(&played[..data.len()], &data[..], "played bytes in push order");
    assert!(played[data.len()..].iter().all(|b| *b == 0), "then silence");

    client.end_audio().unwrap();
    let bye = client.bye().unwrap();
    let (srv_bye, _) = pump_server(&mut server, &mut reader, &mut srv_buf, &bye);
    let _ = pump_client(&mut client, &mut cli_buf, &srv_bye);
    assert_eq!(client.state(), ClientState::Closed);
}

#[test]
fn handshake_rejected_on_wrong_magic() {
    let mut srv_buf = RecvBuffer::new();
    let mut corrupted = streamapp::protocol::make_client_hello_message();
    corrupted[0] ^= 0xFF;
    srv_buf.feed(&corrupted);
    // the connection is refused while still decoding: no message ever
    // reaches the machine, so no audio header can have been exchanged
    assert!(srv_buf.poll_message().is_err());
}

#[test]
fn handshake_rejected_on_wrong_first_message() {
    let mut server = ServerSession::new();
    assert!(matches!(server.on_message(&Message::Okay), Err(SessionError::ProtocolViolation)));
    assert_eq!(server.state(), ServerState::Closed);
}

#[test]
fn client_refuses_out_of_order_messages() {
    let mut client = ClientSession::new();
    let _ = client.begin().unwrap();
    let r = client.on_message(&Message::Data(vec![1, 2]));
    assert_eq!(r, Err(SessionError::ProtocolViolation));
    assert_eq!(client.state(), ClientState::Closed);
}

#[test]
fn server_without_source_reports_not_ready() {
    let mut server = ServerSession::new();
    server.on_message(&Message::Hello).unwrap();
    server.on_message(&Message::Okay).unwrap();
    assert!(matches!(server.on_message(&Message::StartPlaying), Err(SessionError::NotReady)));
}

#[test]
fn invalid_source_format_is_refused() {
    let mut server = ServerSession::new();
    let bad = AudioHeader {
        sample_rate: 8000,
        channels: 1,
        bits_per_sample: 24,
        sample_format: SampleFormat::Int,
    };
    assert_eq!(
        server.set_format(&bad),
        Err(SessionError::Audio(AudioError::UnsupportedFormat))
    );
}

#[test]
fn peer_close_is_a_clean_end() {
    let mut client = ClientSession::new();
    let _ = client.begin().unwrap();
    client.on_peer_closed();
    assert_eq!(client.state(), ClientState::Closed);

    let mut server = ServerSession::new();
    server.on_peer_closed();
    assert_eq!(server.state(), ServerState::Closed);
}

#[test]
fn driver_calls_out_of_turn_are_refused() {
    let mut client = ClientSession::new();
    assert_eq!(client.request_play(), Err(SessionError::NotReady));
    let _ = client.begin().unwrap();
    assert_eq!(client.begin(), Err(SessionError::NotReady));
    assert_eq!(client.bye(), Err(SessionError::NotReady));
}
