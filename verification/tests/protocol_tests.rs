use streamapp::format::AudioHeader;
use streamapp::format::SampleFormat;
use streamapp::protocol::DecodeError;
use streamapp::protocol::Message;
use streamapp::protocol::MessageType;
use streamapp::protocol::audio_header_to_bytes;
use streamapp::protocol::check_bye_message;
use streamapp::protocol::check_client_hello_message;
use streamapp::protocol::check_ok_message;
use streamapp::protocol::decode;
use streamapp::protocol::encode;
use streamapp::protocol::extract_message_type;
use streamapp::protocol::extract_protocol_info;
use streamapp::protocol::extract_wav_header;
use streamapp::protocol::get_hello_message_size;
use streamapp::protocol::is_stop_playing_message;
use streamapp::protocol::make_bye_message;
use streamapp::protocol::make_client_hello_message;
use streamapp::protocol::make_data_message;
use streamapp::protocol::make_ok_message;
use streamapp::protocol::make_server_hello_message;
use streamapp::protocol::make_start_playing_message;
use streamapp::protocol::make_stop_playing_message;
use streamapp::recv::RecvBuffer;

fn format_16_mono() -> AudioHeader {
    AudioHeader {
        sample_rate: 8000,
        channels: 1,
        bits_per_sample: 16,
        sample_format: SampleFormat::Int,
    }
}

#[test]
fn hello_message_exact_bytes() {
    let bytes = make_client_hello_message();
    // magic 0xA1B2 little-endian, version 1, type 0 (Hello), then zeros.
    assert_eq!(bytes, vec![0xB2, 0xA1, 1, 0, 0, 0, 0, 0, 0, 0, 0, 0, 0]);
    assert_eq!(bytes.len(), get_hello_message_size());
    assert_eq!(bytes, make_server_hello_message());
}

#[test]
fn control_messages_decode_to_their_types() {
    let cases: Vec<(Vec<u8>, MessageType)> = vec![
        (make_client_hello_message(), MessageType::Hello),
        (make_ok_message(), MessageType::Okay),
        (make_bye_message(), MessageType::Bye),
        (make_start_playing_message(), MessageType::StartPlaying),
        (make_stop_playing_message(), MessageType::StopPlaying),
    ];
    for (bytes, expected) in cases {
        let (msg, used) = decode(&bytes).expect("control message must decode");
        assert_eq!(used, bytes.len());
        assert_eq!(msg.message_type(), expected);
    }
}

#[test]
fn audio_format_round_trip_over_matrix() {
    let formats = [
        (16u8, SampleFormat::Int),
        (32u8, SampleFormat::Int),
        (32u8, SampleFormat::Float),
    ];
    for (bits, kind) in formats {
        for channels in [1u8, 2, 6] {
            let f = AudioHeader {
                sample_rate: 44100,
                channels,
                bits_per_sample: bits,
                sample_format: kind,
            };
            let bytes = audio_header_to_bytes(&f);
            let (msg, used) = decode(&bytes).expect("audio header must decode");
            assert_eq!(used, bytes.len());
            match msg {
                Message::AudioHeader(g) => assert_eq!(g, f),
                _ => panic!("decoded to a different message type"),
            }
            assert_eq!(extract_wav_header(&bytes), Some(f));
        }
    }
}

#[test]
fn data_message_round_trip() {
    let payload: Vec<u8> = (0u8..=255).cycle().take(1000).collect();
    let bytes = make_data_message(&payload);
    assert_eq!(bytes.len(), 13 + payload.len());
    let (msg, used) = decode(&bytes).expect("data message must decode");
    assert_eq!(used, bytes.len());
    match msg {
        Message::Data(d) => assert_eq!(d, payload),
        _ => panic!("decoded to a different message type"),
    }
}

#[test]
fn framing_one_byte_at_a_time() {
    let f = format_16_mono();
    let mut stream: Vec<u8> = Vec::new();
    stream.extend_from_slice(&make_client_hello_message());
    stream.extend_from_slice(&audio_header_to_bytes(&f));
    stream.extend_from_slice(&make_data_message(&[1, 2, 3, 4]));
    stream.extend_from_slice(&make_stop_playing_message());

    let mut buf = RecvBuffer::new();
    let mut got: Vec<MessageType> = Vec::new();
    let mut payloads: Vec<Vec<u8>> = Vec::new();
    for b in stream {
        buf.feed(&[b]);
        while let Some(m) = buf.poll_message().expect("stream is well formed") {
            got.push(m.message_type());
            if let Message::Data(d) = m {
                payloads.push(d);
            }
        }
    }
    assert_eq!(
        got,
        vec![
            MessageType::Hello,
            MessageType::AudioHeader,
            MessageType::Data,
            MessageType::StopPlaying
        ]
    );
    assert_eq!(payloads, vec![vec![1, 2, 3, 4]]);
    assert_eq!(buf.pending_len(), 0);
}

#[test]
fn framing_whole_stream_at_once() {
    let mut stream: Vec<u8> = Vec::new();
    stream.extend_from_slice(&make_data_message(&[9, 9]));
    stream.extend_from_slice(&make_bye_message());
    let mut buf = RecvBuffer::new();
    buf.feed(&stream);
    let first = buf.poll_message().unwrap().unwrap();
    assert_eq!(first.message_type(), MessageType::Data);
    let second = buf.poll_message().unwrap().unwrap();
    assert_eq!(second.message_type(), MessageType::Bye);
    assert!(buf.poll_message().unwrap().is_none());
}

#[test]
fn truncated_prefixes_of_every_message() {
    let f = format_16_mono();
    let messages: Vec<Vec<u8>> = vec![
        make_client_hello_message(),
        audio_header_to_bytes(&f),
        make_data_message(&[7, 8, 9]),
    ];
    for bytes in messages {
        for cut in 0..bytes.len() {
            let prefix = &bytes[..cut];
            assert_eq!(decode(prefix), Err(DecodeError::Truncated));
        }
    }
}

#[test]
fn wrong_magic_is_malformed() {
    let mut bytes = make_client_hello_message();
    bytes[0] = 0x00;
    assert_eq!(decode(&bytes), Err(DecodeError::Malformed));
    assert!(!check_client_hello_message(&bytes));
    // even a two-byte fragment already exposes the wrong magic
    assert_eq!(decode(&bytes[..2]), Err(DecodeError::Malformed));
}

#[test]
fn wrong_version_is_malformed() {
    let mut bytes = make_ok_message();
    bytes[2] = 9;
    assert_eq!(decode(&bytes), Err(DecodeError::Malformed));
}

#[test]
fn unknown_type_is_malformed() {
    let mut bytes = make_ok_message();
    bytes[3] = 7;
    assert_eq!(decode(&bytes), Err(DecodeError::Malformed));
}

#[test]
fn out_of_matrix_format_is_malformed() {
    // a 24-bit integer announcement is refused at the codec boundary
    let f = AudioHeader {
        sample_rate: 8000,
        channels: 1,
        bits_per_sample: 24,
        sample_format: SampleFormat::Int,
    };
    let bytes = audio_header_to_bytes(&f);
    assert_eq!(decode(&bytes), Err(DecodeError::Malformed));
    assert_eq!(extract_wav_header(&bytes), None);
}

#[test]
fn unknown_sample_kind_is_malformed() {
    let f = format_16_mono();
    let mut bytes = audio_header_to_bytes(&f);
    bytes[12] = 2;
    assert_eq!(decode(&bytes), Err(DecodeError::Malformed));
}

#[test]
fn check_functions_accept_exactly_their_message() {
    assert!(check_client_hello_message(&make_client_hello_message()));
    assert!(!check_client_hello_message(&make_ok_message()));
    assert!(check_ok_message(&make_ok_message()));
    assert!(!check_ok_message(&make_bye_message()));
    assert!(check_bye_message(&make_bye_message()));
    assert!(!check_bye_message(&make_ok_message()));
    assert!(is_stop_playing_message(&make_stop_playing_message()));
    assert!(!is_stop_playing_message(&make_start_playing_message()));
    // trailing garbage makes the exact checks fail
    let mut long = make_ok_message();
    long.push(0);
    assert!(!check_ok_message(&long));
}

#[test]
fn protocol_info_comes_from_a_hello() {
    let info = extract_protocol_info(&make_server_hello_message()).expect("hello carries info");
    assert_eq!(info.version, 1);
    assert_eq!(extract_protocol_info(&make_ok_message()), None);
}

#[test]
fn extract_message_type_on_garbage() {
    assert_eq!(extract_message_type(&[]), None);
    assert_eq!(extract_message_type(&[0xFF, 0xFF]), None);
    assert_eq!(
        extract_message_type(&make_start_playing_message()),
        Some(MessageType::StartPlaying)
    );
}

#[test]
fn encoded_message_through_encode_api() {
    let bytes = encode(&Message::Data(vec![5u8; 10]));
    let (msg, used) = decode(&bytes).unwrap();
    assert_eq!(used, 23);
    match msg {
        Message::Data(d) => assert_eq!(d, vec![5u8; 10]),
        _ => panic!("wrong message"),
    }
}
