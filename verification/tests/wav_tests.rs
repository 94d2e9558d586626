use std::io::Cursor;

use streamapp::error::AudioError;
use streamapp::format::AudioHeader;
use streamapp::format::SampleFormat;
use streamapp::wav::WavFileRead;
use streamapp::wav::WavFileWrite;
use streamapp::wav::build_wav_bytes;
use streamapp::wav::parse_wav;

fn fmt(rate: u32, channels: u8, bits: u8, kind: SampleFormat) -> AudioHeader {
    AudioHeader { sample_rate: rate, channels, bits_per_sample: bits, sample_format: kind }
}

fn le_bytes_i16(samples: &[i16]) -> Vec<u8> {
    let mut out = Vec::new();
    for s in samples {
        out.extend_from_slice(&s.to_le_bytes());
    }
    out
}

#[test]
fn canonical_header_exact_bytes() {
    let f = fmt(8000, 1, 16, SampleFormat::Int);
    let data = le_bytes_i16(&[1, -1]);
    let bytes = build_wav_bytes(&f, &data);
    assert_eq!(bytes.len(), 48);
    assert_eq!(&bytes[0..4], b"RIFF");
    assert_eq!(&bytes[4..8], &(40u32).to_le_bytes());
    assert_eq!(&bytes[8..12], b"WAVE");
    assert_eq!(&bytes[12..16], b"fmt ");
    assert_eq!(&bytes[16..20], &(16u32).to_le_bytes());
    assert_eq!(&bytes[20..22], &(1u16).to_le_bytes()); // PCM
    assert_eq!(&bytes[22..24], &(1u16).to_le_bytes()); // channels
    assert_eq!(&bytes[24..28], &(8000u32).to_le_bytes());
    assert_eq!(&bytes[28..32], &(16000u32).to_le_bytes()); // byte rate
    assert_eq!(&bytes[32..34], &(2u16).to_le_bytes()); // block align
    assert_eq!(&bytes[34..36], &(16u16).to_le_bytes());
    assert_eq!(&bytes[36..40], b"data");
    assert_eq!(&bytes[40..44], &(4u32).to_le_bytes());
    assert_eq!(&bytes[44..], &data[..]);
}

#[test]
fn wav_round_trip_all_formats() {
    let formats = [
        fmt(8000, 1, 16, SampleFormat::Int),
        fmt(44100, 2, 32, SampleFormat::Int),
        fmt(48000, 2, 32, SampleFormat::Float),
    ];
    for f in formats {
        let bps = (f.bits_per_sample / 8) as usize;
        let data: Vec<u8> = (0u8..=255).cycle().take(bps * 64).collect();
        let bytes = build_wav_bytes(&f, &data);
        let (g, payload) = parse_wav(&bytes).expect("own bytes must parse");
        assert_eq!(g, f);
        assert_eq!(payload, data);
    }
}

#[test]
fn writer_reader_round_trip() {
    let f = fmt(8000, 1, 16, SampleFormat::Int);
    let samples: Vec<i16> = (0..200).map(|i| (i * 37 - 3000) as i16).collect();
    let data = le_bytes_i16(&samples);

    let mut writer = WavFileWrite::new(String::from("out.wav"));
    writer.update_format(&f).unwrap();
    writer.write(&data).unwrap();
    writer.finalize().unwrap();
    let file = writer.take_output().expect("finalize produced a file");

    let mut reader = WavFileRead::new();
    reader.open_bytes(&file).unwrap();
    let mut header = AudioHeader {
        sample_rate: 0,
        channels: 0,
        bits_per_sample: 0,
        sample_format: SampleFormat::Int,
    };
    reader.update_header(&mut header);
    assert_eq!(header, f);

    let mut back = Vec::new();
    loop {
        let chunk = reader.read(64);
        if chunk.is_empty() {
            break;
        }
        assert_eq!(chunk.len() % 2, 0, "whole samples only");
        back.extend_from_slice(&chunk);
    }
    assert_eq!(back, data);
}

#[test]
fn writer_discards_trailing_partial_sample() {
    let f = fmt(8000, 1, 16, SampleFormat::Int);
    let mut writer = WavFileWrite::new(String::from("out.wav"));
    writer.update_format(&f).unwrap();
    writer.write(&[1, 2, 3]).unwrap(); // one whole sample + one stray byte
    writer.finalize().unwrap();
    let file = writer.take_output().unwrap();
    let (_, payload) = parse_wav(&file).unwrap();
    assert_eq!(payload, vec![1, 2]);
}

#[test]
fn write_before_format_is_refused() {
    let mut writer = WavFileWrite::new(String::from("out.wav"));
    assert_eq!(writer.write(&[1, 2]), Err(AudioError::FormatNotSet));
}

#[test]
fn unsupported_format_is_refused() {
    let mut writer = WavFileWrite::new(String::from("out.wav"));
    let bad = fmt(8000, 1, 24, SampleFormat::Int);
    assert_eq!(writer.update_format(&bad), Err(AudioError::UnsupportedFormat));
    let zero_channels = fmt(8000, 0, 16, SampleFormat::Int);
    assert_eq!(writer.update_format(&zero_channels), Err(AudioError::UnsupportedFormat));
}

#[test]
fn finalize_without_data_and_repeat() {
    let f = fmt(8000, 1, 16, SampleFormat::Int);
    let mut writer = WavFileWrite::new(String::from("out.wav"));
    writer.update_format(&f).unwrap();
    writer.finalize().unwrap();
    let file = writer.take_output().unwrap();
    let (g, payload) = parse_wav(&file).unwrap();
    assert_eq!(g, f);
    assert!(payload.is_empty());
    // a second finalize is a harmless no-op, and writes are now refused
    assert_eq!(writer.finalize(), Ok(()));
    assert_eq!(writer.write(&[0, 0]), Err(AudioError::Finalized));
}

#[test]
fn finalize_with_no_format_produces_no_file() {
    let mut writer = WavFileWrite::new(String::from("out.wav"));
    writer.finalize().unwrap();
    assert!(writer.take_output().is_none());
}

#[test]
fn reader_refuses_second_open_and_garbage() {
    let f = fmt(8000, 1, 16, SampleFormat::Int);
    let file = build_wav_bytes(&f, &vec![1, 2]);
    let mut reader = WavFileRead::new();
    reader.open_bytes(&file).unwrap();
    assert_eq!(reader.open_bytes(&file), Err(AudioError::AlreadyOpen));

    let mut fresh = WavFileRead::new();
    assert_eq!(fresh.open_bytes(b"not a wav file"), Err(AudioError::MalformedWav));
    assert_eq!(parse_wav(&file[..20]), Err(AudioError::MalformedWav));
}

#[test]
fn reader_without_file_reads_nothing() {
    let mut reader = WavFileRead::new();
    assert!(reader.read(64).is_empty());
}

#[test]
fn hound_reads_our_files() {
    let f = fmt(8000, 2, 16, SampleFormat::Int);
    let samples: Vec<i16> = vec![-100, 100, -200, 200, 0, 32767];
    let bytes = build_wav_bytes(&f, &le_bytes_i16(&samples));
    let reader = hound::WavReader::new(Cursor::new(bytes)).expect("hound accepts our file");
    let spec = reader.spec();
    assert_eq!(spec.channels, 2);
    assert_eq!(spec.sample_rate, 8000);
    assert_eq!(spec.bits_per_sample, 16);
    assert_eq!(spec.sample_format, hound::SampleFormat::Int);
    let got: Vec<i16> = reader.into_samples::<i16>().map(|s| s.unwrap()).collect();
    assert_eq!(got, samples);
}

#[test]
fn hound_reads_our_float_files() {
    let f = fmt(48000, 1, 32, SampleFormat::Float);
    let samples: Vec<f32> = vec![0.0, 0.5, -0.25, 1.0];
    let mut data = Vec::new();
    for s in &samples {
        data.extend_from_slice(&s.to_le_bytes());
    }
    let bytes = build_wav_bytes(&f, &data);
    let reader = hound::WavReader::new(Cursor::new(bytes)).expect("hound accepts our float file");
    assert_eq!(reader.spec().sample_format, hound::SampleFormat::Float);
    let got: Vec<f32> = reader.into_samples::<f32>().map(|s| s.unwrap()).collect();
    assert_eq!(got, samples);
}

#[test]
fn we_read_hound_files() {
    // hound writes the extensible header for 32-bit samples; the parser
    // must walk it to the real format tag.
    let spec = hound::WavSpec {
        channels: 2,
        sample_rate: 44100,
        bits_per_sample: 32,
        sample_format: hound::SampleFormat::Int,
    };
    let samples: Vec<i32> = vec![1, -1, 1 << 20, -(1 << 20)];
    let mut cursor = Cursor::new(Vec::new());
    {
        let mut w = hound::WavWriter::new(&mut cursor, spec).unwrap();
        for s in &samples {
            w.write_sample(*s).unwrap();
        }
        w.finalize().unwrap();
    }
    let bytes = cursor.into_inner();
    let (f, payload) = parse_wav(&bytes).expect("we accept hound's file");
    assert_eq!(f, fmt(44100, 2, 32, SampleFormat::Int));
    let mut expected = Vec::new();
    for s in &samples {
        expected.extend_from_slice(&s.to_le_bytes());
    }
    assert_eq!(payload, expected);
}

#[test]
fn we_read_hound_plain_16_bit_files() {
    let spec = hound::WavSpec {
        channels: 1,
        sample_rate: 8000,
        bits_per_sample: 16,
        sample_format: hound::SampleFormat::Int,
    };
    let samples: Vec<i16> = vec![3, -3, 12345];
    let mut cursor = Cursor::new(Vec::new());
    {
        let mut w = hound::WavWriter::new(&mut cursor, spec).unwrap();
        for s in &samples {
            w.write_sample(*s).unwrap();
        }
        w.finalize().unwrap();
    }
    let bytes = cursor.into_inner();
    let (f, payload) = parse_wav(&bytes).expect("we accept hound's 16-bit file");
    assert_eq!(f, fmt(8000, 1, 16, SampleFormat::Int));
    assert_eq!(payload, le_bytes_i16(&samples));
}
