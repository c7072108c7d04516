//! The protocols and rules around the model server, the speech sidecar, playback and files.

use hearsay::binary32::Binary32;
use hearsay::config::ModelChoice;
use hearsay::dialogue::{Role, Turn};
use hearsay::error::{CaptureError, LlmError, PlaybackError, SynthError, TranscribeError};
use hearsay::file_source::{full_scale, Clip, FileAudioSource};
use hearsay::llm::{delta_token, parse_sse_line, post_failed, role_str, MlxChat};
use hearsay::llm::{ReplyAction, ReplyEvent, ReplyStream};
use hearsay::mic::{device_list, find_device, microphone_label, DeviceInfo};
use hearsay::models::{
    approx_mb, download_failed, ggml_filename, is_present, model_path, model_url, part_path,
    percent, Download, ModelError,
};
use hearsay::player::{
    capture_ring_size, playback_ring_size, Filled, PlaybackConsumer, PlaybackProducer, SYNTH_RATE,
};
use hearsay::ports::AudioSource;
use hearsay::ring::{sample_ring, RingWriter};
use hearsay::sidecar::{sane_path, stale_patterns, Sidecar};
use hearsay::tts::{
    decode_pcm, greet, obey, ready, SidecarTts, SynthAction, SynthEvent, MAX_PCM_BYTES,
};
use hearsay::whisper::{hypothesis_of, language, worker_threads, RawSegment};
use serde_json::Value;

fn b(x: f32) -> Binary32 {
    Binary32::from_bits(x.to_bits())
}

// --- the model server ------------------------------------------------------------

#[test]
fn parses_content_delta() {
    let l = r#"data: {"choices":[{"delta":{"content":"Hello"}}]}"#;
    assert_eq!(parse_sse_line(l), Ok(Some("Hello".to_string())));
}

#[test]
fn done_sentinel_ends_stream() {
    assert_eq!(parse_sse_line("data: [DONE]"), Err(()));
}

#[test]
fn blank_and_roleonly_deltas_are_none() {
    assert_eq!(parse_sse_line(""), Ok(None));
    assert_eq!(
        parse_sse_line(r#"data: {"choices":[{"delta":{"role":"assistant"}}]}"#),
        Ok(None)
    );
    assert_eq!(
        parse_sse_line(r#"data: {"choices":[{"delta":{"content":""}}]}"#),
        Ok(None)
    );
}

#[test]
fn tolerates_unparseable_lines() {
    assert_eq!(parse_sse_line("data: not json"), Ok(None));
    assert_eq!(parse_sse_line(": keep-alive comment"), Ok(None));
}

#[test]
fn role_strings() {
    assert_eq!(role_str(Role::System), "system");
    assert_eq!(role_str(Role::User), "user");
    assert_eq!(role_str(Role::Assistant), "assistant");
}

#[test]
fn lines_without_the_prefix_count_too() {
    assert_eq!(
        parse_sse_line("  {\"choices\":[{\"delta\":{\"content\":\"x y\"}}]}\r\n"),
        Ok(Some("x y".to_string()))
    );
    assert_eq!(parse_sse_line("[DONE]"), Err(()));
    assert_eq!(parse_sse_line("dat"), Ok(None));
    // only the first choice counts, and only text
    assert_eq!(parse_sse_line(r#"data: {"choices":[]}"#), Ok(None));
    assert_eq!(parse_sse_line(r#"data: {"choices":[{"delta":{"content":5}}]}"#), Ok(None));
    assert_eq!(parse_sse_line(r#"data: [1]"#), Ok(None));
}

#[test]
fn token_of_a_parsed_event() {
    let v: Value = serde_json::from_str(r#"{"choices":[{"delta":{"content":"a\"b"}}]}"#).unwrap();
    assert_eq!(delta_token(&v), Some("a\"b".to_string()));
    assert_eq!(delta_token(&Value::Null), None);
}

#[test]
fn reply_is_its_tokens() {
    let mut s = ReplyStream::new();
    let line = |t: &str| ReplyEvent::Line(format!("data: {{\"choices\":[{{\"delta\":{{\"content\":\"{t}\"}}}}]}}\n"));
    assert!(matches!(s.on(line("Hi")), ReplyAction::Delta(t) if t == "Hi"));
    assert!(matches!(s.on(ReplyEvent::Line("\n".into())), ReplyAction::Read));
    assert!(matches!(s.on(line(" you")), ReplyAction::Delta(t) if t == " you"));
    assert!(matches!(s.on(ReplyEvent::Cancelled), ReplyAction::Finish(Ok(t)) if t == "Hi you"));
    assert!(matches!(s.on(ReplyEvent::Closed), ReplyAction::Finish(Ok(t)) if t == "Hi you"));
    assert!(matches!(
        s.on(ReplyEvent::Line("data: [DONE]\n".into())),
        ReplyAction::Finish(Ok(t)) if t == "Hi you"
    ));
    assert!(matches!(
        s.on(ReplyEvent::Failed("reset".into())),
        ReplyAction::Finish(Err(LlmError::Protocol(t))) if t == "reset"
    ));
}

#[test]
fn request_body_and_urls() {
    let chat = MlxChat::new("http://127.0.0.1:8765//", "qwen");
    assert_eq!(chat.health_url(), "http://127.0.0.1:8765/v1/models");
    assert_eq!(chat.completions_url(), "http://127.0.0.1:8765/v1/chat/completions");
    assert_eq!(f32::from_bits(chat.temperature().to_bits()), 0.7);
    let history = vec![
        Turn { role: Role::System, text: "be brief".into() },
        Turn { role: Role::User, text: "say \"hi\"".into() },
    ];
    let body = chat.request(&history, Value::from(0.5f64));
    assert_eq!(
        body.to_string(),
        r#"{"max_tokens":200,"messages":[{"content":"be brief","role":"system"},{"content":"say \"hi\"","role":"user"}],"model":"qwen","stream":true,"temperature":0.5}"#
    );
    let chat = chat.with_sampling(32, b(0.25));
    assert_eq!(f32::from_bits(chat.temperature().to_bits()), 0.25);
    let body = chat.request(&[], Value::Null);
    assert_eq!(
        body.to_string(),
        r#"{"max_tokens":32,"messages":[],"model":"qwen","stream":true,"temperature":null}"#
    );
}

// --- the speech sidecar ------------------------------------------------------------

#[test]
fn decodes_le_f32_pcm() {
    let samples = [0.0f32, 1.0, -0.5, 0.25];
    let bytes: Vec<u8> = samples.iter().flat_map(|s| s.to_le_bytes()).collect();
    let decoded: Vec<f32> =
        decode_pcm(&bytes).iter().map(|s| f32::from_bits(s.to_bits())).collect();
    assert_eq!(decoded, samples);
}

#[test]
fn decode_ignores_trailing_partial_sample() {
    let mut bytes = 1.0f32.to_le_bytes().to_vec();
    bytes.push(0xAB); // a stray byte
    let decoded: Vec<f32> =
        decode_pcm(&bytes).iter().map(|s| f32::from_bits(s.to_bits())).collect();
    assert_eq!(decoded, vec![1.0]);
}

#[test]
fn ready_line_names_the_rate() {
    assert_eq!(ready("{\"type\":\"ready\",\"sample_rate\":22050}\n"), Ok(22_050));
    assert_eq!(ready("{\"type\":\"ready\"}"), Ok(24_000));
    assert_eq!(
        ready("{\"type\":\"done\"}\n"),
        Err(SynthError::Protocol(
            "expected ready, got \"{\\\"type\\\":\\\"done\\\"}\\n\"".into()
        ))
    );
    match ready("nope\n") {
        Err(SynthError::Protocol(text)) => {
            assert!(text.starts_with("bad ready line \"nope\\n\": "), "{text}");
            assert!(text.len() > "bad ready line \"nope\\n\": ".len());
        }
        other => panic!("expected a protocol error, got {other:?}"),
    }
    let v: Value = serde_json::from_str(r#"{"type":"ready","sample_rate":8000}"#).unwrap();
    assert_eq!(greet("", &v), Ok(8_000));
}

fn connected() -> SidecarTts {
    SidecarTts::connect("{\"type\":\"ready\",\"sample_rate\":24000}").unwrap()
}

fn line(text: &str) -> SynthEvent {
    SynthEvent::Line(text.to_string())
}

#[test]
fn speak_is_framed_and_numbered() {
    let mut tts = connected();
    assert_eq!(tts.sample_rate(), 24_000);
    assert!(tts.can_speak());
    let (bytes, _) = tts.speak("Hi \"you\"");
    assert_eq!(bytes, b"{\"text\":\"Hi \\\"you\\\"\",\"turn\":1,\"type\":\"speak\"}\n".to_vec());
    let (bytes, _) = tts.speak("");
    assert_eq!(bytes, b"{\"text\":\"\",\"turn\":2,\"type\":\"speak\"}\n".to_vec());
    assert!(SidecarTts::connect("{}").is_err());
}

#[test]
fn audio_is_read_and_played_until_done() {
    let mut tts = connected();
    let (_, mut s) = tts.speak("hi");
    assert!(matches!(
        s.on(line("{\"type\":\"audio\",\"turn\":1,\"bytes\":8}\n"), false),
        SynthAction::ReadAudio(8)
    ));
    let mut bytes = 0.5f32.to_le_bytes().to_vec();
    bytes.extend_from_slice(&(-1.0f32).to_le_bytes());
    match s.on(SynthEvent::Audio(bytes), false) {
        SynthAction::Play(samples) => assert_eq!(samples, vec![b(0.5), b(-1.0)]),
        other => panic!("expected audio to play, got {other:?}"),
    }
    assert!(matches!(s.on(line("{\"type\":\"other\"}"), false), SynthAction::ReadLine));
    assert!(matches!(s.on(line("{\"bytes\":4}"), false), SynthAction::ReadLine));
    assert!(matches!(
        s.on(line("{\"type\":\"done\",\"turn\":1}"), false),
        SynthAction::Finish(Ok(()))
    ));
}

#[test]
fn cancel_is_sent_once_and_the_rest_drained() {
    let mut tts = connected();
    let (_, mut s) = tts.speak("hi");
    match s.on(SynthEvent::Audio(vec![0; 4]), true) {
        SynthAction::Send(bytes) => {
            assert_eq!(bytes, b"{\"turn\":1,\"type\":\"cancel\"}\n".to_vec());
        }
        other => panic!("expected a cancel, got {other:?}"),
    }
    assert!(matches!(s.on(SynthEvent::Audio(vec![0; 4]), true), SynthAction::ReadLine));
    assert!(matches!(s.on(SynthEvent::Audio(vec![0; 4]), false), SynthAction::ReadLine));
    assert!(matches!(
        s.on(line("{\"type\":\"audio\",\"bytes\":12}"), true),
        SynthAction::ReadAudio(12)
    ));
    assert!(matches!(s.on(line("{\"type\":\"done\"}"), true), SynthAction::Finish(Ok(()))));
}

fn failure(action: SynthAction) -> SynthError {
    match action {
        SynthAction::Finish(Err(error)) => error,
        other => panic!("expected a failure, got {other:?}"),
    }
}

#[test]
fn synthesis_failures() {
    let mut tts = connected();
    let (_, mut s) = tts.speak("hi");
    assert_eq!(
        failure(s.on(SynthEvent::LineTimeout, false)),
        SynthError::Unreachable("tts read timed out".into())
    );
    assert!(matches!(s.on(SynthEvent::LineTimeout, true), SynthAction::Finish(Ok(()))));
    assert_eq!(
        failure(s.on(SynthEvent::Closed, true)),
        SynthError::Unreachable("sidecar closed connection".into())
    );
    assert_eq!(
        failure(s.on(SynthEvent::LineFailed("io".into()), true)),
        SynthError::Protocol("io".into())
    );
    assert_eq!(
        failure(s.on(SynthEvent::AudioTimeout("late".into()), false)),
        SynthError::Protocol("late".into())
    );
    assert!(matches!(
        s.on(SynthEvent::AudioTimeout("late".into()), true),
        SynthAction::Finish(Ok(()))
    ));
    assert_eq!(
        failure(s.on(SynthEvent::AudioFailed("eof".into()), true)),
        SynthError::Protocol("eof".into())
    );
    assert_eq!(
        failure(s.on(line("{\"type\":\"error\",\"message\":\"no voice\"}"), false)),
        SynthError::Protocol("no voice".into())
    );
    assert_eq!(
        failure(s.on(line("{\"type\":\"error\"}"), false)),
        SynthError::Protocol("tts error".into())
    );
    assert_eq!(
        failure(s.on(line("{\"type\":\"audio\",\"bytes\":2880001}"), false)),
        SynthError::Protocol("audio chunk too large: 2880001".into())
    );
    match failure(s.on(line("{"), false)) {
        SynthError::Protocol(text) => assert!(text.starts_with("bad line \"{\": "), "{text}"),
        other => panic!("expected a protocol error, got {other:?}"),
    }
}

#[test]
fn audio_headers_up_to_the_limit() {
    assert_eq!(MAX_PCM_BYTES, 24_000 * 4 * 30);
    let v: Value = serde_json::from_str(r#"{"type":"audio","bytes":2880000}"#).unwrap();
    assert!(matches!(obey(&v), SynthAction::ReadAudio(2_880_000)));
    let v: Value = serde_json::from_str(r#"{"type":"audio"}"#).unwrap();
    assert!(matches!(obey(&v), SynthAction::ReadAudio(0)));
    let v: Value = serde_json::from_str(r#"{"type":"audio","bytes":-4}"#).unwrap();
    assert!(matches!(obey(&v), SynthAction::ReadAudio(0)));
}

#[test]
fn error_words() {
    assert_eq!(SynthError::Unreachable("x".into()).message(), "tts unreachable: x");
    assert_eq!(SynthError::Protocol("x".into()).message(), "tts protocol error: x");
    assert_eq!(SynthError::Cancelled.message(), "tts synthesis cancelled");
    assert_eq!(LlmError::Unreachable("x".into()).message(), "llm unreachable: x");
    assert_eq!(LlmError::Protocol("x".into()).message(), "llm protocol error: x");
    assert_eq!(LlmError::Cancelled.message(), "llm request cancelled");
    assert_eq!(PlaybackError("x".into()).message(), "playback error: x");
    assert_eq!(CaptureError::DeviceNotFound("x".into()).message(), "audio device not found: x");
    assert_eq!(CaptureError::Unsupported("x".into()).message(), "capture unsupported: x");
    assert_eq!(CaptureError::PermissionDenied("x".into()).message(), "permission denied: x");
    assert_eq!(CaptureError::Backend("x".into()).message(), "audio backend error: x");
    assert_eq!(TranscribeError::ModelLoad("x".into()).message(), "model load failed: x");
    assert_eq!(TranscribeError::Inference("x".into()).message(), "transcription failed: x");
    for e in [SynthError::Unreachable("x".into()), SynthError::Cancelled] {
        assert_eq!(e.clone(), e);
    }
    for e in [CaptureError::Unsupported("x".into()), CaptureError::Backend("y".into())] {
        assert_eq!(e.clone(), e);
    }
}

// --- playback ------------------------------------------------------------------------

fn ring(cap: usize, channels: usize) -> (RingWriter, PlaybackConsumer) {
    let (prod, cons) = sample_ring(cap);
    (prod, PlaybackConsumer::new(cons, channels))
}

fn fill(cons: &mut PlaybackConsumer, out: &mut [f32], flush: bool) -> Filled {
    cons.fill(out, flush, 0.0f32, &f32::from_bits)
}

#[test]
fn drains_in_order_and_counts_delivered() {
    let (mut prod, mut cons) = ring(8, 1);
    for v in [0.1f32, 0.2, 0.3] {
        assert!(prod.offer(v.to_bits()));
    }
    let mut delivered = 0;
    let mut out = [0.0f32; 2];
    delivered += fill(&mut cons, &mut out, false).delivered;
    assert_eq!(out, [0.1, 0.2]);
    let mut out2 = [9.0f32; 2];
    delivered += fill(&mut cons, &mut out2, false).delivered;
    assert_eq!(out2, [0.3, 0.0]); // underrun -> silence pad
    // delivered counts only the 3 real samples, not the silence pad
    assert_eq!(delivered, 3);
}

#[test]
fn barge_stop_flush_discards_pending() {
    let (mut prod, mut cons) = ring(16, 1);
    for v in [1.0f32, 1.0, 1.0, 1.0] {
        assert!(prod.offer(v.to_bits()));
    }
    let mut out = [7.0f32; 2];
    let filled = fill(&mut cons, &mut out, true);
    assert_eq!(out, [0.0, 0.0]); // silence
    // nothing delivered (heard); everything drained from the ring
    assert_eq!(filled.delivered, 0);
    assert_eq!(filled.consumed, 4);
    // ring now empty: a subsequent fill is pure silence
    let mut out2 = [3.0f32; 2];
    fill(&mut cons, &mut out2, false);
    assert_eq!(out2, [0.0, 0.0]);
}

#[test]
fn fill_duplicates_mono_across_channels() {
    let (mut prod, mut cons) = ring(8, 2);
    assert!(prod.offer(0.5f32.to_bits()));
    let mut out = [0.0f32; 4]; // 2 frames x 2 channels
    let filled = fill(&mut cons, &mut out, false);
    assert_eq!(out, [0.5, 0.5, 0.0, 0.0]); // frame 1 = 0.5 both channels, frame 2 underrun
    assert_eq!(filled.delivered, 1);
}

#[test]
fn fill_takes_a_sample_for_a_partial_frame() {
    let (mut prod, mut cons) = ring(8, 2);
    assert_eq!(prod.offer_all(&[1.0f32.to_bits(), 2.0f32.to_bits(), 3.0f32.to_bits()]), 3);
    let mut out = [0.0f32; 3];
    assert_eq!(fill(&mut cons, &mut out, false), Filled { consumed: 2, delivered: 2 });
    assert_eq!(out, [1.0, 1.0, 2.0]);
    // no channels count as one
    let (mut prod, mut cons) = ring(8, 0);
    assert!(prod.offer(4.0f32.to_bits()));
    let mut out = [0.0f32; 1];
    fill(&mut cons, &mut out, false);
    assert_eq!(out, [4.0]);
    assert_eq!(fill(&mut cons, &mut [], false), Filled { consumed: 0, delivered: 0 });
}

#[test]
fn full_ring_drops_the_tail() {
    let (mut prod, mut cons) = sample_ring(2);
    assert_eq!(prod.offer_all(&[10, 20, 30]), 2);
    assert!(!prod.offer(40));
    assert_eq!(cons.drain(), vec![10, 20]);
    assert_eq!(cons.take(), None);
    assert!(prod.offer(50));
    assert_eq!(cons.take(), Some(50));
    assert!(prod.offer(60));
    assert_eq!(cons.discard(), 1);
}

#[test]
fn what_is_enqueued_is_played_in_order() {
    let (prod, cons) = sample_ring(8);
    let mut p = PlaybackProducer::new(prod);
    let mut c = PlaybackConsumer::new(cons, 1);
    let mut accepted = Vec::new();
    let mut played = Vec::new();
    for round in 0..50u32 {
        let samples: Vec<u32> = (1..=5).map(|i| round * 5 + i).collect();
        let n = p.enqueue(&samples);
        accepted.extend_from_slice(&samples[..n]);
        let mut out = [0u32; 3];
        let filled = c.fill(&mut out, false, 0u32, &|bits| bits);
        played.extend_from_slice(&out[..filled.delivered as usize]);
    }
    assert!(accepted.len() > 100);
    assert_eq!(played[..], accepted[..played.len()]);
}

#[test]
fn ring_accepts_what_it_has_room_for() {
    for cap in [0usize, 1, 5, 64] {
        let (mut prod, _cons) = sample_ring(cap);
        assert_eq!(prod.offer_all(&vec![7; cap + 3]), cap);
        assert!(!prod.offer(8));
    }
    let (prod, _cons) = sample_ring(4);
    let mut p = PlaybackProducer::new(prod);
    assert_eq!(p.enqueue(&[1, 2, 3]), 3);
    assert_eq!(p.enqueue(&[4, 5]), 1);
}

#[test]
fn failed_requests_are_told_apart() {
    assert_eq!(
        post_failed(Some(500), "http status: 500"),
        LlmError::Protocol("http status: 500".into())
    );
    assert_eq!(post_failed(None, "refused"), LlmError::Unreachable("refused".into()));
}

#[test]
fn late_audio_is_dropped_until_resume() {
    let (prod, mut cons) = sample_ring(64);
    let mut p = PlaybackProducer::new(prod);
    assert_eq!(p.enqueue(&[1, 2, 3]), 3);
    assert!(p.is_draining(0));
    assert!(!p.is_draining(3));

    p.barge_stop();
    assert!(!p.is_live());
    assert_eq!(p.enqueue(&[4, 5]), 0, "dropped after a barge-in");
    assert!(!p.is_draining(3));
    assert_eq!(cons.drain(), vec![1, 2, 3]);

    p.resume();
    assert_eq!(p.enqueue(&[6]), 1);
    assert!(p.is_draining(3));
    assert_eq!(cons.drain(), vec![6]);
}

#[test]
fn ring_sizes() {
    assert_eq!(SYNTH_RATE, 24_000);
    assert_eq!(playback_ring_size(48_000), 1_440_000);
    assert_eq!(playback_ring_size(8), 48_000);
    assert_eq!(capture_ring_size(44_100), 441_000);
    assert_eq!(capture_ring_size(0), 16_000);
}

// --- models ----------------------------------------------------------------------------

#[test]
fn path_uses_model_filename() {
    let p = model_path("/models", ModelChoice::BaseEn);
    assert!(p.ends_with("ggml-base.en.bin"));
}

#[test]
fn missing_model_is_not_present() {
    let path = model_path("/nonexistent-hearsay-dir", ModelChoice::BaseEn);
    assert_eq!(path, "/nonexistent-hearsay-dir/ggml-base.en.bin");
    assert!(!is_present(None));
}

#[test]
fn small_files_are_no_models() {
    assert!(!is_present(Some(1_000_000)));
    assert!(is_present(Some(1_000_001)));
}

#[test]
fn model_names_and_places() {
    assert_eq!(ggml_filename(ModelChoice::TinyEn), "ggml-tiny.en.bin");
    assert_eq!(ggml_filename(ModelChoice::SmallEn), "ggml-small.en.bin");
    assert_eq!(approx_mb(ModelChoice::LargeV3Turbo), 1620);
    assert_eq!(model_path("/m/", ModelChoice::TinyEn), "/m/ggml-tiny.en.bin");
    assert_eq!(model_path("", ModelChoice::TinyEn), "ggml-tiny.en.bin");
    assert_eq!(part_path("/m", ModelChoice::LargeV3Turbo), "/m/ggml-large-v3-turbo.part");
    assert_eq!(
        model_url(ModelChoice::BaseEn),
        "https://huggingface.co/ggerganov/whisper.cpp/resolve/main/ggml-base.en.bin"
    );
}

#[test]
fn download_progress_never_passes_its_total() {
    let mut d = Download::new(ModelChoice::TinyEn);
    assert_eq!(d.advance(1_000), (1_000, 78_000_000));
    assert_eq!(d.advance(78_000_000), (78_001_000, 78_001_000));
    assert_eq!(percent(39, 78), Some(50));
    assert_eq!(percent(1, 0), None);
}

#[test]
fn model_error_words() {
    assert_eq!(
        download_failed(ModelChoice::BaseEn, "404").message(),
        "model download failed: https://huggingface.co/ggerganov/whisper.cpp/resolve/main/ggml-base.en.bin: 404"
    );
    let io = std::io::Error::new(std::io::ErrorKind::Other, "disk full");
    assert_eq!(ModelError::from(io).message(), "model i/o error: disk full");
}

// --- the other pieces --------------------------------------------------------------------

/// The mono sample of a stereo frame.
fn stereo(frame: &[f32]) -> f32 {
    frame.iter().sum::<f32>() / 2.0
}

/// Every second sample, from any rate.
fn halved(mono: &[f32], _rate: u32) -> Vec<f32> {
    mono.iter().copied().step_by(2).collect()
}

#[test]
fn replays_then_exhausts_with_trailing_silence() {
    // A tiny 16 kHz mono i16 WAV (0.1 s tone), in memory.
    let mut file = std::io::Cursor::new(Vec::new());
    {
        let spec = hound::WavSpec {
            channels: 1,
            sample_rate: 16_000,
            bits_per_sample: 16,
            sample_format: hound::SampleFormat::Int,
        };
        let mut w = hound::WavWriter::new(&mut file, spec).unwrap();
        for i in 0..1_600 {
            let v = ((i as f32 * 0.2).sin() * 10_000.0) as i16;
            w.write_sample(v).unwrap();
        }
        w.finalize().unwrap();
    }
    file.set_position(0);
    let mut reader = hound::WavReader::new(file).unwrap();
    let spec = reader.spec();
    let max = full_scale(spec.bits_per_sample) as f32;
    let samples: Vec<f32> = reader.samples::<i32>().map(|s| s.unwrap() as f32 / max).collect();
    let clip = Clip { samples, channels: spec.channels, rate: spec.sample_rate };
    let name = "hearsay_file_src_test.wav";
    let mut src = FileAudioSource::from_clip(clip, 0.0, 500, name, &stereo, &halved).unwrap();
    let mut total = 0;
    while !src.exhausted() {
        total += src.poll().unwrap().len();
    }
    // 1600 samples tone + 8000 samples (500 ms) silence
    assert_eq!(total, 1_600 + 8_000);
    assert!(src.poll().unwrap().is_empty());
}

#[test]
fn clips_are_mixed_down_and_converted() {
    let clip = Clip { samples: vec![1.0, 0.0, 0.5, -0.5, 0.25, 0.75, 0.5], channels: 2, rate: 32_000 };
    let mut src = FileAudioSource::from_clip(clip, 0.0, 0, "x", &stereo, &halved).unwrap();
    // frames 0.5, 0.0, 0.5 and a partial one of 0.25; every second of them
    assert_eq!(src.next(), vec![0.5, 0.5]);
    let clip = Clip { samples: vec![0.5, 0.25], channels: 0, rate: 16_000 };
    let mut src = FileAudioSource::from_clip(clip, 0.0, 0, "x", &stereo, &halved).unwrap();
    assert_eq!(src.next(), vec![0.5, 0.25]);
    let clip = Clip { samples: Vec::new(), channels: 2, rate: 16_000 };
    let mut src = FileAudioSource::from_clip(clip, 0.0, 0, "x", &stereo, &halved).unwrap();
    assert!(src.next().is_empty());
}

#[test]
fn integer_samples_have_a_full_scale() {
    assert_eq!(full_scale(1), 1);
    assert_eq!(full_scale(16), 32_768);
    assert_eq!(full_scale(32), 2_147_483_648);
    assert_eq!(full_scale(63), 1 << 62);
    assert_eq!(full_scale(64), i64::MIN);
}

#[test]
fn clip_is_replayed_then_exhausted() {
    let clip: Vec<f32> = (0..1_600).map(|i| (i as f32 * 0.2).sin()).collect();
    let mut src = FileAudioSource::from_samples(clip.clone(), 0.0, 500, "/tmp/a.wav");
    src.start().unwrap();
    assert_eq!(src.label(), "File: /tmp/a.wav");
    let mut all = Vec::new();
    while !src.exhausted() {
        let chunk = src.poll().unwrap();
        assert!(chunk.len() <= 1_600);
        all.extend(chunk);
    }
    // the tone and 8000 samples (500 ms) of silence
    assert_eq!(all.len(), 1_600 + 8_000);
    assert_eq!(all[..1_600], clip[..]);
    assert!(all[1_600..].iter().all(|s| *s == 0.0));
    assert!(src.poll().unwrap().is_empty());
    src.stop();
}

#[test]
fn odd_clips_end_with_a_short_chunk() {
    let mut src = FileAudioSource::from_samples(vec![1u8; 2_000], 0, 0, "x");
    assert_eq!(src.next().len(), 1_600);
    assert_eq!(src.next().len(), 400);
    assert!(src.exhausted());
    assert!(src.next().is_empty());
}

fn raw(text: &str, start: i64, end: i64) -> RawSegment {
    RawSegment {
        text: text.into(),
        start,
        end,
        no_speech_prob: b(0.1),
        avg_logprob: b(-0.2),
    }
}

#[test]
fn raw_segments_are_trimmed_and_blank_ones_dropped() {
    let hyp = hypothesis_of(&vec![raw(" hello ", -5, 120), raw("  ", 0, 10), raw("bye", 120, 200)]);
    assert_eq!(hyp.segments.len(), 2);
    assert_eq!(hyp.segments[0].text, "hello");
    assert_eq!((hyp.segments[0].t0_cs, hyp.segments[0].t1_cs), (0, 120));
    assert_eq!(hyp.segments[1].text, "bye");
    assert_eq!(hyp.segments[1].no_speech_prob, b(0.1));
    assert_eq!(hyp.segments[1].avg_logprob, b(-0.2));
    assert!(hypothesis_of(&Vec::new()).segments.is_empty());
}

#[test]
fn transcription_settings() {
    assert_eq!(language(ModelChoice::BaseEn), Some("en"));
    assert_eq!(language(ModelChoice::LargeV3Turbo), None);
    assert_eq!(worker_threads(Some(10)), 8);
    assert_eq!(worker_threads(Some(1)), 2);
    assert_eq!(worker_threads(None), 4);
}

#[test]
fn devices_are_listed_and_found() {
    let names = vec![Some("A".to_string()), None, Some("B".to_string()), Some("B".to_string())];
    assert_eq!(
        device_list(&names, &Some("B".to_string())),
        vec![
            DeviceInfo { name: "A".into(), is_default: false },
            DeviceInfo { name: "B".into(), is_default: true },
            DeviceInfo { name: "B".into(), is_default: true },
        ]
    );
    assert!(device_list(&names, &None).iter().all(|d| !d.is_default));
    assert_eq!(find_device(&names, &"B".to_string()), Some(2));
    assert_eq!(find_device(&names, &"C".to_string()), None);
    assert_eq!(microphone_label(&None), "Default microphone");
    assert_eq!(microphone_label(&Some("USB".to_string())), "USB");
}

#[test]
fn sidecar_launches() {
    let s = Sidecar::kokoro("/repo", "/tmp/k.sock", "af_heart");
    assert_eq!(s.program, "/repo/sidecars/.venv/bin/python");
    assert_eq!(s.args, vec!["/repo/sidecars/kokoro_server.py", "/tmp/k.sock", "af_heart"]);
    assert_eq!((s.dir.as_str(), s.log, s.name), ("/repo", "kokoro", "kokoro-tts"));
    let s = Sidecar::miso("/repo", "/tmp/m.sock", "1");
    assert_eq!(s.program, "/repo/vendor/MisoTTS/.venv/bin/python");
    assert_eq!(s.args, vec!["/repo/sidecars/miso_server.py", "/tmp/m.sock", "1"]);
    let s = Sidecar::mlx_llm("/repo", "qwen", 8765);
    assert_eq!(
        s.args,
        vec![
            "/repo/sidecars/llm_server.py",
            "--model",
            "qwen",
            "--port",
            "8765",
            "--host",
            "127.0.0.1",
            "--log-level",
            "WARNING"
        ]
    );
    assert_eq!(s.log_path(), "/tmp/hearsay-llm.log");
}

#[test]
fn log_tails() {
    let s = Sidecar::mlx_llm("/repo", "qwen", 1);
    assert_eq!(s.log_tail(None), "(no log at /tmp/hearsay-llm.log)");
    assert_eq!(s.log_tail(Some("")), "");
    assert_eq!(s.log_tail(Some("one\r\ntwo\n")), "one\ntwo");
    assert_eq!(s.log_tail(Some("one\n\nthree\r")), "one\n\nthree\r");
    let long: String = (1..=10).map(|i| format!("line {i}\n")).collect();
    let tail: Vec<String> = (3..=10).map(|i| format!("line {i}")).collect();
    assert_eq!(s.log_tail(Some(&long)), tail.join("\n"));
}

#[test]
fn sidecar_surroundings() {
    assert_eq!(
        sane_path("/home/me", "/x"),
        "/home/me/.local/bin:/opt/homebrew/bin:/usr/local/bin:/usr/bin:/bin:/x"
    );
    assert_eq!(
        stale_patterns(),
        vec![
            "sidecars/kokoro_server.py",
            "sidecars/miso_server.py",
            "sidecars/llm_server.py",
            "sidecars/.venv/bin/mlx_lm.server"
        ]
    );
}
