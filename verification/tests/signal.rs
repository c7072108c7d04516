//! Sample arithmetic, configuration, voice activity, windows and capture.

use hearsay::aggregator::WindowAggregator;
use hearsay::audio::{cs_for_samples, downmix_to_mono, mix, samples_for_cs, samples_for_ms};
use hearsay::binary32::Binary32;
use hearsay::capture::{poll_failed, start_failed, Capture, Captured};
use hearsay::config::{ModelChoice, SessionConfig, SourceKind};
use hearsay::error::CaptureError;
use hearsay::events::UiEvent;
use hearsay::vad::{Reading, SpeechState, Vad, VadConfig};

fn b(x: f32) -> Binary32 {
    Binary32::from_bits(x.to_bits())
}

fn f(x: Binary32) -> f32 {
    f32::from_bits(x.to_bits())
}

fn rms(samples: &[f32]) -> f32 {
    if samples.is_empty() {
        return 0.0;
    }
    let sum_sq: f32 = samples.iter().map(|s| s * s).sum();
    (sum_sq / samples.len() as f32).sqrt()
}

fn measure(frame: &[f32], cfg: &VadConfig, floor: Binary32) -> Reading {
    let level = rms(frame);
    let floor = f(floor);
    let alpha = f(cfg.ema_alpha);
    Reading {
        level: b(level),
        enter: b(floor * f(cfg.enter_mult)),
        exit: b(floor * f(cfg.exit_mult)),
        blend: b((1.0 - alpha) * floor + alpha * level),
    }
}

fn enter_threshold(v: &Vad) -> f32 {
    f(v.noise_floor()) * f(v.config().enter_mult)
}

// --- sample arithmetic -------------------------------------------------------

#[test]
fn samples_and_cs_round_trip() {
    assert_eq!(samples_for_ms(1000), 16_000);
    assert_eq!(samples_for_ms(30), 480);
    assert_eq!(samples_for_cs(100), 16_000);
    assert_eq!(samples_for_cs(50), 8_000);
    assert_eq!(cs_for_samples(16_000), 100);
    assert_eq!(cs_for_samples(8_000), 50);
    assert_eq!(cs_for_samples(0), 0);
}

fn average(frame: &[f32]) -> f32 {
    let inv = 1.0 / frame.len() as f32;
    frame.iter().copied().sum::<f32>() * inv
}

fn clamped_sum(x: f32, y: f32) -> f32 {
    (x + y).clamp(-1.0, 1.0)
}

#[test]
fn mono_passthrough() {
    let m = vec![0.1, -0.2, 0.3];
    assert_eq!(downmix_to_mono(&m, 1, &average), m);
}

#[test]
fn stereo_downmix_averages_channels() {
    // L,R interleaved: (1.0,0.0), (0.5,-0.5)
    let stereo = vec![1.0, 0.0, 0.5, -0.5];
    let mono = downmix_to_mono(&stereo, 2, &average);
    assert_eq!(mono, vec![0.5, 0.0]);
}

#[test]
fn downmix_ignores_trailing_partial_frame() {
    // 5 samples, 2 channels -> 2 full frames, last sample dropped
    let stereo = vec![1.0, 1.0, 0.0, 0.0, 0.7];
    assert_eq!(downmix_to_mono(&stereo, 2, &average), vec![1.0, 0.0]);
}

#[test]
fn mix_sums_and_clamps() {
    assert_eq!(mix(&[0.5, 0.5], &[0.25, 0.75], 0.0, &clamped_sum), vec![0.75, 1.0]);
    // clamps below -1.0
    assert_eq!(mix(&[-0.8], &[-0.8], 0.0, &clamped_sum), vec![-1.0]);
}

#[test]
fn mix_zero_pads_shorter() {
    assert_eq!(mix(&[0.1, 0.2, 0.3], &[0.1], 0.0, &clamped_sum), vec![0.2, 0.2, 0.3]);
}

#[test]
fn cs_round_down() {
    assert_eq!(cs_for_samples(159), 0);
    assert_eq!(cs_for_samples(160), 1);
    assert_eq!(samples_for_ms(1), 16);
}

// --- numbers by their bits -----------------------------------------------------

#[test]
fn bit_order_is_the_number_order() {
    let numbers = [f32::NEG_INFINITY, -1.0, -1e-40, -0.0, 0.0, 1e-40, 0.6, 1.0, f32::INFINITY];
    for x in numbers {
        for y in numbers {
            assert_eq!(b(x).at_most(b(y)), x <= y);
            assert_eq!(b(x).below(b(y)), x < y);
            assert_eq!(b(x) == b(y), x == y);
            assert_eq!(f(b(x).max_of(b(y))), x.max(y));
        }
        assert!(!b(x).at_most(b(f32::NAN)));
        assert!(!b(f32::NAN).below(b(x)));
        assert_eq!(f(b(f32::NAN).max_of(b(x))), x);
        assert_eq!(f(b(x).max_of(b(f32::NAN))), x);
    }
    assert!(b(f32::NAN).is_nan());
    assert!(b(f32::NAN) != b(f32::NAN));
}

// --- configuration -------------------------------------------------------------

#[test]
fn model_flags() {
    assert!(ModelChoice::BaseEn.is_english_only());
    assert!(!ModelChoice::LargeV3Turbo.is_english_only());
    assert_eq!(ModelChoice::default(), ModelChoice::BaseEn);
    assert_eq!(ModelChoice::ALL.len(), 4);
}

#[test]
fn source_kind_labels() {
    assert_eq!(SourceKind::Microphone.label(), "Mic");
    assert_eq!(SourceKind::SystemAudio.label(), "System");
}

#[test]
fn default_session_config_is_sane() {
    let c = SessionConfig::default();
    assert!(c.buffer_trimming_cs < c.window_max_cs);
    assert!(c.preroll_cs < c.buffer_trimming_cs);
}

#[test]
fn default_numbers_are_the_documented_ones() {
    let c = SessionConfig::default();
    assert_eq!((f(c.no_speech_max), f(c.logprob_min)), (0.6, -1.0));
    let v = VadConfig::default();
    assert_eq!(
        (f(v.noise_floor_init), f(v.floor_min), f(v.enter_mult), f(v.exit_mult), f(v.ema_alpha)),
        (0.003, 0.0008, 3.5, 2.0, 0.05)
    );
    assert_eq!(v.hangover_ms, 320);
}

#[test]
fn model_labels() {
    assert_eq!(ModelChoice::TinyEn.label(), "Tiny (fastest)");
    assert_eq!(ModelChoice::BaseEn.label(), "Base (recommended)");
    assert_eq!(ModelChoice::SmallEn.label(), "Small (more accurate)");
    assert_eq!(ModelChoice::LargeV3Turbo.label(), "Large v3 Turbo (most accurate)");
}

// --- voice activity --------------------------------------------------------------

fn frame(level: f32, n: usize) -> Vec<f32> {
    // alternating ±level gives rms == level
    (0..n)
        .map(|i| if i % 2 == 0 { level } else { -level })
        .collect()
}

#[test]
fn loud_frame_enters_speech_immediately() {
    let mut v = Vad::new(VadConfig::default());
    assert_eq!(v.observe(&frame(0.2, 480), &measure), SpeechState::Speech);
}

#[test]
fn silence_stays_silence() {
    let mut v = Vad::new(VadConfig::default());
    for _ in 0..50 {
        assert_eq!(v.observe(&frame(0.0001, 480), &measure), SpeechState::Silence);
    }
}

#[test]
fn hangover_holds_then_drops_to_silence() {
    let mut v = Vad::new(VadConfig::default());
    v.observe(&frame(0.3, 480), &measure); // -> Speech
    // 30ms frames below exit threshold; hangover is 320ms
    let mut transitions = 0;
    for _ in 0..(320 / 30 + 2) {
        if v.observe(&frame(0.00001, 480), &measure) == SpeechState::Silence {
            transitions += 1;
        }
    }
    assert!(
        transitions >= 1,
        "should eventually return to silence after hangover"
    );
}

#[test]
fn brief_dip_does_not_chop_speech() {
    let mut v = Vad::new(VadConfig::default());
    v.observe(&frame(0.3, 480), &measure); // Speech
    // one short quiet frame (< hangover) keeps speech
    assert_eq!(v.observe(&frame(0.00001, 160), &measure), SpeechState::Speech); // 10ms
    assert_eq!(v.observe(&frame(0.3, 480), &measure), SpeechState::Speech);
}

#[test]
fn noise_floor_adapts_upward_in_steady_noise() {
    let mut v = Vad::new(VadConfig::default());
    let start = enter_threshold(&v);
    // steady noise ABOVE the initial floor (0.003) but below the enter threshold (~0.0105):
    // the floor (and threshold) should climb toward it
    for _ in 0..200 {
        v.observe(&frame(0.006, 480), &measure);
    }
    assert!(
        enter_threshold(&v) > start,
        "threshold should rise as noise floor adapts: {} !> {}",
        enter_threshold(&v),
        start
    );
}

#[test]
fn reset_returns_to_silence() {
    let mut v = Vad::new(VadConfig::default());
    v.observe(&frame(0.5, 480), &measure);
    v.reset();
    assert_eq!(v.state(), SpeechState::Silence);
    assert_eq!(v.silence_run_ms(), 0);
}

#[test]
fn hangover_ends_on_the_frame_that_reaches_it() {
    let mut v = Vad::new(VadConfig::default());
    v.observe(&frame(0.3, 480), &measure);
    // ten quiet frames make 300 ms, the eleventh 330 ms
    for _ in 0..10 {
        assert_eq!(v.observe(&frame(0.0, 480), &measure), SpeechState::Speech);
    }
    assert_eq!(v.silence_run_ms(), 300);
    assert_eq!(v.observe(&frame(0.0, 480), &measure), SpeechState::Silence);
    assert_eq!(v.silence_run_ms(), 330);
}

#[test]
fn floor_keeps_its_lower_bound() {
    let mut v = Vad::new(VadConfig::default());
    for _ in 0..500 {
        v.observe(&frame(0.0, 480), &measure);
    }
    assert_eq!(f(v.noise_floor()), 0.0008);
    let speaking = f(v.noise_floor());
    v.observe(&frame(0.3, 480), &measure);
    assert_eq!(f(v.noise_floor()), speaking);
    assert!((f(v.last_rms()) - 0.3).abs() < 1e-6);
}

#[test]
fn tiny_frames_count_a_millisecond() {
    let mut v = Vad::new(VadConfig::default());
    v.observe(&frame(0.0, 10), &measure);
    assert_eq!(v.silence_run_ms(), 1);
}

// --- windows ---------------------------------------------------------------------

fn gen(level: f32, cs: u32) -> Vec<f32> {
    let n = samples_for_cs(cs);
    (0..n)
        .map(|i| if i % 2 == 0 { level } else { -level })
        .collect()
}

fn agg() -> WindowAggregator<f32> {
    WindowAggregator::new(SessionConfig::default(), VadConfig::default())
}

#[test]
fn no_window_before_a_step_elapses() {
    let mut a = agg();
    a.push_audio(&gen(0.3, 50), &measure); // 0.5 s speech, < 1 s step
    assert!(a.poll_window().is_none());
}

#[test]
fn emits_window_after_step_with_speech() {
    let mut a = agg();
    a.push_audio(&gen(0.3, 120), &measure); // 1.2 s of speech
    let win = a.poll_window().expect("window after a step of speech");
    assert_eq!(win.offset_cs, 0);
    assert!(!win.samples.is_empty());
    // immediately polling again yields nothing (step counter reset)
    assert!(a.poll_window().is_none());
}

#[test]
fn pure_silence_never_emits_a_window() {
    let mut a = agg();
    a.push_audio(&gen(0.00001, 300), &measure); // 3 s of silence
    assert!(a.poll_window().is_none());
}

#[test]
fn hard_cap_bounds_the_buffer_and_advances_offset() {
    let mut a = agg();
    // push 20 s of speech in 1 s chunks; cap is 12 s
    for _ in 0..20 {
        a.push_audio(&gen(0.3, 100), &measure);
    }
    assert!(a.buffer_len_cs() <= SessionConfig::default().window_max_cs);
    assert!(
        a.offset_cs() > 0,
        "offset should advance as oldest audio is dropped"
    );
}

#[test]
fn trim_to_drops_committed_audio_keeping_preroll() {
    let mut a = agg();
    // 10 s buffered (> 8 s trimming threshold)
    a.push_audio(&gen(0.3, 1000), &measure);
    let before = a.buffer_len_cs();
    a.trim_to(600); // committed up to 6 s
    let after = a.buffer_len_cs();
    assert!(after < before, "buffer should shrink after trim");
    // offset should be ~ (600 - 50 preroll) = 550 cs
    assert!(
        a.offset_cs() >= 540 && a.offset_cs() <= 560,
        "offset_cs = {}",
        a.offset_cs()
    );
}

#[test]
fn trim_is_noop_when_buffer_is_short() {
    let mut a = agg();
    a.push_audio(&gen(0.3, 300), &measure); // 3 s, < 8 s threshold
    let before = a.offset_cs();
    a.trim_to(200);
    assert_eq!(a.offset_cs(), before, "short buffers are not trimmed");
}

#[test]
fn trim_starts_past_the_threshold() {
    let mut a = agg();
    // 800 cs buffered: at the threshold, not past it
    a.push_audio(&vec![0.3; 128_000], &measure);
    a.trim_to(600);
    assert_eq!((a.offset_cs(), a.buffer_len_cs()), (0, 800));
    // one more centisecond is past it
    a.push_audio(&vec![0.3; 160], &measure);
    a.trim_to(600);
    assert_eq!((a.offset_cs(), a.buffer_len_cs()), (550, 251));
}

#[test]
fn trim_is_monotonic() {
    let mut a = agg();
    a.push_audio(&gen(0.3, 1000), &measure);
    a.trim_to(600);
    let off = a.offset_cs();
    a.trim_to(300); // earlier than already trimmed -> ignored
    assert_eq!(a.offset_cs(), off);
}

#[test]
fn utterance_end_after_trailing_silence() {
    let mut a = agg();
    a.push_audio(&gen(0.3, 100), &measure); // speech
    assert!(!a.utterance_ended());
    a.push_audio(&gen(0.00001, 100), &measure); // 1 s silence > 700 ms
    assert!(a.utterance_ended());
}

#[test]
fn note_flushed_clears_speech_and_shrinks_to_preroll() {
    let mut a = agg();
    a.push_audio(&gen(0.3, 500), &measure);
    a.note_flushed();
    assert!(a.buffer_len_cs() <= SessionConfig::default().preroll_cs + 5);
    // after flush, fresh silence does not immediately re-emit
    a.push_audio(&gen(0.00001, 200), &measure);
    assert!(a.poll_window().is_none());
}

#[test]
fn window_holds_the_latest_audio() {
    let mut a = agg();
    // 13 s of distinguishable loud samples; the cap keeps the last 12 s
    let audio: Vec<f32> = (0..samples_for_cs(1300)).map(|i| 0.5 + (i % 1000) as f32 / 4096.0).collect();
    a.push_audio(&audio, &measure);
    let win = a.poll_window().expect("a window");
    assert_eq!(win.offset_cs, 100);
    assert_eq!(win.samples, audio[samples_for_cs(100)..].to_vec());
}

#[test]
fn trim_to_one_time_twice_is_trimming_once() {
    let mut a = agg();
    a.push_audio(&gen(0.3, 1200), &measure);
    a.trim_to(250);
    assert_eq!(a.offset_cs(), 200);
    a.trim_to(250);
    assert_eq!(a.offset_cs(), 200);
    assert_eq!(a.buffer_len_cs(), 1000);
    assert_eq!(a.vad_state(), SpeechState::Speech);
    assert!(f(a.level()) > 0.29);
    assert!(f(a.noise_floor()) > 0.0);
    assert!(a.can_take(1_000_000));
    assert!(!a.can_take(usize::MAX));
}

#[test]
fn partial_frames_are_carried_over() {
    let mut a = agg();
    // no single push completes a frame, but two do
    a.push_audio(&frame(0.3, 300), &measure);
    assert_eq!(a.vad_state(), SpeechState::Silence);
    a.push_audio(&frame(0.3, 300), &measure);
    assert_eq!(a.vad_state(), SpeechState::Speech);
    a.push_audio(&[], &measure);
    assert_eq!(a.buffer_len_cs(), 3);
}

#[test]
fn pushes_make_one_stream() {
    let mut stream = gen(0.00001, 40);
    stream.extend(gen(0.3, 900));
    stream.extend(gen(0.00001, 500));
    let begin = agg();
    let mut whole = begin.clone();
    whole.push_audio(&stream, &measure);
    assert_eq!(whole.buffer_len_cs(), 1200);
    assert_eq!(whole.offset_cs(), 240);
    for size in [7, 479, 480, 481, 100_000] {
        let mut parts = begin.clone();
        for samples in stream.chunks(size) {
            parts.push_audio(samples, &measure);
        }
        let mut all = whole.clone();
        assert_eq!(parts.offset_cs(), all.offset_cs());
        assert_eq!(parts.buffer_len_cs(), all.buffer_len_cs());
        assert_eq!(parts.vad_state(), all.vad_state());
        assert_eq!(f(parts.level()), f(all.level()));
        assert_eq!(f(parts.noise_floor()), f(all.noise_floor()));
        assert_eq!(parts.utterance_ended(), all.utterance_ended());
        let window = parts.poll_window();
        assert_eq!(window, all.poll_window());
        assert_eq!(window.clone().unwrap().samples, stream[stream.len() - 192_000..]);
    }
}

// --- capture ---------------------------------------------------------------------

#[test]
fn capture_reports_onset_then_utterance_with_lead_in() {
    let cfg = SessionConfig::default();
    let mut c: Capture<f32> = Capture::new(&cfg, VadConfig::default());
    let quiet = gen(0.00001, 90);
    let loud = gen(0.3, 30);
    let pause = gen(0.00001, 120);
    assert!(c.feed(&quiet, &measure).is_empty());
    assert_eq!(c.feed(&loud, &measure), vec![Captured::SpeechStarted]);
    assert!(c.in_speech());
    let reports = c.feed(&pause, &measure);
    assert_eq!(reports.len(), 1);
    assert!(!c.in_speech());
    let audio = match &reports[0] {
        Captured::Utterance(audio) => audio,
        other => panic!("expected an utterance, got {other:?}"),
    };
    // 0.5 s of lead-in, 0.3 s of speech, and 24 frames (720 ms) of silence
    assert_eq!(audio.len(), 8_000 + 4_800 + 24 * 480);
    let mut heard = quiet[quiet.len() - 8_000..].to_vec();
    heard.extend_from_slice(&loud);
    heard.extend_from_slice(&pause[..24 * 480]);
    assert_eq!(audio, &heard);
}

#[test]
fn capture_joins_speech_across_short_pauses() {
    let cfg = SessionConfig::default();
    let mut c: Capture<f32> = Capture::new(&cfg, VadConfig::default());
    c.feed(&gen(0.3, 30), &measure);
    assert!(c.feed(&gen(0.00001, 60), &measure).is_empty());
    assert!(c.feed(&gen(0.3, 30), &measure).is_empty());
    assert_eq!(c.feed(&gen(0.00001, 90), &measure).len(), 1);
    // the next one starts afresh
    assert_eq!(c.feed(&gen(0.3, 30), &measure), vec![Captured::SpeechStarted]);
}

#[test]
fn capture_lead_in_starts_after_the_last_utterance() {
    let mut c: Capture<f32> = Capture::new(&SessionConfig::default(), VadConfig::default());
    c.feed(&gen(0.3, 30), &measure);
    // the first long enough silence ends it, and 6 more frames are silent
    assert_eq!(c.feed(&gen(0.00001, 90), &measure).len(), 1);
    c.feed(&gen(0.3, 30), &measure);
    let reports = c.feed(&gen(0.00001, 90), &measure);
    match &reports[0] {
        Captured::Utterance(audio) => assert_eq!(audio.len(), (6 + 10 + 24) * 480),
        other => panic!("expected an utterance, got {other:?}"),
    }
}

#[test]
fn polls_make_one_stream() {
    let mut stream = gen(0.00001, 60);
    for _ in 0..3 {
        stream.extend(gen(0.3, 45));
        stream.extend(gen(0.00001, 110));
    }
    let mut whole: Capture<f32> = Capture::new(&SessionConfig::default(), VadConfig::default());
    let expected = whole.feed(&stream, &measure);
    // an onset first, then strictly in turn
    assert_eq!(expected.len(), 6);
    for (j, report) in expected.iter().enumerate() {
        assert_eq!(matches!(report, Captured::SpeechStarted), j % 2 == 0);
    }
    for size in [1, 7, 479, 480, 481, 5_000] {
        let mut c: Capture<f32> = Capture::new(&SessionConfig::default(), VadConfig::default());
        let mut reports = Vec::new();
        for poll in stream.chunks(size) {
            reports.extend(c.feed(poll, &measure));
            c.note_poll();
        }
        assert_eq!(reports, expected, "polls of {size}");
    }
}

#[test]
fn level_is_due_at_every_third_poll() {
    let mut c: Capture<f32> = Capture::new(&SessionConfig::default(), VadConfig::default());
    c.feed(&frame(0.25, 480), &measure);
    let due: Vec<bool> = (0..6).map(|_| c.note_poll().is_some()).collect();
    assert_eq!(due, vec![false, false, true, false, false, true]);
    c.note_poll();
    c.note_poll();
    assert_eq!(f(c.note_poll().unwrap()), 0.25);
}

#[test]
fn capture_failures_are_told() {
    let e = CaptureError::DeviceNotFound("default input".into());
    assert_eq!(
        start_failed(&e),
        UiEvent::Error("microphone: audio device not found: default input".into())
    );
    let e = CaptureError::Backend("gone".into());
    assert_eq!(
        poll_failed(&e),
        UiEvent::Error("capture: audio backend error: gone".into())
    );
}
