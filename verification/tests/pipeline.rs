//! Transcription from end to end, with scripted ports.

use std::collections::VecDeque;
use std::sync::{Arc, Mutex};

use hearsay::aggregator::Window;
use hearsay::audio::samples_for_cs;
use hearsay::binary32::Binary32;
use hearsay::config::SessionConfig;
use hearsay::error::{CaptureError, PipelineError, TranscribeError};
use hearsay::pipeline::{flush, infer_hypothesis, infer_window, is_in_range, Pipeline};
use hearsay::ports::{AudioSource, Transcriber, TranscriptSink};
use hearsay::stabilize::Stabilizer;
use hearsay::transcript::{TranscriptUpdate, TranscriptView};
use hearsay::vad::{Reading, VadConfig};
use hearsay::word::{join_words, Hypothesis};

fn measure(frame: &[f32], cfg: &VadConfig, floor: Binary32) -> Reading {
    let b = |x: f32| Binary32::from_bits(x.to_bits());
    let f = |x: Binary32| f32::from_bits(x.to_bits());
    let sum_sq: f32 = frame.iter().map(|s| s * s).sum();
    let level = if frame.is_empty() { 0.0 } else { (sum_sq / frame.len() as f32).sqrt() };
    let floor = f(floor);
    let alpha = f(cfg.ema_alpha);
    Reading {
        level: b(level),
        enter: b(floor * f(cfg.enter_mult)),
        exit: b(floor * f(cfg.exit_mult)),
        blend: b((1.0 - alpha) * floor + alpha * level),
    }
}

/// Yields one canned audio chunk per `poll`, then empty.
struct FakeSource {
    chunks: VecDeque<Vec<f32>>,
    label: String,
    started: bool,
}

impl FakeSource {
    fn new(label: &str, chunks: Vec<Vec<f32>>) -> Self {
        Self {
            chunks: chunks.into(),
            label: label.into(),
            started: false,
        }
    }
}

impl AudioSource<f32> for FakeSource {
    fn start(&mut self) -> Result<(), CaptureError> {
        self.started = true;
        Ok(())
    }
    fn poll(&mut self) -> Result<Vec<f32>, CaptureError> {
        Ok(self.chunks.pop_front().unwrap_or_default())
    }
    fn stop(&mut self) {
        self.started = false;
    }
    fn label(&self) -> &str {
        &self.label
    }
}

/// Returns scripted hypotheses in order, one per `transcribe` call.
struct FakeTranscriber {
    scripted: VecDeque<Hypothesis>,
}

impl FakeTranscriber {
    fn new(scripted: Vec<Hypothesis>) -> Self {
        Self {
            scripted: scripted.into(),
        }
    }
}

impl Transcriber<f32> for FakeTranscriber {
    fn transcribe(&mut self, _audio: &[f32]) -> Result<Hypothesis, TranscribeError> {
        Ok(self.scripted.pop_front().unwrap_or_default())
    }
}

/// Fails every time.
struct DeafTranscriber;

impl Transcriber<f32> for DeafTranscriber {
    fn transcribe(&mut self, _audio: &[f32]) -> Result<Hypothesis, TranscribeError> {
        Err(TranscribeError::Inference("deaf".into()))
    }
}

/// Accumulates emitted updates into a view.
#[derive(Clone, Default)]
struct CollectingSink {
    view: Arc<Mutex<TranscriptView>>,
    count: Arc<Mutex<usize>>,
}

impl TranscriptSink for CollectingSink {
    fn emit(&mut self, update: &TranscriptUpdate) {
        self.view.lock().unwrap().apply(update);
        *self.count.lock().unwrap() += 1;
    }
}

fn speech(cs: u32) -> Vec<f32> {
    let n = samples_for_cs(cs);
    (0..n)
        .map(|i| if i % 2 == 0 { 0.3 } else { -0.3 })
        .collect()
}

#[test]
fn pipeline_converges_via_local_agreement() {
    // Three windows of growing hypotheses; the agreed prefix is committed each step, the final
    // tail is flushed on stop.
    let chunks = vec![speech(120), speech(120), speech(120)];
    let scripted = vec![
        Hypothesis::from_text("the quick", 0, 200),
        Hypothesis::from_text("the quick brown", 0, 300),
        Hypothesis::from_text("the quick brown fox", 0, 400),
    ];
    let sink = CollectingSink::default();
    let view = sink.view.clone();
    let mut p = Pipeline::new(
        FakeSource::new("Mic", chunks),
        FakeTranscriber::new(scripted),
        sink,
        SessionConfig::default(),
        VadConfig::default(),
        measure,
    );
    p.start().unwrap();
    p.tick().unwrap(); // window 1: commit nothing
    assert!(
        view.lock().unwrap().committed.is_empty(),
        "must not commit from a single window (no agreement yet)"
    );
    p.tick().unwrap(); // window 2: commit "the quick"
    assert_eq!(view.lock().unwrap().committed_text(), "the quick");
    p.tick().unwrap(); // window 3: commit "brown"
    assert_eq!(view.lock().unwrap().committed_text(), "the quick brown");
    p.stop(); // flush "fox"
    assert_eq!(view.lock().unwrap().committed_text(), "the quick brown fox");
}

#[test]
fn silence_produces_no_transcription() {
    let silence: Vec<f32> = vec![0.00001; samples_for_cs(300)];
    let sink = CollectingSink::default();
    let count = sink.count.clone();
    let mut p = Pipeline::new(
        FakeSource::new("Mic", vec![silence]),
        FakeTranscriber::new(vec![Hypothesis::from_text("ghost words", 0, 200)]),
        sink,
        SessionConfig::default(),
        VadConfig::default(),
        measure,
    );
    p.start().unwrap();
    p.tick().unwrap();
    assert_eq!(
        *count.lock().unwrap(),
        0,
        "no window over silence -> no emit"
    );
}

#[test]
fn utterance_end_flushes_tail_mid_session() {
    // tick 1: a speech window leaves "hello world" volatile (first window, so nothing is
    // committed yet). tick 2: 0.8 s of silence is below the 1 s step (no second window) but
    // past the 700 ms utterance gap, so the utterance-end flush is what commits the tail.
    let chunks = vec![speech(120), vec![0.00001; samples_for_cs(80)]];
    let scripted = vec![Hypothesis::from_text("hello world", 0, 200)];
    let sink = CollectingSink::default();
    let view = sink.view.clone();
    let mut p = Pipeline::new(
        FakeSource::new("Mic", chunks),
        FakeTranscriber::new(scripted),
        sink,
        SessionConfig::default(),
        VadConfig::default(),
        measure,
    );
    p.start().unwrap();
    p.tick().unwrap();
    assert_eq!(view.lock().unwrap().committed_text(), "");
    p.tick().unwrap();
    assert_eq!(view.lock().unwrap().committed_text(), "hello world");
}

struct FailingSource;

impl AudioSource<f32> for FailingSource {
    fn start(&mut self) -> Result<(), CaptureError> {
        Err(CaptureError::DeviceNotFound("nope".into()))
    }
    fn poll(&mut self) -> Result<Vec<f32>, CaptureError> {
        Ok(vec![])
    }
    fn stop(&mut self) {}
    fn label(&self) -> &str {
        "x"
    }
}

#[test]
fn capture_error_propagates() {
    let mut p = Pipeline::new(
        FailingSource,
        FakeTranscriber::new(vec![]),
        CollectingSink::default(),
        SessionConfig::default(),
        VadConfig::default(),
        measure,
    );
    assert!(matches!(p.start(), Err(PipelineError::Capture(_))));
}

#[test]
fn transcription_error_propagates_and_emits_nothing() {
    let sink = CollectingSink::default();
    let count = sink.count.clone();
    let mut p = Pipeline::new(
        FakeSource::new("Mic", vec![speech(120)]),
        DeafTranscriber,
        sink,
        SessionConfig::default(),
        VadConfig::default(),
        measure,
    );
    assert_eq!(p.label(), "Mic");
    assert_eq!(
        p.tick(),
        Err(PipelineError::Transcribe(TranscribeError::Inference("deaf".into())))
    );
    assert_eq!(*count.lock().unwrap(), 0);
}

#[test]
fn words_are_shifted_to_absolute_time() {
    let mut s = Stabilizer::new();
    let cfg = SessionConfig::default();
    let hyp = Hypothesis::from_text("a b", 0, 20);
    assert!(is_in_range(&hyp, 500, &cfg));
    let out = infer_hypothesis(&mut s, &hyp, 500, "Mic", &cfg);
    assert_eq!(out.update.source, "Mic");
    assert_eq!((out.update.volatile[0].t0_cs, out.update.volatile[1].t1_cs), (500, 520));
    let out = infer_hypothesis(&mut s, &hyp, 500, "Mic", &cfg);
    assert_eq!(join_words(&out.update.newly_committed), "a b");
    assert_eq!(out.committed_up_to_cs, 520);
    assert_eq!(out.clone(), out);
}

#[test]
fn times_that_do_not_fit_are_an_error() {
    let mut s = Stabilizer::new();
    let cfg = SessionConfig::default();
    let window = Window { samples: vec![0.0f32; 4], offset_cs: u32::MAX - 5 };
    let mut t = FakeTranscriber::new(vec![Hypothesis::from_text("late", 0, 20)]);
    assert_eq!(
        infer_window(&mut t, &mut s, &window, "Mic", &cfg),
        Err(PipelineError::Transcribe(TranscribeError::Inference(
            "timestamps out of range".into()
        )))
    );
    let e: PipelineError = CaptureError::Backend("x".into()).into();
    assert_eq!(e.message(), "audio backend error: x");
    let e: PipelineError = TranscribeError::ModelLoad("x".into()).into();
    assert_eq!(e.message(), "model load failed: x");
}

#[test]
fn flush_leaves_nothing_volatile() {
    let mut s = Stabilizer::new();
    infer_hypothesis(&mut s, &Hypothesis::from_text("one two", 0, 20), 0, "Mic", &SessionConfig::default());
    let update = flush(&mut s, "Mic");
    assert_eq!(join_words(&update.newly_committed), "one two");
    assert!(update.volatile.is_empty());
    assert!(flush(&mut s, "Mic").newly_committed.is_empty());
}

#[test]
fn emitted_updates_add_up_to_the_transcript() {
    let chunks = vec![speech(120), speech(120), vec![0.0; samples_for_cs(90)], speech(120), speech(120)];
    let scripted = vec![
        Hypothesis::from_text("one two", 0, 100),
        Hypothesis::from_text("one two three", 0, 200),
        Hypothesis::from_text("four", 60, 100),
        Hypothesis::from_text("four five", 60, 200),
    ];
    let sink = CollectingSink::default();
    let view = sink.view.clone();
    let mut p = Pipeline::new(
        FakeSource::new("Mic", chunks),
        FakeTranscriber::new(scripted),
        sink,
        SessionConfig::default(),
        VadConfig::default(),
        measure,
    );
    let mut seen = String::new();
    for _ in 0..5 {
        p.tick().unwrap();
        let now = view.lock().unwrap().committed_text();
        assert!(now.starts_with(&seen), "{now:?} must extend {seen:?}");
        seen = now;
    }
    p.stop();
    assert_eq!(view.lock().unwrap().committed_text(), "one two three four five");
}

/// A source that notes what it is asked, and a transcriber that notes what it hears.
struct NotingSource(Arc<Mutex<Vec<&'static str>>>);

impl AudioSource<f32> for NotingSource {
    fn start(&mut self) -> Result<(), CaptureError> {
        self.0.lock().unwrap().push("start");
        Ok(())
    }
    fn poll(&mut self) -> Result<Vec<f32>, CaptureError> {
        self.0.lock().unwrap().push("poll");
        Ok(speech(120))
    }
    fn stop(&mut self) {
        self.0.lock().unwrap().push("stop");
    }
    fn label(&self) -> &str {
        "Noting"
    }
}

struct NotingTranscriber(Arc<Mutex<Vec<usize>>>);

impl Transcriber<f32> for NotingTranscriber {
    fn transcribe(&mut self, audio: &[f32]) -> Result<Hypothesis, TranscribeError> {
        self.0.lock().unwrap().push(audio.len());
        Ok(Hypothesis::from_text("hello world", 0, 100))
    }
}

#[test]
fn ports_are_asked_once_each() {
    let asked = Arc::new(Mutex::new(Vec::new()));
    let heard = Arc::new(Mutex::new(Vec::new()));
    let mut p = Pipeline::new(
        NotingSource(asked.clone()),
        NotingTranscriber(heard.clone()),
        CollectingSink::default(),
        SessionConfig::default(),
        VadConfig::default(),
        measure,
    );
    p.start().unwrap();
    p.tick().unwrap();
    p.stop();
    assert_eq!(*asked.lock().unwrap(), vec!["start", "poll", "stop"]);
    assert_eq!(*heard.lock().unwrap(), vec![samples_for_cs(120)]);
}
