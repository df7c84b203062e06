use perihelion::audio::{
    chunk_size, first_channel, plan_resampling, utterance_event, CaptureFailure, CaptureStep,
    Resampling, Taps, VoiceDetector, Window,
};
use perihelion::events::TranscriptionEvent;

const LOUD: f32 = 0.1;
const QUIET: f32 = 0.001;

#[test]
fn equal_rates_change_nothing() {
    assert_eq!(plan_resampling(10, 16000, 16000), Resampling::Unchanged);
    assert_eq!(plan_resampling(0, 0, 0), Resampling::Unchanged);
    assert_eq!(Resampling::Unchanged.taps(0, 10), Taps::Nothing);
}

#[test]
fn fast_input_is_averaged() {
    assert_eq!(
        plan_resampling(10, 48000, 16000),
        Resampling::Averaged { factor: 3, filtered_len: 8 }
    );
    assert_eq!(
        plan_resampling(10, 44100, 16000),
        Resampling::Averaged { factor: 2, filtered_len: 9 }
    );
    assert_eq!(
        plan_resampling(3, 48000, 16000),
        Resampling::Averaged { factor: 3, filtered_len: 1 }
    );
}

#[test]
fn other_input_is_used_as_it_is() {
    assert_eq!(plan_resampling(10, 8000, 16000), Resampling::Direct { len: 10 });
    assert_eq!(plan_resampling(10, 24000, 16000), Resampling::Direct { len: 10 });
    assert_eq!(plan_resampling(2, 48000, 16000), Resampling::Direct { len: 2 });
    assert_eq!(plan_resampling(0, 48000, 16000), Resampling::Direct { len: 0 });
}

#[test]
fn windows_lie_in_the_input() {
    let plan = plan_resampling(5, 48000, 16000);
    assert_eq!(
        plan.taps(0, 5),
        Taps::Pair { first: Window { from: 0, to: 3 }, second: Window { from: 1, to: 4 } }
    );
    assert_eq!(
        plan.taps(1, 5),
        Taps::Pair { first: Window { from: 1, to: 4 }, second: Window { from: 2, to: 5 } }
    );
    assert_eq!(plan.taps(2, 5), Taps::Single { only: Window { from: 2, to: 5 } });
    assert_eq!(plan.taps(3, 5), Taps::Nothing);
    assert_eq!(plan.taps(usize::MAX, 5), Taps::Nothing);
    let plan = plan_resampling(2, 8000, 16000);
    assert_eq!(
        plan.taps(0, 2),
        Taps::Pair { first: Window { from: 0, to: 1 }, second: Window { from: 1, to: 2 } }
    );
    assert_eq!(plan.taps(1, 2), Taps::Single { only: Window { from: 1, to: 2 } });
}

#[test]
fn one_channel_is_kept() {
    for channels in 1..5 {
        for len in 0..12 {
            let data: Vec<i16> = (0..len).collect();
            let expected: Vec<i16> = data.iter().copied().step_by(channels).collect();
            assert_eq!(first_channel(&data, channels), expected);
        }
    }
    assert_eq!(first_channel(&[0.5, 0.6, 0.7], usize::MAX), vec![0.5]);
}

#[test]
fn chunks_are_a_tenth_of_a_second() {
    assert_eq!(chunk_size(48000), 4800);
    assert_eq!(chunk_size(16000), 1600);
    assert_eq!(chunk_size(10240), 1024);
    assert_eq!(chunk_size(8000), 1024);
    assert_eq!(chunk_size(0), 1024);
}

#[test]
fn loudness_is_compared_as_a_float() {
    let values = [
        0.0,
        -0.0,
        0.005,
        0.0049999996,
        0.0050000004,
        0.004,
        1.0,
        -1.0,
        f32::MIN_POSITIVE,
        f32::INFINITY,
        f32::NEG_INFINITY,
        f32::NAN,
        -f32::NAN,
    ];
    for rms in values {
        let mut detector = VoiceDetector::new(16000);
        detector.observe(rms.to_bits(), 100);
        assert_eq!(detector.is_speaking, !(rms < 0.005), "{rms}");
    }
}

#[test]
fn silence_is_thrown_away_and_never_transcribed() {
    let mut detector = VoiceDetector::new(1000);
    for i in 1..=10usize {
        assert_eq!(detector.observe(QUIET.to_bits(), 300 * i), CaptureStep::Wait);
        assert_eq!(detector.last_len, 300 * i);
    }
    assert_eq!(detector.observe(QUIET.to_bits(), 3001), CaptureStep::Discard);
    assert_eq!(detector.last_len, 0);
    assert_eq!(detector.silence_chunks, 11);
    assert!(!detector.is_speaking);
    assert!(!detector.flushes(50));
}

#[test]
fn speech_is_handed_on_after_six_quiet_chunks() {
    let mut detector = VoiceDetector::new(16000);
    for _ in 0..20 {
        detector.observe(QUIET.to_bits(), 100);
    }
    assert_eq!(detector.observe(LOUD.to_bits(), 1600), CaptureStep::Wait);
    for i in 2..=6 {
        assert_eq!(detector.observe(QUIET.to_bits(), 1600 * i), CaptureStep::Wait);
        assert!(detector.is_speaking);
    }
    assert_eq!(detector.observe(QUIET.to_bits(), 1600 * 7), CaptureStep::Transcribe);
    assert_eq!(detector, VoiceDetector::new(16000));
}

#[test]
fn a_word_in_between_starts_the_count_again() {
    let mut detector = VoiceDetector::new(16000);
    detector.observe(LOUD.to_bits(), 1);
    for _ in 0..5 {
        assert_eq!(detector.observe(QUIET.to_bits(), 2), CaptureStep::Wait);
    }
    assert_eq!(detector.observe(LOUD.to_bits(), 3), CaptureStep::Wait);
    for _ in 0..5 {
        assert_eq!(detector.observe(QUIET.to_bits(), 4), CaptureStep::Wait);
    }
    assert_eq!(detector.observe(QUIET.to_bits(), 5), CaptureStep::Transcribe);
}

#[test]
fn long_speech_is_not_thrown_away() {
    let mut detector = VoiceDetector::new(1000);
    assert_eq!(detector.observe(LOUD.to_bits(), 1_000_000), CaptureStep::Wait);
    assert_eq!(detector.last_len, 1_000_000);
}

#[test]
fn what_is_left_is_transcribed_only_while_somebody_speaks() {
    let mut detector = VoiceDetector::new(16000);
    detector.observe(LOUD.to_bits(), 1600);
    assert!(detector.flushes(1));
    assert!(!detector.flushes(0));
}

#[test]
fn an_utterance_becomes_an_event() {
    match utterance_event(" <|en|>Hello. ") {
        Some(TranscriptionEvent::FinalResult(text)) => assert_eq!(text, "Hello."),
        other => panic!("{other:?}"),
    }
    assert!(utterance_event("").is_none());
    assert!(utterance_event(" <|en|> \n").is_none());
}

#[test]
fn failures_are_told() {
    let e = || "busy".to_string();
    let cases = [
        (CaptureFailure::Devices(e()), "Failed to get devices: busy"),
        (CaptureFailure::NoSuchDevice, "Selected device not found"),
        (CaptureFailure::Config(e()), "Failed to get config: busy"),
        (CaptureFailure::Format, "Unsupported audio sample format"),
        (CaptureFailure::Build(e()), "Failed to build stream: busy"),
        (CaptureFailure::Play(e()), "Failed to play stream: busy"),
    ];
    for (failure, expected) in cases {
        match failure.event() {
            TranscriptionEvent::Error(text) => assert_eq!(text, expected),
            TranscriptionEvent::FinalResult(_) => unreachable!(),
        }
    }
}
