use perihelion::config::{Processor, Settings};
use perihelion::engine::{
    check_model_exists, clean_transcription, file_text, init_report, plan_recognizer,
    recognizer_or_error, samples_text, AudioBuffer, ModelVariant, MODEL_FILES, PART_EXTENSION,
    STRIP_TAGS,
};
use perihelion::events::InitEvent;
use std::path::{Path, PathBuf};

#[test]
fn models_have_names_and_places() {
    assert_eq!(ModelVariant::Small.repo(), "ilmina/qwen3-asr-0.6b-sherpa-onnx");
    assert_eq!(ModelVariant::Large.repo(), "ilmina/qwen3-asr-1.7b-sherpa-onnx");
    assert_eq!(ModelVariant::Small.label(), "Qwen3-ASR 0.6B");
    assert_eq!(ModelVariant::Large.label(), "Qwen3-ASR 1.7B");
    assert_eq!(ModelVariant::Small.dir_name(), "qwen3-asr-0.6b");
    assert_eq!(ModelVariant::Large.dir_name(), "qwen3-asr-1.7b");
}

#[test]
fn models_are_kept_below_the_cache_directory() {
    let base = Some(PathBuf::from("/cache"));
    let path = ModelVariant::Large.model_dir_in(base.clone());
    assert_eq!(path.base, base);
    assert_eq!(path.parts, vec!["perihelion", "models", "qwen3-asr-1.7b"]);
    let path = ModelVariant::Small.model_dir();
    assert_eq!(path.base, dirs::cache_dir());
    assert_eq!(path.parts, vec!["perihelion", "models", "qwen3-asr-0.6b"]);
}

#[test]
fn a_model_is_there_when_all_its_files_are() {
    assert!(check_model_exists(&vec![true; 6]));
    assert!(!check_model_exists(&vec![true, true, true, true, true, false]));
    assert!(!check_model_exists(&vec![false, true, true, true, true, true]));
    assert!(!check_model_exists(&vec![true; 5]));
    assert!(!check_model_exists(&vec![]));
    assert_eq!(MODEL_FILES.len(), 6);
}

#[test]
fn an_unfinished_file_is_no_file_of_a_model() {
    for file in MODEL_FILES {
        let unfinished = Path::new(file).with_extension(PART_EXTENSION);
        assert!(!MODEL_FILES.iter().any(|f| Path::new(f) == unfinished));
        assert!(!file.ends_with(".part"));
    }
}

#[test]
fn plain_text_is_kept() {
    assert_eq!(clean_transcription("hello there"), "hello there");
    assert_eq!(clean_transcription(""), "");
    assert_eq!(clean_transcription("a <b> |c|"), "a <b> |c|");
}

#[test]
fn white_space_is_trimmed() {
    assert_eq!(clean_transcription("  hello there \n"), "hello there");
    assert_eq!(clean_transcription(" \n\t "), "");
    assert_eq!(clean_transcription("\u{3000}こんにちは\u{3000}"), "こんにちは");
}

#[test]
fn every_tag_is_taken_out() {
    for tag in STRIP_TAGS {
        assert_eq!(clean_transcription(&format!("{tag}hello")), "hello");
        assert_eq!(clean_transcription(&format!("one {tag} two")), "one  two");
        assert_eq!(clean_transcription(&format!(" {tag} ")), "");
    }
    assert_eq!(clean_transcription("<|en|><|asr|> Good morning.<|text|>"), "Good morning.");
}

#[test]
fn tags_are_taken_out_in_their_order_and_once() {
    // What is left after a later tag may spell an earlier one, which then stays.
    assert_eq!(clean_transcription("<|e<|zh|>n|>hi"), "<|en|>hi");
    // An earlier tag inside a later one is gone before the later one is sought.
    assert_eq!(clean_transcription("<|z<|en|>h|>hi"), "hi");
    // Inside itself a tag is taken out once.
    assert_eq!(clean_transcription("<|en<|en|>|>hi"), "<|en|>hi");
}

#[test]
fn cleaning_twice_changes_nothing() {
    for text in ["<|ja|> こんにちは <|text|>", "  two words ", "", "<|xx|>"] {
        let clean = clean_transcription(text);
        assert_eq!(clean_transcription(&clean), clean);
    }
}

#[test]
fn recogniser_follows_the_settings() {
    let mut settings = Settings::default();
    let plan = plan_recognizer(&settings);
    assert!(plan.hotwords.is_none());
    assert_eq!(plan.decoding_method, "greedy_search");
    assert_eq!(plan.max_active_paths, 4);
    assert_eq!(f32::from_bits(plan.hotwords_score_bits), 1.5);
    assert_eq!(plan.conv_frontend, "conv_frontend.onnx");
    assert_eq!(plan.encoder, "encoder.int8.onnx");
    assert_eq!(plan.decoder, "decoder.int8.onnx");
    assert_eq!(plan.tokenizer, "tokenizer");
    assert_eq!(plan.num_threads, 4);
    assert_eq!(plan.provider, "cpu");
    assert!(!plan.debug);

    settings.processor = Processor::Gpu;
    assert_eq!(plan_recognizer(&settings).provider, "directml");
    settings.processor = Processor::GpuCuda;
    assert_eq!(plan_recognizer(&settings).provider, "cuda");

    settings.high_accuracy = true;
    settings.search_depth = 9;
    settings.num_threads = 2;
    settings.hotwords = " VRChat\nOSC\n".to_string();
    settings.hotwords_boost_bits = 3.25f32.to_bits();
    let plan = plan_recognizer(&settings);
    assert_eq!(plan.hotwords.as_deref(), Some(" VRChat\nOSC\n"));
    assert_eq!(plan.decoding_method, "modified_beam_search");
    assert_eq!(plan.max_active_paths, 9);
    assert_eq!(f32::from_bits(plan.hotwords_score_bits), 3.25);
    assert_eq!(plan.num_threads, 2);

    settings.hotwords = " \n\t".to_string();
    assert!(plan_recognizer(&settings).hotwords.is_none());
}

#[test]
fn a_recogniser_that_is_missing_is_an_error() {
    assert_eq!(recognizer_or_error(Some(7)), Ok(7));
    assert_eq!(
        recognizer_or_error::<u32>(None),
        Err("Failed to create OfflineRecognizer".to_string())
    );
}

#[test]
fn a_start_is_reported() {
    assert!(matches!(init_report(Some(Ok(5))), InitEvent::Success(5)));
    match init_report::<u32>(Some(Err("no memory".to_string()))) {
        InitEvent::Error(e) => assert_eq!(e, "Engine error: no memory"),
        InitEvent::Success(_) => unreachable!(),
    }
    match init_report::<u32>(None) {
        InitEvent::Error(e) => assert_eq!(e, "Model files not found"),
        InitEvent::Success(_) => unreachable!(),
    }
}

#[test]
fn nothing_heard_is_an_empty_text() {
    assert_eq!(samples_text(None), "");
    assert_eq!(samples_text(Some("hi".to_string())), "hi");
}

#[test]
fn a_file_without_text_is_an_error() {
    assert_eq!(file_text(None), Err("Failed to read WAV file".to_string()));
    assert_eq!(file_text(Some(None)), Err("Failed to get recognition result".to_string()));
    assert_eq!(file_text(Some(Some("hi".to_string()))), Ok("hi".to_string()));
}

#[test]
fn samples_come_out_as_they_went_in() {
    let mut buffer: AudioBuffer<f32> = AudioBuffer::new();
    buffer.extend_samples(vec![0.25, -0.5]);
    buffer.extend_samples(vec![]);
    buffer.extend_samples(vec![1.0]);
    assert_eq!(buffer.clear_buffer(), vec![0.25, -0.5, 1.0]);
    assert!(buffer.clear_buffer().is_empty());
}

#[test]
fn audio_is_looked_at_when_enough_of_it_is_new() {
    let mut buffer: AudioBuffer<u16> = AudioBuffer::new();
    assert!(buffer.check_new_audio(0, 0).is_none());
    buffer.extend_samples(vec![1, 2, 3, 4]);
    assert!(buffer.check_new_audio(0, 5).is_none());
    assert!(buffer.check_new_audio(4, 2).is_none());
    assert!(buffer.check_new_audio(9, 2).is_none());
    assert_eq!(buffer.check_new_audio(0, 4), Some((&[1, 2, 3, 4][..], 4)));
    assert_eq!(buffer.check_new_audio(3, 2), Some((&[4][..], 4)));
}
