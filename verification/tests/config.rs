use perihelion::config::{AppConfig, Language, ListeningMode, Processor, Settings, JAPANESE};

#[test]
fn english_keeps_every_word() {
    for (key, _) in JAPANESE {
        assert_eq!(Language::English.tr(key), key);
    }
    assert_eq!(Language::default(), Language::English);
}

#[test]
fn every_entry_of_the_table_is_found() {
    for (key, word) in JAPANESE {
        assert_eq!(Language::Japanese.tr(key), word);
    }
    assert_eq!(JAPANESE.len(), 72);
}

#[test]
fn some_words_in_japanese() {
    assert_eq!(Language::Japanese.tr("Main"), "メイン");
    assert_eq!(Language::Japanese.tr("ready"), "準備完了");
    assert_eq!(Language::Japanese.tr("OSC (VRChat)"), "OSC (VRChat)");
    assert_eq!(
        Language::Japanese.tr("Hang on, the model's starting!"),
        "少々お待ちください。モデルを起動中です！"
    );
    assert_eq!(
        Language::Japanese.tr(" GB RAM. The model may crash or run very slowly."),
        "GBです。モデルがクラッシュするか、非常に遅くなる可能性があります。"
    );
}

#[test]
fn unknown_words_are_kept() {
    assert_eq!(Language::Japanese.tr("Perihelion"), "Perihelion");
    assert_eq!(Language::Japanese.tr("main"), "main");
    assert_eq!(Language::Japanese.tr(""), "");
}

#[test]
fn modes_have_names() {
    assert_eq!(ListeningMode::AlwaysOn.as_str(), "Always On");
    assert_eq!(ListeningMode::ToggleOsc.as_str(), "Toggle-OSC");
    assert_eq!(ListeningMode::ToggleButton.as_str(), "Toggle-Button");
    assert_eq!(ListeningMode::default(), ListeningMode::ToggleButton);
}

#[test]
fn processors_have_names() {
    for (processor, name, provider) in [
        (Processor::Cpu, "CPU", "cpu"),
        (Processor::Gpu, "GPU", "directml"),
        (Processor::GpuCuda, "GPU-CUDA", "cuda"),
    ] {
        assert_eq!(processor.as_str(), name);
        assert_eq!(processor.provider(), provider);
    }
    assert_eq!(Processor::default(), Processor::Cpu);
}

#[test]
fn factory_settings() {
    let settings = Settings::default();
    assert_eq!(settings.language, Language::English);
    assert_eq!(settings.listening_mode, ListeningMode::ToggleButton);
    assert!(settings.auto_copy);
    assert!(settings.append_mode);
    assert_eq!(settings.processor, Processor::Cpu);
    assert_eq!(settings.num_threads, 4);
    assert!(!settings.high_accuracy);
    assert_eq!(settings.search_depth, 4);
    assert_eq!(settings.hotwords, "");
    assert_eq!(f32::from_bits(settings.hotwords_boost_bits), 1.5);
}

#[test]
fn search_depth_goes_from_one_to_ten() {
    let mut settings = Settings::default();
    for (asked, kept) in [(i32::MIN, 1), (0, 1), (1, 1), (7, 7), (10, 10), (11, 10), (i32::MAX, 10)] {
        settings.set_search_depth(asked);
        assert_eq!(settings.search_depth, kept);
    }
    assert_eq!(settings.num_threads, 4);
}

#[test]
fn threads_go_from_one_to_sixteen() {
    let mut settings = Settings::default();
    for (asked, kept) in [(-3, 1), (1, 1), (12, 12), (16, 16), (17, 16)] {
        settings.set_num_threads(asked);
        assert_eq!(settings.num_threads, kept);
    }
    assert_eq!(settings.search_depth, 4);
}

#[test]
fn copies_are_equal_in_every_field() {
    let mut settings = Settings::default();
    settings.hotwords = "VRChat\nOSC".to_string();
    settings.language = Language::Japanese;
    let config = AppConfig { settings, selected_device: 3 };
    let copy = config.clone();
    assert_eq!(format!("{:?}", copy), format!("{:?}", config));
}
