use perihelion::actions::Action;
use perihelion::app::{PerihelionApp, Startup};
use perihelion::config::{AppConfig, ListeningMode, Processor, Settings};
use perihelion::engine::{ModelVariant, MODEL_FILES};
use perihelion::events::{DownloadEvent, InitEvent, TranscriptionEvent};
use perihelion::osc::{chatbox_message, typing_message};
use perihelion::status::ModelStatus;
use perihelion::view::View;

type App = PerihelionApp<u32>;

fn startup() -> Startup {
    Startup {
        small_found: true,
        large_found: false,
        osc_connected: true,
        available_devices: vec!["Mic (default)".to_string(), "Headset".to_string()],
        config: None,
        total_ram_bytes: None,
    }
}

fn launch(startup: Startup) -> App {
    PerihelionApp::launch(startup).0
}

/// The small model is there, was loaded and was stopped again.
fn idle(startup: Startup) -> App {
    let mut app = launch(Startup { small_found: true, ..startup });
    app.update(&vec![], Some(InitEvent::Success(7)), &vec![], &vec![]);
    app.click_stop(ModelVariant::Small);
    app
}

fn app() -> App {
    idle(startup())
}

fn running() -> App {
    let mut app = app();
    app.click_start(ModelVariant::Small, false);
    app.update(&vec![], Some(InitEvent::Success(7)), &vec![], &vec![]);
    app
}

fn frame(app: &mut App) -> Vec<Action> {
    app.update(&vec![], None, &vec![], &vec![])
}

#[test]
fn the_first_launch_downloads_a_model() {
    let none = Startup { small_found: false, ..startup() };
    let (app, actions): (App, Vec<Action>) = PerihelionApp::launch(none);
    assert!(matches!(&actions[..], [Action::SpawnDownload(ModelVariant::Small)]));
    assert!(app.download_active);
    assert_eq!(app.downloading_variant, Some(ModelVariant::Small));
    assert!(matches!(
        app.model_status(ModelVariant::Small),
        ModelStatus::Downloading { current_bytes: 0, total_bytes: 0, .. }
    ));
    assert_eq!(app.model_status_large, ModelStatus::NotDownloaded);
    assert_eq!(app.active_model, None);
    assert_eq!(app.status_message, "No model loaded");
}

#[test]
fn later_launches_load_a_model() {
    for (small, large, loaded) in [
        (true, false, ModelVariant::Small),
        (false, true, ModelVariant::Large),
        (true, true, ModelVariant::Small),
    ] {
        let found = Startup { small_found: small, large_found: large, ..startup() };
        let (mut app, actions): (App, Vec<Action>) = PerihelionApp::launch(found);
        assert!(matches!(
            &actions[..],
            [Action::SpawnInit { variant, settings }] if *variant == loaded && settings.num_threads == 4
        ));
        assert_eq!(app.active_model, Some(loaded));
        assert!(app.active_initializing() && app.init_pending && !app.download_active);
        assert_eq!(app.status_message, "Initializing...");
        app.update(&vec![], Some(InitEvent::Success(7)), &vec![], &vec![]);
        assert!(app.is_active(loaded));
    }
}

#[test]
fn nobody_listens_at_the_launch() {
    let app = launch(startup());
    assert_eq!(app.view, View::Main);
    assert!(!app.is_listening && !app.audio_running && !app.osc_running);
    assert!(app.engine.is_none());
    assert_eq!(app.recognized_text, "");
    assert_eq!(app.selected_device, 0);
    assert!(app.settings.auto_copy);
}

#[test]
fn a_device_that_is_gone_is_replaced() {
    for (saved, kept) in [(0, 0), (1, 1), (2, 1), (usize::MAX, 1)] {
        let config = AppConfig { settings: Settings::default(), selected_device: saved };
        let app: App = launch(Startup { config: Some(config), ..startup() });
        assert_eq!(app.selected_device, kept);
    }
    let config = AppConfig { settings: Settings::default(), selected_device: 5 };
    let none = Startup { config: Some(config), available_devices: vec![], ..startup() };
    assert_eq!(launch(none).selected_device, 0);
}

#[test]
fn what_is_saved_is_read_back() {
    let mut first = app();
    first.settings.hotwords = "VRChat".to_string();
    first.settings.listening_mode = ListeningMode::ToggleOsc;
    first.settings.processor = Processor::GpuCuda;
    first.select_device(1);
    let saved = first.save_config();
    let expected = format!("{:?}", saved);
    let second: App = launch(Startup { config: Some(saved), ..startup() });
    assert_eq!(format!("{:?}", second.save_config()), expected);
    assert_eq!(second.settings.hotwords, "VRChat");
    assert_eq!(second.settings.processor, Processor::GpuCuda);
    assert_eq!(second.selected_device, 1);
}

#[test]
fn a_model_is_started() {
    let mut app = app();
    let actions = app.click_start(ModelVariant::Small, false);
    assert!(matches!(
        &actions[..],
        [Action::SpawnInit { variant: ModelVariant::Small, settings }] if settings.num_threads == 4
    ));
    assert!(app.active_initializing());
    assert!(app.needs_repaint());
    assert_eq!(app.status_message, "Initializing...");
    assert!(app.init_pending);
    assert!(frame(&mut app).is_empty());
    assert!(app.init_pending);
    app.update(&vec![], Some(InitEvent::Success(7)), &vec![], &vec![]);
    assert_eq!(app.engine, Some(7));
    assert_eq!(app.status_message, "Ready");
    assert_eq!(*app.model_status(ModelVariant::Small), ModelStatus::Ready);
    assert!(!app.init_pending && !app.needs_repaint() && !app.active_initializing());
    assert!(app.is_active(ModelVariant::Small));
    assert!(!app.is_active(ModelVariant::Large));
}

#[test]
fn a_start_that_fails_is_told() {
    let mut app = app();
    app.click_start(ModelVariant::Small, false);
    app.handle_init_events(Some(InitEvent::Error("Model files not found".to_string())));
    assert!(matches!(
        app.model_status(ModelVariant::Small),
        ModelStatus::Error(e) if e == "Model files not found"
    ));
    assert_eq!(app.status_message, "Initialization failed");
    assert!(app.engine.is_none() && !app.init_pending);
}

#[test]
fn a_report_that_nobody_awaits_is_ignored() {
    let mut app = app();
    app.handle_init_events(Some(InitEvent::Success(1)));
    assert!(app.engine.is_none());
    app.handle_download_events(&vec![DownloadEvent::AllDone]);
    assert_eq!(app.status_message, "Model stopped");
    let heard = vec![TranscriptionEvent::FinalResult("hi".to_string())];
    assert!(app.handle_transcription_events(&heard).is_empty());
    assert!(app.handle_osc_events(&vec![true]).is_empty());
    assert!(!app.is_listening);
}

#[test]
fn only_a_model_that_is_there_can_be_started() {
    let mut app = app();
    assert!(app.click_start(ModelVariant::Large, false).is_empty());
    assert_eq!(app.active_model, None);
    app.click_start(ModelVariant::Small, false);
    assert!(app.click_start(ModelVariant::Small, false).is_empty());
    app.model_status_large = ModelStatus::Ready;
    assert!(app.click_start(ModelVariant::Large, false).is_empty());
}

#[test]
fn another_model_takes_over() {
    for (found, status) in [(true, ModelStatus::Ready), (false, ModelStatus::NotDownloaded)] {
        let mut app = running();
        app.model_status_large = ModelStatus::Ready;
        app.set_listening(true);
        let actions = app.click_start(ModelVariant::Large, found);
        assert!(matches!(
            &actions[..],
            [
                Action::StopCapture,
                Action::SendOsc(_),
                Action::SpawnInit { variant: ModelVariant::Large, .. }
            ]
        ));
        assert_eq!(*app.model_status(ModelVariant::Small), status);
        assert_eq!(app.active_model, Some(ModelVariant::Large));
        assert!(app.engine.is_none() && !app.is_listening && !app.audio_running);
    }
}

#[test]
fn listening_goes_on_where_a_start_is_not_to_end_it() {
    let mut app = running();
    app.set_listening(true);
    let actions = app.start_init_engine(ModelVariant::Small, false, true);
    assert!(matches!(&actions[..], [Action::SpawnInit { .. }]));
    assert!(app.is_listening && app.engine.is_none());
}

#[test]
fn listening_is_switched() {
    let mut app = running();
    app.select_device(1);
    let actions = app.set_listening(true);
    match &actions[..] {
        [Action::StartCapture { device_index: 1 }, Action::SendOsc(bytes)] => {
            assert_eq!(*bytes, typing_message(true));
        }
        other => panic!("{other:?}"),
    }
    assert!(app.is_listening && app.audio_running && app.transcription_open);
    assert!(app.needs_repaint());
    assert!(app.set_listening(true).is_empty());
    let actions = app.set_listening(false);
    match &actions[..] {
        [Action::StopCapture, Action::SendOsc(bytes)] => {
            assert_eq!(*bytes, typing_message(false));
        }
        other => panic!("{other:?}"),
    }
    assert!(!app.is_listening && !app.audio_running && !app.transcription_open);
    assert!(app.set_listening(false).is_empty());
}

#[test]
fn without_an_engine_nothing_is_captured() {
    let mut app = app();
    let actions = app.set_listening(true);
    assert!(matches!(&actions[..], [Action::SendOsc(_)]));
    assert!(app.is_listening && !app.audio_running);
    assert_eq!(app.status_message, "Engine not ready");
}

#[test]
fn without_a_socket_nothing_is_sent() {
    let mut app: App = idle(Startup { osc_connected: false, ..startup() });
    app.settings.auto_copy = false;
    assert!(app.set_listening(true).is_empty());
    assert!(app.append_text("hi").is_empty());
    assert_eq!(app.recognized_text, "hi");
}

#[test]
fn the_button_switches_in_its_own_mode() {
    let mut app = running();
    app.click_listen();
    assert!(app.is_listening);
    assert_eq!(app.status_message, "Listening...");
    app.click_listen();
    assert!(!app.is_listening);
    assert_eq!(app.status_message, "Ready");
    app.settings.listening_mode = ListeningMode::ToggleOsc;
    assert!(app.click_listen().is_empty());
    assert!(!app.is_listening);
}

#[test]
fn the_button_speaks_louder_than_a_missing_engine() {
    let mut app = app();
    app.click_listen();
    assert_eq!(app.status_message, "Listening...");
}

#[test]
fn always_on_listens_once_an_engine_runs() {
    let mut app = app();
    app.settings.listening_mode = ListeningMode::AlwaysOn;
    assert!(frame(&mut app).is_empty());
    assert!(!app.is_listening);
    app.click_start(ModelVariant::Small, false);
    let actions = app.update(&vec![], Some(InitEvent::Success(1)), &vec![], &vec![]);
    assert!(matches!(&actions[..], [Action::StartCapture { .. }, Action::SendOsc(_)]));
    assert!(app.is_listening);
    assert_eq!(app.status_message, "Always On");
    assert!(frame(&mut app).is_empty());
}

#[test]
fn the_osc_thread_follows_the_mode() {
    let mut app = app();
    app.settings.listening_mode = ListeningMode::ToggleOsc;
    assert!(matches!(&frame(&mut app)[..], [Action::SpawnOscListener]));
    assert!(app.osc_listening && app.osc_running);
    assert!(frame(&mut app).is_empty());
    app.settings.listening_mode = ListeningMode::ToggleButton;
    assert!(matches!(&frame(&mut app)[..], [Action::StopOscListener]));
    assert!(!app.osc_listening && !app.osc_running);
    assert!(frame(&mut app).is_empty());
}

#[test]
fn the_avatar_has_the_last_word() {
    let mut app = running();
    app.settings.listening_mode = ListeningMode::ToggleOsc;
    frame(&mut app);
    let actions = app.update(&vec![], None, &vec![], &vec![true, true, false, true]);
    assert_eq!(actions.len(), 6);
    assert!(app.is_listening);
    assert_eq!(app.status_message, "OSC: On");
    app.update(&vec![], None, &vec![], &vec![true, false]);
    assert!(!app.is_listening);
    assert_eq!(app.status_message, "OSC: Off");
    app.settings.listening_mode = ListeningMode::ToggleButton;
    app.update(&vec![], None, &vec![], &vec![true]);
    assert!(!app.is_listening);
}

#[test]
fn a_download_goes_its_way() {
    let mut app = app();
    assert!(app.click_download(ModelVariant::Small).is_empty());
    let actions = app.click_download(ModelVariant::Large);
    assert!(matches!(&actions[..], [Action::SpawnDownload(ModelVariant::Large)]));
    match app.model_status(ModelVariant::Large) {
        ModelStatus::Downloading { current_file, current_bytes: 0, total_bytes: 0 } => {
            assert_eq!(current_file, MODEL_FILES[0]);
        }
        other => panic!("{other:?}"),
    }
    assert!(app.needs_repaint());
    app.handle_download_events(&vec![
        DownloadEvent::Progress { file: "x".to_string(), bytes: 5, total: 9 },
        DownloadEvent::FileDone("x".to_string()),
    ]);
    assert_eq!(app.status_message, "Downloaded: x");
    match app.model_status(ModelVariant::Large) {
        ModelStatus::Downloading { current_file, current_bytes: 5, total_bytes: 9 } => {
            assert_eq!(current_file, "x");
        }
        other => panic!("{other:?}"),
    }
    app.handle_download_events(&vec![
        DownloadEvent::AllDone,
        DownloadEvent::Error("too late".to_string()),
    ]);
    assert_eq!(*app.model_status(ModelVariant::Large), ModelStatus::Ready);
    assert_eq!(app.status_message, "Download complete");
    assert_eq!(app.downloading_variant, None);
    assert!(!app.download_active);
}

#[test]
fn a_download_that_fails_is_told_and_can_be_tried_again() {
    let mut app = app();
    app.click_download(ModelVariant::Large);
    app.handle_download_events(&vec![
        DownloadEvent::FileDone("x".to_string()),
        DownloadEvent::Error("y: 404".to_string()),
        DownloadEvent::AllDone,
    ]);
    assert!(matches!(
        app.model_status(ModelVariant::Large),
        ModelStatus::Error(e) if e == "y: 404"
    ));
    assert!(!app.download_active);
    assert_eq!(app.downloading_variant, None);
    assert!(app.can_download(ModelVariant::Large));
    let actions = app.click_download(ModelVariant::Large);
    assert!(matches!(&actions[..], [Action::SpawnDownload(ModelVariant::Large)]));
}

#[test]
fn a_download_that_failed_can_be_deleted_and_tried_again() {
    let mut app = app();
    app.click_download(ModelVariant::Large);
    assert!(!app.can_delete(ModelVariant::Large));
    assert!(app.click_delete(ModelVariant::Large).is_empty());
    app.handle_download_events(&vec![DownloadEvent::Error("y: 404".to_string())]);
    let actions = app.click_delete(ModelVariant::Large);
    assert!(matches!(&actions[..], [Action::RemoveModelDir(ModelVariant::Large)]));
    assert_eq!(*app.model_status(ModelVariant::Large), ModelStatus::NotDownloaded);
    assert_eq!(app.status_message, "Model deleted");
    let actions = app.click_download(ModelVariant::Large);
    assert!(matches!(&actions[..], [Action::SpawnDownload(ModelVariant::Large)]));
}

#[test]
fn a_model_is_stopped() {
    let mut app = running();
    app.set_listening(true);
    let actions = app.click_stop(ModelVariant::Small);
    assert!(matches!(&actions[..], [Action::StopCapture, Action::SendOsc(_)]));
    assert!(app.engine.is_none());
    assert_eq!(app.active_model, None);
    assert_eq!(app.status_message, "Model stopped");
    assert_eq!(*app.model_status(ModelVariant::Small), ModelStatus::Ready);
    assert!(app.click_stop(ModelVariant::Small).is_empty());
}

#[test]
fn a_deleted_model_can_be_downloaded_at_once() {
    let mut app = running();
    let actions = app.click_delete(ModelVariant::Small);
    assert!(matches!(&actions[..], [Action::RemoveModelDir(ModelVariant::Small)]));
    assert_eq!(*app.model_status(ModelVariant::Small), ModelStatus::NotDownloaded);
    assert!(app.engine.is_none());
    assert_eq!(app.active_model, None);
    assert_eq!(app.status_message, "Model deleted");
    assert!(app.can_download(ModelVariant::Small));
    assert_eq!(app.click_download(ModelVariant::Small).len(), 1);
    assert!(app.click_delete(ModelVariant::Small).is_empty());
}

#[test]
fn the_other_model_runs_on_when_one_is_deleted() {
    let mut app = running();
    app.model_status_large = ModelStatus::Ready;
    app.click_delete(ModelVariant::Large);
    assert_eq!(app.active_model, Some(ModelVariant::Small));
    assert_eq!(app.engine, Some(7));
}

#[test]
fn what_is_heard_is_shown_sent_and_copied() {
    let mut app = running();
    app.set_listening(true);
    let heard = vec![
        TranscriptionEvent::FinalResult("one".to_string()),
        TranscriptionEvent::FinalResult("two".to_string()),
    ];
    let actions = app.handle_transcription_events(&heard);
    match &actions[..] {
        [Action::SendOsc(a), Action::CopyToClipboard(b), Action::SendOsc(c), Action::CopyToClipboard(d)] =>
        {
            assert_eq!(*a, chatbox_message("one"));
            assert_eq!(b, "one");
            assert_eq!(*c, chatbox_message("two"));
            assert_eq!(d, "one\ntwo");
        }
        other => panic!("{other:?}"),
    }
    assert_eq!(app.recognized_text, "one\ntwo");
    assert_eq!(app.status_message, "Copied");
    let trouble = vec![TranscriptionEvent::Error("no device".to_string())];
    assert!(app.handle_transcription_events(&trouble).is_empty());
    assert_eq!(app.status_message, "Transcription error: no device");
}

#[test]
fn new_text_replaces_the_old_where_it_is_not_appended() {
    let mut app = app();
    app.settings.append_mode = false;
    app.settings.auto_copy = false;
    app.append_text("one");
    assert_eq!(app.append_text("two").len(), 1);
    assert_eq!(app.recognized_text, "two");
    assert!(app.append_text("").is_empty());
    assert_eq!(app.recognized_text, "");
    assert_eq!(app.status_message, "Model stopped");
}

#[test]
fn an_empty_text_is_appended_and_not_sent() {
    let mut app = app();
    app.append_text("one");
    let actions = app.append_text("");
    assert!(matches!(&actions[..], [Action::CopyToClipboard(text)] if text == "one\n"));
}

#[test]
fn text_is_copied_and_cleared() {
    let mut app = app();
    app.append_text("one");
    assert!(matches!(&app.copy_text()[..], [Action::CopyToClipboard(text)] if text == "one"));
    assert_eq!(app.status_message, "Copied");
    app.clear_text();
    assert_eq!(app.recognized_text, "");
    assert_eq!(app.status_message, "Cleared");
}

#[test]
fn devices_are_chosen_and_looked_up_again() {
    let mut app = app();
    app.select_device(1);
    assert_eq!(app.selected_device, 1);
    app.select_device(2);
    assert_eq!(app.selected_device, 1);
    app.refresh_devices(Some("Mic".to_string()), &vec!["Mic".to_string(), "Line".to_string()]);
    assert_eq!(app.available_devices, vec!["Mic (default)".to_string(), "Line".to_string()]);
    assert_eq!(app.selected_device, 0);
    assert_eq!(app.status_message, "Devices refreshed");
}

#[test]
fn settings_are_saved_and_the_model_started_anew() {
    let mut app = app();
    assert!(matches!(&app.apply_settings()[..], [Action::WriteConfig(_)]));
    let mut app = running();
    app.settings.search_depth = 8;
    match &app.apply_settings()[..] {
        [Action::WriteConfig(config), Action::SpawnInit { variant: ModelVariant::Small, settings }] => {
            assert_eq!(config.settings.search_depth, 8);
            assert_eq!(settings.search_depth, 8);
        }
        other => panic!("{other:?}"),
    }
    assert!(app.active_initializing());
}

#[test]
fn a_reset_restores_and_saves_the_factory_settings() {
    let mut app = app();
    app.settings.num_threads = 12;
    app.settings.hotwords = "x".to_string();
    app.select_device(1);
    match &app.reset_config()[..] {
        [Action::WriteConfig(config)] => {
            assert_eq!(format!("{:?}", config.settings), format!("{:?}", Settings::default()));
            assert_eq!(config.selected_device, 0);
        }
        other => panic!("{other:?}"),
    }
    assert_eq!(app.settings.num_threads, 4);
    assert_eq!(app.status_message, "Config reset");
}

#[test]
fn a_sound_file_is_transcribed() {
    let mut app = app();
    app.test_file_path = "a.wav".to_string();
    assert!(app.run_test_file().is_empty());
    assert_eq!(app.status_message, "Model not ready");
    let mut app = running();
    app.test_file_path = "a.wav".to_string();
    assert!(matches!(&app.run_test_file()[..], [Action::TranscribeFile(path)] if path == "a.wav"));
    app.finish_test_file(Ok("hi".to_string()));
    assert_eq!(app.recognized_text, "hi");
    assert!(app.finish_test_file(Err("Failed to read WAV file".to_string())).is_empty());
    assert_eq!(app.status_message, "Error: Failed to read WAV file");
}

#[test]
fn pages_are_chosen() {
    let mut app = app();
    for view in [View::Manage, View::Settings, View::Debug, View::Main] {
        app.select_view(view);
        assert_eq!(app.view, view);
    }
}

#[test]
fn a_status_is_set_for_one_model() {
    let mut app = app();
    app.set_model_status(ModelVariant::Large, ModelStatus::Initializing);
    assert_eq!(app.model_status_large, ModelStatus::Initializing);
    assert_eq!(app.model_status_small, ModelStatus::Ready);
    app.set_model_status(ModelVariant::Small, ModelStatus::NotDownloaded);
    assert_eq!(app.model_status_small, ModelStatus::NotDownloaded);
    assert_eq!(app.start_download(ModelVariant::Small).len(), 1);
    assert_eq!(app.downloading_variant, Some(ModelVariant::Small));
}

#[test]
fn vrchat_is_told_of_every_change() {
    let mut app = running();
    for on in [true, false, true] {
        match app.set_listening(on).last() {
            Some(Action::SendOsc(bytes)) => assert_eq!(*bytes, typing_message(on)),
            other => panic!("{other:?}"),
        }
    }
}
