use perihelion::app::{PerihelionApp, Startup};
use perihelion::config::ListeningMode;
use perihelion::engine::ModelVariant;
use perihelion::events::InitEvent;
use perihelion::pages::RAM_WARNING_BYTES;
use perihelion::status::ModelStatus;

fn app(total_ram_bytes: Option<u64>) -> PerihelionApp<u32> {
    let (mut app, _) = PerihelionApp::launch(Startup {
        small_found: true,
        large_found: false,
        osc_connected: false,
        available_devices: vec!["Mic (default)".to_string()],
        config: None,
        total_ram_bytes,
    });
    app.handle_init_events(Some(InitEvent::Success(1)));
    app.click_stop(ModelVariant::Small);
    app
}

#[test]
fn a_missing_model_can_be_downloaded() {
    let mut app = app(None);
    let card = app.model_card(ModelVariant::Large);
    assert_eq!(card.status_label, "Not downloaded");
    assert_eq!(card.download, Some(true));
    assert_eq!(card.start, None);
    assert!(!card.stop && !card.delete && !card.ram_warning);
    assert!(card.progress.is_none() && card.error.is_none());
    app.download_active = true;
    assert_eq!(app.model_card(ModelVariant::Large).download, Some(false));
}

#[test]
fn a_download_shows_its_progress() {
    let mut app = app(None);
    app.click_download(ModelVariant::Large);
    let card = app.model_card(ModelVariant::Large);
    assert_eq!(card.status_label, "Downloading...");
    assert_eq!(card.progress.unwrap().text, "Starting...");
    assert_eq!(card.download, None);
    app.set_model_status(
        ModelVariant::Large,
        ModelStatus::Downloading {
            current_file: "encoder.int8.onnx".to_string(),
            current_bytes: 12_999_999,
            total_bytes: 730_000_000,
        },
    );
    let progress = app.model_card(ModelVariant::Large).progress.unwrap();
    assert_eq!(progress.text, "encoder.int8.onnx  12 / 730 MB");
    assert_eq!(progress.current, 12_999_999);
    assert_eq!(progress.total, 730_000_000);
}

#[test]
fn a_model_that_is_there_can_be_started_and_deleted() {
    let mut app = app(None);
    let card = app.model_card(ModelVariant::Small);
    assert_eq!(card.status_label, "Downloaded");
    assert_eq!(card.start, Some(true));
    assert!(card.delete && !card.stop);
    app.init_pending = true;
    assert_eq!(app.model_card(ModelVariant::Small).start, Some(false));
}

#[test]
fn a_running_model_can_be_stopped() {
    let mut app = app(None);
    app.click_start(ModelVariant::Small, false);
    assert_eq!(app.model_card(ModelVariant::Small).status_label, "Starting...");
    assert_eq!(app.main_label(), Some("initializing"));
    app.handle_init_events(Some(InitEvent::Success(1)));
    let card = app.model_card(ModelVariant::Small);
    assert_eq!(card.status_label, "● Running");
    assert_eq!(card.start, None);
    assert!(card.stop && card.delete);
    assert!(app.can_stop(ModelVariant::Small) && !app.can_start(ModelVariant::Small));
    assert_eq!(app.main_label(), Some("ready"));
}

#[test]
fn an_error_is_shown_and_can_be_tried_again() {
    let mut app = app(None);
    app.set_model_status(ModelVariant::Small, ModelStatus::Error("no".to_string()));
    app.active_model = Some(ModelVariant::Small);
    let card = app.model_card(ModelVariant::Small);
    assert_eq!(card.status_label, "Error");
    assert_eq!(card.error.as_deref(), Some("no"));
    assert_eq!(card.download, Some(true));
    assert!(card.delete);
    assert_eq!(app.main_label(), Some("error"));
    app.set_model_status(ModelVariant::Small, ModelStatus::NotDownloaded);
    assert_eq!(app.main_label(), None);
}

#[test]
fn little_memory_is_warned_of_for_the_large_model() {
    let gb = |bytes: u64| bytes as f64 / (1024.0 * 1024.0 * 1024.0);
    for bytes in [0, 17_179_869_184, RAM_WARNING_BYTES - 1, RAM_WARNING_BYTES, 1 << 40, u64::MAX] {
        let app = app(Some(bytes));
        assert_eq!(app.model_card(ModelVariant::Large).ram_warning, gb(bytes) < 65.8, "{bytes}");
        assert!(!app.model_card(ModelVariant::Small).ram_warning);
    }
    assert!(!app(None).model_card(ModelVariant::Large).ram_warning);
}

#[test]
fn the_main_page_says_what_runs() {
    let mut app = app(None);
    assert_eq!(app.main_label(), Some("none"));
    assert_eq!(app.listen_label(), "Off");
    assert!(app.can_click_listen());
    app.is_listening = true;
    assert_eq!(app.listen_label(), "On");
    app.settings.listening_mode = ListeningMode::AlwaysOn;
    assert!(!app.can_click_listen());
}

#[test]
fn the_selected_device_is_named() {
    let mut app = app(None);
    assert_eq!(app.device_label(), "Mic (default)");
    app.selected_device = 4;
    assert_eq!(app.device_label(), "Unknown");
}
