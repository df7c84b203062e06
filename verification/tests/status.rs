use perihelion::status::ModelStatus;
use perihelion::view::View;

fn downloading(file: &str, bytes: u64) -> ModelStatus {
    ModelStatus::Downloading { current_file: file.to_string(), current_bytes: bytes, total_bytes: 9 }
}

#[test]
fn statuses_are_equal_by_kind() {
    let all = [
        ModelStatus::NotDownloaded,
        downloading("a", 1),
        ModelStatus::Initializing,
        ModelStatus::Ready,
        ModelStatus::Error("a".to_string()),
    ];
    for (i, a) in all.iter().enumerate() {
        for (j, b) in all.iter().enumerate() {
            assert_eq!(a == b, i == j);
        }
    }
    assert_eq!(downloading("a", 1), downloading("b", 2));
    assert_eq!(ModelStatus::Error("a".to_string()), ModelStatus::Error("b".to_string()));
}

#[test]
fn downloads_and_starts_are_busy() {
    assert!(downloading("a", 1).is_busy());
    assert!(ModelStatus::Initializing.is_busy());
    assert!(!ModelStatus::NotDownloaded.is_busy());
    assert!(!ModelStatus::Ready.is_busy());
    assert!(!ModelStatus::Error(String::new()).is_busy());
}

#[test]
fn the_main_page_is_shown_first() {
    assert_eq!(View::default(), View::Main);
}
