use perihelion::storage::{config_path, config_path_in};
use std::path::PathBuf;

#[test]
fn the_configuration_is_kept_below_the_configuration_directory() {
    let path = config_path();
    assert_eq!(path.base, dirs::config_dir());
    assert_eq!(path.parts, vec!["perihelion", "config.json"]);
}

#[test]
fn without_a_configuration_directory_there_is_no_base() {
    let path = config_path_in(None);
    assert_eq!(path.base, None);
    assert_eq!(path.parts, vec!["perihelion", "config.json"]);
    let path = config_path_in(Some(PathBuf::from("/home/a/.config")));
    assert_eq!(path.base, Some(PathBuf::from("/home/a/.config")));
}
