use perihelion::devices::get_available_devices;

fn names(list: &[&str]) -> Vec<String> {
    list.iter().map(|s| s.to_string()).collect()
}

#[test]
fn the_default_device_comes_first() {
    let devices = get_available_devices(Some("Mic".to_string()), &names(&["Headset", "Mic"]));
    assert_eq!(devices, names(&["Mic (default)", "Headset"]));
}

#[test]
fn a_name_inside_another_one_is_not_listed_again() {
    let devices = get_available_devices(None, &names(&["USB Mic 2", "USB Mic", "Mic", "Line", "Line"]));
    assert_eq!(devices, names(&["USB Mic 2", "Line"]));
    let devices = get_available_devices(None, &names(&["Mic", "Mic 2", ""]));
    assert_eq!(devices, names(&["Mic", "Mic 2"]));
}

#[test]
fn an_empty_list_says_so() {
    assert_eq!(get_available_devices(None, &vec![]), names(&["No devices found"]));
    assert_eq!(get_available_devices(Some("Mic".to_string()), &vec![]), names(&["Mic (default)"]));
}
