use synth::device::contains_chars;
use synth::device::find_matching_device;

fn chars(s: &str) -> Vec<char> {
    s.chars().collect()
}

fn names(list: &[&str]) -> Vec<String> {
    list.iter().map(|s| s.to_string()).collect()
}

#[test]
fn finds_the_keyword_device() {
    let devices = names(&["Monitor of Built-in Audio", "USB Microphone", "PipeWire Loopback"]);
    assert_eq!(find_matching_device(&devices, &chars("pipewire")), Some(2));
}

#[test]
fn matching_is_case_insensitive() {
    let devices = names(&["PIPEWIRE CAPTURE"]);
    assert_eq!(find_matching_device(&devices, &chars("pipewire")), Some(0));
    let mixed = names(&["PipeWire Duplex"]);
    assert_eq!(find_matching_device(&mixed, &chars("pipewire")), Some(0));
}

#[test]
fn no_matching_device_is_none() {
    let devices = names(&["Built-in Audio", "HDMI Output"]);
    assert_eq!(find_matching_device(&devices, &chars("pipewire")), None);
    let empty: Vec<String> = Vec::new();
    assert_eq!(find_matching_device(&empty, &chars("pipewire")), None);
}

#[test]
fn first_matching_device_wins() {
    let devices = names(&["other", "pipewire one", "pipewire two"]);
    assert_eq!(find_matching_device(&devices, &chars("pipewire")), Some(1));
}

#[test]
fn substring_scan_finds_inner_runs() {
    assert!(contains_chars(&chars("xxpipewirexx"), &chars("pipewire")));
    assert!(!contains_chars(&chars("pipewir"), &chars("pipewire")));
    assert!(!contains_chars(&chars("pip ewire"), &chars("pipewire")));
    assert!(contains_chars(&chars("abc"), &chars("")));
    assert!(contains_chars(&chars(""), &chars("")));
    assert!(!contains_chars(&chars(""), &chars("a")));
}
