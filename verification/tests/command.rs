use ping_supervisor::command::{
    build_command, is_permitted, is_valid_address, Platform, ProbeError,
};

#[test]
fn plain_address_is_accepted() {
    assert!(is_valid_address("8.8.8.8"));
    assert!(is_valid_address("example-host.org"));
    assert!(is_valid_address("fe80::1"));
    assert!(is_valid_address("b\u{00fc}cher.example"));
    assert!(is_valid_address(""));
}

#[test]
fn address_with_other_characters_is_refused() {
    assert!(!is_valid_address("8.8.8.8; rm -rf /"));
    assert!(!is_valid_address("8.8.8.8 "));
    assert!(!is_valid_address("host/path"));
    assert!(!is_valid_address("a_b"));
    assert!(!is_valid_address("$(reboot)"));
}

#[test]
fn permitted_characters() {
    assert!(is_permitted('a'));
    assert!(is_permitted('Z'));
    assert!(is_permitted('7'));
    assert!(is_permitted('.'));
    assert!(is_permitted('-'));
    assert!(is_permitted(':'));
    assert!(!is_permitted(';'));
    assert!(!is_permitted(' '));
    assert!(!is_permitted('&'));
}

#[test]
fn command_elsewhere_counts_with_c() {
    let command = build_command("8.8.8.8", 4, Platform::Other).unwrap();
    assert_eq!(command.program, "ping");
    assert_eq!(command.args, vec!["-c".to_string(), "4".to_string(), "8.8.8.8".to_string()]);
    assert!(command.capture_output);
    assert!(!command.hide_window);
}

#[test]
fn command_on_windows_counts_with_n_and_hides_its_window() {
    let command = build_command("example.org", 120, Platform::Windows).unwrap();
    assert_eq!(command.program, "ping");
    assert_eq!(
        command.args,
        vec!["-n".to_string(), "120".to_string(), "example.org".to_string()]
    );
    assert!(command.capture_output);
    assert!(command.hide_window);
}

#[test]
fn command_for_an_invalid_address_is_refused() {
    assert_eq!(
        build_command("8.8.8.8; rm -rf /", 4, Platform::Other),
        Err(ProbeError::InvalidAddress)
    );
    assert_eq!(build_command("a b", 1, Platform::Windows), Err(ProbeError::InvalidAddress));
}

#[test]
fn error_messages() {
    assert_eq!(ProbeError::InvalidAddress.message(), "Invalid address format");
    assert_eq!(ProbeError::SpawnFailure.message(), "Failed to spawn ping");
    assert_eq!(ProbeError::StreamUnavailable.message(), "Failed to get stdout");
}
