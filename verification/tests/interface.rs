use open_sockets::interface::{check_channel, get_interface, resolve_interface, ChannelOutcome, OsError};

fn names() -> Vec<String> {
    vec![String::from("lo0"), String::from("en0"), String::from("en01"), String::from("en0")]
}

#[test]
fn interface_is_found_by_its_exact_name() {
    assert_eq!(get_interface(&names(), "en0"), Some(1));
    assert_eq!(get_interface(&names(), "lo0"), Some(0));
    assert_eq!(get_interface(&names(), "en01"), Some(2));
}

#[test]
fn no_prefix_and_no_fallback() {
    assert_eq!(get_interface(&names(), "en"), None);
    assert_eq!(get_interface(&names(), "EN0"), None);
    assert_eq!(get_interface(&names(), ""), None);
    assert_eq!(get_interface(&Vec::new(), "en0"), None);
}

#[test]
fn missing_interface_is_the_not_found_error() {
    match resolve_interface(&names(), "wlan9") {
        Err(OsError::InterfaceNotFound(name)) => assert_eq!(name, "wlan9"),
        other => panic!("unexpected: {:?}", other),
    }
    assert!(matches!(resolve_interface(&names(), "en0"), Ok(1)));
}

#[test]
fn error_messages() {
    assert_eq!(
        OsError::InterfaceNotFound(String::from("eth7")).message(),
        "Cannot find interface eth7"
    );
    assert_eq!(OsError::UnknownInterfaceType.message(), "Unknown interface type");
    assert_eq!(
        OsError::ListenFailed(String::from("denied")).message(),
        "Failed to listen to network interface: denied"
    );
}

#[test]
fn only_ethernet_channels_pass() {
    assert!(check_channel(ChannelOutcome::Ethernet).is_ok());
    assert!(matches!(
        check_channel(ChannelOutcome::OtherLinkType),
        Err(OsError::UnknownInterfaceType)
    ));
    match check_channel(ChannelOutcome::Refused(String::from("denied"))) {
        Err(OsError::ListenFailed(reason)) => assert_eq!(reason, "denied"),
        other => panic!("unexpected: {:?}", other),
    }
}
