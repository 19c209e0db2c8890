use freemdu_gateway::network::{dhcp_hostname, hostname_from_wifi, network_seed};
use freemdu_gateway::wifi::{first_step, next_step, wifi_settings, WifiEvent, WifiStep};

#[test]
fn hostname_of_a_mac_address() {
    assert_eq!(
        hostname_from_wifi(&[0x00, 0x0a, 0x9f, 0xa0, 0xff, 0x10]),
        "freemdu_home_000a9fa0ff10"
    );
    assert_ne!(hostname_from_wifi(&[0, 0, 0, 0, 0, 1]), hostname_from_wifi(&[0, 0, 0, 0, 1, 0]));
}

#[test]
fn hostnames_fit_into_dhcp_requests() {
    let hostname = hostname_from_wifi(&[0xff; 6]);
    assert_eq!(dhcp_hostname(&hostname).unwrap(), hostname);
    let longest = "x".repeat(32);
    assert_eq!(dhcp_hostname(&longest).unwrap(), longest);
    assert_eq!(dhcp_hostname("").unwrap(), "");
}

#[test]
fn long_hostnames_are_refused() {
    let failure = dhcp_hostname(&"x".repeat(33)).unwrap_err();
    assert_eq!(failure.message(), "Failed to set DHCP hostname: ()");
    // The limit is one of bytes, not of characters.
    assert!(dhcp_hostname(&"\u{e9}".repeat(16)).is_ok());
    assert!(dhcp_hostname(&"\u{e9}".repeat(17)).is_err());
}

#[test]
fn seed_of_two_numbers() {
    assert_eq!(network_seed(0, 0), 0);
    assert_eq!(network_seed(1, 2), 0x1_0000_0002);
    assert_eq!(network_seed(0xdead_beef, 0x0123_4567), 0xdead_beef_0123_4567);
    assert_eq!(network_seed(u32::MAX, u32::MAX), u64::MAX);
    assert_ne!(network_seed(1, 0), network_seed(0, 1));
}

#[test]
fn settings_of_the_radio() {
    let settings = wifi_settings("home", "secret");
    assert_eq!(&settings.country, b"01");
    assert!(settings.indoors);
    assert_eq!(settings.ssid, "home");
    assert_eq!(settings.password, "secret");
}

#[test]
fn wifi_is_kept_up() {
    assert_eq!(first_step(), WifiStep::Connect);
    assert_eq!(next_step(WifiEvent::Connected), WifiStep::AwaitDisconnect);
    assert_eq!(next_step(WifiEvent::Disconnected), WifiStep::Connect);
    assert_eq!(next_step(WifiEvent::ConnectFailed), WifiStep::Delay(5));
    assert_eq!(next_step(WifiEvent::DelayElapsed), WifiStep::Connect);
}
