use ruuf::addr::{IpAddr, Ipv4Addr, Ipv6Addr, MacAddr};
use ruuf::cli::{parse_iface, parse_millis, Command};
use ruuf::error::{Error, ErrorKind};
use ruuf::iface::{get, get_ip_addr, get_ipv4_addr, get_mac_addr, get_usable, Interface};
use ruuf::spoof::select_interface;

fn iface(name: &str, up: bool, loopback: bool) -> Interface {
    Interface {
        name: name.to_string(),
        mac: Some(MacAddr(2, 0, 0, 0, 0, name.len() as u8)),
        ips: vec![IpAddr::V6(Ipv6Addr(1)), IpAddr::V4(Ipv4Addr(10, 0, 0, name.len() as u8))],
        up,
        loopback,
    }
}

fn host() -> Vec<Interface> {
    let mut second = iface("eth0", true, false);
    second.mac = Some(MacAddr(2, 0, 0, 0, 0, 99));
    vec![
        iface("lo", true, true),
        iface("down0", false, false),
        iface("eth0", true, false),
        iface("wlan0", true, false),
        second,
    ]
}

#[test]
fn parse_millis_reads_decimal_numbers() {
    assert_eq!(parse_millis("10000"), Ok(10000));
    assert_eq!(parse_millis("0"), Ok(0));
    assert_eq!(parse_millis("007"), Ok(7));
    assert_eq!(parse_millis("+5"), Ok(5));
    assert_eq!(parse_millis("18446744073709551615"), Ok(u64::MAX));
    assert_eq!(parse_millis("000000000000000000000000000000000000012"), Ok(12));
}

#[test]
fn parse_millis_refuses_everything_else() {
    let why = Err("No unsigned 64 bit integer provided");
    assert_eq!(parse_millis(""), why);
    assert_eq!(parse_millis("+"), why);
    assert_eq!(parse_millis("-"), why);
    assert_eq!(parse_millis("-5"), why);
    assert_eq!(parse_millis("++5"), why);
    assert_eq!(parse_millis("5+"), why);
    assert_eq!(parse_millis(" 5"), why);
    assert_eq!(parse_millis("5 "), why);
    assert_eq!(parse_millis("1_000"), why);
    assert_eq!(parse_millis("12a"), why);
    assert_eq!(parse_millis("0x10"), why);
    assert_eq!(parse_millis("1.5"), why);
    assert_eq!(parse_millis("\u{0663}"), why);
    assert_eq!(parse_millis("18446744073709551616"), why);
    assert_eq!(parse_millis("99999999999999999999999"), why);
}

#[test]
fn parse_millis_agrees_with_std() {
    let texts = [
        "", "0", "1", "+1", "-1", "+", "-", "+0", "-0", "00", "42", "4 2", "42\n", "\t42", "4e2",
        "18446744073709551614", "18446744073709551615", "18446744073709551616",
        "18446744073709551620", "28446744073709551615", "184467440737095516150", "+18446744073709551615",
        "+18446744073709551616", "٤٢", "４２", "0b1", "1u64", "9223372036854775808",
    ];
    for text in texts {
        assert_eq!(parse_millis(text).ok(), text.parse::<u64>().ok(), "{:?}", text);
    }
}

#[test]
fn get_gives_the_first_that_satisfies() {
    let interfaces = host();
    let found = get(&interfaces, |i: &Interface| i.name.starts_with('w'));
    assert_eq!(found, Some(&interfaces[3]));
    let found = get(&interfaces, |i: &Interface| !i.up);
    assert_eq!(found, Some(&interfaces[1]));
    let found = get(&interfaces, |_: &Interface| false);
    assert_eq!(found, None);
    let nothing: Vec<Interface> = Vec::new();
    assert_eq!(get(&nothing, |_: &Interface| true), None);
}

#[test]
fn get_usable_skips_loopback_and_down() {
    let interfaces = host();
    assert_eq!(get_usable(&interfaces), Some(&interfaces[2]));
    assert_ne!(interfaces[2], interfaces[4]);
    let only_bad = vec![iface("lo", true, true), iface("eth1", false, false)];
    assert_eq!(get_usable(&only_bad), None);
    assert!(interfaces[2].is_usable());
    assert!(!interfaces[0].is_usable());
    assert!(!interfaces[1].is_usable());
    assert!(interfaces[0].is_up() && interfaces[0].is_loopback());
}

#[test]
fn parse_iface_finds_the_first_usable_of_that_name() {
    let mut interfaces = host();
    interfaces[2].up = false;
    assert_eq!(parse_iface(&interfaces, "eth0"), Ok(&interfaces[4]));
    assert_ne!(interfaces[2].mac, interfaces[4].mac);
    assert_eq!(parse_iface(&interfaces, "lo"), Err("No usuable network interface found by given name"));
    assert_eq!(parse_iface(&interfaces, "down0"), Err("No usuable network interface found by given name"));
    assert_eq!(parse_iface(&interfaces, "eth"), Err("No usuable network interface found by given name"));
    assert_eq!(parse_iface(&interfaces, "wlan0"), Ok(&interfaces[3]));
}

#[test]
fn get_mac_addr_gives_what_the_interface_has() {
    let mut eth = iface("eth0", true, false);
    assert_eq!(get_mac_addr(&eth), Some(MacAddr(2, 0, 0, 0, 0, 4)));
    eth.mac = None;
    assert_eq!(get_mac_addr(&eth), None);
}

#[test]
fn get_ip_addr_gives_the_first_that_satisfies() {
    let mut eth = iface("eth0", true, false);
    eth.ips.push(IpAddr::V4(Ipv4Addr(192, 168, 0, 1)));
    assert_eq!(get_ip_addr(&eth, |ip: IpAddr| ip.is_ipv4()), Some(IpAddr::V4(Ipv4Addr(10, 0, 0, 4))));
    assert_eq!(get_ip_addr(&eth, |ip: IpAddr| !ip.is_ipv4()), Some(IpAddr::V6(Ipv6Addr(1))));
    assert_eq!(get_ip_addr(&eth, |_: IpAddr| true), Some(IpAddr::V6(Ipv6Addr(1))));
    assert_eq!(get_ip_addr(&eth, |_: IpAddr| false), None);
    assert_eq!(get_ipv4_addr(&eth), Some(Ipv4Addr(10, 0, 0, 4)));
    eth.ips = vec![IpAddr::V6(Ipv6Addr(7))];
    assert_eq!(get_ipv4_addr(&eth), None);
    eth.ips = vec![];
    assert_eq!(get_ipv4_addr(&eth), None);
}

#[test]
fn command_gives_back_its_values() {
    let eth = iface("eth0", true, false);
    let cmd = Command::new(true, Some(eth.clone()), 10000, 250, Ipv4Addr(10, 0, 0, 3), Ipv4Addr(10, 0, 0, 2));
    assert!(cmd.should_despoof());
    assert_eq!(cmd.iface(), Some(&eth));
    assert_eq!(cmd.resolve_timeout(), 10000);
    assert_eq!(cmd.spoof_interval(), 250);
    assert_eq!(cmd.target_ip_addr(), Ipv4Addr(10, 0, 0, 3));
    assert_eq!(cmd.victim_ip_addr(), Ipv4Addr(10, 0, 0, 2));
    let cmd = Command::new(false, None, 1, 2, Ipv4Addr(1, 1, 1, 1), Ipv4Addr(2, 2, 2, 2));
    assert!(!cmd.should_despoof());
    assert_eq!(cmd.iface(), None);
}

#[test]
fn select_interface_prefers_the_named_one() {
    let interfaces = host();
    let named = iface("tap9", false, true);
    let cmd = Command::new(false, Some(named.clone()), 1, 1, Ipv4Addr(1, 1, 1, 1), Ipv4Addr(2, 2, 2, 2));
    assert_eq!(select_interface(&cmd, &interfaces), Ok(&named));
    let cmd = Command::new(false, None, 1, 1, Ipv4Addr(1, 1, 1, 1), Ipv4Addr(2, 2, 2, 2));
    assert_eq!(select_interface(&cmd, &interfaces), Ok(&interfaces[2]));
    let none: Vec<Interface> = vec![iface("lo", true, true)];
    assert_eq!(select_interface(&cmd, &none), Err(Error::NoInterface));
}

#[test]
fn errors_have_their_kind_and_message() {
    let all = [
        (Error::NoInterface, ErrorKind::Configuration, "No usable network interface found"),
        (Error::ChannelCreation, ErrorKind::ChannelCreation, "Failed to create ARP client"),
        (Error::NoMacAddress, ErrorKind::Configuration, "No MAC address found on interface"),
        (Error::NoIpv4Address, ErrorKind::Configuration, "No IPv4 address found on interface"),
        (Error::ResolveTransmit, ErrorKind::Transmit, "Failed resolution"),
        (Error::ResolveReceive, ErrorKind::Receive, "Failed resolution"),
        (Error::ResolveTimeout, ErrorKind::ResolutionTimeout, "Failed resolution"),
        (Error::SpoofTransmit, ErrorKind::Transmit, "Failed to spoof"),
        (Error::DespoofTransmit, ErrorKind::Transmit, "Failed to despoof"),
    ];
    for (error, kind, message) in all {
        assert_eq!(error.kind(), kind);
        assert_eq!(error.message(), message);
    }
}
