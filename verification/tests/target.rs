use pv_monitoring::target::{parse_port, parse_target, ship_target, PortError};

#[test]
fn target_with_port() {
    let (h, p) = parse_target("192.168.178.42:1502").unwrap();
    assert_eq!(h, "192.168.178.42");
    assert_eq!(p, 1502);
    let (h, p) = parse_target("inverter:502").unwrap();
    assert_eq!((h.as_str(), p), ("inverter", 502));
}

#[test]
fn target_without_port_uses_1502() {
    let (h, p) = parse_target("10.0.0.5").unwrap();
    assert_eq!((h.as_str(), p), ("10.0.0.5", 1502));
}

#[test]
fn target_port_errors() {
    assert_eq!(parse_target("h:").err(), Some(PortError::Empty));
    assert_eq!(parse_target("h:+").err(), Some(PortError::InvalidDigit));
    assert_eq!(parse_target("h:12a").err(), Some(PortError::InvalidDigit));
    assert_eq!(parse_target("h:70000").err(), Some(PortError::TooLarge));
    assert_eq!(parse_target("h:-1").err(), Some(PortError::InvalidDigit));
    assert_eq!(parse_target("h:1:2").err(), Some(PortError::InvalidDigit));
}

#[test]
fn port_parsing_like_std() {
    for s in ["0", "+80", "65535", "65536", "", "+", "007", "99999x", "1x", "٣"] {
        let ours = parse_port(s);
        let std = s.parse::<u16>();
        match (ours, std) {
            (Ok(a), Ok(b)) => assert_eq!(a, b, "{}", s),
            (Err(_), Err(_)) => {},
            (a, b) => panic!("{}: {:?} vs {:?}", s, a, b),
        }
    }
    assert_eq!(parse_port("+80"), Ok(80));
    assert_eq!(parse_port("99999x"), Err(PortError::TooLarge));
}

#[test]
fn port_text_roundtrip() {
    // Law: the decimal text of a port reads back as that port.
    for p in [0u16, 7, 10, 502, 1502, 9999, 10000, 65535] {
        assert_eq!(parse_port(&p.to_string()), Ok(p));
    }
}

#[test]
fn ship_targets() {
    let (rest, ip) = ship_target("wss://192.168.1.20:12480").unwrap();
    assert_eq!(rest, "192.168.1.20:12480");
    assert_eq!(ip, "192.168.1.20");
    let (rest, ip) = ship_target("10.1.1.1:4711").unwrap();
    assert_eq!((rest.as_str(), ip.as_str()), ("10.1.1.1:4711", "10.1.1.1"));
    assert!(ship_target("wss://host").is_none());
}
