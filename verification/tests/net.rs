use minivm::net::{Ipv4Addr, NetError, NetworkPlan};

#[test]
fn allocates_expected_addresses() {
    let plan = NetworkPlan::new(Ipv4Addr::new(192, 168, 100, 0), 24).unwrap();
    assert_eq!(plan.gateway().unwrap(), Ipv4Addr::new(192, 168, 100, 1));
    assert_eq!(plan.guest_ip(0).unwrap(), Ipv4Addr::new(192, 168, 100, 2));
    assert_eq!(plan.guest_ip(3).unwrap(), Ipv4Addr::new(192, 168, 100, 5));
}

#[test]
fn keeps_tap_names_short() {
    let plan = NetworkPlan::new(Ipv4Addr::new(10, 0, 0, 0), 24).unwrap();
    assert_eq!(plan.tap_name("mvm", 12).unwrap(), "mvm12");
    assert!(plan.tap_name("this-prefix-is-too-long", 1).is_err());
}

#[test]
fn generates_mac_addresses() {
    let plan = NetworkPlan::new(Ipv4Addr::new(10, 0, 0, 0), 24).unwrap();
    assert_eq!(plan.mac_address(1).unwrap(), "02:fc:00:00:00:01");
    assert_eq!(plan.mac_address(257).unwrap(), "02:fc:00:00:01:01");
}

#[test]
fn refuses_long_prefixes() {
    assert!(NetworkPlan::new(Ipv4Addr::new(10, 0, 0, 0), 30).is_ok());
    match NetworkPlan::new(Ipv4Addr::new(10, 0, 0, 0), 31) {
        Err(NetError::PrefixTooLong { prefix_len }) => assert_eq!(prefix_len, 31),
        other => panic!("unexpected {other:?}"),
    }
}

#[test]
fn renders_cidr_and_addresses() {
    let plan = NetworkPlan::new(Ipv4Addr::new(192, 168, 100, 0), 24).unwrap();
    assert_eq!(plan.guest_cidr(0).unwrap(), "192.168.100.2/24");
    assert_eq!(plan.guest_cidr(253).unwrap(), "192.168.100.255/24");
    assert_eq!(plan.guest_cidr(254).unwrap(), "192.168.101.0/24");
    assert_eq!(Ipv4Addr::new(10, 0, 0, 255).render(), "10.0.0.255");
}

#[test]
fn reports_address_overflow() {
    let plan = NetworkPlan::new(Ipv4Addr::new(255, 255, 255, 254), 24).unwrap();
    assert_eq!(plan.gateway().unwrap(), Ipv4Addr::new(255, 255, 255, 255));
    match plan.guest_ip(0) {
        Err(NetError::AddressOverflow { offset }) => assert_eq!(offset, 2),
        other => panic!("unexpected {other:?}"),
    }
}

#[test]
fn guest_addresses_are_distinct() {
    let plan = NetworkPlan::new(Ipv4Addr::new(192, 168, 0, 0), 16).unwrap();
    let gateway = plan.gateway().unwrap();
    let mut seen = std::collections::HashSet::new();
    for i in 0..600 {
        let ip = plan.guest_ip(i).unwrap();
        assert_ne!(ip, gateway);
        assert!(seen.insert(ip.to_u32()));
    }
}

#[test]
fn tap_names_and_macs_are_distinct() {
    let plan = NetworkPlan::new(Ipv4Addr::new(10, 0, 0, 0), 24).unwrap();
    let mut taps = std::collections::HashSet::new();
    let mut macs = std::collections::HashSet::new();
    for i in 0..1000 {
        assert!(taps.insert(plan.tap_name("mvm", i).unwrap()));
        assert!(macs.insert(plan.mac_address(i).unwrap()));
    }
    assert_eq!(plan.mac_address(65535).unwrap(), "02:fc:00:00:ff:ff");
    assert!(matches!(plan.mac_address(65536), Err(NetError::TooManyVms)));
}

#[test]
fn tap_name_limit_counts_bytes() {
    let plan = NetworkPlan::new(Ipv4Addr::new(10, 0, 0, 0), 24).unwrap();
    assert_eq!(plan.tap_name("abcdefghijklmn", 1).unwrap(), "abcdefghijklmn1");
    match plan.tap_name("abcdefghijklmn", 10) {
        Err(NetError::TapNameTooLong { name }) => assert_eq!(name, "abcdefghijklmn10"),
        other => panic!("unexpected {other:?}"),
    }
    // seven two-byte characters and one digit: 8 characters but 15 bytes
    assert!(plan.tap_name("ééééééé", 1).is_ok());
    assert!(plan.tap_name("ééééééé", 10).is_err());
}

#[test]
fn parses_dotted_decimal() {
    assert_eq!(Ipv4Addr::parse("192.168.100.0"), Some(Ipv4Addr::new(192, 168, 100, 0)));
    assert_eq!(Ipv4Addr::parse("0.0.0.0"), Some(Ipv4Addr::new(0, 0, 0, 0)));
    assert_eq!(Ipv4Addr::parse("255.255.255.255"), Some(Ipv4Addr::new(255, 255, 255, 255)));
    for bad in ["", "1.2.3", "1.2.3.4.5", "256.0.0.1", "01.2.3.4", "1.2.3.04", "1..2.3", "a.b.c.d", "1.2.3.4 ", "+1.2.3.4", "1.2.3.1000"] {
        assert_eq!(Ipv4Addr::parse(bad), None, "{bad:?}");
    }
}

#[test]
fn parse_reads_back_every_rendering() {
    for ip in [Ipv4Addr::new(1, 22, 255, 0), Ipv4Addr::new(10, 0, 100, 9), Ipv4Addr::new(0, 255, 8, 80)] {
        assert_eq!(Ipv4Addr::parse(&ip.render()), Some(ip));
    }
}

#[test]
fn converts_to_and_from_bits() {
    let ip = Ipv4Addr::new(192, 168, 1, 2);
    assert_eq!(ip.to_u32(), 0xc0a8_0102);
    assert_eq!(Ipv4Addr::from_u32(0xc0a8_0102), ip);
    assert_eq!(ip.octets(), [192, 168, 1, 2]);
}

#[test]
fn guest_cidr_is_the_guest_address_with_prefix() {
    let plan = NetworkPlan::new(Ipv4Addr::new(192, 168, 100, 0), 24).unwrap();
    let ip = plan.guest_ip(6).unwrap();
    assert_eq!(ip, Ipv4Addr::new(192, 168, 100, 8));
    assert_eq!(plan.guest_cidr(6).unwrap(), format!("{}/24", ip.render()));
    assert_eq!(plan.guest_cidr(6).unwrap(), "192.168.100.8/24");
    let top = NetworkPlan::new(Ipv4Addr::new(255, 255, 255, 250), 30).unwrap();
    assert!(top.guest_ip(4).is_err());
    assert!(top.guest_cidr(4).is_err());
    assert_eq!(top.guest_cidr(3).unwrap(), "255.255.255.255/30");
}
