use minivm::launcher::{
    create_tap_commands, delete_tap_command, ensure_linux_host, launch_start, launch_step,
    plan_guest, prepare_launch, LaunchAction, LaunchConfig, LaunchError, LaunchEvent,
    LaunchFailure,
};
use minivm::net::{Ipv4Addr, NetError};

fn config() -> LaunchConfig {
    LaunchConfig {
        backend: "qemu".into(),
        count: 3,
        kernel: "/boot/bzImage".into(),
        initramfs: "out/initramfs.cpio".into(),
        workdir: "runtime".into(),
        host_api: "http://192.168.100.1:8080/incr".into(),
        bridge: "minivm0".into(),
        subnet_base: "192.168.100.0".into(),
        prefix_len: 24,
        memory_mib: 128,
        qemu_bin: "qemu-system-x86_64".into(),
        machine: "microvm".into(),
        accel: "kvm".into(),
        tap_prefix: "mvm".into(),
        skip_tap_setup: false,
        keep_taps: false,
    }
}

#[test]
fn prepares_the_network() {
    let network = prepare_launch(&config()).unwrap();
    assert_eq!(network.gateway, "192.168.100.1");
    assert_eq!(network.plan.base_addr(), Ipv4Addr::new(192, 168, 100, 0));
    assert_eq!(network.plan.prefix(), 24);
}

#[test]
fn refuses_bad_launch_settings() {
    let mut c = config();
    c.count = 0;
    assert!(matches!(prepare_launch(&c), Err(LaunchError::ZeroCount)));
    let mut c = config();
    c.subnet_base = "192.168.100".into();
    match prepare_launch(&c) {
        Err(LaunchError::InvalidSubnet { text }) => assert_eq!(text, "192.168.100"),
        other => panic!("unexpected {other:?}"),
    }
    let mut c = config();
    c.prefix_len = 31;
    assert!(matches!(
        prepare_launch(&c),
        Err(LaunchError::Network(NetError::PrefixTooLong { prefix_len: 31 }))
    ));
    let mut c = config();
    c.subnet_base = "255.255.255.255".into();
    assert!(matches!(
        prepare_launch(&c),
        Err(LaunchError::Network(NetError::AddressOverflow { offset: 1 }))
    ));
}

#[test]
fn plans_each_guest() {
    let c = config();
    let network = prepare_launch(&c).unwrap();
    let plan = plan_guest(&c, &network, 2).unwrap();
    assert_eq!(plan.spec.id, 2);
    assert_eq!(plan.spec.name, "vm2");
    assert_eq!(plan.spec.serial_log, "runtime/vm2.serial.log");
    assert_eq!(plan.spec.guest_ip_cidr, "192.168.100.4/24");
    assert_eq!(plan.spec.gateway, "192.168.100.1");
    assert_eq!(plan.spec.tap_name, "mvm2");
    assert_eq!(plan.spec.mac_address, "02:fc:00:00:00:02");
    assert_eq!(plan.spec.kernel, "/boot/bzImage");
    assert_eq!(plan.spec.memory_mib, 128);
    assert_eq!(
        plan.tap_setup,
        vec![
            vec!["tuntap", "add", "dev", "mvm2", "mode", "tap"],
            vec!["link", "set", "mvm2", "master", "minivm0"],
            vec!["link", "set", "mvm2", "up"],
        ]
    );
}

#[test]
fn skipping_tap_setup_plans_no_commands() {
    let mut c = config();
    c.skip_tap_setup = true;
    c.workdir = "/var/run/minivm/".into();
    let network = prepare_launch(&c).unwrap();
    let plan = plan_guest(&c, &network, 0).unwrap();
    assert!(plan.tap_setup.is_empty());
    assert_eq!(plan.spec.serial_log, "/var/run/minivm/vm0.serial.log");
    c.workdir = "".into();
    assert_eq!(plan_guest(&c, &network, 0).unwrap().spec.serial_log, "vm0.serial.log");
}

#[test]
fn guest_planning_refuses_in_order() {
    let mut c = config();
    c.tap_prefix = "a-very-long-tap-prefix".into();
    let network = prepare_launch(&c).unwrap();
    assert!(matches!(
        plan_guest(&c, &network, 0),
        Err(LaunchError::Network(NetError::TapNameTooLong { .. }))
    ));
    let c = config();
    let network = prepare_launch(&c).unwrap();
    assert!(matches!(
        plan_guest(&c, &network, 70000),
        Err(LaunchError::Network(NetError::TooManyVms))
    ));
    let mut c = config();
    c.subnet_base = "255.255.255.250".into();
    let network = prepare_launch(&c).unwrap();
    assert!(plan_guest(&c, &network, 3).is_ok());
    assert!(matches!(
        plan_guest(&c, &network, 4),
        Err(LaunchError::Network(NetError::AddressOverflow { offset: 6 }))
    ));
}

#[test]
fn guests_of_one_launch_do_not_collide() {
    let c = config();
    let network = prepare_launch(&c).unwrap();
    let plans: Vec<_> = (0..200).map(|i| plan_guest(&c, &network, i).unwrap()).collect();
    for (i, a) in plans.iter().enumerate() {
        for b in plans.iter().skip(i + 1) {
            assert_ne!(a.spec.name, b.spec.name);
            assert_ne!(a.spec.tap_name, b.spec.tap_name);
            assert_ne!(a.spec.guest_ip_cidr, b.spec.guest_ip_cidr);
            assert_ne!(a.spec.mac_address, b.spec.mac_address);
        }
    }
}

#[test]
fn tap_commands() {
    assert_eq!(
        create_tap_commands("t0", "br0"),
        vec![
            vec!["tuntap", "add", "dev", "t0", "mode", "tap"],
            vec!["link", "set", "t0", "master", "br0"],
            vec!["link", "set", "t0", "up"],
        ]
    );
    assert_eq!(delete_tap_command("t0"), vec!["link", "delete", "t0"]);
}

#[test]
fn tap_setup_needs_linux() {
    assert!(ensure_linux_host("linux").is_ok());
    match ensure_linux_host("macos") {
        Err(LaunchError::NotLinux { os }) => assert_eq!(os, "macos"),
        other => panic!("unexpected {other:?}"),
    }
}

#[test]
fn removes_created_taps_unless_kept() {
    let created = vec!["mvm0".to_string(), "mvm1".to_string()];
    let mut c = config();
    assert_eq!(
        minivm::launcher::teardown_commands(&c, &created),
        vec![vec!["link", "delete", "mvm0"], vec!["link", "delete", "mvm1"]]
    );
    c.keep_taps = true;
    assert!(minivm::launcher::teardown_commands(&c, &created).is_empty());
}

#[test]
fn serial_logs_are_distinct() {
    let c = config();
    let network = prepare_launch(&c).unwrap();
    let a = plan_guest(&c, &network, 1).unwrap();
    let b = plan_guest(&c, &network, 11).unwrap();
    assert_ne!(a.spec.serial_log, b.spec.serial_log);
}

#[test]
fn a_tap_counts_as_created_once_it_was_added() {
    let mut created: Vec<String> = Vec::new();
    assert!(!minivm::launcher::record_tap_command(&mut created, "mvm0", 0, false));
    assert!(created.is_empty());
    assert!(minivm::launcher::record_tap_command(&mut created, "mvm0", 0, true));
    assert_eq!(created, vec!["mvm0".to_string()]);
    assert!(minivm::launcher::record_tap_command(&mut created, "mvm0", 1, true));
    assert!(!minivm::launcher::record_tap_command(&mut created, "mvm0", 2, false));
    assert_eq!(created, vec!["mvm0".to_string()]);
    assert_eq!(
        minivm::launcher::teardown_commands(&config(), &created),
        vec![vec!["link", "delete", "mvm0"]]
    );
}

fn run_launch(
    c: &LaunchConfig,
    os: &str,
    mut reply: impl FnMut(&str) -> bool,
) -> (Vec<String>, Result<(), LaunchFailure>) {
    let network = prepare_launch(c).unwrap();
    let (mut state, mut action) = launch_start(c, &network, os);
    let mut log = Vec::new();
    loop {
        let line = match action {
            LaunchAction::RunIp { args } => format!("ip {}", args.join(" ")),
            LaunchAction::Spawn { spec } => format!("spawn {} {} {}", spec.name, spec.tap_name, spec.guest_ip_cidr),
            LaunchAction::Wait { guest } => format!("wait {guest}"),
            LaunchAction::Teardown { commands } => format!(
                "teardown [{}]",
                commands.iter().map(|c| c.join(" ")).collect::<Vec<_>>().join("; ")
            ),
            LaunchAction::Finish { result } => return (log, result),
        };
        let ok = reply(&line);
        log.push(line);
        let event = if ok { LaunchEvent::Succeeded } else { LaunchEvent::Failed };
        (state, action) = launch_step(c, &network, state, event);
    }
}

#[test]
fn launch_starts_every_guest_in_order_and_removes_its_taps() {
    let mut c = config();
    c.count = 2;
    let (log, result) = run_launch(&c, "linux", |_| true);
    assert!(result.is_ok());
    assert_eq!(
        log,
        vec![
            "ip tuntap add dev mvm0 mode tap",
            "ip link set mvm0 master minivm0",
            "ip link set mvm0 up",
            "spawn vm0 mvm0 192.168.100.2/24",
            "ip tuntap add dev mvm1 mode tap",
            "ip link set mvm1 master minivm0",
            "ip link set mvm1 up",
            "spawn vm1 mvm1 192.168.100.3/24",
            "wait 0",
            "wait 1",
            "teardown [link delete mvm0; link delete mvm1]",
        ]
    );
}

#[test]
fn launch_stops_at_the_first_failure_and_still_removes_taps() {
    let c = config();
    let (log, result) = run_launch(&c, "linux", |line| line != "spawn vm1 mvm1 192.168.100.3/24");
    assert!(matches!(result, Err(LaunchFailure::Spawn { guest: 1 })));
    assert_eq!(log.last().unwrap(), "teardown [link delete mvm0; link delete mvm1]");
    assert_eq!(log.len(), 9);

    let (log, result) = run_launch(&c, "linux", |line| line != "ip link set mvm1 master minivm0");
    assert!(matches!(result, Err(LaunchFailure::TapSetup { guest: 1 })));
    assert_eq!(log.last().unwrap(), "teardown [link delete mvm0; link delete mvm1]");

    let (log, result) = run_launch(&c, "linux", |line| line != "ip tuntap add dev mvm0 mode tap");
    assert!(matches!(result, Err(LaunchFailure::TapSetup { guest: 0 })));
    assert_eq!(log, vec!["ip tuntap add dev mvm0 mode tap", "teardown []"]);

    let (log, result) = run_launch(&c, "linux", |line| line != "wait 1");
    assert!(matches!(result, Err(LaunchFailure::Guest { guest: 1 })));
    assert_eq!(log.last().unwrap(), "teardown [link delete mvm0; link delete mvm1; link delete mvm2]");
    assert!(!log.contains(&"wait 2".to_string()));
}

#[test]
fn launch_keeps_taps_or_skips_them_when_asked() {
    let mut c = config();
    c.count = 1;
    c.keep_taps = true;
    let (log, result) = run_launch(&c, "linux", |_| true);
    assert!(result.is_ok());
    assert_eq!(log.last().unwrap(), "teardown []");

    c.keep_taps = false;
    c.skip_tap_setup = true;
    let (log, result) = run_launch(&c, "macos", |_| true);
    assert!(result.is_ok());
    assert_eq!(log, vec!["spawn vm0 mvm0 192.168.100.2/24", "wait 0", "teardown []"]);

    c.skip_tap_setup = false;
    let (log, result) = run_launch(&c, "macos", |_| true);
    assert!(matches!(result, Err(LaunchFailure::Refused(LaunchError::NotLinux { .. }))));
    assert_eq!(log, vec!["teardown []"]);
}

#[test]
fn launch_refuses_a_guest_it_cannot_plan() {
    let mut c = config();
    c.tap_prefix = "averylongprefix".into();
    let network = prepare_launch(&c).unwrap();
    let (state, action) = launch_start(&c, &network, "linux");
    assert!(matches!(action, LaunchAction::Teardown { ref commands } if commands.is_empty()));
    let (_, action) = launch_step(&c, &network, state, LaunchEvent::Succeeded);
    match action {
        LaunchAction::Finish { result: Err(LaunchFailure::Refused(LaunchError::Network(NetError::TapNameTooLong { name }))) } => {
            assert_eq!(name, "averylongprefix0")
        }
        other => panic!("unexpected {other:?}"),
    }
}
