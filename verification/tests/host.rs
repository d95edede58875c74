use minivm::config::{
    config_source, default_config_path, BuildFileConfig, ConfigSource, FileConfig,
    LaunchFileConfig, LoadedConfig, ServeFileConfig,
};
use minivm::counter::{healthz, Counter};
use minivm::doctor::{
    check_line, collect_checks, collect_checks_with, command_check, config_line, fail,
    is_likely_http_url, optional_path_check, pass, qemu_lookup_name, report, summarize, summary_line, verdict,
    warn, BridgeProbe, Check, DoctorConfig, DoctorError, HostFacts, Status, Summary,
};
use minivm::kvm::{KvmBackend, KvmHostInfo, KvmSpawnError};
use minivm::qemu::VmLaunchSpec;

#[test]
fn counter_counts_requests() {
    let mut c = Counter::new();
    assert_eq!(c.count(), 0);
    assert_eq!(c.count_body(), "0");
    for n in 1..=5u64 {
        assert_eq!(c.incr_body(), n.to_string());
    }
    assert_eq!(c.count(), 5);
    assert_eq!(c.incr(), 6);
    assert_eq!(healthz(), "ok");
}

#[test]
fn config_sources() {
    assert_eq!(default_config_path(), "minivm.toml");
    assert!(matches!(config_source(Some("x.toml"), true), ConfigSource::Named { path } if path == "x.toml"));
    assert!(matches!(config_source(None, true), ConfigSource::DefaultFile));
    assert!(matches!(config_source(None, false), ConfigSource::BuiltIn));
    let d = FileConfig::default();
    assert!(d.serve.listen.is_none() && d.launch.count.is_none() && d.build.output.is_none());
}

fn host(is_linux: bool) -> HostFacts {
    HostFacts {
        os: if is_linux { "linux".into() } else { "macos".into() },
        arch: "x86_64".into(),
        is_linux,
        kvm_present: true,
        kvm_access_error: None,
        busybox_exists: true,
        kernel_exists: false,
        initramfs_exists: true,
        bridge: BridgeProbe::Absent { status: "exit status: 1".into() },
    }
}

fn configured() -> FileConfig {
    FileConfig {
        serve: ServeFileConfig { listen: Some("192.168.100.1:8080".into()) },
        build: BuildFileConfig {
            busybox: Some("/usr/bin/busybox".into()),
            output: Some("out/initramfs.cpio".into()),
            init_script: None,
        },
        launch: LaunchFileConfig {
            kernel: Some("/boot/vmlinuz".into()),
            host_api: Some("ftp://host/incr".into()),
            bridge: Some("minivm0".into()),
            ..LaunchFileConfig::default()
        },
    }
}

fn views(checks: &[Check]) -> Vec<(String, Status, String)> {
    checks.iter().map(|c| (c.name.clone(), c.status, c.detail.clone())).collect()
}

fn v(name: &str, status: Status, detail: &str) -> (String, Status, String) {
    (name.to_string(), status, detail.to_string())
}

#[test]
fn doctor_checks_for_a_configured_host() {
    let checks = collect_checks_with(&configured(), &host(true), Some("/usr/sbin/ip".into()), None);
    assert_eq!(
        views(&checks),
        vec![
            v("host OS", Status::Pass, "linux (x86_64)"),
            v("iproute2", Status::Pass, "/usr/sbin/ip"),
            v("qemu", Status::Fail, "`qemu-system-x86_64` not found in PATH"),
            v("/dev/kvm", Status::Pass, "/dev/kvm"),
            v("kvm access", Status::Pass, "read/write open succeeded"),
            v("busybox", Status::Pass, "/usr/bin/busybox"),
            v("kernel", Status::Fail, "missing path /boot/vmlinuz"),
            v("initramfs", Status::Pass, "out/initramfs.cpio"),
            v("serve.listen", Status::Pass, "192.168.100.1:8080"),
            v("launch.host_api", Status::Fail, "unsupported URL format: ftp://host/incr"),
            v("launch.bridge", Status::Warn, "minivm0 not present yet (ip exited with status exit status: 1)"),
        ]
    );
}

#[test]
fn doctor_checks_for_an_empty_config() {
    let mut h = host(false);
    h.kvm_present = false;
    h.bridge = BridgeProbe::Unavailable { error: "no ip".into() };
    let checks = collect_checks_with(&FileConfig::default(), &h, None, Some("/q".into()));
    assert_eq!(
        views(&checks),
        vec![
            v("host OS", Status::Fail, "current host is macos on x86_64; launch requires Linux"),
            v("iproute2", Status::Fail, "`ip` command not found"),
            v("qemu", Status::Pass, "/q"),
            v("/dev/kvm", Status::Fail, "device does not exist"),
            v("busybox", Status::Warn, "not configured; set [build].busybox or pass --busybox"),
            v("kernel", Status::Warn, "not configured; set [launch].kernel or pass --kernel"),
            v("initramfs", Status::Warn, "not configured; set [build].output or [launch].initramfs"),
            v("serve.listen", Status::Warn, "not configured; default will be 127.0.0.1:8080"),
            v("launch.host_api", Status::Warn, "not configured; default will be http://192.168.100.1:8080/incr"),
            v("launch.bridge", Status::Warn, "not configured; default will be minivm0"),
        ]
    );
}

#[test]
fn doctor_skips_kvm_for_other_accelerators() {
    let mut c = configured();
    c.launch.accel = Some("tcg".into());
    c.launch.host_api = Some("https://x/incr".into());
    let mut h = host(true);
    h.kvm_access_error = Some("denied".into());
    h.bridge = BridgeProbe::Present;
    let checks = collect_checks_with(&c, &h, None, None);
    assert_eq!(checks[3].name, "acceleration");
    assert_eq!(checks[3].status, Status::Warn);
    assert_eq!(checks[3].detail, "configured accel is `tcg`, so /dev/kvm is not required");
    assert_eq!(checks[8].status, Status::Pass);
    assert_eq!(checks[9].detail, "minivm0");
    assert_eq!(checks.len(), 10);
}

#[test]
fn doctor_looks_commands_up_on_the_path() {
    let c = command_check("shell", "sh");
    assert_eq!(c.status, Status::Pass);
    assert!(c.detail.ends_with("/sh"));
    let missing = command_check("nothing", "minivm-no-such-command");
    assert_eq!(missing.status, Status::Fail);
    assert_eq!(missing.detail, "`minivm-no-such-command` not found in PATH");
    let absolute = command_check("shell", "/bin/sh");
    assert_eq!(absolute.status, Status::Pass);
    assert_eq!(absolute.detail, "/bin/sh");
    let all = collect_checks(&FileConfig::default(), &host(true));
    assert_eq!(all.len(), 11);
    assert_eq!(all[2].name, "qemu");
    let mut config = FileConfig::default();
    config.launch.qemu_bin = Some("minivm-no-such-qemu".into());
    let checks = collect_checks(&config, &host(true));
    assert_eq!(checks[1].name, "iproute2");
    assert_eq!(checks[2].status, Status::Fail);
    assert_eq!(checks[2].detail, "`minivm-no-such-qemu` not found in PATH");
}

#[test]
fn doctor_looks_for_the_configured_qemu() {
    assert_eq!(qemu_lookup_name(&FileConfig::default()), "qemu-system-x86_64");
    let mut config = FileConfig::default();
    config.launch.qemu_bin = Some("/opt/qemu/bin/qemu-kvm".into());
    assert_eq!(qemu_lookup_name(&config), "/opt/qemu/bin/qemu-kvm");
}

#[test]
fn doctor_helpers() {
    assert!(is_likely_http_url("http://a"));
    assert!(is_likely_http_url("https://a"));
    assert!(!is_likely_http_url("htp://a"));
    assert!(!is_likely_http_url("http:/"));
    let c = optional_path_check("k", Some("/x"), false, "none");
    assert_eq!((c.status, c.detail.as_str()), (Status::Fail, "missing path /x"));
    let c = optional_path_check("k", None, true, "none");
    assert_eq!((c.status, c.detail.as_str()), (Status::Warn, "none"));
    assert_eq!(check_line(&pass("a", "b".into())), "[PASS] a: b");
    assert_eq!(check_line(&warn("a", "b".into())), "[WARN] a: b");
    assert_eq!(check_line(&fail("a", "b".into())), "[FAIL] a: b");
}

#[test]
fn doctor_summary_and_strictness() {
    let checks = vec![pass("a", "1".into()), warn("b", "2".into()), fail("c", "3".into()), fail("d", "4".into())];
    let s = summarize(&checks);
    assert_eq!(s, Summary { passed: 1, warned: 1, failed: 2 });
    assert_eq!(s.passed + s.warned + s.failed, checks.len());
    assert_eq!(summary_line(&s), "summary: 1 passed, 1 warnings, 2 failed");
    assert_eq!(verdict(true, &s), Err(DoctorError::FailingChecks { failed: 2 }));
    assert_eq!(verdict(false, &s), Ok(()));
    let ok = summarize(&vec![pass("a", "1".into())]);
    assert_eq!(verdict(true, &ok), Ok(()));
}

#[test]
fn doctor_report_lines() {
    let loaded = LoadedConfig { path: Some("minivm.toml".into()), data: FileConfig::default() };
    assert_eq!(config_line(&loaded), "config: minivm.toml");
    let cfg = DoctorConfig { strict: true, loaded_config: LoadedConfig { path: None, data: FileConfig::default() } };
    let checks = vec![pass("a", "1".into()), fail("b", "2".into())];
    let r = report(&cfg, &checks);
    assert_eq!(
        r.lines,
        vec![
            "config: not loaded, using built-in defaults",
            "[PASS] a: 1",
            "[FAIL] b: 2",
            "",
            "summary: 1 passed, 0 warnings, 1 failed",
        ]
    );
    assert_eq!(r.outcome, Err(DoctorError::FailingChecks { failed: 1 }));
}

fn spec() -> VmLaunchSpec {
    VmLaunchSpec {
        id: 0,
        name: "vm0".into(),
        kernel: "bzImage".into(),
        initramfs: "i".into(),
        serial_log: "l".into(),
        host_api: "h".into(),
        guest_ip_cidr: "c".into(),
        gateway: "g".into(),
        tap_name: "t".into(),
        mac_address: "m".into(),
        memory_mib: 1,
        qemu_bin: "q".into(),
        machine: "microvm".into(),
        accel: "kvm".into(),
    }
}

#[test]
fn kvm_backend_reports_why_it_did_not_start() {
    let k = KvmBackend::new();
    assert_eq!(k.name(), "kvm");
    match k.spawn_vm(&spec(), &Err("open /dev/kvm".into())) {
        KvmSpawnError::ProbeFailed { detail } => assert_eq!(detail, "open /dev/kvm"),
        other => panic!("unexpected {other:?}"),
    }
    let info = KvmHostInfo { api_version: 12, vm_creation_error: Some("EPERM".into()) };
    assert!(matches!(k.spawn_vm(&spec(), &Ok(info)), KvmSpawnError::VmCreationFailed { detail } if detail == "EPERM"));
    let info = KvmHostInfo { api_version: 12, vm_creation_error: None };
    match k.spawn_vm(&spec(), &Ok(info)) {
        KvmSpawnError::BootNotImplemented { api_version, kernel } => {
            assert_eq!(api_version, 12);
            assert_eq!(kernel, "bzImage");
        }
        other => panic!("unexpected {other:?}"),
    }
}

#[test]
fn kvm_is_checked_only_for_kvm_acceleration() {
    let mut c = FileConfig::default();
    assert!(minivm::doctor::checks_kvm(&c));
    c.launch.accel = Some("tcg".into());
    assert!(!minivm::doctor::checks_kvm(&c));
}
