use minivm::config::{FileConfig, LaunchFileConfig};
use minivm::net::Ipv4Addr;
use minivm::settings::{
    resolve_build, resolve_launch, resolve_listen, BuildOverrides, LaunchOverrides, SettingsError,
};

#[test]
fn command_line_wins_over_the_file() {
    let mut file = FileConfig::default();
    file.serve.listen = Some("10.0.0.1:80".into());
    assert_eq!(resolve_listen(&None, &FileConfig::default()), "127.0.0.1:8080");
    assert_eq!(resolve_listen(&None, &file), "10.0.0.1:80");
    assert_eq!(resolve_listen(&Some("0.0.0.0:1".into()), &file), "0.0.0.0:1");
}

#[test]
fn build_needs_busybox() {
    let file = FileConfig::default();
    match resolve_build(&BuildOverrides::default(), &file.build) {
        Err(SettingsError::Missing { setting }) => assert_eq!(setting, "busybox"),
        other => panic!("unexpected {other:?}"),
    }
    let cli = BuildOverrides { busybox: Some("/bin/busybox".into()), ..BuildOverrides::default() };
    let c = resolve_build(&cli, &file.build).unwrap();
    assert_eq!(c.busybox, "/bin/busybox");
    assert_eq!(c.output, "out/initramfs.cpio");
    assert_eq!(c.init_script, None);
}

#[test]
fn launch_merges_cli_file_and_defaults() {
    let mut file = FileConfig::default();
    file.build.output = Some("out/i.cpio".into());
    file.launch = LaunchFileConfig {
        kernel: Some("/boot/k".into()),
        subnet_base: Some(Ipv4Addr::new(10, 9, 0, 0)),
        count: Some(4),
        keep_taps: Some(true),
        ..LaunchFileConfig::default()
    };
    let cli = LaunchOverrides { count: Some(2), machine: Some("q35".into()), ..LaunchOverrides::default() };
    let c = resolve_launch(&cli, &file).unwrap();
    assert_eq!(c.count, 2);
    assert_eq!(c.kernel, "/boot/k");
    assert_eq!(c.initramfs, "out/i.cpio");
    assert_eq!(c.subnet_base, "10.9.0.0");
    assert_eq!(c.machine, "q35");
    assert_eq!(c.backend, "qemu");
    assert_eq!(c.accel, "kvm");
    assert_eq!(c.prefix_len, 24);
    assert!(c.keep_taps);
    assert!(!c.skip_tap_setup);
}

#[test]
fn launch_needs_kernel_and_initramfs() {
    let file = FileConfig::default();
    match resolve_launch(&LaunchOverrides::default(), &file) {
        Err(SettingsError::Missing { setting }) => assert_eq!(setting, "kernel"),
        other => panic!("unexpected {other:?}"),
    }
    let cli = LaunchOverrides { kernel: Some("k".into()), ..LaunchOverrides::default() };
    match resolve_launch(&cli, &file) {
        Err(SettingsError::Missing { setting }) => assert_eq!(setting, "initramfs"),
        other => panic!("unexpected {other:?}"),
    }
}
