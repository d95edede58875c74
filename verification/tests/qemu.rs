use minivm::backend::{build_backend, Backend};
use minivm::launcher::{LaunchConfig, LaunchError};
use minivm::qemu::{build_command, kernel_cmdline, net_device_model, VmLaunchSpec};

#[test]
fn renders_kernel_cmdline() {
    let spec = VmLaunchSpec {
        id: 7,
        name: "vm7".into(),
        kernel: "bzImage".into(),
        initramfs: "initramfs.cpio".into(),
        serial_log: "vm7.log".into(),
        host_api: "http://192.168.100.1:8080/incr".into(),
        guest_ip_cidr: "192.168.100.8/24".into(),
        gateway: "192.168.100.1".into(),
        tap_name: "mvm7".into(),
        mac_address: "02:fc:00:00:00:07".into(),
        memory_mib: 128,
        qemu_bin: "qemu-system-x86_64".into(),
        machine: "microvm".into(),
        accel: "kvm".into(),
    };

    let cmdline = kernel_cmdline(&spec);
    assert!(cmdline.contains("console=ttyS0"));
    assert!(cmdline.contains("minivm.id=7"));
    assert!(cmdline.contains("minivm.host_api=http://192.168.100.1:8080/incr"));
}

#[test]
fn picks_net_device_model_from_machine_type() {
    let mut spec = VmLaunchSpec {
        id: 0,
        name: "vm0".into(),
        kernel: "bzImage".into(),
        initramfs: "initramfs.cpio".into(),
        serial_log: "vm0.log".into(),
        host_api: "http://192.168.100.1:8080/incr".into(),
        guest_ip_cidr: "192.168.100.2/24".into(),
        gateway: "192.168.100.1".into(),
        tap_name: "mvm0".into(),
        mac_address: "02:fc:00:00:00:00".into(),
        memory_mib: 128,
        qemu_bin: "qemu-system-x86_64".into(),
        machine: "microvm".into(),
        accel: "kvm".into(),
    };

    assert_eq!(net_device_model(&spec), "virtio-net-device");
    spec.machine = "q35".into();
    assert_eq!(net_device_model(&spec), "virtio-net-pci");
}

fn sample_spec() -> VmLaunchSpec {
    VmLaunchSpec {
        id: 3,
        name: "vm3".into(),
        kernel: "/boot/bzImage".into(),
        initramfs: "out/initramfs.cpio".into(),
        serial_log: "runtime/vm3.serial.log".into(),
        host_api: "http://192.168.100.1:8080/incr".into(),
        guest_ip_cidr: "192.168.100.5/24".into(),
        gateway: "192.168.100.1".into(),
        tap_name: "mvm3".into(),
        mac_address: "02:fc:00:00:00:03".into(),
        memory_mib: 256,
        qemu_bin: "/usr/bin/qemu-system-x86_64".into(),
        machine: "microvm".into(),
        accel: "kvm".into(),
    }
}

#[test]
fn kernel_cmdline_is_exact() {
    assert_eq!(
        kernel_cmdline(&sample_spec()),
        "console=ttyS0 rdinit=/init reboot=t panic=1 minivm.id=3 minivm.guest_ip=192.168.100.5/24 minivm.gateway=192.168.100.1 minivm.host_api=http://192.168.100.1:8080/incr"
    );
}

#[test]
fn builds_the_full_qemu_command() {
    let spec = sample_spec();
    let cmd = build_command(&spec);
    assert_eq!(cmd.program, "/usr/bin/qemu-system-x86_64");
    let expected: Vec<String> = [
        "-name", "vm3", "-kernel", "/boot/bzImage", "-initrd", "out/initramfs.cpio", "-m", "256",
        "-smp", "1", "-append", &kernel_cmdline(&spec), "-nodefaults", "-no-user-config",
        "-no-reboot", "-display", "none", "-monitor", "none", "-serial",
        "file:runtime/vm3.serial.log", "-netdev",
        "tap,id=net0,ifname=mvm3,script=no,downscript=no", "-device",
        "virtio-net-device,netdev=net0,mac=02:fc:00:00:00:03", "-machine",
        "microvm,accel=kvm,pit=off,pic=off,rtc=off,isa-serial=on", "-cpu", "host",
    ]
    .iter()
    .map(|s| s.to_string())
    .collect();
    assert_eq!(cmd.args, expected);
}

#[test]
fn plain_machines_without_kvm_skip_cpu_host() {
    let mut spec = sample_spec();
    spec.machine = "q35".into();
    spec.accel = "tcg".into();
    let cmd = build_command(&spec);
    let n = cmd.args.len();
    assert_eq!(cmd.args[n - 2], "-machine");
    assert_eq!(cmd.args[n - 1], "q35,accel=tcg");
    assert!(cmd.args.contains(&"virtio-net-pci,netdev=net0,mac=02:fc:00:00:00:03".to_string()));
    assert!(!cmd.args.contains(&"-cpu".to_string()));
}

fn launch_config(backend: &str) -> LaunchConfig {
    LaunchConfig {
        backend: backend.into(),
        count: 2,
        kernel: "bzImage".into(),
        initramfs: "initramfs.cpio".into(),
        workdir: "runtime".into(),
        host_api: "http://192.168.100.1:8080/incr".into(),
        bridge: "minivm0".into(),
        subnet_base: "192.168.100.0".into(),
        prefix_len: 24,
        memory_mib: 128,
        qemu_bin: "qemu-system-x86_64".into(),
        machine: "microvm".into(),
        accel: "kvm".into(),
        tap_prefix: "mvm".into(),
        skip_tap_setup: false,
        keep_taps: false,
    }
}

#[test]
fn selects_backends_by_name() {
    match build_backend(&launch_config("qemu")).unwrap() {
        Backend::Qemu(q) => {
            assert_eq!(q.qemu_bin, "qemu-system-x86_64");
            assert_eq!(q.machine, "microvm");
            assert_eq!(q.accel, "kvm");
        }
        other => panic!("unexpected {other:?}"),
    }
    let kvm = build_backend(&launch_config("kvm")).unwrap();
    assert_eq!(kvm.name(), "kvm");
    match build_backend(&launch_config("firecracker")) {
        Err(LaunchError::UnsupportedBackend { name }) => assert_eq!(name, "firecracker"),
        other => panic!("unexpected {other:?}"),
    }
}

#[test]
fn qemu_backend_overrides_binary_machine_and_accel() {
    let backend = match build_backend(&launch_config("qemu")).unwrap() {
        Backend::Qemu(q) => q,
        other => panic!("unexpected {other:?}"),
    };
    let mut spec = sample_spec();
    spec.qemu_bin = "other".into();
    spec.machine = "q35".into();
    let cmd = backend.command(&spec);
    assert_eq!(cmd.program, "qemu-system-x86_64");
    assert!(cmd.args.contains(&"microvm,accel=kvm,pit=off,pic=off,rtc=off,isa-serial=on".to_string()));
}
