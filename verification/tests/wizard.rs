use minivm::config::{FileConfig, LaunchFileConfig, LoadedConfig};
use minivm::net::Ipv4Addr;
use minivm::text::{decimal_string, parse_unsigned};
use minivm::config::{BuildFileConfig, ServeFileConfig};
use minivm::wizard::{
    host_guesses, host_guesses_from, must_confirm_overwrite, Answer, HostGuesses, Prompt, Wizard,
    WizardError,
};

fn no_guesses() -> HostGuesses {
    HostGuesses { busybox: None, kernel: None, qemu_bin: None }
}

fn accept_defaults(w: &mut Wizard) -> Vec<Prompt> {
    let mut asked = Vec::new();
    while let Some(p) = w.prompt() {
        let a = match &p {
            Prompt::Select { default, .. } => Answer::Selected(*default),
            Prompt::Input { default, .. } => Answer::Text(default.clone()),
            Prompt::InputSocketAddr { default, .. } => Answer::SocketAddr {
                text: default.clone(),
                canonical: Some(default.clone()),
            },
            Prompt::Confirm { default, .. } => Answer::Confirmed(*default),
        };
        asked.push(p);
        w.answer(a).unwrap();
    }
    asked
}

#[test]
fn defaults_give_the_documented_config() {
    let loaded = LoadedConfig { path: None, data: FileConfig::default() };
    let mut w = Wizard::new(&loaded, no_guesses());
    let asked = accept_defaults(&mut w);
    assert_eq!(asked.len(), 19);
    let c = w.config().unwrap();
    assert_eq!(c.serve.listen.as_deref(), Some("192.168.100.1:8080"));
    assert_eq!(c.launch.backend.as_deref(), Some("qemu"));
    assert_eq!(c.launch.bridge.as_deref(), Some("minivm0"));
    assert_eq!(c.launch.subnet_base, Some(Ipv4Addr::new(192, 168, 100, 0)));
    assert_eq!(c.launch.prefix_len, Some(24));
    assert_eq!(c.launch.host_api.as_deref(), Some("http://192.168.100.1:8080/incr"));
    assert_eq!(c.build.busybox.as_deref(), Some("/usr/bin/busybox"));
    assert_eq!(c.build.output.as_deref(), Some("out/initramfs.cpio"));
    assert_eq!(c.build.init_script.as_deref(), Some("guest/init"));
    assert_eq!(c.launch.kernel.as_deref(), Some("/boot/vmlinuz-guest"));
    assert_eq!(c.launch.initramfs.as_deref(), Some("out/initramfs.cpio"));
    assert_eq!(c.launch.qemu_bin.as_deref(), Some("qemu-system-x86_64"));
    assert_eq!(c.launch.machine.as_deref(), Some("microvm"));
    assert_eq!(c.launch.accel.as_deref(), Some("kvm"));
    assert_eq!(c.launch.tap_prefix.as_deref(), Some("mvm"));
    assert_eq!(c.launch.count, Some(3));
    assert_eq!(c.launch.memory_mib, Some(128));
    assert_eq!(c.launch.workdir.as_deref(), Some("runtime"));
    assert_eq!(c.launch.skip_tap_setup, Some(false));
    assert_eq!(c.launch.keep_taps, Some(false));
}

#[test]
fn loaded_values_are_suggested_and_kept() {
    let mut data = FileConfig::default();
    data.launch = LaunchFileConfig {
        backend: Some("kvm".into()),
        count: Some(9),
        initramfs: Some("custom.cpio".into()),
        subnet_base: Some(Ipv4Addr::new(10, 1, 2, 0)),
        keep_taps: Some(true),
        ..LaunchFileConfig::default()
    };
    let loaded = LoadedConfig { path: Some("minivm.toml".into()), data };
    let guesses = HostGuesses {
        busybox: Some("/bin/busybox".into()),
        kernel: Some("/boot/vmlinuz-6".into()),
        qemu_bin: None,
    };
    let mut w = Wizard::new(&loaded, guesses);
    match w.prompt().unwrap() {
        Prompt::Select { text, items, default } => {
            assert_eq!(text, "Select backend");
            assert_eq!(items.len(), 2);
            assert_eq!(default, 1);
        }
        other => panic!("unexpected {other:?}"),
    }
    accept_defaults(&mut w);
    let c = w.config().unwrap();
    assert_eq!(c.launch.backend.as_deref(), Some("kvm"));
    assert_eq!(c.launch.count, Some(9));
    assert_eq!(c.launch.subnet_base, Some(Ipv4Addr::new(10, 1, 2, 0)));
    assert_eq!(c.launch.initramfs.as_deref(), Some("custom.cpio"));
    assert_eq!(c.build.busybox.as_deref(), Some("/bin/busybox"));
    assert_eq!(c.launch.kernel.as_deref(), Some("/boot/vmlinuz-6"));
    assert_eq!(c.launch.keep_taps, Some(true));
}

#[test]
fn host_api_suggestion_follows_the_listen_answer() {
    let loaded = LoadedConfig { path: None, data: FileConfig::default() };
    let mut w = Wizard::new(&loaded, no_guesses());
    w.answer(Answer::Selected(0)).unwrap();
    w.answer(Answer::SocketAddr { text: "10.0.0.1:9000".into(), canonical: Some("10.0.0.1:9000".into()) }).unwrap();
    w.answer(Answer::Text("br0".into())).unwrap();
    w.answer(Answer::Text("10.0.0.0".into())).unwrap();
    w.answer(Answer::Text("+16".into())).unwrap();
    match w.prompt().unwrap() {
        Prompt::Input { text, default } => {
            assert_eq!(text, "Host API URL guests will call");
            assert_eq!(default, "http://10.0.0.1:9000/incr");
        }
        other => panic!("unexpected {other:?}"),
    }
}

#[test]
fn refuses_invalid_answers() {
    let loaded = LoadedConfig { path: None, data: FileConfig::default() };
    let mut w = Wizard::new(&loaded, no_guesses());
    assert!(matches!(w.answer(Answer::Text("qemu".into())), Err(WizardError::UnexpectedAnswer)));
    w.answer(Answer::Selected(1)).unwrap();
    match w.answer(Answer::SocketAddr { text: "nowhere".into(), canonical: None }) {
        Err(WizardError::InvalidSocketAddr { prompt, value }) => {
            assert_eq!(prompt, "Host API listen address");
            assert_eq!(value, "nowhere");
        }
        other => panic!("unexpected {other:?}"),
    }
    w.answer(Answer::SocketAddr { text: "[::1]:80".into(), canonical: Some("[::1]:80".into()) }).unwrap();
    w.answer(Answer::Text("br0".into())).unwrap();
    match w.answer(Answer::Text("10.0.0".into())) {
        Err(WizardError::InvalidIpv4 { prompt, value }) => {
            assert_eq!(prompt, "Guest subnet base");
            assert_eq!(value, "10.0.0");
        }
        other => panic!("unexpected {other:?}"),
    }
    w.answer(Answer::Text("10.0.0.0".into())).unwrap();
    match w.answer(Answer::Text("256".into())) {
        Err(WizardError::InvalidInteger { prompt, value }) => {
            assert_eq!(prompt, "Guest subnet prefix length");
            assert_eq!(value, "256");
        }
        other => panic!("unexpected {other:?}"),
    }
    assert!(matches!(w.answer(Answer::Confirmed(true)), Err(WizardError::UnexpectedAnswer)));
    assert!(w.config().is_none());
}

#[test]
fn overwrite_needs_confirmation_unless_forced() {
    assert!(must_confirm_overwrite(true, false));
    assert!(!must_confirm_overwrite(true, true));
    assert!(!must_confirm_overwrite(false, false));
}

#[test]
fn unsigned_parsing_matches_std() {
    for s in ["0", "7", "+7", "255", "256", "", "+", "-1", "1a", " 1", "00012", "18446744073709551615", "18446744073709551616"] {
        assert_eq!(parse_unsigned(s, 255), s.parse::<u8>().ok().map(u64::from), "{s:?}");
        assert_eq!(parse_unsigned(s, u32::MAX as u64), s.parse::<u32>().ok().map(u64::from), "{s:?}");
        assert_eq!(parse_unsigned(s, u64::MAX), s.parse::<u64>().ok(), "{s:?}");
    }
    assert_eq!(decimal_string(0), "0");
    assert_eq!(decimal_string(u64::MAX), u64::MAX.to_string());
}

fn complete() -> FileConfig {
    FileConfig {
        serve: ServeFileConfig { listen: Some("10.9.8.7:7070".into()) },
        build: BuildFileConfig {
            busybox: Some("/opt/busybox".into()),
            output: Some("build/guest.cpio".into()),
            init_script: Some("scripts/init".into()),
        },
        launch: LaunchFileConfig {
            backend: Some("kvm".into()),
            count: Some(12),
            kernel: Some("/srv/vmlinuz".into()),
            initramfs: Some("prebuilt.cpio".into()),
            workdir: Some("/var/lib/minivm".into()),
            host_api: Some("https://api.example:9443/incr".into()),
            bridge: Some("br-lab".into()),
            subnet_base: Some(Ipv4Addr::new(172, 16, 4, 0)),
            prefix_len: Some(22),
            memory_mib: Some(512),
            qemu_bin: Some("/usr/local/bin/qemu".into()),
            machine: Some("q35".into()),
            accel: Some("tcg".into()),
            tap_prefix: Some("lab".into()),
            skip_tap_setup: Some(true),
            keep_taps: Some(true),
        },
    }
}

#[test]
fn enter_everywhere_keeps_a_complete_config() {
    let data = complete();
    let loaded = LoadedConfig { path: Some("minivm.toml".into()), data: data.clone() };
    let guesses = HostGuesses {
        busybox: Some("/bin/busybox".into()),
        kernel: Some("/boot/other".into()),
        qemu_bin: Some("/usr/bin/qemu-system-x86_64".into()),
    };
    let mut w = Wizard::new(&loaded, guesses);
    accept_defaults(&mut w);
    let c = w.config().unwrap();
    assert_eq!(format!("{c:?}"), format!("{data:?}"));
}

#[test]
fn guesses_are_used_only_for_missing_values() {
    let g = host_guesses_from(
        &FileConfig::default(),
        Some("/boot/vmlinuz".into()),
        Some("/usr/bin/busybox".into()),
        Some("/usr/bin/qemu-system-x86_64".into()),
    );
    assert_eq!(g.kernel.as_deref(), Some("/boot/vmlinuz"));
    assert_eq!(g.busybox.as_deref(), Some("/usr/bin/busybox"));
    assert_eq!(g.qemu_bin.as_deref(), Some("/usr/bin/qemu-system-x86_64"));
    let g = host_guesses_from(&complete(), None, Some("/usr/bin/busybox".into()), Some("/q".into()));
    assert!(g.kernel.is_none());
    assert!(g.busybox.is_none());
    assert!(g.qemu_bin.is_none());
    let g = host_guesses(&complete(), Some("/boot/k".into()));
    assert_eq!(g.kernel.as_deref(), Some("/boot/k"));
    assert!(g.busybox.is_none());
    assert!(g.qemu_bin.is_none());
}

#[test]
fn kernel_image_follows_the_trimmed_release() {
    assert_eq!(minivm::wizard::kernel_image_path("6.1.0-18-amd64\n"), "/boot/vmlinuz-6.1.0-18-amd64");
    assert_eq!(minivm::wizard::kernel_image_path(" \t5.15.0\u{3000}\r\n"), "/boot/vmlinuz-5.15.0");
    assert_eq!(minivm::wizard::kernel_image_path(""), "/boot/vmlinuz-");
}
