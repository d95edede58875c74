use minivm::guest::{
    build_initramfs_image, default_init_script, initramfs_image, normalize_cpio_path, pad_to_4,
    CpioError, InitramfsBuilder,
};

#[test]
fn normalizes_relative_paths() {
    assert_eq!(normalize_cpio_path("bin/busybox").unwrap(), "bin/busybox");
    assert_eq!(normalize_cpio_path("./tmp/").unwrap(), "tmp");
    assert!(normalize_cpio_path("../escape").is_err());
}

#[test]
fn emits_trailer_entry() {
    let archive = InitramfsBuilder::new()
        .directory("bin")
        .unwrap()
        .file("init", 0o755, b"#!/bin/busybox sh\n")
        .unwrap()
        .build();

    let haystack = String::from_utf8_lossy(&archive);
    assert!(haystack.contains("TRAILER!!!"));
    assert!(haystack.contains("070701"));
}

#[test]
fn normalize_maps_empty_and_dot_to_root() {
    assert_eq!(normalize_cpio_path("").unwrap(), ".");
    assert_eq!(normalize_cpio_path(".").unwrap(), ".");
    assert_eq!(normalize_cpio_path("./").unwrap(), ".");
    assert_eq!(normalize_cpio_path("././bin//").unwrap(), "bin");
}

#[test]
fn normalize_rejects_absolute_and_parent_paths() {
    match normalize_cpio_path("/etc/passwd") {
        Err(CpioError::AbsolutePath { path }) => assert_eq!(path, "/etc/passwd"),
        other => panic!("unexpected {other:?}"),
    }
    match normalize_cpio_path("./a..b/") {
        Err(CpioError::ParentReference { path }) => assert_eq!(path, "a..b"),
        other => panic!("unexpected {other:?}"),
    }
}

#[test]
fn normalize_is_idempotent_on_its_results() {
    for p in ["bin/busybox", "./tmp/", "", ".", "./x/y//", "dev"] {
        let once = normalize_cpio_path(p).unwrap();
        assert_eq!(normalize_cpio_path(&once).unwrap(), once);
    }
    // `.//x` trims to the absolute `/x`, which is refused the second time.
    let odd = normalize_cpio_path(".//x").unwrap();
    assert_eq!(odd, "/x");
    assert!(normalize_cpio_path(&odd).is_err());
}

#[test]
fn pads_to_four_bytes() {
    let mut v = vec![1u8, 2, 3, 4, 5];
    pad_to_4(&mut v);
    assert_eq!(v, vec![1, 2, 3, 4, 5, 0, 0, 0]);
    let mut w = vec![9u8; 8];
    pad_to_4(&mut w);
    assert_eq!(w.len(), 8);
}

#[test]
fn writes_exact_newc_entries() {
    let archive = InitramfsBuilder::with_mtime(0x1234).directory("bin").unwrap().build();
    let dir_header = "070701\
        00000001\
        000041ed\
        00000000\
        00000000\
        00000001\
        00001234\
        00000000\
        00000000\
        00000000\
        00000000\
        00000000\
        00000004\
        00000000";
    assert_eq!(dir_header.len(), 110);
    assert_eq!(&archive[..110], dir_header.as_bytes());
    // name "bin" + NUL, padded from 114 to 116
    assert_eq!(&archive[110..116], b"bin\0\0\0");
    // the trailer has inode 2, mode 0 and an 11-byte name size
    let trailer = std::str::from_utf8(&archive[116..226]).unwrap();
    assert!(trailer.starts_with("07070100000002"));
    assert_eq!(&trailer[102..110], "00000000");
    assert_eq!(&trailer[94..102], "0000000b");
    assert_eq!(&archive[226..237], b"TRAILER!!!\0");
    assert_eq!(archive.len() % 4, 0);
    assert_eq!(archive.len(), 240);
}

#[test]
fn every_entry_keeps_the_archive_aligned() {
    let mut b = InitramfsBuilder::with_mtime(7);
    for (i, contents) in [&b""[..], b"a", b"ab", b"abc", b"abcd", b"abcde"].iter().enumerate() {
        b = b.file(&format!("f{i}"), 0o644, contents).unwrap();
    }
    let archive = b.build();
    assert_eq!(archive.len() % 4, 0);
    let text = String::from_utf8_lossy(&archive);
    assert_eq!(text.matches("070701").count(), 7);
}

#[test]
fn file_modes_are_regular_files() {
    let archive = InitramfsBuilder::with_mtime(0).file("init", 0o755, b"x").unwrap().build();
    assert_eq!(&archive[14..22], b"000081ed");
}

#[test]
fn directory_refuses_bad_names() {
    assert!(matches!(
        InitramfsBuilder::with_mtime(0).directory("/abs"),
        Err(CpioError::AbsolutePath { .. })
    ));
    assert!(matches!(
        InitramfsBuilder::with_mtime(0).file("../x", 0o644, b""),
        Err(CpioError::ParentReference { .. })
    ));
}

#[test]
fn image_holds_the_guest_skeleton() {
    let image = initramfs_image(5, "#!/bin/sh\n", b"BUSYBOX");
    let text = String::from_utf8_lossy(&image);
    for name in ["bin\0", "dev\0", "proc\0", "sys\0", "tmp\0", "init\0", "bin/busybox\0", "TRAILER!!!\0"] {
        assert!(text.contains(name), "missing {name:?}");
    }
    assert!(text.contains("BUSYBOX"));
    assert_eq!(text.matches("070701").count(), 9);
    assert_eq!(image.len() % 4, 0);
    assert!(text.starts_with("07070100000001000041ed"));
}

#[test]
fn image_is_stamped_with_the_clock() {
    let image = build_initramfs_image("x", b"y");
    let mtime = u32::from_str_radix(std::str::from_utf8(&image[46..54]).unwrap(), 16).unwrap();
    assert!(mtime > 1_600_000_000);
}

#[test]
fn default_script_reads_minivm_arguments() {
    let script = default_init_script();
    assert!(script.starts_with("#!/bin/busybox sh"));
    for key in ["minivm.id", "minivm.guest_ip", "minivm.gateway", "minivm.host_api", "poweroff"] {
        assert!(script.contains(key));
    }
}

#[test]
fn refused_paths_report_the_normalizer_error() {
    match InitramfsBuilder::with_mtime(0).file("/etc/passwd", 0o644, b"") {
        Err(CpioError::AbsolutePath { path }) => assert_eq!(path, "/etc/passwd"),
        other => panic!("unexpected {:?}", other.map(|_| ())),
    }
    match InitramfsBuilder::with_mtime(0).file("./a/../b/", 0o644, b"") {
        Err(CpioError::ParentReference { path }) => assert_eq!(path, "a/../b"),
        other => panic!("unexpected {:?}", other.map(|_| ())),
    }
    match InitramfsBuilder::with_mtime(0).directory("./x..y//") {
        Err(CpioError::ParentReference { path }) => assert_eq!(path, "x..y"),
        other => panic!("unexpected {:?}", other.map(|_| ())),
    }
    match InitramfsBuilder::with_mtime(0).directory("/") {
        Err(CpioError::AbsolutePath { path }) => assert_eq!(path, "/"),
        other => panic!("unexpected {:?}", other.map(|_| ())),
    }
}
