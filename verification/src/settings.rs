//! The effective settings of each subcommand: a command-line value wins over
//! the configuration file, which wins over the built-in default.

use vstd::prelude::*;
use vstd::string::*;

use crate::config::{BuildFileConfig, FileConfig, LaunchFileConfig};
use crate::doctor::opt_text;
use crate::guest::BuildInitramfsConfig;
use crate::launcher::LaunchConfig;
use crate::net::dotted;
use crate::wizard::or_text;

verus! {

/// `launch` values given on the command line.
#[derive(Clone, Debug, Default)]
pub struct LaunchOverrides {
    pub backend: Option<String>,
    pub count: Option<usize>,
    pub kernel: Option<String>,
    pub initramfs: Option<String>,
    pub workdir: Option<String>,
    pub host_api: Option<String>,
    pub bridge: Option<String>,
    pub subnet_base: Option<String>,
    pub prefix_len: Option<u8>,
    pub memory_mib: Option<u32>,
    pub qemu_bin: Option<String>,
    pub machine: Option<String>,
    pub accel: Option<String>,
    pub tap_prefix: Option<String>,
    pub skip_tap_setup: bool,
    pub keep_taps: bool,
}

/// `build-initramfs` values given on the command line.
#[derive(Clone, Debug, Default)]
pub struct BuildOverrides {
    pub busybox: Option<String>,
    pub output: Option<String>,
    pub init_script: Option<String>,
}

/// A setting that has no value anywhere.
#[derive(Clone, Debug)]
pub enum SettingsError {
    Missing { setting: String },
}

/// Where the counter API listens when neither the command line nor the file says.
pub const DEFAULT_LISTEN: &'static str = "127.0.0.1:8080";

/// The first value that is set.
pub open spec fn first_text(a: Option<String>, b: Option<String>) -> Option<Seq<char>> {
    match a {
        Some(x) => Some(x@),
        None => opt_text(b),
    }
}

fn pick(a: &Option<String>, b: &Option<String>, d: &str) -> (s: String)
    ensures
        s@ == or_text(*a, or_text(*b, d@)),
{
    match a {
        Some(x) => x.clone(),
        None => match b {
            Some(y) => y.clone(),
            None => String::from_str(d),
        },
    }
}

fn first(a: &Option<String>, b: &Option<String>) -> (r: Option<String>)
    ensures
        opt_text(r) == first_text(*a, *b),
{
    match a {
        Some(x) => Some(x.clone()),
        None => match b {
            Some(y) => Some(y.clone()),
            None => None,
        },
    }
}

fn missing(setting: &str) -> (e: SettingsError)
    ensures
        e matches SettingsError::Missing { setting: s } && s@ == setting@,
{
    SettingsError::Missing { setting: String::from_str(setting) }
}

/// Where `serve` listens.
pub fn resolve_listen(cli: &Option<String>, file: &FileConfig) -> (s: String)
    ensures
        s@ == or_text(*cli, or_text(file.serve.listen, DEFAULT_LISTEN@)),
{
    pick(cli, &file.serve.listen, DEFAULT_LISTEN)
}

/// The settings of `build-initramfs`; BusyBox must be named somewhere, the
/// output defaults to `out/initramfs.cpio`.
pub fn resolve_build(cli: &BuildOverrides, file: &BuildFileConfig) -> (r: Result<
    BuildInitramfsConfig,
    SettingsError,
>)
    ensures
        first_text(cli.busybox, file.busybox) is None <==> r is Err,
        r matches Err(e) ==> (e matches SettingsError::Missing { setting } && setting@
            == "busybox"@),
        r matches Ok(c) ==> Some(c.busybox@) == first_text(cli.busybox, file.busybox) && c.output@
            == or_text(cli.output, or_text(file.output, "out/initramfs.cpio"@)) && opt_text(
            c.init_script,
        ) == first_text(cli.init_script, file.init_script),
{
    let busybox = match first(&cli.busybox, &file.busybox) {
        Some(b) => b,
        None => {
            return Err(missing("busybox"));
        },
    };
    Ok(
        BuildInitramfsConfig {
            busybox,
            output: pick(&cli.output, &file.output, "out/initramfs.cpio"),
            init_script: first(&cli.init_script, &file.init_script),
        },
    )
}

/// The subnet base of the file as text.
pub open spec fn file_subnet_text(file: LaunchFileConfig) -> Option<Seq<char>> {
    match file.subnet_base {
        Some(ip) => Some(dotted(ip)),
        None => None,
    }
}

/// The settings of `launch`. The kernel must be named somewhere; the
/// initramfs may also come from `[build].output`; everything else has a
/// built-in default.
pub fn resolve_launch(cli: &LaunchOverrides, file: &FileConfig) -> (r: Result<
    LaunchConfig,
    SettingsError,
>)
    ensures
        first_text(cli.kernel, file.launch.kernel) is None ==> (r matches Err(
            SettingsError::Missing { setting },
        ) && setting@ == "kernel"@),
        first_text(cli.kernel, file.launch.kernel) is Some && first_text(
            cli.initramfs,
            file.launch.initramfs,
        ) is None && file.build.output is None ==> (r matches Err(
            SettingsError::Missing { setting },
        ) && setting@ == "initramfs"@),
        r matches Ok(c) ==> {
            let l = file.launch;
            &&& c.backend@ == or_text(cli.backend, or_text(l.backend, "qemu"@))
            &&& c.count == match cli.count {
                Some(n) => n,
                None => match l.count {
                    Some(n) => n,
                    None => 1,
                },
            }
            &&& Some(c.kernel@) == first_text(cli.kernel, l.kernel)
            &&& c.initramfs@ == or_text(cli.initramfs, or_text(l.initramfs, or_text(file.build.output, Seq::empty())))
            &&& c.workdir@ == or_text(cli.workdir, or_text(l.workdir, "runtime"@))
            &&& c.host_api@ == or_text(cli.host_api, or_text(l.host_api, "http://192.168.100.1:8080/incr"@))
            &&& c.bridge@ == or_text(cli.bridge, or_text(l.bridge, "minivm0"@))
            &&& c.subnet_base@ == match cli.subnet_base {
                Some(s) => s@,
                None => match file_subnet_text(l) {
                    Some(t) => t,
                    None => "192.168.100.0"@,
                },
            }
            &&& c.prefix_len == match cli.prefix_len {
                Some(p) => p,
                None => match l.prefix_len {
                    Some(p) => p,
                    None => 24,
                },
            }
            &&& c.memory_mib == match cli.memory_mib {
                Some(m) => m,
                None => match l.memory_mib {
                    Some(m) => m,
                    None => 128,
                },
            }
            &&& c.qemu_bin@ == or_text(cli.qemu_bin, or_text(l.qemu_bin, "qemu-system-x86_64"@))
            &&& c.machine@ == or_text(cli.machine, or_text(l.machine, "microvm"@))
            &&& c.accel@ == or_text(cli.accel, or_text(l.accel, "kvm"@))
            &&& c.tap_prefix@ == or_text(cli.tap_prefix, or_text(l.tap_prefix, "mvm"@))
            &&& c.skip_tap_setup == (cli.skip_tap_setup || l.skip_tap_setup == Some(true))
            &&& c.keep_taps == (cli.keep_taps || l.keep_taps == Some(true))
        },
        first_text(cli.kernel, file.launch.kernel) is Some && (first_text(
            cli.initramfs,
            file.launch.initramfs,
        ) is Some || file.build.output is Some) ==> r is Ok,
{
    let l = &file.launch;
    let kernel = match first(&cli.kernel, &l.kernel) {
        Some(k) => k,
        None => {
            return Err(missing("kernel"));
        },
    };
    let initramfs = match first(&cli.initramfs, &l.initramfs) {
        Some(i) => i,
        None => match &file.build.output {
            Some(o) => o.clone(),
            None => {
                return Err(missing("initramfs"));
            },
        },
    };
    let subnet_base = match &cli.subnet_base {
        Some(s) => s.clone(),
        None => match l.subnet_base {
            Some(ip) => ip.render(),
            None => String::from_str("192.168.100.0"),
        },
    };
    let count: usize = match cli.count {
        Some(n) => n,
        None => match l.count {
            Some(n) => n,
            None => 1,
        },
    };
    let prefix_len: u8 = match cli.prefix_len {
        Some(p) => p,
        None => match l.prefix_len {
            Some(p) => p,
            None => 24,
        },
    };
    let memory_mib: u32 = match cli.memory_mib {
        Some(m) => m,
        None => match l.memory_mib {
            Some(m) => m,
            None => 128,
        },
    };
    let skip_file = match l.skip_tap_setup {
        Some(b) => b,
        None => false,
    };
    let keep_file = match l.keep_taps {
        Some(b) => b,
        None => false,
    };
    Ok(
        LaunchConfig {
            backend: pick(&cli.backend, &l.backend, "qemu"),
            count,
            kernel,
            initramfs,
            workdir: pick(&cli.workdir, &l.workdir, "runtime"),
            host_api: pick(&cli.host_api, &l.host_api, "http://192.168.100.1:8080/incr"),
            bridge: pick(&cli.bridge, &l.bridge, "minivm0"),
            subnet_base,
            prefix_len,
            memory_mib,
            qemu_bin: pick(&cli.qemu_bin, &l.qemu_bin, "qemu-system-x86_64"),
            machine: pick(&cli.machine, &l.machine, "microvm"),
            accel: pick(&cli.accel, &l.accel, "kvm"),
            tap_prefix: pick(&cli.tap_prefix, &l.tap_prefix, "mvm"),
            skip_tap_setup: cli.skip_tap_setup || skip_file,
            keep_taps: cli.keep_taps || keep_file,
        },
    )
}

} // verus!
