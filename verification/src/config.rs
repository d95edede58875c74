//! The optional `minivm.toml`: shared defaults for every subcommand.
//!
//! Reading and writing the file (TOML) happens around the library; these are
//! the values it holds, with paths and addresses kept as their text.

use vstd::prelude::*;
use vstd::string::*;

use crate::net::Ipv4Addr;

verus! {

/// Where the configuration is looked for when none is named.
pub const DEFAULT_CONFIG_PATH: &'static str = "minivm.toml";

/// The default configuration file name.
pub fn default_config_path() -> (p: &'static str)
    ensures
        p == DEFAULT_CONFIG_PATH,
{
    DEFAULT_CONFIG_PATH
}

/// `[serve]`: where the counter API listens (a socket address as text).
#[derive(Clone, Debug)]
pub struct ServeFileConfig {
    pub listen: Option<String>,
}

/// `[build]`: the inputs and output of `build-initramfs`.
#[derive(Clone, Debug)]
pub struct BuildFileConfig {
    pub busybox: Option<String>,
    pub output: Option<String>,
    pub init_script: Option<String>,
}

/// `[launch]`: the defaults of `launch`.
#[derive(Clone, Debug)]
pub struct LaunchFileConfig {
    pub backend: Option<String>,
    pub count: Option<usize>,
    pub kernel: Option<String>,
    pub initramfs: Option<String>,
    pub workdir: Option<String>,
    pub host_api: Option<String>,
    pub bridge: Option<String>,
    pub subnet_base: Option<Ipv4Addr>,
    pub prefix_len: Option<u8>,
    pub memory_mib: Option<u32>,
    pub qemu_bin: Option<String>,
    pub machine: Option<String>,
    pub accel: Option<String>,
    pub tap_prefix: Option<String>,
    pub skip_tap_setup: Option<bool>,
    pub keep_taps: Option<bool>,
}

/// The whole file; every section and key may be missing.
#[derive(Clone, Debug)]
pub struct FileConfig {
    pub serve: ServeFileConfig,
    pub build: BuildFileConfig,
    pub launch: LaunchFileConfig,
}

/// The configuration in effect and the file it came from, if any.
#[derive(Clone, Debug)]
pub struct LoadedConfig {
    pub path: Option<String>,
    pub data: FileConfig,
}

impl Default for ServeFileConfig {
    fn default() -> (c: ServeFileConfig)
        ensures
            c.listen is None,
    {
        ServeFileConfig { listen: None }
    }
}

impl Default for BuildFileConfig {
    fn default() -> (c: BuildFileConfig)
        ensures
            c.busybox is None,
            c.output is None,
            c.init_script is None,
    {
        BuildFileConfig { busybox: None, output: None, init_script: None }
    }
}

impl LaunchFileConfig {
    /// Every key of `[launch]` unset.
    pub open spec fn is_empty(self) -> bool {
        &&& self.backend is None
        &&& self.count is None
        &&& self.kernel is None
        &&& self.initramfs is None
        &&& self.workdir is None
        &&& self.host_api is None
        &&& self.bridge is None
        &&& self.subnet_base is None
        &&& self.prefix_len is None
        &&& self.memory_mib is None
        &&& self.qemu_bin is None
        &&& self.machine is None
        &&& self.accel is None
        &&& self.tap_prefix is None
        &&& self.skip_tap_setup is None
        &&& self.keep_taps is None
    }
}

impl Default for LaunchFileConfig {
    fn default() -> (c: LaunchFileConfig)
        ensures
            c.is_empty(),
    {
        LaunchFileConfig {
            backend: None,
            count: None,
            kernel: None,
            initramfs: None,
            workdir: None,
            host_api: None,
            bridge: None,
            subnet_base: None,
            prefix_len: None,
            memory_mib: None,
            qemu_bin: None,
            machine: None,
            accel: None,
            tap_prefix: None,
            skip_tap_setup: None,
            keep_taps: None,
        }
    }
}

impl Default for FileConfig {
    fn default() -> (c: FileConfig)
        ensures
            c.serve.listen is None,
            c.build.busybox is None,
            c.build.output is None,
            c.build.init_script is None,
            c.launch.is_empty(),
    {
        FileConfig {
            serve: ServeFileConfig::default(),
            build: BuildFileConfig::default(),
            launch: LaunchFileConfig::default(),
        }
    }
}

/// Where `load` takes the configuration from.
#[derive(Clone, Debug)]
pub enum ConfigSource {
    /// The file named on the command line.
    Named { path: String },
    /// `minivm.toml` in the working directory.
    DefaultFile,
    /// No file: the built-in defaults.
    BuiltIn,
}

/// A named file is always read; otherwise `minivm.toml` when it exists, and
/// the built-in defaults when it does not.
pub fn config_source(path: Option<&str>, default_exists: bool) -> (s: ConfigSource)
    ensures
        match path {
            Some(p) => s matches ConfigSource::Named { path: q } && q@ == p@,
            None => if default_exists {
                s is DefaultFile
            } else {
                s is BuiltIn
            },
        },
{
    match path {
        Some(p) => ConfigSource::Named { path: String::from_str(p) },
        None => if default_exists {
            ConfigSource::DefaultFile
        } else {
            ConfigSource::BuiltIn
        },
    }
}

} // verus!
