//! Host diagnostics: what `doctor` reports about the host and the loaded
//! configuration, without changing either.

use vstd::prelude::*;
use vstd::string::*;

use crate::config::{FileConfig, LoadedConfig};
use crate::text::{decimal, decimal_string, same_text, starts_with};

verus! {

/// The verdict of one check.
#[derive(Clone, Copy, Debug, PartialEq, Eq, Structural)]
pub enum Status {
    Pass,
    Warn,
    Fail,
}

/// One diagnostic line.
#[derive(Clone, Debug)]
pub struct Check {
    pub name: String,
    pub status: Status,
    pub detail: String,
}

/// What `ip link show dev <bridge>` told about the bridge.
#[derive(Clone, Debug)]
pub enum BridgeProbe {
    /// `ip` succeeded: the bridge exists.
    Present,
    /// `ip` ran and failed, with this exit status.
    Absent { status: String },
    /// `ip` could not be run.
    Unavailable { error: String },
}

/// What was observed of the host for the checks.
#[derive(Clone, Debug)]
pub struct HostFacts {
    pub os: String,
    pub arch: String,
    pub is_linux: bool,
    /// `/dev/kvm` exists.
    pub kvm_present: bool,
    /// Opening `/dev/kvm` for reading and writing: the error, if it failed.
    pub kvm_access_error: Option<String>,
    /// The configured BusyBox path exists.
    pub busybox_exists: bool,
    /// The configured kernel path exists.
    pub kernel_exists: bool,
    /// The configured initramfs path (see `initramfs_path`) exists.
    pub initramfs_exists: bool,
    pub bridge: BridgeProbe,
}

/// A check as text: name, verdict, detail.
pub open spec fn check_view(c: Check) -> (Seq<char>, Status, Seq<char>) {
    (c.name@, c.status, c.detail@)
}

/// Every check as text.
pub open spec fn check_views(v: Seq<Check>) -> Seq<(Seq<char>, Status, Seq<char>)> {
    v.map_values(|c: Check| check_view(c))
}

/// The text of an optional string.
pub open spec fn opt_text(o: Option<String>) -> Option<Seq<char>> {
    match o {
        Some(s) => Some(s@),
        None => None,
    }
}

/// The URL starts with `http://` or `https://`.
pub open spec fn is_http_url_text(url: Seq<char>) -> bool {
    ||| (url.len() >= 7 && url.subrange(0, 7) == "http://"@)
    ||| (url.len() >= 8 && url.subrange(0, 8) == "https://"@)
}

/// The host must run Linux.
pub open spec fn os_check_view(host: HostFacts) -> (Seq<char>, Status, Seq<char>) {
    if host.is_linux {
        ("host OS"@, Status::Pass, "linux ("@ + host.arch@ + ")"@)
    } else {
        (
            "host OS"@,
            Status::Fail,
            "current host is "@ + host.os@ + " on "@ + host.arch@ + "; launch requires Linux"@,
        )
    }
}

/// iproute2's `ip` must be on the search path.
pub open spec fn ip_check_view(found: Option<Seq<char>>) -> (Seq<char>, Status, Seq<char>) {
    match found {
        Some(p) => ("iproute2"@, Status::Pass, p),
        None => ("iproute2"@, Status::Fail, "`ip` command not found"@),
    }
}

/// A command must be on the search path; the check shows where it was found.
pub open spec fn command_check_view(label: Seq<char>, cmd: Seq<char>, found: Option<Seq<char>>) -> (
    Seq<char>,
    Status,
    Seq<char>,
) {
    match found {
        Some(p) => (label, Status::Pass, p),
        None => (label, Status::Fail, "`"@ + cmd + "` not found in PATH"@),
    }
}

/// The QEMU binary the launch would run.
pub open spec fn qemu_bin_text(config: FileConfig) -> Seq<char> {
    match config.launch.qemu_bin {
        Some(q) => q@,
        None => "qemu-system-x86_64"@,
    }
}

/// The accelerator the launch would use.
pub open spec fn accel_text(config: FileConfig) -> Seq<char> {
    match config.launch.accel {
        Some(a) => a@,
        None => "kvm"@,
    }
}

/// `/dev/kvm` must exist and open for reading and writing.
pub open spec fn kvm_check_views(host: HostFacts) -> Seq<(Seq<char>, Status, Seq<char>)> {
    if !host.kvm_present {
        seq![("/dev/kvm"@, Status::Fail, "device does not exist"@)]
    } else {
        seq![
            ("/dev/kvm"@, Status::Pass, "/dev/kvm"@),
            match host.kvm_access_error {
                None => ("kvm access"@, Status::Pass, "read/write open succeeded"@),
                Some(e) => ("kvm access"@, Status::Fail, e@),
            },
        ]
    }
}

/// The `/dev/kvm` checks under KVM acceleration, a warning otherwise.
pub open spec fn accel_check_views(config: FileConfig, host: HostFacts) -> Seq<
    (Seq<char>, Status, Seq<char>),
> {
    if accel_text(config) == "kvm"@ {
        kvm_check_views(host)
    } else {
        seq![
            (
                "acceleration"@,
                Status::Warn,
                "configured accel is `"@ + accel_text(config) + "`, so /dev/kvm is not required"@,
            ),
        ]
    }
}

/// A configured path must exist; an unset one is a warning.
pub open spec fn path_check_view(
    label: Seq<char>,
    path: Option<Seq<char>>,
    exists: bool,
    missing: Seq<char>,
) -> (Seq<char>, Status, Seq<char>) {
    match path {
        Some(p) => if exists {
            (label, Status::Pass, p)
        } else {
            (label, Status::Fail, "missing path "@ + p)
        },
        None => (label, Status::Warn, missing),
    }
}

/// The initramfs the launch would boot: `[launch].initramfs`, else `[build].output`.
pub open spec fn initramfs_text(config: FileConfig) -> Option<Seq<char>> {
    match config.launch.initramfs {
        Some(p) => Some(p@),
        None => opt_text(config.build.output),
    }
}

/// The counter API's listen address.
pub open spec fn listen_check_view(config: FileConfig) -> (Seq<char>, Status, Seq<char>) {
    match config.serve.listen {
        Some(a) => ("serve.listen"@, Status::Pass, a@),
        None => (
            "serve.listen"@,
            Status::Warn,
            "not configured; default will be 127.0.0.1:8080"@,
        ),
    }
}

/// The URL the guests call must be HTTP(S).
pub open spec fn host_api_check_view(config: FileConfig) -> (Seq<char>, Status, Seq<char>) {
    match config.launch.host_api {
        Some(url) => if is_http_url_text(url@) {
            ("launch.host_api"@, Status::Pass, url@)
        } else {
            ("launch.host_api"@, Status::Fail, "unsupported URL format: "@ + url@)
        },
        None => (
            "launch.host_api"@,
            Status::Warn,
            "not configured; default will be http://192.168.100.1:8080/incr"@,
        ),
    }
}

/// The bridge the TAP devices join should exist.
pub open spec fn bridge_check_view(config: FileConfig, host: HostFacts) -> (
    Seq<char>,
    Status,
    Seq<char>,
) {
    match config.launch.bridge {
        Some(b) => match host.bridge {
            BridgeProbe::Present => ("launch.bridge"@, Status::Pass, b@),
            BridgeProbe::Absent { status } => (
                "launch.bridge"@,
                Status::Warn,
                b@ + " not present yet (ip exited with status "@ + status@ + ")"@,
            ),
            BridgeProbe::Unavailable { error } => (
                "launch.bridge"@,
                Status::Warn,
                "unable to inspect bridge: "@ + error@,
            ),
        },
        None => ("launch.bridge"@, Status::Warn, "not configured; default will be minivm0"@),
    }
}

/// The host checks: operating system, `ip`, and the QEMU binary.
pub open spec fn host_check_views(
    config: FileConfig,
    host: HostFacts,
    ip_found: Option<Seq<char>>,
    qemu_found: Option<Seq<char>>,
) -> Seq<(Seq<char>, Status, Seq<char>)> {
    seq![
        os_check_view(host),
        ip_check_view(ip_found),
        command_check_view("qemu"@, qemu_bin_text(config), qemu_found),
    ]
}

/// The configuration checks: the three paths, the listen address, the host
/// API URL and the bridge.
pub open spec fn config_check_views(config: FileConfig, host: HostFacts) -> Seq<
    (Seq<char>, Status, Seq<char>),
> {
    seq![
        path_check_view(
            "busybox"@,
            opt_text(config.build.busybox),
            host.busybox_exists,
            "not configured; set [build].busybox or pass --busybox"@,
        ),
        path_check_view(
            "kernel"@,
            opt_text(config.launch.kernel),
            host.kernel_exists,
            "not configured; set [launch].kernel or pass --kernel"@,
        ),
        path_check_view(
            "initramfs"@,
            initramfs_text(config),
            host.initramfs_exists,
            "not configured; set [build].output or [launch].initramfs"@,
        ),
        listen_check_view(config),
        host_api_check_view(config),
        bridge_check_view(config, host),
    ]
}

/// Every check `doctor` reports, in order, given the host facts and where
/// `ip` and the QEMU binary were found on the search path.
pub open spec fn expected_checks(
    config: FileConfig,
    host: HostFacts,
    ip_found: Option<Seq<char>>,
    qemu_found: Option<Seq<char>>,
) -> Seq<(Seq<char>, Status, Seq<char>)> {
    host_check_views(config, host, ip_found, qemu_found) + accel_check_views(config, host)
        + config_check_views(config, host)
}

fn text(s: &str) -> (r: String)
    ensures
        r@ == s@,
{
    String::from_str(s)
}

/// A passing check.
pub fn pass(name: &str, detail: String) -> (c: Check)
    ensures
        check_view(c) == (name@, Status::Pass, detail@),
{
    Check { name: text(name), status: Status::Pass, detail }
}

/// A warning.
pub fn warn(name: &str, detail: String) -> (c: Check)
    ensures
        check_view(c) == (name@, Status::Warn, detail@),
{
    Check { name: text(name), status: Status::Warn, detail }
}

/// A failing check.
pub fn fail(name: &str, detail: String) -> (c: Check)
    ensures
        check_view(c) == (name@, Status::Fail, detail@),
{
    Check { name: text(name), status: Status::Fail, detail }
}

/// Whether `url` looks like an HTTP(S) URL.
pub fn is_likely_http_url(url: &str) -> (r: bool)
    ensures
        r == is_http_url_text(url@),
{
    proof {
        reveal_strlit("http://");
        reveal_strlit("https://");
    }
    starts_with(url, "http://") || starts_with(url, "https://")
}

/// The check of an optional configured path: passes when it exists, fails
/// when it does not, and warns with `missing_message` when none is set.
pub fn optional_path_check(label: &str, path: Option<&str>, exists: bool, missing_message: &str) -> (c:
    Check)
    ensures
        check_view(c) == path_check_view(
            label@,
            match path {
                Some(p) => Some(p@),
                None => None,
            },
            exists,
            missing_message@,
        ),
{
    match path {
        Some(p) => if exists {
            pass(label, text(p))
        } else {
            let mut d = text("missing path ");
            d.append(p);
            fail(label, d)
        },
        None => warn(label, text(missing_message)),
    }
}

/// The check of a command looked up on the search path, given where it was found.
pub fn command_check_found(label: &str, cmd: &str, found: Option<String>) -> (c: Check)
    ensures
        check_view(c) == command_check_view(label@, cmd@, opt_text(found)),
{
    match found {
        Some(p) => pass(label, p),
        None => {
            let mut d = text("`");
            d.append(cmd);
            d.append("` not found in PATH");
            fail(label, d)
        },
    }
}

/// How a path found for `name` on the search path is written: an absolute
/// name is answered with itself; a bare file name (no `/` in it) with itself
/// or with a path that ends in `/` and the name. Nothing is said here of other
/// names (relative ones that hold a `/`, or the empty name).
pub open spec fn lookup_answer_fits(name: Seq<char>, path: Seq<char>) -> bool {
    if name.len() > 0 && name[0] == '/' {
        path == name
    } else if name.len() > 0 && !name.contains('/') {
        ||| path == name
        ||| (path.len() > name.len() && path.subrange(
            path.len() - name.len() - 1,
            path.len() as int,
        ) == seq!['/'] + name)
    } else {
        true
    }
}

/// What a search-path lookup of `name` may have answered: nothing, or a path
/// written as `lookup_answer_fits` says.
pub open spec fn found_for(name: Seq<char>, found: Option<Seq<char>>) -> bool {
    found matches Some(p) ==> lookup_answer_fits(name, p)
}

/// `which::which`: the path of the executable `name` found on the search
/// path, if any, written out with `Path::display`. Whether and where it is
/// found depends on the environment and the file system, so only the shape of
/// the answer is claimed: `which` hands an absolute name back as it is, and
/// joins a bare file name onto a directory of `PATH` (or answers the name
/// itself for an empty `PATH` entry when the working directory is unknown).
/// The claim is about the Unix build of `which`, the only one this library is
/// for; on Windows `which` would also append extensions.
#[verifier::external_body]
pub(crate) fn find_on_path(name: &str) -> (r: Option<String>)
    ensures
        found_for(name@, opt_text(r)),
{
    which::which(name).ok().map(|p| p.display().to_string())
}

/// The check of a command on the search path: `cmd` is looked up, and the
/// check is the one `command_check_found` gives for the answer.
pub fn command_check(label: &str, cmd: &str) -> (c: Check)
    ensures
        exists|found: Option<Seq<char>>|
            found_for(cmd@, found) && check_view(c) == command_check_view(label@, cmd@, found),
{
    let found = find_on_path(cmd);
    let ghost answer = opt_text(found);
    let c = command_check_found(label, cmd, found);
    assert(found_for(cmd@, answer) && check_view(c) == command_check_view(label@, cmd@, answer));
    c
}

/// The QEMU binary `doctor` looks for: `[launch].qemu_bin`, else
/// `qemu-system-x86_64`.
pub fn qemu_lookup_name(config: &FileConfig) -> (s: String)
    ensures
        s@ == qemu_bin_text(*config),
{
    match &config.launch.qemu_bin {
        Some(q) => q.clone(),
        None => text("qemu-system-x86_64"),
    }
}


fn push_check(v: &mut Vec<Check>, c: Check)
    ensures
        check_views(final(v)@) == check_views(old(v)@).push(check_view(c)),
{
    v.push(c);
    assert(check_views(v@) =~= check_views(old(v)@).push(check_view(c)));
}

fn as_text(o: &Option<String>) -> (r: Option<&str>)
    ensures
        match r {
            Some(s) => opt_text(*o) == Some(s@),
            None => o is None,
        },
{
    match o {
        Some(s) => Some(s.as_str()),
        None => None,
    }
}

/// Whether the checks look at `/dev/kvm`: only when the launch would use KVM.
pub fn checks_kvm(config: &FileConfig) -> (r: bool)
    ensures
        r == (accel_text(*config) == "kvm"@),
{
    match &config.launch.accel {
        Some(a) => same_text(a.as_str(), "kvm"),
        None => true,
    }
}

/// The initramfs the launch would boot: `[launch].initramfs`, else `[build].output`.
pub fn initramfs_path(config: &FileConfig) -> (p: Option<&str>)
    ensures
        match p {
            Some(s) => initramfs_text(*config) == Some(s@),
            None => initramfs_text(*config) is None,
        },
{
    match &config.launch.initramfs {
        Some(p) => Some(p.as_str()),
        None => as_text(&config.build.output),
    }
}

fn push_host_checks(checks: &mut Vec<Check>, config: &FileConfig, host: &HostFacts, ip_found: Option<String>, qemu_found: Option<String>)
    ensures
        check_views(final(checks)@) == check_views(old(checks)@) + host_check_views(*config, *host, opt_text(ip_found), opt_text(qemu_found)),
{
    let ghost start = check_views(checks@);
    if host.is_linux {
        let mut d = text("linux (");
        d.append(host.arch.as_str());
        d.append(")");
        push_check(checks, pass("host OS", d));
    } else {
        let mut d = text("current host is ");
        d.append(host.os.as_str());
        d.append(" on ");
        d.append(host.arch.as_str());
        d.append("; launch requires Linux");
        push_check(checks, fail("host OS", d));
    }
    match ip_found {
        Some(p) => push_check(checks, pass("iproute2", p)),
        None => push_check(checks, fail("iproute2", text("`ip` command not found"))),
    }
    let qemu_bin = qemu_lookup_name(config);
    push_check(checks, command_check_found("qemu", qemu_bin.as_str(), qemu_found));
    assert(check_views(checks@) =~= start + host_check_views(*config, *host, opt_text(ip_found), opt_text(qemu_found)));
}

fn push_accel_checks(checks: &mut Vec<Check>, config: &FileConfig, host: &HostFacts)
    ensures
        check_views(final(checks)@) == check_views(old(checks)@) + accel_check_views(*config, *host),
{
    let ghost start = check_views(checks@);
    let accel = match &config.launch.accel {
        Some(a) => a.clone(),
        None => text("kvm"),
    };
    if same_text(accel.as_str(), "kvm") {
        if !host.kvm_present {
            push_check(checks, fail("/dev/kvm", text("device does not exist")));
        } else {
            push_check(checks, pass("/dev/kvm", text("/dev/kvm")));
            match &host.kvm_access_error {
                None => push_check(
                    checks,
                    pass("kvm access", text("read/write open succeeded")),
                ),
                Some(e) => push_check(checks, fail("kvm access", e.clone())),
            }
        }
    } else {
        let mut d = text("configured accel is `");
        d.append(accel.as_str());
        d.append("`, so /dev/kvm is not required");
        push_check(checks, warn("acceleration", d));
    }
    assert(check_views(checks@) =~= start + accel_check_views(*config, *host));
}

fn push_config_checks(checks: &mut Vec<Check>, config: &FileConfig, host: &HostFacts)
    ensures
        check_views(final(checks)@) == check_views(old(checks)@) + config_check_views(*config, *host),
{
    let ghost start = check_views(checks@);
    push_check(
        checks,
        optional_path_check(
            "busybox",
            as_text(&config.build.busybox),
            host.busybox_exists,
            "not configured; set [build].busybox or pass --busybox",
        ),
    );
    push_check(
        checks,
        optional_path_check(
            "kernel",
            as_text(&config.launch.kernel),
            host.kernel_exists,
            "not configured; set [launch].kernel or pass --kernel",
        ),
    );
    push_check(
        checks,
        optional_path_check(
            "initramfs",
            initramfs_path(config),
            host.initramfs_exists,
            "not configured; set [build].output or [launch].initramfs",
        ),
    );
    match &config.serve.listen {
        Some(a) => push_check(checks, pass("serve.listen", a.clone())),
        None => push_check(
            checks,
            warn("serve.listen", text("not configured; default will be 127.0.0.1:8080")),
        ),
    }
    match &config.launch.host_api {
        Some(url) => if is_likely_http_url(url.as_str()) {
            push_check(checks, pass("launch.host_api", url.clone()))
        } else {
            let mut d = text("unsupported URL format: ");
            d.append(url.as_str());
            push_check(checks, fail("launch.host_api", d))
        },
        None => push_check(
            checks,
            warn(
                "launch.host_api",
                text("not configured; default will be http://192.168.100.1:8080/incr"),
            ),
        ),
    }
    match &config.launch.bridge {
        Some(b) => match &host.bridge {
            BridgeProbe::Present => push_check(checks, pass("launch.bridge", b.clone())),
            BridgeProbe::Absent { status } => {
                let mut d = b.clone();
                d.append(" not present yet (ip exited with status ");
                d.append(status.as_str());
                d.append(")");
                push_check(checks, warn("launch.bridge", d))
            },
            BridgeProbe::Unavailable { error } => {
                let mut d = text("unable to inspect bridge: ");
                d.append(error.as_str());
                push_check(checks, warn("launch.bridge", d))
            },
        },
        None => push_check(
            checks,
            warn("launch.bridge", text("not configured; default will be minivm0")),
        ),
    }
    assert(check_views(checks@) =~= start + config_check_views(*config, *host));
}

/// Every check `doctor` reports, given the host facts and where `ip` and the
/// QEMU binary were found on the search path.
pub fn collect_checks_with(
    config: &FileConfig,
    host: &HostFacts,
    ip_found: Option<String>,
    qemu_found: Option<String>,
) -> (checks: Vec<Check>)
    ensures
        check_views(checks@) == expected_checks(
            *config,
            *host,
            opt_text(ip_found),
            opt_text(qemu_found),
        ),
{
    let ghost ip = opt_text(ip_found);
    let ghost qemu = opt_text(qemu_found);
    let mut checks: Vec<Check> = Vec::new();
    assert(check_views(checks@) =~= Seq::<(Seq<char>, Status, Seq<char>)>::empty());
    push_host_checks(&mut checks, config, host, ip_found, qemu_found);
    push_accel_checks(&mut checks, config, host);
    push_config_checks(&mut checks, config, host);
    assert(check_views(checks@) =~= expected_checks(*config, *host, ip, qemu));
    checks
}

/// Every check `doctor` reports: `ip` and the QEMU binary (`qemu_lookup_name`)
/// are looked up on the search path, and the checks are those
/// `collect_checks_with` gives for the two answers; the rest comes from `host`.
pub fn collect_checks(config: &FileConfig, host: &HostFacts) -> (checks: Vec<Check>)
    ensures
        exists|ip_found: Option<Seq<char>>, qemu_found: Option<Seq<char>>|
            found_for("ip"@, ip_found) && found_for(qemu_bin_text(*config), qemu_found)
                && check_views(checks@) == expected_checks(*config, *host, ip_found, qemu_found),
{
    let ip_found = find_on_path("ip");
    let qemu_bin = qemu_lookup_name(config);
    let qemu_found = find_on_path(qemu_bin.as_str());
    let ghost ip = opt_text(ip_found);
    let ghost qemu = opt_text(qemu_found);
    let checks = collect_checks_with(config, host, ip_found, qemu_found);
    assert(found_for("ip"@, ip) && found_for(qemu_bin_text(*config), qemu)
        && check_views(checks@) == expected_checks(*config, *host, ip, qemu));
    checks
}


/// How many checks have verdict `s`.
pub open spec fn count_status(v: Seq<(Seq<char>, Status, Seq<char>)>, s: Status) -> nat
    decreases v.len(),
{
    if v.len() == 0 {
        0
    } else {
        count_status(v.drop_last(), s) + if v.last().1 == s {
            1nat
        } else {
            0nat
        }
    }
}

/// How many checks passed, warned and failed.
#[derive(Clone, Copy, Debug, PartialEq, Eq, Structural)]
pub struct Summary {
    pub passed: usize,
    pub warned: usize,
    pub failed: usize,
}

/// Why a strict `doctor` run failed.
#[derive(Clone, Copy, Debug, PartialEq, Eq, Structural)]
pub enum DoctorError {
    FailingChecks { failed: usize },
}

proof fn lemma_counts_bounded(v: Seq<(Seq<char>, Status, Seq<char>)>)
    ensures
        count_status(v, Status::Pass) + count_status(v, Status::Warn) + count_status(
            v,
            Status::Fail,
        ) == v.len(),
    decreases v.len(),
{
    if v.len() > 0 {
        lemma_counts_bounded(v.drop_last());
    }
}

/// Counts the verdicts.
pub fn summarize(checks: &Vec<Check>) -> (s: Summary)
    ensures
        s.passed == count_status(check_views(checks@), Status::Pass),
        s.warned == count_status(check_views(checks@), Status::Warn),
        s.failed == count_status(check_views(checks@), Status::Fail),
{
    let mut s = Summary { passed: 0, warned: 0, failed: 0 };
    let mut i: usize = 0;
    while i < checks.len()
        invariant
            i <= checks.len(),
            s.passed == count_status(check_views(checks@.take(i as int)), Status::Pass),
            s.warned == count_status(check_views(checks@.take(i as int)), Status::Warn),
            s.failed == count_status(check_views(checks@.take(i as int)), Status::Fail),
        decreases checks.len() - i,
    {
        let ghost before = check_views(checks@.take(i as int));
        let ghost after = check_views(checks@.take(i + 1));
        assert(after.drop_last() =~= before);
        assert(after.last() == check_view(checks@[i as int]));
        proof {
            lemma_counts_bounded(before);
        }
        match checks[i].status {
            Status::Pass => s.passed = s.passed + 1,
            Status::Warn => s.warned = s.warned + 1,
            Status::Fail => s.failed = s.failed + 1,
        }
        i = i + 1;
    }
    assert(checks@.take(checks.len() as int) =~= checks@);
    s
}

/// A strict run fails when any check failed; otherwise the run succeeds.
pub fn verdict(strict: bool, summary: &Summary) -> (r: Result<(), DoctorError>)
    ensures
        r is Err <==> strict && summary.failed > 0,
        r matches Err(e) ==> e == (DoctorError::FailingChecks { failed: summary.failed }),
{
    if strict && summary.failed > 0 {
        Err(DoctorError::FailingChecks { failed: summary.failed })
    } else {
        Ok(())
    }
}

/// Every check is counted once: passes, warnings and failures add up to the
/// number of checks, and there are failures exactly when some check failed.
pub proof fn law_summary_counts_every_check(v: Seq<(Seq<char>, Status, Seq<char>)>)
    ensures
        count_status(v, Status::Pass) + count_status(v, Status::Warn) + count_status(
            v,
            Status::Fail,
        ) == v.len(),
        count_status(v, Status::Fail) > 0 <==> exists|i: int|
            0 <= i < v.len() && #[trigger] v[i].1 == Status::Fail,
    decreases v.len(),
{
    lemma_counts_bounded(v);
    if v.len() > 0 {
        law_summary_counts_every_check(v.drop_last());
        let w = v.drop_last();
        if count_status(w, Status::Fail) > 0 {
            let i = choose|i: int| 0 <= i < w.len() && #[trigger] w[i].1 == Status::Fail;
            assert(v[i].1 == Status::Fail);
        }
        if exists|i: int| 0 <= i < v.len() && #[trigger] v[i].1 == Status::Fail {
            let i = choose|i: int| 0 <= i < v.len() && #[trigger] v[i].1 == Status::Fail;
            if i < v.len() - 1 {
                assert(w[i].1 == Status::Fail);
            }
        }
    }
}

/// The report line of a check, such as `[PASS] iproute2: /usr/sbin/ip`.
pub open spec fn check_line_text(c: (Seq<char>, Status, Seq<char>)) -> Seq<char> {
    status_tag(c.1) + c.0 + ": "@ + c.2
}

/// The tag that opens a report line.
pub open spec fn status_tag(s: Status) -> Seq<char> {
    match s {
        Status::Pass => "[PASS] "@,
        Status::Warn => "[WARN] "@,
        Status::Fail => "[FAIL] "@,
    }
}

/// The report line of a check.
pub fn check_line(c: &Check) -> (s: String)
    ensures
        s@ == check_line_text(check_view(*c)),
{
    let mut s = match c.status {
        Status::Pass => text("[PASS] "),
        Status::Warn => text("[WARN] "),
        Status::Fail => text("[FAIL] "),
    };
    s.append(c.name.as_str());
    s.append(": ");
    s.append(c.detail.as_str());
    s
}

/// The closing line: `summary: P passed, W warnings, F failed`.
pub fn summary_line(s: &Summary) -> (line: String)
    ensures
        line@ == "summary: "@ + decimal(s.passed as nat) + " passed, "@ + decimal(
            s.warned as nat,
        ) + " warnings, "@ + decimal(s.failed as nat) + " failed"@,
{
    let mut line = text("summary: ");
    line.append(decimal_string(s.passed as u64).as_str());
    line.append(" passed, ");
    line.append(decimal_string(s.warned as u64).as_str());
    line.append(" warnings, ");
    line.append(decimal_string(s.failed as u64).as_str());
    line.append(" failed");
    line
}

/// The opening line: which configuration file is in effect.
pub fn config_line(loaded: &LoadedConfig) -> (line: String)
    ensures
        match loaded.path {
            Some(p) => line@ == "config: "@ + p@,
            None => line@ == "config: not loaded, using built-in defaults"@,
        },
{
    match &loaded.path {
        Some(p) => {
            let mut line = text("config: ");
            line.append(p.as_str());
            line
        },
        None => text("config: not loaded, using built-in defaults"),
    }
}


/// What `doctor` is asked: fail on failing checks or not, and the configuration.
#[derive(Clone, Debug)]
pub struct DoctorConfig {
    pub strict: bool,
    pub loaded_config: LoadedConfig,
}

/// The printed report and how the run ends.
#[derive(Debug)]
pub struct DoctorReport {
    pub lines: Vec<String>,
    pub summary: Summary,
    pub outcome: Result<(), DoctorError>,
}

/// The opening line's text.
pub open spec fn config_line_text(loaded: LoadedConfig) -> Seq<char> {
    match loaded.path {
        Some(p) => "config: "@ + p@,
        None => "config: not loaded, using built-in defaults"@,
    }
}

/// The closing line's text.
pub open spec fn summary_line_text(s: Summary) -> Seq<char> {
    "summary: "@ + decimal(s.passed as nat) + " passed, "@ + decimal(s.warned as nat)
        + " warnings, "@ + decimal(s.failed as nat) + " failed"@
}

/// The report: the configuration line, one line per check, a blank line and
/// the summary; a strict run ends in failure when any check failed.
pub fn report(config: &DoctorConfig, checks: &Vec<Check>) -> (r: DoctorReport)
    ensures
        r.summary.passed == count_status(check_views(checks@), Status::Pass),
        r.summary.warned == count_status(check_views(checks@), Status::Warn),
        r.summary.failed == count_status(check_views(checks@), Status::Fail),
        crate::text::texts(r.lines@) == seq![config_line_text(config.loaded_config)]
            + check_views(checks@).map_values(
            |c: (Seq<char>, Status, Seq<char>)| check_line_text(c),
        ) + seq![Seq::<char>::empty(), summary_line_text(r.summary)],
        r.outcome is Err <==> config.strict && r.summary.failed > 0,
        r.outcome matches Err(e) ==> e == (DoctorError::FailingChecks {
            failed: r.summary.failed,
        }),
{
    let mut lines: Vec<String> = Vec::new();
    assert(crate::text::texts(lines@) =~= Seq::<Seq<char>>::empty());
    crate::text::push_text(&mut lines, config_line(&config.loaded_config));
    let ghost first = crate::text::texts(lines@);
    let mut i: usize = 0;
    while i < checks.len()
        invariant
            i <= checks.len(),
            first == seq![config_line_text(config.loaded_config)],
            crate::text::texts(lines@) == first + check_views(checks@.take(i as int)).map_values(
                |c: (Seq<char>, Status, Seq<char>)| check_line_text(c),
            ),
        decreases checks.len() - i,
    {
        let line = check_line(&checks[i]);
        crate::text::push_text(&mut lines, line);
        assert(check_views(checks@.take(i + 1)).map_values(
            |c: (Seq<char>, Status, Seq<char>)| check_line_text(c),
        ) =~= check_views(checks@.take(i as int)).map_values(
            |c: (Seq<char>, Status, Seq<char>)| check_line_text(c),
        ).push(check_line_text(check_view(checks@[i as int]))));
        i = i + 1;
    }
    assert(checks@.take(checks.len() as int) =~= checks@);
    let summary = summarize(checks);
    let ghost mid = crate::text::texts(lines@);
    proof {
        reveal_strlit("");
    }
    let blank = text("");
    assert(blank@ =~= Seq::<char>::empty());
    crate::text::push_text(&mut lines, blank);
    crate::text::push_text(&mut lines, summary_line(&summary));
    assert(crate::text::texts(lines@) =~= mid + seq![Seq::<char>::empty(), summary_line_text(summary)]);
    let outcome = verdict(config.strict, &summary);
    DoctorReport { lines, summary, outcome }
}

/// Under KVM acceleration `/dev/kvm` must be usable: when it is missing, or
/// present but fails to open for reading and writing, the checks hold a
/// failing check saying so (with the open error), and a strict run fails;
/// when it opens, the access check passes.
/// Under any other accelerator no check looks at `/dev/kvm` at all.
pub proof fn law_unusable_kvm_fails_the_checks(
    config: FileConfig,
    host: HostFacts,
    ip_found: Option<Seq<char>>,
    qemu_found: Option<Seq<char>>,
)
    ensures
        ({
            let v = expected_checks(config, host, ip_found, qemu_found);
            &&& accel_text(config) == "kvm"@ && !host.kvm_present ==> exists|i: int|
                0 <= i < v.len() && #[trigger] v[i] == ("/dev/kvm"@, Status::Fail,
                "device does not exist"@)
            &&& accel_text(config) == "kvm"@ && host.kvm_present
                && host.kvm_access_error is Some ==> exists|i: int|
                0 <= i < v.len() && #[trigger] v[i] == ("kvm access"@, Status::Fail,
                host.kvm_access_error->0@)
            &&& accel_text(config) == "kvm"@ && (!host.kvm_present
                || host.kvm_access_error is Some) ==> count_status(v, Status::Fail) > 0
            &&& accel_text(config) == "kvm"@ && host.kvm_present
                && host.kvm_access_error is None ==> exists|i: int|
                0 <= i < v.len() && #[trigger] v[i] == ("kvm access"@, Status::Pass,
                "read/write open succeeded"@)
            &&& accel_text(config) != "kvm"@ ==> forall|i: int|
                0 <= i < v.len() ==> #[trigger] v[i].0 != "/dev/kvm"@ && v[i].0 != "kvm access"@
        }),
{
    let v = expected_checks(config, host, ip_found, qemu_found);
    law_summary_counts_every_check(v);
    if accel_text(config) == "kvm"@ {
        if !host.kvm_present {
            assert(v[3] == ("/dev/kvm"@, Status::Fail, "device does not exist"@));
            assert(v[3].1 == Status::Fail);
        } else if host.kvm_access_error is Some {
            assert(v[4] == ("kvm access"@, Status::Fail, host.kvm_access_error->0@));
            assert(v[4].1 == Status::Fail);
        } else {
            assert(v[4] == ("kvm access"@, Status::Pass, "read/write open succeeded"@));
        }
    } else {
        reveal_strlit("/dev/kvm");
        reveal_strlit("kvm access");
        reveal_strlit("host OS");
        reveal_strlit("iproute2");
        reveal_strlit("qemu");
        reveal_strlit("acceleration");
        reveal_strlit("busybox");
        reveal_strlit("kernel");
        reveal_strlit("initramfs");
        reveal_strlit("serve.listen");
        reveal_strlit("launch.host_api");
        reveal_strlit("launch.bridge");
        assert(v.len() == 10);
        assert forall|i: int| 0 <= i < v.len() implies #[trigger] v[i].0 != "/dev/kvm"@ && v[i].0
            != "kvm access"@ by {
            if i == 0 {
                assert(v[0].0 == "host OS"@);
                assert("host OS"@.len() != "kvm access"@.len());
                assert("host OS"@.len() != "/dev/kvm"@.len());
            } else if i == 1 {
                assert(v[1].0 == "iproute2"@);
                assert("iproute2"@.len() != "kvm access"@.len());
                assert("iproute2"@[0] != "/dev/kvm"@[0]);
            } else if i == 2 {
                assert(v[2].0 == "qemu"@);
                assert("qemu"@.len() != "kvm access"@.len());
                assert("qemu"@.len() != "/dev/kvm"@.len());
            } else if i == 3 {
                assert(v[3].0 == "acceleration"@);
                assert("acceleration"@.len() != "kvm access"@.len());
                assert("acceleration"@.len() != "/dev/kvm"@.len());
            } else if i == 4 {
                assert(v[4].0 == "busybox"@);
                assert("busybox"@.len() != "kvm access"@.len());
                assert("busybox"@.len() != "/dev/kvm"@.len());
            } else if i == 5 {
                assert(v[5].0 == "kernel"@);
                assert("kernel"@.len() != "kvm access"@.len());
                assert("kernel"@.len() != "/dev/kvm"@.len());
            } else if i == 6 {
                assert(v[6].0 == "initramfs"@);
                assert("initramfs"@.len() != "kvm access"@.len());
                assert("initramfs"@.len() != "/dev/kvm"@.len());
            } else if i == 7 {
                assert(v[7].0 == "serve.listen"@);
                assert("serve.listen"@.len() != "kvm access"@.len());
                assert("serve.listen"@.len() != "/dev/kvm"@.len());
            } else if i == 8 {
                assert(v[8].0 == "launch.host_api"@);
                assert("launch.host_api"@.len() != "kvm access"@.len());
                assert("launch.host_api"@.len() != "/dev/kvm"@.len());
            } else {
                assert(v[9].0 == "launch.bridge"@);
                assert("launch.bridge"@.len() != "kvm access"@.len());
                assert("launch.bridge"@.len() != "/dev/kvm"@.len());
            }
        }
    }
}

} // verus!
