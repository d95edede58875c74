//! The launch plan: the network of a launch, and for each guest its launch
//! specification and the TAP device commands, computed before anything runs.

use vstd::prelude::*;
use vstd::string::*;
use vstd::utf8::encode_utf8;

use crate::net::{
    dotted, mac_text, tap_name_text, Ipv4Addr, NetError, NetworkPlan, MAX_MAC_INDEX,
    MAX_TAP_NAME_LEN,
};
use crate::qemu::VmLaunchSpec;
use crate::text::{decimal, decimal_string, join_path, join_relative, push_text, same_text, texts};

verus! {

/// The settings of one `launch`.
#[derive(Clone, Debug)]
pub struct LaunchConfig {
    pub backend: String,
    pub count: usize,
    pub kernel: String,
    pub initramfs: String,
    pub workdir: String,
    pub host_api: String,
    pub bridge: String,
    pub subnet_base: String,
    pub prefix_len: u8,
    pub memory_mib: u32,
    pub qemu_bin: String,
    pub machine: String,
    pub accel: String,
    pub tap_prefix: String,
    pub skip_tap_setup: bool,
    pub keep_taps: bool,
}

/// Why a launch was refused before or while planning a guest.
#[derive(Clone, Debug)]
pub enum LaunchError {
    /// `--count` was 0.
    ZeroCount,
    /// The subnet base is not a dotted-decimal IPv4 address.
    InvalidSubnet { text: String },
    /// The network plan refused an allocation.
    Network(NetError),
    /// TAP devices can only be made on a Linux host.
    NotLinux { os: String },
    /// The backend name is neither `qemu` nor `kvm`.
    UnsupportedBackend { name: String },
}

/// The network of a launch: the plan and the gateway address as text.
#[derive(Clone, Debug)]
pub struct LaunchNetwork {
    pub plan: NetworkPlan,
    pub gateway: String,
}

/// What to do for one guest: its launch specification, and the `ip`
/// invocations (arguments only) that create and attach its TAP device.
#[derive(Clone, Debug)]
pub struct GuestPlan {
    pub spec: VmLaunchSpec,
    pub tap_setup: Vec<Vec<String>>,
}

/// The guest's name: `vm` and its index.
pub open spec fn guest_name_text(id: nat) -> Seq<char> {
    seq!['v', 'm'] + decimal(id)
}

/// The `ip` argument lists that create a TAP device, attach it to the bridge
/// and bring it up.
pub open spec fn create_tap_text(name: Seq<char>, bridge: Seq<char>) -> Seq<Seq<Seq<char>>> {
    seq![
        seq!["tuntap"@, "add"@, "dev"@, name, "mode"@, "tap"@],
        seq!["link"@, "set"@, name, "master"@, bridge],
        seq!["link"@, "set"@, name, "up"@],
    ]
}

/// The `ip` argument list that deletes a TAP device.
pub open spec fn delete_tap_text(name: Seq<char>) -> Seq<Seq<char>> {
    seq!["link"@, "delete"@, name]
}

/// The characters of each argument list.
pub open spec fn command_texts(v: Seq<Vec<String>>) -> Seq<Seq<Seq<char>>> {
    v.map_values(|c: Vec<String>| texts(c@))
}

/// The `ip` argument lists that set up the TAP device `name` on `bridge`.
pub fn create_tap_commands(name: &str, bridge: &str) -> (cmds: Vec<Vec<String>>)
    ensures
        command_texts(cmds@) == create_tap_text(name@, bridge@),
{
    let mut add: Vec<String> = Vec::new();
    assert(texts(add@) =~= Seq::<Seq<char>>::empty());
    push_text(&mut add, String::from_str("tuntap"));
    push_text(&mut add, String::from_str("add"));
    push_text(&mut add, String::from_str("dev"));
    push_text(&mut add, String::from_str(name));
    push_text(&mut add, String::from_str("mode"));
    push_text(&mut add, String::from_str("tap"));
    let mut master: Vec<String> = Vec::new();
    assert(texts(master@) =~= Seq::<Seq<char>>::empty());
    push_text(&mut master, String::from_str("link"));
    push_text(&mut master, String::from_str("set"));
    push_text(&mut master, String::from_str(name));
    push_text(&mut master, String::from_str("master"));
    push_text(&mut master, String::from_str(bridge));
    let mut up: Vec<String> = Vec::new();
    assert(texts(up@) =~= Seq::<Seq<char>>::empty());
    push_text(&mut up, String::from_str("link"));
    push_text(&mut up, String::from_str("set"));
    push_text(&mut up, String::from_str(name));
    push_text(&mut up, String::from_str("up"));
    let ghost t_add = texts(add@);
    let ghost t_master = texts(master@);
    let ghost t_up = texts(up@);
    let mut cmds: Vec<Vec<String>> = Vec::new();
    cmds.push(add);
    cmds.push(master);
    cmds.push(up);
    assert(command_texts(cmds@) =~= seq![t_add, t_master, t_up]);
    assert(t_add =~= seq!["tuntap"@, "add"@, "dev"@, name@, "mode"@, "tap"@]);
    assert(t_master =~= seq!["link"@, "set"@, name@, "master"@, bridge@]);
    assert(t_up =~= seq!["link"@, "set"@, name@, "up"@]);
    cmds
}

/// The `ip` argument list that deletes the TAP device `name`.
pub fn delete_tap_command(name: &str) -> (cmd: Vec<String>)
    ensures
        texts(cmd@) == delete_tap_text(name@),
{
    let mut cmd: Vec<String> = Vec::new();
    assert(texts(cmd@) =~= Seq::<Seq<char>>::empty());
    push_text(&mut cmd, String::from_str("link"));
    push_text(&mut cmd, String::from_str("delete"));
    push_text(&mut cmd, String::from_str(name));
    assert(texts(cmd@) =~= delete_tap_text(name@));
    cmd
}

/// The deletions of the TAP devices `created`, in order, or none when the
/// settings keep them.
pub open spec fn teardown_text(config: LaunchConfig, created: Seq<Seq<char>>) -> Seq<Seq<Seq<char>>> {
    if config.keep_taps {
        Seq::empty()
    } else {
        created.map_values(|t: Seq<char>| delete_tap_text(t))
    }
}

/// The `ip` invocations that remove the TAP devices a launch created when it
/// ends: one per device, in order, or none when the settings keep them.
pub fn teardown_commands(config: &LaunchConfig, created: &Vec<String>) -> (cmds: Vec<Vec<String>>)
    ensures
        command_texts(cmds@) == teardown_text(*config, texts(created@)),
        config.keep_taps ==> cmds@.len() == 0,
        !config.keep_taps ==> cmds@.len() == created@.len() && forall|i: int|
            0 <= i < created@.len() ==> texts(#[trigger] cmds@[i]@) == delete_tap_text(
                created@[i]@,
            ),
{
    let mut cmds: Vec<Vec<String>> = Vec::new();
    if config.keep_taps {
        assert(command_texts(cmds@) =~= teardown_text(*config, texts(created@)));
        return cmds;
    }
    let mut i: usize = 0;
    while i < created.len()
        invariant
            i <= created.len(),
            cmds@.len() == i,
            forall|k: int| 0 <= k < i ==> texts(#[trigger] cmds@[k]@) == delete_tap_text(
                created@[k]@,
            ),
        decreases created.len() - i,
    {
        cmds.push(delete_tap_command(created[i].as_str()));
        i = i + 1;
    }
    assert(command_texts(cmds@) =~= teardown_text(*config, texts(created@)));
    cmds
}

/// Takes note of what one `ip` command of a guest's TAP setup did. The device
/// exists from the moment its first setup command (`ip tuntap add`) succeeded,
/// so its name joins `created` then, and `teardown_commands` removes it with
/// the others however the launch ends. The launch goes on only when the
/// command succeeded.
pub fn record_tap_command(created: &mut Vec<String>, name: &str, index: usize, succeeded: bool) -> (go_on: bool)
    ensures
        go_on == succeeded,
        succeeded && index == 0 ==> texts(final(created)@) == texts(old(created)@).push(name@),
        !(succeeded && index == 0) ==> final(created)@ == old(created)@,
{
    if succeeded && index == 0 {
        push_text(created, String::from_str(name));
    }
    succeeded
}

/// TAP devices are made with iproute2, so the host must run Linux.
pub fn ensure_linux_host(os: &str) -> (r: Result<(), LaunchError>)
    ensures
        r is Ok <==> os@ == "linux"@,
        r matches Err(e) ==> (e matches LaunchError::NotLinux { os: o } && o@ == os@),
{
    if same_text(os, "linux") {
        Ok(())
    } else {
        Err(LaunchError::NotLinux { os: String::from_str(os) })
    }
}

/// Checks the guest count and lays out the network: the subnet base is read
/// as dotted decimal, the plan made, and the gateway (`base + 1`) rendered.
pub fn prepare_launch(config: &LaunchConfig) -> (r: Result<LaunchNetwork, LaunchError>)
    ensures
        config.count == 0 ==> r matches Err(LaunchError::ZeroCount),
        config.count > 0 && (forall|ip: Ipv4Addr| config.subnet_base@ != dotted(ip)) ==> (
        r matches Err(LaunchError::InvalidSubnet { text }) && text@ == config.subnet_base@),
        forall|ip: Ipv4Addr|
            #![trigger dotted(ip)]
            config.count > 0 && config.subnet_base@ == dotted(ip) ==> {
                if config.prefix_len > 30 {
                    r matches Err(LaunchError::Network(NetError::PrefixTooLong { prefix_len }))
                        && prefix_len == config.prefix_len
                } else if ip.bits() + 1 > u32::MAX {
                    r matches Err(LaunchError::Network(NetError::AddressOverflow { offset }))
                        && offset == 1
                } else {
                    r matches Ok(n) && n.plan.base() == ip && n.plan.prefix_len()
                        == config.prefix_len && exists|g: Ipv4Addr|
                        g.bits() == ip.bits() + 1 && n.gateway@ == dotted(g)
                }
            },
{
    if config.count == 0 {
        return Err(LaunchError::ZeroCount);
    }
    let base = match Ipv4Addr::parse(config.subnet_base.as_str()) {
        Some(ip) => ip,
        None => {
            return Err(LaunchError::InvalidSubnet { text: config.subnet_base.clone() });
        },
    };
    let plan = match NetworkPlan::new(base, config.prefix_len) {
        Ok(p) => p,
        Err(e) => {
            return Err(LaunchError::Network(e));
        },
    };
    let gateway = match plan.gateway() {
        Ok(g) => g,
        Err(e) => {
            return Err(LaunchError::Network(e));
        },
    };
    Ok(LaunchNetwork { plan, gateway: gateway.render() })
}


/// The launch specification of guest `id`: its name, serial log, address,
/// TAP device and MAC address, the rest copied from the settings.
#[verifier::opaque]
pub open spec fn guest_spec_ok(config: LaunchConfig, network: LaunchNetwork, id: usize, spec: VmLaunchSpec) -> bool {
    let name = guest_name_text(id as nat);
    &&& spec.id == id
    &&& spec.name@ == name
    &&& spec.kernel@ == config.kernel@
    &&& spec.initramfs@ == config.initramfs@
    &&& spec.serial_log@ == join_path(config.workdir@, name + ".serial.log"@)
    &&& spec.host_api@ == config.host_api@
    &&& (exists|ip: Ipv4Addr|
        ip.bits() == network.plan.spec_offset_ip((id + 2) as usize)->Ok_0 && spec.guest_ip_cidr@
            == dotted(ip) + seq!['/'] + decimal(network.plan.prefix_len() as nat))
    &&& spec.gateway@ == network.gateway@
    &&& spec.tap_name@ == tap_name_text(config.tap_prefix@, id as nat)
    &&& spec.mac_address@ == mac_text(id as nat)
    &&& spec.memory_mib == config.memory_mib
    &&& spec.qemu_bin@ == config.qemu_bin@
    &&& spec.machine@ == config.machine@
    &&& spec.accel@ == config.accel@
}

/// The plan of guest `id`: its launch specification, and its TAP commands
/// unless TAP setup is skipped.
pub open spec fn guest_plan_ok(config: LaunchConfig, network: LaunchNetwork, id: usize, p: GuestPlan) -> bool {
    &&& guest_spec_ok(config, network, id, p.spec)
    &&& if config.skip_tap_setup {
        p.tap_setup@.len() == 0
    } else {
        command_texts(p.tap_setup@) == create_tap_text(
            tap_name_text(config.tap_prefix@, id as nat),
            config.bridge@,
        )
    }
}

/// The TAP setup commands of a plan, one by one.
proof fn lemma_plan_commands(config: LaunchConfig, network: LaunchNetwork, id: usize, p: GuestPlan)
    requires
        guest_plan_ok(config, network, id, p),
    ensures
        p.tap_setup@.len() == setup_commands(config),
        forall|i: int|
            0 <= i < p.tap_setup@.len() ==> texts(#[trigger] p.tap_setup@[i]@) == create_tap_text(
                tap_name_text(config.tap_prefix@, id as nat),
                config.bridge@,
            )[i],
{
    if !config.skip_tap_setup {
        assert(command_texts(p.tap_setup@).len() == p.tap_setup@.len());
        assert forall|i: int| 0 <= i < p.tap_setup@.len() implies texts(
            #[trigger] p.tap_setup@[i]@,
        ) == create_tap_text(tap_name_text(config.tap_prefix@, id as nat), config.bridge@)[i] by {
            assert(command_texts(p.tap_setup@)[i] == texts(p.tap_setup@[i]@));
        }
    }
}

/// Guest `id`'s TAP device name fits the Linux interface-name limit.
pub open spec fn tap_name_fits(config: LaunchConfig, id: usize) -> bool {
    (encode_utf8(tap_name_text(config.tap_prefix@, id as nat)).len() as usize) <= MAX_TAP_NAME_LEN
}

/// Guest `id` can be planned: its TAP name, address and MAC are all allocated.
pub open spec fn guest_plannable(config: LaunchConfig, network: LaunchNetwork, id: usize) -> bool {
    &&& tap_name_fits(config, id)
    &&& network.plan.spec_offset_ip((id + 2) as usize) is Ok
    &&& id <= MAX_MAC_INDEX
}

/// What planning guest `id` gives: the refusals in the order they are
/// checked (TAP name, address, MAC), then the plan.
pub open spec fn plan_outcome(
    config: LaunchConfig,
    network: LaunchNetwork,
    id: usize,
    r: Result<GuestPlan, LaunchError>,
) -> bool {
    if !tap_name_fits(config, id) {
        r matches Err(LaunchError::Network(NetError::TapNameTooLong { name })) && name@
            == tap_name_text(config.tap_prefix@, id as nat)
    } else if network.plan.spec_offset_ip((id + 2) as usize) is Err {
        r matches Err(LaunchError::Network(NetError::AddressOverflow { offset })) && offset == id
            + 2
    } else if id > MAX_MAC_INDEX {
        r matches Err(LaunchError::Network(NetError::TooManyVms))
    } else {
        r matches Ok(p) && guest_plan_ok(config, network, id, p)
    }
}

/// Plans guest `id`: TAP name, address and MAC are allocated (refusing in
/// that order), then its launch specification and TAP commands are laid out.
pub fn plan_guest(config: &LaunchConfig, network: &LaunchNetwork, id: usize) -> (r: Result<
    GuestPlan,
    LaunchError,
>)
    requires
        id + 2 <= usize::MAX,
    ensures
        plan_outcome(*config, *network, id, r),
{
    let tap_name = match network.plan.tap_name(config.tap_prefix.as_str(), id) {
        Ok(t) => t,
        Err(e) => {
            return Err(LaunchError::Network(e));
        },
    };
    let guest_ip_cidr = match network.plan.guest_cidr(id) {
        Ok(c) => c,
        Err(e) => {
            return Err(LaunchError::Network(e));
        },
    };
    let mac_address = match network.plan.mac_address(id) {
        Ok(m) => m,
        Err(e) => {
            return Err(LaunchError::Network(e));
        },
    };
    proof {
        reveal_strlit("vm");
    }
    let mut name = String::from_str("vm");
    let digits = decimal_string(id as u64);
    name.append(digits.as_str());
    let mut log_name = name.clone();
    log_name.append(".serial.log");
    let serial_log = join_relative(config.workdir.as_str(), log_name.as_str());
    let tap_setup = if config.skip_tap_setup {
        Vec::new()
    } else {
        create_tap_commands(tap_name.as_str(), config.bridge.as_str())
    };
    let spec = VmLaunchSpec {
        id,
        name,
        kernel: config.kernel.clone(),
        initramfs: config.initramfs.clone(),
        serial_log,
        host_api: config.host_api.clone(),
        guest_ip_cidr,
        gateway: network.gateway.clone(),
        tap_name,
        mac_address,
        memory_mib: config.memory_mib,
        qemu_bin: config.qemu_bin.clone(),
        machine: config.machine.clone(),
        accel: config.accel.clone(),
    };
    assert(spec.name@ =~= guest_name_text(id as nat));
    proof {
        reveal(guest_spec_ok);
    }
    Ok(GuestPlan { spec, tap_setup })
}


/// Two guests of one launch never share a name, serial log, TAP device,
/// address or MAC address (for indices the MAC allocator accepts).
#[verifier::spinoff_prover]
#[verifier::rlimit(30)]
pub proof fn law_guests_do_not_collide(
    config: LaunchConfig,
    network: LaunchNetwork,
    i: usize,
    j: usize,
    pi: GuestPlan,
    pj: GuestPlan,
)
    requires
        i != j,
        i <= MAX_MAC_INDEX,
        j <= MAX_MAC_INDEX,
        network.plan.spec_offset_ip((i + 2) as usize) is Ok,
        network.plan.spec_offset_ip((j + 2) as usize) is Ok,
        guest_plan_ok(config, network, i, pi),
        guest_plan_ok(config, network, j, pj),
    ensures
        pi.spec.name@ != pj.spec.name@,
        pi.spec.serial_log@ != pj.spec.serial_log@,
        pi.spec.tap_name@ != pj.spec.tap_name@,
        pi.spec.guest_ip_cidr@ != pj.spec.guest_ip_cidr@,
        pi.spec.mac_address@ != pj.spec.mac_address@,
{
    reveal(guest_spec_ok);
    crate::net::law_tap_names_distinct(config.tap_prefix@, i as nat, j as nat);
    crate::net::law_mac_addresses_distinct(i as nat, j as nat);
    if pi.spec.name@ == pj.spec.name@ {
        assert(guest_name_text(i as nat).skip(2) =~= decimal(i as nat));
        assert(guest_name_text(j as nat).skip(2) =~= decimal(j as nat));
        crate::text::lemma_decimal_injective(i as nat, j as nat);
    }
    if pi.spec.serial_log@ == pj.spec.serial_log@ {
        let d = config.workdir@;
        let li = guest_name_text(i as nat) + ".serial.log"@;
        let lj = guest_name_text(j as nat) + ".serial.log"@;
        let p = join_path(d, li).len() - li.len();
        assert(join_path(d, li).skip(p) =~= li);
        assert(join_path(d, lj).skip(p) =~= lj);
        assert(li.len() == lj.len());
        assert(li.subrange(0, li.len() - ".serial.log"@.len()) =~= guest_name_text(i as nat));
        assert(lj.subrange(0, lj.len() - ".serial.log"@.len()) =~= guest_name_text(j as nat));
        assert(guest_name_text(i as nat).skip(2) =~= decimal(i as nat));
        assert(guest_name_text(j as nat).skip(2) =~= decimal(j as nat));
        crate::text::lemma_decimal_injective(i as nat, j as nat);
    }
    crate::net::law_guest_addresses_distinct(network.plan, i, j);
    let xi = choose|ip: Ipv4Addr|
        ip.bits() == network.plan.spec_offset_ip((i + 2) as usize)->Ok_0 && pi.spec.guest_ip_cidr@
            == dotted(ip) + seq!['/'] + decimal(network.plan.prefix_len() as nat);
    let xj = choose|ip: Ipv4Addr|
        ip.bits() == network.plan.spec_offset_ip((j + 2) as usize)->Ok_0 && pj.spec.guest_ip_cidr@
            == dotted(ip) + seq!['/'] + decimal(network.plan.prefix_len() as nat);
    if pi.spec.guest_ip_cidr@ == pj.spec.guest_ip_cidr@ {
        let suffix = seq!['/'] + decimal(network.plan.prefix_len() as nat);
        let ci = pi.spec.guest_ip_cidr@;
        assert(ci.subrange(0, ci.len() - suffix.len()) =~= dotted(xi));
        assert(ci.subrange(0, ci.len() - suffix.len()) =~= dotted(xj));
        crate::net::lemma_dotted_injective(xi, xj);
    }
}

// ---------------------------------------------------------------------------
// Running a launch
// ---------------------------------------------------------------------------

/// Why a launch ended in failure.
#[derive(Debug)]
pub enum LaunchFailure {
    /// A guest could not be planned, or its TAP device needs a Linux host.
    Refused(LaunchError),
    /// An `ip` command setting up guest `guest`'s TAP device failed.
    TapSetup { guest: usize },
    /// Guest `guest` could not be started.
    Spawn { guest: usize },
    /// Guest `guest` could not be waited for, or exited unsuccessfully.
    Guest { guest: usize },
}

/// Where a launch stands.
#[derive(Debug)]
pub enum LaunchPhase {
    /// Starting guest `guest`: `done` of its TAP setup commands have succeeded;
    /// once all have (or none are needed) the guest itself is started.
    SetUp { guest: usize, done: usize },
    /// Every guest was started; waiting for guest `guest` to exit.
    Wait { guest: usize },
    /// Removing the TAP devices made, before ending with `outcome`.
    TearDown { outcome: Result<(), LaunchFailure> },
    /// The launch has ended.
    Done,
}

/// A launch in progress: where it stands, the host's operating system, the
/// TAP devices made so far, and how many guests were started and exited cleanly.
#[derive(Debug)]
pub struct LaunchState {
    pub phase: LaunchPhase,
    pub os: String,
    pub created: Vec<String>,
    pub spawned: usize,
    pub exited: usize,
}

/// What the launch asks to be done next.
#[derive(Debug)]
pub enum LaunchAction {
    /// Run `ip` with these arguments (a TAP setup command).
    RunIp { args: Vec<String> },
    /// Start a guest.
    Spawn { spec: VmLaunchSpec },
    /// Wait for guest `guest` to exit.
    Wait { guest: usize },
    /// Run these `ip` deletions; a failed one is only reported.
    Teardown { commands: Vec<Vec<String>> },
    /// End the launch with `result`.
    Finish { result: Result<(), LaunchFailure> },
}

/// How the last action went: for a wait, whether the guest exited cleanly;
/// after a teardown the answer does not matter.
#[derive(Clone, Copy, Debug, PartialEq, Eq, Structural)]
pub enum LaunchEvent {
    Succeeded,
    Failed,
}

/// The TAP device names of guests `0..k`.
pub open spec fn tap_names(config: LaunchConfig, k: nat) -> Seq<Seq<char>> {
    Seq::new(k, |j: int| tap_name_text(config.tap_prefix@, j as nat))
}

/// The TAP devices made are those of guests `0..k` (none when setup is skipped).
pub open spec fn created_are(config: LaunchConfig, s: LaunchState, k: nat) -> bool {
    if config.skip_tap_setup {
        s.created@.len() == 0
    } else {
        texts(s.created@) == tap_names(config, k)
    }
}

/// How many TAP setup commands each guest needs.
pub open spec fn setup_commands(config: LaunchConfig) -> nat {
    if config.skip_tap_setup {
        0
    } else {
        3
    }
}

/// A state the launch can be in.
pub open spec fn launch_wf(config: LaunchConfig, network: LaunchNetwork, s: LaunchState) -> bool {
    match s.phase {
        LaunchPhase::SetUp { guest, done } => {
            &&& guest < config.count
            &&& s.spawned == guest
            &&& s.exited == 0
            &&& guest_plannable(config, network, guest)
            &&& done <= setup_commands(config)
            &&& !config.skip_tap_setup ==> s.os@ == "linux"@
            &&& created_are(config, s, guest as nat + if done > 0 { 1nat } else { 0nat })
        },
        LaunchPhase::Wait { guest } => {
            &&& guest < config.count
            &&& s.spawned == config.count
            &&& s.exited == guest
            &&& created_are(config, s, config.count as nat)
        },
        LaunchPhase::TearDown { outcome } => {
            &&& s.exited <= s.spawned <= config.count
            &&& (outcome is Ok <==> config.count > 0 && s.exited == config.count)
            &&& s.created@.len() <= config.count
            &&& created_are(config, s, s.created@.len())
        },
        LaunchPhase::Done => true,
    }
}

/// The action of step `done` of starting guest `g`: its next TAP setup
/// command, or, once they all ran, starting it with its planned specification.
pub open spec fn setup_action(
    config: LaunchConfig,
    network: LaunchNetwork,
    g: usize,
    done: nat,
    a: LaunchAction,
) -> bool {
    if done < setup_commands(config) {
        a matches LaunchAction::RunIp { args } && texts(args@) == create_tap_text(
            tap_name_text(config.tap_prefix@, g as nat),
            config.bridge@,
        )[done as int]
    } else {
        a matches LaunchAction::Spawn { spec } && guest_spec_ok(config, network, g, spec)
    }
}

/// The launch stops: every TAP device it made is to be removed.
pub open spec fn tears_down(config: LaunchConfig, s: LaunchState, a: LaunchAction) -> bool {
    &&& s.phase is TearDown
    &&& a matches LaunchAction::Teardown { commands } && command_texts(commands@) == teardown_text(
        config,
        texts(s.created@),
    )
}

/// The launch moves on to guest `g`: planned and, where TAP devices are made,
/// checked to run on Linux; a refusal stops the launch.
pub open spec fn starts_guest(
    config: LaunchConfig,
    network: LaunchNetwork,
    g: usize,
    s: LaunchState,
    a: LaunchAction,
) -> bool {
    if !guest_plannable(config, network, g) {
        &&& s.phase matches LaunchPhase::TearDown { outcome: Err(LaunchFailure::Refused(e)) }
            && plan_outcome(config, network, g, Err(e))
        &&& tears_down(config, s, a)
    } else if !config.skip_tap_setup && s.os@ != "linux"@ {
        &&& s.phase matches LaunchPhase::TearDown {
            outcome: Err(LaunchFailure::Refused(LaunchError::NotLinux { os })),
        } && os@ == s.os@
        &&& tears_down(config, s, a)
    } else {
        &&& s.phase matches LaunchPhase::SetUp { guest, done } && guest == g && done == 0
        &&& setup_action(config, network, g, 0, a)
    }
}

fn tear_down(
    config: &LaunchConfig,
    os: String,
    created: Vec<String>,
    spawned: usize,
    exited: usize,
    outcome: Result<(), LaunchFailure>,
) -> (r: (LaunchState, LaunchAction))
    ensures
        r.0.phase == (LaunchPhase::TearDown { outcome }),
        r.0.os == os,
        r.0.created == created,
        r.0.spawned == spawned,
        r.0.exited == exited,
        tears_down(*config, r.0, r.1),
{
    let commands = teardown_commands(config, &created);
    (
        LaunchState { phase: LaunchPhase::TearDown { outcome }, os, created, spawned, exited },
        LaunchAction::Teardown { commands },
    )
}

/// The action of step `done` of starting a guest whose plan is `plan`.
fn setup_step(config: &LaunchConfig, plan: GuestPlan, done: usize) -> (a: LaunchAction)
    requires
        config.skip_tap_setup ==> plan.tap_setup@.len() == 0,
        !config.skip_tap_setup ==> plan.tap_setup@.len() == 3,
        done <= plan.tap_setup@.len(),
    ensures
        done < plan.tap_setup@.len() ==> (a matches LaunchAction::RunIp { args } && texts(args@)
            == texts(plan.tap_setup@[done as int]@)),
        done == plan.tap_setup@.len() ==> a == (LaunchAction::Spawn { spec: plan.spec }),
{
    if done < plan.tap_setup.len() {
        let mut cmds = plan.tap_setup;
        let args = cmds.remove(done);
        LaunchAction::RunIp { args }
    } else {
        LaunchAction::Spawn { spec: plan.spec }
    }
}

/// Moves on to guest `g`.
fn start_guest(
    config: &LaunchConfig,
    network: &LaunchNetwork,
    os: String,
    created: Vec<String>,
    spawned: usize,
    g: usize,
) -> (r: (LaunchState, LaunchAction))
    requires
        g <= MAX_MAC_INDEX + 1,
    ensures
        starts_guest(*config, *network, g, r.0, r.1),
        r.0.os == os,
        r.0.created == created,
        r.0.spawned == spawned,
        r.0.exited == 0,
{
    let plan = match plan_guest(config, network, g) {
        Ok(p) => p,
        Err(e) => {
            return tear_down(config, os, created, spawned, 0, Err(LaunchFailure::Refused(e)));
        },
    };
    if !config.skip_tap_setup {
        match ensure_linux_host(os.as_str()) {
            Ok(()) => {},
            Err(e) => {
                return tear_down(config, os, created, spawned, 0, Err(LaunchFailure::Refused(e)));
            },
        }
    }
    proof {
        lemma_plan_commands(*config, *network, g, plan);
    }
    let a = setup_step(config, plan, 0);
    (LaunchState { phase: LaunchPhase::SetUp { guest: g, done: 0 }, os, created, spawned, exited: 0 }, a)
}

/// Starts a launch on a host running `os`: guest 0 comes first.
pub fn launch_start(config: &LaunchConfig, network: &LaunchNetwork, os: &str) -> (r: (
    LaunchState,
    LaunchAction,
))
    ensures
        launch_wf(*config, *network, r.0),
        r.0.os@ == os@,
        r.0.created@.len() == 0,
        r.0.spawned == 0,
        r.0.exited == 0,
        config.count == 0 ==> (r.0.phase matches LaunchPhase::TearDown {
            outcome: Err(LaunchFailure::Refused(LaunchError::ZeroCount)),
        } && tears_down(*config, r.0, r.1)),
        config.count > 0 ==> starts_guest(*config, *network, 0, r.0, r.1),
{
    let created: Vec<String> = Vec::new();
    assert(texts(created@) =~= tap_names(*config, 0));
    if config.count == 0 {
        return tear_down(
            config,
            String::from_str(os),
            created,
            0,
            0,
            Err(LaunchFailure::Refused(LaunchError::ZeroCount)),
        );
    }
    start_guest(config, network, String::from_str(os), created, 0, 0)
}

/// The next state and action of a launch, given how its last action went.
/// While starting guest `i` its TAP setup commands run in order, then it is
/// started; after guest `i` started, guest `i + 1` is planned, and after the
/// last one the guests are waited for in order. Any failure stops the launch:
/// the TAP devices made so far are removed (unless kept) and the launch ends
/// in that failure. After the last guest exited cleanly the TAP devices are
/// removed and the launch ends in success. The launch ends only after its
/// teardown, whatever the teardown's deletions gave.
pub fn launch_step(
    config: &LaunchConfig,
    network: &LaunchNetwork,
    state: LaunchState,
    event: LaunchEvent,
) -> (r: (LaunchState, LaunchAction))
    requires
        launch_wf(*config, *network, state),
        !(state.phase is Done),
    ensures
        launch_wf(*config, *network, r.0),
        r.0.os@ == state.os@,
        r.1 matches LaunchAction::Finish { result } ==> (result is Ok <==> config.count > 0
            && state.spawned == config.count && state.exited == config.count),
        match state.phase {
            LaunchPhase::SetUp { guest, done } => if done < setup_commands(*config) {
                &&& r.0.spawned == state.spawned
                &&& r.0.exited == state.exited
                &&& if event == LaunchEvent::Failed {
                    &&& texts(r.0.created@) == texts(state.created@)
                    &&& r.0.phase matches LaunchPhase::TearDown {
                        outcome: Err(LaunchFailure::TapSetup { guest: g }),
                    } && g == guest
                    &&& tears_down(*config, r.0, r.1)
                } else {
                    &&& texts(r.0.created@) == if done == 0 {
                        texts(state.created@).push(tap_name_text(config.tap_prefix@, guest as nat))
                    } else {
                        texts(state.created@)
                    }
                    &&& r.0.phase matches LaunchPhase::SetUp { guest: g, done: d } && g == guest
                        && d == done + 1
                    &&& setup_action(*config, *network, guest, (done + 1) as nat, r.1)
                }
            } else {
                &&& texts(r.0.created@) == texts(state.created@)
                &&& r.0.exited == state.exited
                &&& if event == LaunchEvent::Failed {
                    &&& r.0.spawned == state.spawned
                    &&& r.0.phase matches LaunchPhase::TearDown {
                        outcome: Err(LaunchFailure::Spawn { guest: g }),
                    } && g == guest
                    &&& tears_down(*config, r.0, r.1)
                } else {
                    &&& r.0.spawned == guest + 1
                    &&& if guest + 1 < config.count {
                        starts_guest(*config, *network, (guest + 1) as usize, r.0, r.1)
                    } else {
                        &&& r.0.phase matches LaunchPhase::Wait { guest: w } && w == 0
                        &&& r.1 matches LaunchAction::Wait { guest: w } && w == 0
                    }
                }
            },
            LaunchPhase::Wait { guest } => {
                &&& texts(r.0.created@) == texts(state.created@)
                &&& r.0.spawned == state.spawned
                &&& if event == LaunchEvent::Failed {
                    &&& r.0.exited == state.exited
                    &&& r.0.phase matches LaunchPhase::TearDown {
                        outcome: Err(LaunchFailure::Guest { guest: g }),
                    } && g == guest
                    &&& tears_down(*config, r.0, r.1)
                } else {
                    &&& r.0.exited == guest + 1
                    &&& if guest + 1 < config.count {
                        &&& r.0.phase matches LaunchPhase::Wait { guest: w } && w == guest + 1
                        &&& r.1 matches LaunchAction::Wait { guest: w } && w == guest + 1
                    } else {
                        &&& r.0.phase matches LaunchPhase::TearDown { outcome: Ok(()) }
                        &&& tears_down(*config, r.0, r.1)
                    }
                }
            },
            LaunchPhase::TearDown { outcome } => {
                &&& r.0.phase is Done
                &&& r.1 == (LaunchAction::Finish { result: outcome })
            },
            LaunchPhase::Done => false,
        },
{
    let LaunchState { phase, os, mut created, spawned, exited } = state;
    let ghost old_created = texts(created@);
    match phase {
        LaunchPhase::SetUp { guest, done } => {
            let needed: usize = if config.skip_tap_setup {
                0
            } else {
                3
            };
            if done < needed {
                if event == LaunchEvent::Failed {
                    return tear_down(
                        config,
                        os,
                        created,
                        spawned,
                        exited,
                        Err(LaunchFailure::TapSetup { guest }),
                    );
                }
                let plan = plan_guest(config, network, guest);
                let plan = match plan {
                    Ok(p) => p,
                    Err(_) => {
                        assert(false);
                        return tear_down(config, os, created, spawned, exited, Ok(()));
                    },
                };
                let name = plan.spec.tap_name.clone();
                proof {
                    reveal(guest_spec_ok);
                    assert(name@ == tap_name_text(config.tap_prefix@, guest as nat));
                }
                record_tap_command(&mut created, name.as_str(), done, true);
                proof {
                    assert(tap_names(*config, guest as nat + 1) =~= tap_names(
                        *config,
                        guest as nat,
                    ).push(tap_name_text(config.tap_prefix@, guest as nat)));
                }
                proof {
                    lemma_plan_commands(*config, *network, guest, plan);
                }
                let a = setup_step(config, plan, done + 1);
                (LaunchState { phase: LaunchPhase::SetUp { guest, done: done + 1 }, os, created, spawned, exited }, a)
            } else {
                if event == LaunchEvent::Failed {
                    return tear_down(
                        config,
                        os,
                        created,
                        spawned,
                        exited,
                        Err(LaunchFailure::Spawn { guest }),
                    );
                }
                if guest + 1 < config.count {
                    start_guest(config, network, os, created, guest + 1, guest + 1)
                } else {
                    (
                        LaunchState {
                            phase: LaunchPhase::Wait { guest: 0 },
                            os,
                            created,
                            spawned: guest + 1,
                            exited,
                        },
                        LaunchAction::Wait { guest: 0 },
                    )
                }
            }
        },
        LaunchPhase::Wait { guest } => {
            if event == LaunchEvent::Failed {
                return tear_down(
                    config,
                    os,
                    created,
                    spawned,
                    exited,
                    Err(LaunchFailure::Guest { guest }),
                );
            }
            if guest + 1 < config.count {
                (
                    LaunchState {
                        phase: LaunchPhase::Wait { guest: guest + 1 },
                        os,
                        created,
                        spawned,
                        exited: guest + 1,
                    },
                    LaunchAction::Wait { guest: guest + 1 },
                )
            } else {
                tear_down(config, os, created, spawned, guest + 1, Ok(()))
            }
        },
        LaunchPhase::TearDown { outcome } => (
            LaunchState { phase: LaunchPhase::Done, os, created, spawned, exited },
            LaunchAction::Finish { result: outcome },
        ),
        LaunchPhase::Done => {
            assert(false);
            (
                LaunchState { phase: LaunchPhase::Done, os, created, spawned, exited },
                LaunchAction::Finish { result: Ok(()) },
            )
        },
    }
}

/// Every guest a launch plans, and every guest `launch_step` asks to start,
/// is guest `id` named `vm<id>`: it boots the configured kernel and
/// initramfs with the configured memory, QEMU binary, machine and
/// accelerator, calls the configured host API through the network's
/// gateway, and uses TAP device `<prefix><id>` and MAC address `mac_text(id)`.
pub proof fn law_guests_boot_the_configured_images(
    config: LaunchConfig,
    network: LaunchNetwork,
    id: usize,
    r: Result<GuestPlan, LaunchError>,
    done: nat,
    a: LaunchAction,
)
    ensures
        plan_outcome(config, network, id, r) && r is Ok ==> ({
            let spec = r->Ok_0.spec;
            &&& spec.id == id
            &&& spec.name@ == seq!['v', 'm'] + decimal(id as nat)
            &&& config.kernel@ == spec.kernel@
            &&& config.initramfs@ == spec.initramfs@
            &&& config.host_api@ == spec.host_api@
            &&& network.gateway@ == spec.gateway@
            &&& config.memory_mib == spec.memory_mib
            &&& config.qemu_bin@ == spec.qemu_bin@
            &&& config.machine@ == spec.machine@
            &&& config.accel@ == spec.accel@
            &&& spec.tap_name@ == tap_name_text(config.tap_prefix@, id as nat)
            &&& spec.mac_address@ == mac_text(id as nat)
        }),
        setup_action(config, network, id, done, a) && a is Spawn ==> ({
            let spec = a->Spawn_spec;
            &&& spec.id == id
            &&& spec.name@ == seq!['v', 'm'] + decimal(id as nat)
            &&& config.kernel@ == spec.kernel@
            &&& config.initramfs@ == spec.initramfs@
            &&& config.host_api@ == spec.host_api@
            &&& network.gateway@ == spec.gateway@
            &&& config.memory_mib == spec.memory_mib
            &&& config.qemu_bin@ == spec.qemu_bin@
            &&& config.machine@ == spec.machine@
            &&& config.accel@ == spec.accel@
            &&& spec.tap_name@ == tap_name_text(config.tap_prefix@, id as nat)
            &&& spec.mac_address@ == mac_text(id as nat)
        }),
{
    reveal(guest_spec_ok);
}

} // verus!
