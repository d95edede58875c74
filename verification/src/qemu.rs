//! The QEMU backend: one QEMU process per guest, with its command line
//! computed here from the guest's launch specification.

use vstd::prelude::*;
use vstd::string::*;

use crate::text::{decimal, decimal_string, push_text, same_text, texts};

verus! {

/// Everything QEMU needs to know to boot one guest.
#[derive(Clone, Debug)]
pub struct VmLaunchSpec {
    pub id: usize,
    pub name: String,
    pub kernel: String,
    pub initramfs: String,
    pub serial_log: String,
    pub host_api: String,
    pub guest_ip_cidr: String,
    pub gateway: String,
    pub tap_name: String,
    pub mac_address: String,
    pub memory_mib: u32,
    pub qemu_bin: String,
    pub machine: String,
    pub accel: String,
}

/// The guest kernel command line: serial console, `/init` from the initramfs,
/// reboot-as-exit, and the `minivm.*` keys the guest's `/init` reads.
pub open spec fn kernel_cmdline_text(spec: VmLaunchSpec) -> Seq<char> {
    "console=ttyS0 rdinit=/init reboot=t panic=1 minivm.id="@ + decimal(spec.id as nat)
        + " minivm.guest_ip="@ + spec.guest_ip_cidr@ + " minivm.gateway="@ + spec.gateway@
        + " minivm.host_api="@ + spec.host_api@
}

/// The `microvm` machine uses the MMIO virtio transport, every other machine PCI.
pub open spec fn net_device_model_text(spec: VmLaunchSpec) -> Seq<char> {
    if spec.machine@ == "microvm"@ {
        "virtio-net-device"@
    } else {
        "virtio-net-pci"@
    }
}

/// The `-machine` value: `microvm` drops the legacy PC devices but keeps an ISA
/// serial port so `console=ttyS0` still works.
pub open spec fn machine_text(spec: VmLaunchSpec) -> Seq<char> {
    if spec.machine@ == "microvm"@ {
        spec.machine@ + ",accel="@ + spec.accel@ + ",pit=off,pic=off,rtc=off,isa-serial=on"@
    } else {
        spec.machine@ + ",accel="@ + spec.accel@
    }
}

/// QEMU's arguments for one guest, in order.
pub open spec fn qemu_args_text(spec: VmLaunchSpec) -> Seq<Seq<char>> {
    let common = seq![
        "-name"@,
        spec.name@,
        "-kernel"@,
        spec.kernel@,
        "-initrd"@,
        spec.initramfs@,
        "-m"@,
        decimal(spec.memory_mib as nat),
        "-smp"@,
        "1"@,
        "-append"@,
        kernel_cmdline_text(spec),
        "-nodefaults"@,
        "-no-user-config"@,
        "-no-reboot"@,
        "-display"@,
        "none"@,
        "-monitor"@,
        "none"@,
        "-serial"@,
        "file:"@ + spec.serial_log@,
        "-netdev"@,
        "tap,id=net0,ifname="@ + spec.tap_name@ + ",script=no,downscript=no"@,
        "-device"@,
        net_device_model_text(spec) + ",netdev=net0,mac="@ + spec.mac_address@,
        "-machine"@,
        machine_text(spec),
    ];
    if spec.accel@ == "kvm"@ {
        common + seq!["-cpu"@, "host"@]
    } else {
        common
    }
}

/// A program to run and its arguments.
#[derive(Clone, Debug)]
pub struct QemuCommand {
    pub program: String,
    pub args: Vec<String>,
}

/// The guest kernel command line for `spec`.
pub fn kernel_cmdline(spec: &VmLaunchSpec) -> (s: String)
    ensures
        s@ == kernel_cmdline_text(*spec),
{
    let mut s = String::from_str("console=ttyS0 rdinit=/init reboot=t panic=1 minivm.id=");
    let id = decimal_string(spec.id as u64);
    s.append(id.as_str());
    s.append(" minivm.guest_ip=");
    s.append(spec.guest_ip_cidr.as_str());
    s.append(" minivm.gateway=");
    s.append(spec.gateway.as_str());
    s.append(" minivm.host_api=");
    s.append(spec.host_api.as_str());
    s
}

/// The virtio network device model that suits the machine type.
pub fn net_device_model(spec: &VmLaunchSpec) -> (m: &'static str)
    ensures
        m@ == net_device_model_text(*spec),
{
    if same_text(spec.machine.as_str(), "microvm") {
        "virtio-net-device"
    } else {
        "virtio-net-pci"
    }
}

fn owned(s: &str) -> (r: String)
    ensures
        r@ == s@,
{
    String::from_str(s)
}

/// The QEMU invocation that boots the guest described by `spec`.
pub fn build_command(spec: &VmLaunchSpec) -> (c: QemuCommand)
    ensures
        c.program@ == spec.qemu_bin@,
        texts(c.args@) == qemu_args_text(*spec),
{
    let mut args: Vec<String> = Vec::new();
    assert(texts(args@) =~= Seq::<Seq<char>>::empty());
    push_text(&mut args, owned("-name"));
    push_text(&mut args, spec.name.clone());
    push_text(&mut args, owned("-kernel"));
    push_text(&mut args, spec.kernel.clone());
    push_text(&mut args, owned("-initrd"));
    push_text(&mut args, spec.initramfs.clone());
    push_text(&mut args, owned("-m"));
    push_text(&mut args, decimal_string(spec.memory_mib as u64));
    push_text(&mut args, owned("-smp"));
    push_text(&mut args, owned("1"));
    push_text(&mut args, owned("-append"));
    push_text(&mut args, kernel_cmdline(spec));
    push_text(&mut args, owned("-nodefaults"));
    push_text(&mut args, owned("-no-user-config"));
    push_text(&mut args, owned("-no-reboot"));
    push_text(&mut args, owned("-display"));
    push_text(&mut args, owned("none"));
    push_text(&mut args, owned("-monitor"));
    push_text(&mut args, owned("none"));
    push_text(&mut args, owned("-serial"));
    let mut serial = owned("file:");
    serial.append(spec.serial_log.as_str());
    push_text(&mut args, serial);
    push_text(&mut args, owned("-netdev"));
    let mut netdev = owned("tap,id=net0,ifname=");
    netdev.append(spec.tap_name.as_str());
    netdev.append(",script=no,downscript=no");
    push_text(&mut args, netdev);
    push_text(&mut args, owned("-device"));
    let mut device = owned(net_device_model(spec));
    device.append(",netdev=net0,mac=");
    device.append(spec.mac_address.as_str());
    push_text(&mut args, device);
    push_text(&mut args, owned("-machine"));
    let mut machine = spec.machine.clone();
    machine.append(",accel=");
    machine.append(spec.accel.as_str());
    if same_text(spec.machine.as_str(), "microvm") {
        machine.append(",pit=off,pic=off,rtc=off,isa-serial=on");
    }
    push_text(&mut args, machine);
    if same_text(spec.accel.as_str(), "kvm") {
        push_text(&mut args, owned("-cpu"));
        push_text(&mut args, owned("host"));
    }
    assert(texts(args@) =~= qemu_args_text(*spec));
    QemuCommand { program: spec.qemu_bin.clone(), args }
}

/// QEMU is asked for the host CPU model (`-cpu host`) exactly when the guest
/// runs under KVM, whatever the machine type: QEMU refuses `-cpu host` under
/// any other accelerator.
pub proof fn law_host_cpu_only_under_kvm(spec: VmLaunchSpec)
    ensures
        (exists|i: int|
            0 <= i < qemu_args_text(spec).len() - 1 && #[trigger] qemu_args_text(spec)[i]
                == "-cpu"@ && qemu_args_text(spec)[i + 1] == "host"@) <==> spec.accel@ == "kvm"@,
{
    reveal_strlit("-cpu");
    reveal_strlit("host");
    reveal_strlit("-name");
    reveal_strlit("-kernel");
    reveal_strlit("-initrd");
    reveal_strlit("-m");
    reveal_strlit("-smp");
    reveal_strlit("1");
    reveal_strlit("-append");
    reveal_strlit("-nodefaults");
    reveal_strlit("-no-user-config");
    reveal_strlit("-no-reboot");
    reveal_strlit("-display");
    reveal_strlit("none");
    reveal_strlit("-monitor");
    reveal_strlit("-serial");
    reveal_strlit("-netdev");
    reveal_strlit("-device");
    reveal_strlit("-machine");
    let a = qemu_args_text(spec);
    if spec.accel@ == "kvm"@ {
        assert(a[27] == "-cpu"@ && a[28] == "host"@);
    }
    assert forall|i: int| 0 <= i < 26 implies !(#[trigger] a[i] == "-cpu"@ && a[i + 1] == "host"@) by {
        if i < 0 {
        } else if i == 0 {
            assert(a[0] == "-name"@);
            assert("-name"@.len() != "-cpu"@.len());
        } else if i == 1 {
            assert(a[2] == "-kernel"@);
            assert("-kernel"@.len() != "host"@.len());
        } else if i == 2 {
            assert(a[2] == "-kernel"@);
            assert("-kernel"@.len() != "-cpu"@.len());
        } else if i == 3 {
            assert(a[4] == "-initrd"@);
            assert("-initrd"@.len() != "host"@.len());
        } else if i == 4 {
            assert(a[4] == "-initrd"@);
            assert("-initrd"@.len() != "-cpu"@.len());
        } else if i == 5 {
            assert(a[6] == "-m"@);
            assert("-m"@.len() != "host"@.len());
        } else if i == 6 {
            assert(a[6] == "-m"@);
            assert("-m"@.len() != "-cpu"@.len());
        } else if i == 7 {
            assert(a[8] == "-smp"@);
            assert("-smp"@[0] != "host"@[0]);
        } else if i == 8 {
            assert(a[8] == "-smp"@);
            assert("-smp"@[1] != "-cpu"@[1]);
        } else if i == 9 {
            assert(a[9] == "1"@);
            assert("1"@.len() != "-cpu"@.len());
        } else if i == 10 {
            assert(a[10] == "-append"@);
            assert("-append"@.len() != "-cpu"@.len());
        } else if i == 11 {
            assert(a[12] == "-nodefaults"@);
            assert("-nodefaults"@.len() != "host"@.len());
        } else if i == 12 {
            assert(a[12] == "-nodefaults"@);
            assert("-nodefaults"@.len() != "-cpu"@.len());
        } else if i == 13 {
            assert(a[13] == "-no-user-config"@);
            assert("-no-user-config"@.len() != "-cpu"@.len());
        } else if i == 14 {
            assert(a[14] == "-no-reboot"@);
            assert("-no-reboot"@.len() != "-cpu"@.len());
        } else if i == 15 {
            assert(a[15] == "-display"@);
            assert("-display"@.len() != "-cpu"@.len());
        } else if i == 16 {
            assert(a[16] == "none"@);
            assert("none"@[0] != "-cpu"@[0]);
        } else if i == 17 {
            assert(a[17] == "-monitor"@);
            assert("-monitor"@.len() != "-cpu"@.len());
        } else if i == 18 {
            assert(a[18] == "none"@);
            assert("none"@[0] != "-cpu"@[0]);
        } else if i == 19 {
            assert(a[19] == "-serial"@);
            assert("-serial"@.len() != "-cpu"@.len());
        } else if i == 20 {
            assert(a[21] == "-netdev"@);
            assert("-netdev"@.len() != "host"@.len());
        } else if i == 21 {
            assert(a[21] == "-netdev"@);
            assert("-netdev"@.len() != "-cpu"@.len());
        } else if i == 22 {
            assert(a[23] == "-device"@);
            assert("-device"@.len() != "host"@.len());
        } else if i == 23 {
            assert(a[23] == "-device"@);
            assert("-device"@.len() != "-cpu"@.len());
        } else if i == 24 {
            assert(a[25] == "-machine"@);
            assert("-machine"@.len() != "host"@.len());
        } else if i == 25 {
            assert(a[25] == "-machine"@);
            assert("-machine"@.len() != "-cpu"@.len());
        }
    }
    if spec.accel@ == "kvm"@ {
        assert(a[26] != "-cpu"@) by {
            assert(a[26] == machine_text(spec));
            reveal_strlit(",accel=");
            assert(",accel="@.len() == 7);
            assert(machine_text(spec).len() > 4);
        }
        assert(a[27] == "-cpu"@);
        assert("-cpu"@[0] != "host"@[0]);
    }
}

} // verus!
