//! Choosing the hypervisor backend named in the launch settings.

use vstd::prelude::*;

use crate::kvm::KvmBackend;
use crate::launcher::{LaunchConfig, LaunchError};
use crate::qemu::{build_command, qemu_args_text, QemuCommand, VmLaunchSpec};
use crate::text::{same_text, texts};

verus! {

/// The QEMU backend: which QEMU binary, machine type and accelerator to use.
#[derive(Clone, Debug)]
pub struct QemuBackend {
    pub qemu_bin: String,
    pub machine: String,
    pub accel: String,
}

impl QemuBackend {
    pub fn new(qemu_bin: String, machine: String, accel: String) -> (b: QemuBackend)
        ensures
            b.qemu_bin == qemu_bin,
            b.machine == machine,
            b.accel == accel,
    {
        QemuBackend { qemu_bin, machine, accel }
    }

    /// The backend's name.
    pub fn name(&self) -> (s: &'static str)
        ensures
            s@ == "qemu"@,
    {
        "qemu"
    }

    /// The QEMU invocation for `spec`, run with this backend's binary,
    /// machine type and accelerator.
    pub fn command(&self, spec: &VmLaunchSpec) -> (c: QemuCommand)
        ensures
            c.program@ == self.qemu_bin@,
            texts(c.args@) == qemu_args_text(
                VmLaunchSpec {
                    qemu_bin: self.qemu_bin,
                    machine: self.machine,
                    accel: self.accel,
                    ..*spec
                },
            ),
    {
        let s = VmLaunchSpec {
            id: spec.id,
            name: spec.name.clone(),
            kernel: spec.kernel.clone(),
            initramfs: spec.initramfs.clone(),
            serial_log: spec.serial_log.clone(),
            host_api: spec.host_api.clone(),
            guest_ip_cidr: spec.guest_ip_cidr.clone(),
            gateway: spec.gateway.clone(),
            tap_name: spec.tap_name.clone(),
            mac_address: spec.mac_address.clone(),
            memory_mib: spec.memory_mib,
            qemu_bin: self.qemu_bin.clone(),
            machine: self.machine.clone(),
            accel: self.accel.clone(),
        };
        build_command(&s)
    }
}

/// A hypervisor backend.
#[derive(Clone, Debug)]
pub enum Backend {
    Qemu(QemuBackend),
    Kvm(KvmBackend),
}

impl Backend {
    /// The backend's name.
    pub fn name(&self) -> (s: &'static str)
        ensures
            self is Qemu ==> s@ == "qemu"@,
            self is Kvm ==> s@ == "kvm"@,
    {
        match self {
            Backend::Qemu(q) => q.name(),
            Backend::Kvm(k) => k.name(),
        }
    }
}

/// The backend the launch settings name: `qemu` (with their QEMU binary,
/// machine type and accelerator) or the `kvm` scaffold; any other name is refused.
pub fn build_backend(config: &LaunchConfig) -> (r: Result<Backend, LaunchError>)
    ensures
        config.backend@ == "qemu"@ ==> (r matches Ok(Backend::Qemu(q)) && q.qemu_bin@
            == config.qemu_bin@ && q.machine@ == config.machine@ && q.accel@ == config.accel@),
        config.backend@ == "kvm"@ ==> r matches Ok(Backend::Kvm(_)),
        config.backend@ != "qemu"@ && config.backend@ != "kvm"@ ==> (r matches Err(
            LaunchError::UnsupportedBackend { name },
        ) && name@ == config.backend@),
{
    proof {
        reveal_strlit("qemu");
        reveal_strlit("kvm");
        assert("qemu"@[0] != "kvm"@[0]);
        assert("qemu"@ != "kvm"@);
    }
    if same_text(config.backend.as_str(), "qemu") {
        Ok(
            Backend::Qemu(
                QemuBackend::new(
                    config.qemu_bin.clone(),
                    config.machine.clone(),
                    config.accel.clone(),
                ),
            ),
        )
    } else if same_text(config.backend.as_str(), "kvm") {
        Ok(Backend::Kvm(KvmBackend::new()))
    } else {
        Err(LaunchError::UnsupportedBackend { name: config.backend.clone() })
    }
}

} // verus!
