//! The self-hosted KVM backend. It only probes the host so far: opening
//! `/dev/kvm`, reading the API version and trying `KVM_CREATE_VM`.

use vstd::prelude::*;

use crate::qemu::VmLaunchSpec;

verus! {

/// What the probe of `/dev/kvm` found.
#[derive(Clone, Debug)]
pub struct KvmHostInfo {
    pub api_version: i32,
    pub vm_creation_error: Option<String>,
}

/// The backend that will run guests on `/dev/kvm` directly.
#[derive(Clone, Copy, Debug, Default)]
pub struct KvmBackend;

/// Why the KVM backend did not start a guest.
#[derive(Clone, Debug)]
pub enum KvmSpawnError {
    /// The host probe failed outright.
    ProbeFailed { detail: String },
    /// The probe could not create a VM.
    VmCreationFailed { detail: String },
    /// The host is fine, but booting a guest is not written yet.
    BootNotImplemented { api_version: i32, kernel: String },
}

impl KvmBackend {
    pub fn new() -> (b: KvmBackend)
        ensures
            b == KvmBackend,
    {
        KvmBackend
    }

    /// The backend's name.
    pub fn name(&self) -> (s: &'static str)
        ensures
            s@ == "kvm"@,
    {
        "kvm"
    }

    /// What `spawn_vm` answers for `spec` after the host probe gave `probe`:
    /// the probe's failure, the VM-creation failure, or (on a host that can
    /// run KVM) that guest boot is not implemented yet.
    pub fn spawn_vm(&self, spec: &VmLaunchSpec, probe: &Result<KvmHostInfo, String>) -> (e:
        KvmSpawnError)
        ensures
            match probe {
                Err(d) => e matches KvmSpawnError::ProbeFailed { detail } && detail@ == d@,
                Ok(info) => match info.vm_creation_error {
                    Some(d) => e matches KvmSpawnError::VmCreationFailed { detail } && detail@
                        == d@,
                    None => e matches KvmSpawnError::BootNotImplemented { api_version, kernel }
                        && api_version == info.api_version && kernel@ == spec.kernel@,
                },
            },
    {
        match probe {
            Err(d) => KvmSpawnError::ProbeFailed { detail: d.clone() },
            Ok(info) => match &info.vm_creation_error {
                Some(d) => KvmSpawnError::VmCreationFailed { detail: d.clone() },
                None => KvmSpawnError::BootNotImplemented {
                    api_version: info.api_version,
                    kernel: spec.kernel.clone(),
                },
            },
        }
    }
}

} // verus!
