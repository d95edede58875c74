//! Verified core of `minivm`: deterministic network allocation, the `newc`
//! cpio writer used for the guest initramfs, the QEMU command line, the launch
//! plan, host diagnostics and the configuration wizard's decisions.

pub mod backend;
pub mod config;
pub mod counter;
pub mod doctor;
pub mod guest;
pub mod kvm;
pub mod launcher;
pub mod net;
pub mod qemu;
pub mod settings;
pub mod text;
pub mod wizard;
