//! The trusted boundary to the OS metrics crate. The three long-lived
//! handles (`System`, `Networks`, `Disks`) are declared as opaque types and
//! every call the snapshot makes goes through one small wrapper here. The
//! wrappers read machine state, so their contracts promise nothing about
//! the values that come back; the snapshot's own logic is verified for
//! every value they could hand it.

use vstd::prelude::*;

use crate::disk::RawDisk;
use crate::net::RawNetSample;
use crate::process::ProcessInfo;

verus! {

#[verifier::external_type_specification]
#[verifier::external_body]
pub struct ExSystem(sysinfo::System);

#[verifier::external_type_specification]
#[verifier::external_body]
pub struct ExNetworks(sysinfo::Networks);

#[verifier::external_type_specification]
#[verifier::external_body]
pub struct ExNetworkData(sysinfo::NetworkData);

#[verifier::external_type_specification]
#[verifier::external_body]
pub struct ExDisk(sysinfo::Disk);

#[verifier::external_type_specification]
#[verifier::external_body]
pub struct ExDisks(sysinfo::Disks);

/// Relies on sysinfo's System::new: a fresh, empty process-table handle.
#[verifier::external_body]
pub fn new_system() -> sysinfo::System {
    sysinfo::System::new()
}

/// Relies on sysinfo's System::refresh_cpu_usage: refreshes only the CPU
/// usage figures held by the handle.
#[verifier::external_body]
pub fn refresh_cpu_usage(sys: &mut sysinfo::System) {
    sys.refresh_cpu_usage();
}

/// Relies on sysinfo's System::refresh_cpu_all: refreshes the per-core
/// list, brands included.
#[verifier::external_body]
pub fn refresh_cpu_all(sys: &mut sysinfo::System) {
    sys.refresh_cpu_all();
}

/// Relies on sysinfo's System::refresh_memory: refreshes the memory and
/// swap figures held by the handle.
#[verifier::external_body]
pub fn refresh_memory(sys: &mut sysinfo::System) {
    sys.refresh_memory();
}

/// Relies on sysinfo's System::refresh_processes: refreshes the whole
/// process table held by the handle, dropping dead processes.
#[verifier::external_body]
pub fn refresh_processes_all(sys: &mut sysinfo::System) {
    sys.refresh_processes(sysinfo::ProcessesToUpdate::All, true);
}

/// Relies on sysinfo's System::global_cpu_usage, handing the percentage on
/// as its IEEE-754 bit pattern (`f32::to_bits`).
#[verifier::external_body]
pub fn global_cpu_usage_bits(sys: &sysinfo::System) -> u32 {
    sys.global_cpu_usage().to_bits()
}

/// Relies on sysinfo's System::used_memory: used RAM in bytes.
#[verifier::external_body]
pub fn used_memory(sys: &sysinfo::System) -> u64 {
    sys.used_memory()
}

/// Relies on sysinfo's System::total_memory: total RAM in bytes.
#[verifier::external_body]
pub fn total_memory(sys: &sysinfo::System) -> u64 {
    sys.total_memory()
}

/// Relies on sysinfo's System::used_swap: used swap in bytes.
#[verifier::external_body]
pub fn used_swap(sys: &sysinfo::System) -> u64 {
    sys.used_swap()
}

/// Relies on sysinfo's System::total_swap: total swap in bytes.
#[verifier::external_body]
pub fn total_swap(sys: &sysinfo::System) -> u64 {
    sys.total_swap()
}

/// Relies on sysinfo's System::uptime: seconds since boot.
#[verifier::external_body]
pub fn uptime_now() -> u64 {
    sysinfo::System::uptime()
}

/// Relies on sysinfo's System::name: the OS name, if known.
#[verifier::external_body]
pub fn os_name() -> Option<String> {
    sysinfo::System::name()
}

/// Relies on sysinfo's System::kernel_version, if known.
#[verifier::external_body]
pub fn kernel_version() -> Option<String> {
    sysinfo::System::kernel_version()
}

/// Relies on sysinfo's System::host_name, if known.
#[verifier::external_body]
pub fn host_name() -> Option<String> {
    sysinfo::System::host_name()
}

/// Relies on sysinfo's System::cpus and Cpu::brand: one brand string per
/// logical core, in the handle's order.
#[verifier::external_body]
pub fn cpu_brands(sys: &sysinfo::System) -> Vec<String> {
    sys.cpus().iter().map(|c| c.brand().to_string()).collect()
}

/// Relies on sysinfo's System::processes and the Process accessors: one row
/// per process, in the handle's (unordered) iteration order; the CPU
/// percentage travels as its IEEE-754 bit pattern.
#[verifier::external_body]
pub fn process_rows(sys: &sysinfo::System) -> Vec<ProcessInfo> {
    sys.processes()
        .iter()
        .map(
            |(pid, p)| ProcessInfo {
                pid: pid.as_u32(),
                name: p.name().to_string_lossy().into_owned(),
                cpu: p.cpu_usage().to_bits(),
                mem: p.memory(),
            },
        )
        .collect()
}

/// Relies on sysinfo's get_current_pid.
#[verifier::external_body]
pub fn current_pid() -> Option<u32> {
    match sysinfo::get_current_pid() {
        Ok(pid) => Some(pid.as_u32()),
        Err(_) => None,
    }
}

/// Relies on sysinfo's System::process and Process::parent: the parent of
/// the given process, if the handle knows both.
#[verifier::external_body]
pub fn process_parent(sys: &sysinfo::System, pid: u32) -> Option<u32> {
    match sys.process(sysinfo::Pid::from_u32(pid)) {
        Some(p) => match p.parent() {
            Some(parent) => Some(parent.as_u32()),
            None => None,
        },
        None => None,
    }
}

/// Relies on sysinfo's System::process and Process::name.
#[verifier::external_body]
pub fn process_name_of(sys: &sysinfo::System, pid: u32) -> Option<String> {
    match sys.process(sysinfo::Pid::from_u32(pid)) {
        Some(p) => Some(p.name().to_string_lossy().into_owned()),
        None => None,
    }
}

/// Relies on sysinfo's Networks::new_with_refreshed_list.
#[verifier::external_body]
pub fn new_networks() -> sysinfo::Networks {
    sysinfo::Networks::new_with_refreshed_list()
}

/// Relies on sysinfo's Networks::refresh: re-reads every interface,
/// dropping ones that are gone. Calling it sets the interval boundary that
/// the snapshot's throughput figures count from.
#[verifier::external_body]
pub fn refresh_networks(nets: &mut sysinfo::Networks) {
    nets.refresh(true);
}

/// Relies on sysinfo's Networks iteration and the NetworkData accessors:
/// per interface its name, cumulative byte counters, and addresses, each
/// flagged by IpAddr::is_ipv4.
#[verifier::external_body]
pub fn net_samples(nets: &sysinfo::Networks) -> Vec<RawNetSample> {
    nets.into_iter()
        .map(
            |(name, data)| RawNetSample {
                name: name.clone(),
                total_rx: data.total_received(),
                total_tx: data.total_transmitted(),
                addrs: data
                    .ip_networks()
                    .iter()
                    .map(|ip| (ip.addr.is_ipv4(), ip.addr.to_string()))
                    .collect(),
            },
        )
        .collect()
}

/// Relies on sysinfo's Disks::new_with_refreshed_list.
#[verifier::external_body]
pub fn new_disks() -> sysinfo::Disks {
    sysinfo::Disks::new_with_refreshed_list()
}

/// Relies on sysinfo's Disks::refresh: re-reads every disk, dropping ones
/// that are gone.
#[verifier::external_body]
pub fn refresh_disks(disks: &mut sysinfo::Disks) {
    disks.refresh(true);
}

/// Relies on sysinfo's Disks iteration and the Disk accessors: per disk its
/// mount point, file system name, and byte counts.
#[verifier::external_body]
pub fn disk_samples(disks: &sysinfo::Disks) -> Vec<RawDisk> {
    disks
        .into_iter()
        .map(
            |d| RawDisk {
                mount: d.mount_point().to_string_lossy().into_owned(),
                fs: d.file_system().to_string_lossy().into_owned(),
                total: d.total_space(),
                available: d.available_space(),
            },
        )
        .collect()
}

} // verus!
