//! The snapshot: one aggregate of all currently known metrics, owning the
//! three long-lived OS handles. The handles are reused across refreshes —
//! recreating them would lose the baseline the per-tick CPU and network
//! figures are deltas against. `refresh` overwrites every dynamic field
//! from freshly refreshed handles and leaves every static fact alone.

use vstd::prelude::*;

use crate::cpu::CpuInfo;
use crate::disk::disk_summary;
use crate::net::{NetworkInfo, compute_networks, local_ip_of};
use crate::os::{EnvInfo, OsInfo};
use crate::process::{MAX_PROCESSES, ProcessInfo, ProcessSortMode, build_process_table, proc_sorted};
use crate::style::StyleInfo;

verus! {

pub struct SystemInfo {
    // Static facts, set once at construction.
    pub os: OsInfo,
    pub cpu_info: CpuInfo,
    pub gpus: Vec<String>,
    pub display: String,
    pub battery: String,
    pub style: StyleInfo,
    // Asynchronous fact: holds a placeholder until a background probe
    // stores its result through `set_packages`.
    pub packages: String,
    // Dynamic facts, overwritten wholesale on every refresh.
    pub uptime: u64,
    /// Global CPU percentage as the bit pattern of the reported IEEE-754
    /// single.
    pub cpu_usage: u32,
    pub memory_used: u64,
    pub memory_total: u64,
    pub swap_used: u64,
    pub swap_total: u64,
    pub disk_usage: String,
    pub local_ip: String,
    pub processes: Vec<ProcessInfo>,
    pub networks: Vec<NetworkInfo>,
    // The long-lived handles, reused across refreshes so the per-tick
    // deltas keep their baseline. Only `refresh` should touch them.
    pub sys: sysinfo::System,
    pub net_handle: sysinfo::Networks,
    pub disk_handle: sysinfo::Disks,
}

impl SystemInfo {
    /// The process table never outgrows its cap.
    pub open spec fn inv(self) -> bool {
        self.processes@.len() <= MAX_PROCESSES
    }

    /// Builds the snapshot: creates the handles, reads the static facts,
    /// stores the given environment-derived ones, and runs one full
    /// refresh. The packages field starts as its placeholder; the given
    /// facts are stored as handed in, and the environment-derived identity
    /// fields carry their documented sentinels.
    pub fn new(
        env: EnvInfo,
        gpus: Vec<String>,
        display: String,
        battery: String,
        style: StyleInfo,
    ) -> (r: SystemInfo)
        ensures
            r.inv(),
            r.packages@ == "Unknown"@,
            r.cpu_info.models@.len() >= 1,
            crate::cpu::strictly_sorted(r.cpu_info.models@.map_values(|s: String| s@)),
            proc_sorted(ProcessSortMode::Cpu, r.processes@),
            r.gpus == gpus,
            r.display == display,
            r.battery == battery,
            r.style == style,
            r.os.shell@ == match env.shell_path {
                Some(p) => crate::os::after_last_slash(p@),
                None => "Unknown"@,
            },
            r.os.de_wm@ == crate::os::spec_de(env.desktop, env.session),
            r.os.locale@ == match env.lang {
                Some(l) => l@,
                None => "Unknown"@,
            },
            r.local_ip@ == crate::net::spec_local_ip(
                r.networks@.map_values(|n: NetworkInfo| n@),
            ),
    {
        let mut sys = crate::sysapi::new_system();
        crate::sysapi::refresh_cpu_all(&mut sys);
        let cpu_info = CpuInfo::new(&sys);
        let os = OsInfo::new(&mut sys, env);
        let net_handle = crate::sysapi::new_networks();
        let disk_handle = crate::sysapi::new_disks();
        let mut info = SystemInfo {
            os,
            cpu_info,
            gpus,
            display,
            battery,
            style,
            packages: "Unknown".to_owned(),
            uptime: 0,
            cpu_usage: 0,
            memory_used: 0,
            memory_total: 0,
            swap_used: 0,
            swap_total: 0,
            disk_usage: "Unknown".to_owned(),
            local_ip: "127.0.0.1".to_owned(),
            processes: Vec::new(),
            networks: Vec::new(),
            sys,
            net_handle,
            disk_handle,
        };
        info.refresh(true, ProcessSortMode::Cpu);
        info
    }

    /// One tick's refresh. The cheap figures (CPU usage, memory, uptime)
    /// are read every time; the process table only when `update_processes`
    /// is set, rebuilt and sorted under `sort`; the network and disk
    /// handles are refreshed, which closes the current delta interval, and
    /// the interface rows, disk summary and local address are recomputed —
    /// the address is the one the new interface rows select. Static facts
    /// and the packages field stay untouched.
    pub fn refresh(&mut self, update_processes: bool, sort: ProcessSortMode)
        ensures
            update_processes ==> final(self).inv(),
            update_processes ==> proc_sorted(sort, final(self).processes@),
            final(self).local_ip@ == crate::net::spec_local_ip(
                final(self).networks@.map_values(|n: NetworkInfo| n@),
            ),
            !update_processes ==> final(self).processes == old(self).processes,
            final(self).os == old(self).os,
            final(self).cpu_info == old(self).cpu_info,
            final(self).gpus == old(self).gpus,
            final(self).display == old(self).display,
            final(self).battery == old(self).battery,
            final(self).style == old(self).style,
            final(self).packages == old(self).packages,
            old(self).inv() ==> final(self).inv(),
    {
        crate::sysapi::refresh_cpu_usage(&mut self.sys);
        crate::sysapi::refresh_memory(&mut self.sys);
        if update_processes {
            crate::sysapi::refresh_processes_all(&mut self.sys);
        }
        crate::sysapi::refresh_networks(&mut self.net_handle);
        crate::sysapi::refresh_disks(&mut self.disk_handle);

        self.uptime = crate::sysapi::uptime_now();
        self.cpu_usage = crate::sysapi::global_cpu_usage_bits(&self.sys);
        self.memory_used = crate::sysapi::used_memory(&self.sys);
        self.memory_total = crate::sysapi::total_memory(&self.sys);
        self.swap_used = crate::sysapi::used_swap(&self.sys);
        self.swap_total = crate::sysapi::total_swap(&self.sys);

        if update_processes {
            let raw = crate::sysapi::process_rows(&self.sys);
            self.processes = build_process_table(raw, sort);
        }

        let samples = crate::sysapi::net_samples(&self.net_handle);
        let rows = compute_networks(&self.networks, samples);
        self.networks = rows;
        self.local_ip = local_ip_of(&self.networks);

        let disks = crate::sysapi::disk_samples(&self.disk_handle);
        self.disk_usage = disk_summary(&disks);
    }

    /// Stores the background package-count result. The field is purely
    /// informational: readers tolerate the placeholder until this lands.
    pub fn set_packages(&mut self, packages: String)
        ensures
            final(self).packages == packages,
            final(self).processes == old(self).processes,
            final(self).networks == old(self).networks,
            final(self).os == old(self).os,
            old(self).inv() ==> final(self).inv(),
    {
        self.packages = packages;
    }
}

} // verus!
