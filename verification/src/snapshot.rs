//! The snapshot of host facts and the application state around it.
//!
//! The snapshot is assembled exactly once from individually-queried host
//! facts; every fact that could not be obtained degrades to a documented
//! fallback literal instead of failing the collection.

use vstd::prelude::*;
use crate::format::format_uptime;
use crate::format::spec_format_uptime;

verus! {

/// The immutable capture of host facts taken at startup.
#[derive(Debug, Clone)]
pub struct SystemInfo {
    pub os_name: String,
    pub os_version: String,
    pub kernel_version: String,
    pub hostname: String,
    pub username: String,
    pub uptime: String,
    pub cpu_model: String,
    pub cpu_cores: usize,
    pub memory_total: u64,
    pub memory_used: u64,
    pub disk_total: u64,
    pub disk_used: u64,
    pub gpu_info: String,
    pub local_ip: String,
}

/// The view of a queried fact: the value when the query succeeded, the
/// fallback literal otherwise.
pub open spec fn fact_or(fact: Option<String>, fallback: Seq<char>) -> Seq<char> {
    match fact {
        Some(v) => v@,
        None => fallback,
    }
}

fn unwrap_fact(fact: Option<String>, fallback: &'static str) -> (r: String)
    ensures
        r@ == fact_or(fact, fallback@),
{
    match fact {
        Some(v) => v,
        None => String::from_str(fallback),
    }
}

impl SystemInfo {
    /// Assembles the snapshot from the host facts handed in by the
    /// queries, substituting the documented fallback for every fact
    /// that could not be obtained. The uptime is stored pre-formatted;
    /// the disk fields are always zero, as disk querying is
    /// deliberately not implemented.
    pub fn from_facts(
        os_name: Option<String>,
        os_version: Option<String>,
        kernel_version: Option<String>,
        hostname: Option<String>,
        username: Option<String>,
        uptime_seconds: u64,
        cpu_model: Option<String>,
        cpu_cores: usize,
        memory_total: u64,
        memory_used: u64,
        gpu_info: Option<String>,
        local_ip: Option<String>,
    ) -> (r: SystemInfo)
        ensures
            r.os_name@ == fact_or(os_name, "Unknown"@),
            r.os_version@ == fact_or(os_version, "Unknown"@),
            r.kernel_version@ == fact_or(kernel_version, "Unknown"@),
            r.hostname@ == fact_or(hostname, "Unknown"@),
            r.username@ == fact_or(username, "Unknown"@),
            r.uptime@ == spec_format_uptime(uptime_seconds as nat),
            r.cpu_model@ == fact_or(cpu_model, "Unknown"@),
            r.cpu_cores == cpu_cores,
            r.memory_total == memory_total,
            r.memory_used == memory_used,
            r.disk_total == 0,
            r.disk_used == 0,
            r.gpu_info@ == fact_or(gpu_info, "Unknown GPU"@),
            r.local_ip@ == fact_or(local_ip, "Unknown IP"@),
    {
        SystemInfo {
            os_name: unwrap_fact(os_name, "Unknown"),
            os_version: unwrap_fact(os_version, "Unknown"),
            kernel_version: unwrap_fact(kernel_version, "Unknown"),
            hostname: unwrap_fact(hostname, "Unknown"),
            username: unwrap_fact(username, "Unknown"),
            uptime: format_uptime(uptime_seconds),
            cpu_model: unwrap_fact(cpu_model, "Unknown"),
            cpu_cores,
            memory_total,
            memory_used,
            disk_total: 0,
            disk_used: 0,
            gpu_info: unwrap_fact(gpu_info, "Unknown GPU"),
            local_ip: unwrap_fact(local_ip, "Unknown IP"),
        }
    }
}

/// The application state the driver loop owns.
#[derive(Debug)]
pub struct App {
    pub system_info: SystemInfo,
    pub should_quit: bool,
}

impl App {
    /// A fresh application state around one collected snapshot, not yet
    /// asked to quit.
    pub fn new(system_info: SystemInfo) -> (r: App)
        ensures
            r.system_info == system_info,
            r.should_quit == false,
    {
        App { system_info, should_quit: false }
    }
}

} // verus!
