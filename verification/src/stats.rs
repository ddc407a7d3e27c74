//! System telemetry in integer units: memory and swap in mebibytes, disk
//! in bytes, processor load in per-mille of full load. The application
//! samples the host (the processor reading needs a brief sampling window)
//! and hands raw integers here; the unit conversions, percentage
//! arithmetic and display thresholds are computed and proved here.

use vstd::prelude::*;

verus! {

/// One telemetry snapshot; ephemeral, recomputed per request.
pub struct SystemStats {
    pub total_memory: u64,
    pub used_memory: u64,
    pub total_swap: u64,
    pub used_swap: u64,
    pub disk_total_bytes: u64,
    pub disk_used_bytes: u64,
    pub cpu_usage_permille: u32,
    pub cpu_cores_permille: Vec<u32>,
}

/// The mathematical content of a `SystemStats`.
pub ghost struct SystemStatsView {
    pub total_memory: u64,
    pub used_memory: u64,
    pub total_swap: u64,
    pub used_swap: u64,
    pub disk_total_bytes: u64,
    pub disk_used_bytes: u64,
    pub cpu_usage_permille: u32,
    pub cpu_cores_permille: Seq<u32>,
}

impl View for SystemStats {
    type V = SystemStatsView;

    open spec fn view(&self) -> SystemStatsView {
        SystemStatsView {
            total_memory: self.total_memory,
            used_memory: self.used_memory,
            total_swap: self.total_swap,
            used_swap: self.used_swap,
            disk_total_bytes: self.disk_total_bytes,
            disk_used_bytes: self.disk_used_bytes,
            cpu_usage_permille: self.cpu_usage_permille,
            cpu_cores_permille: self.cpu_cores_permille@,
        }
    }
}

/// Builds a snapshot from raw readings: memory and swap come in bytes and
/// are reported in mebibytes; disk use is what the first disk's capacity
/// leaves unavailable, zero when the readings are inconsistent.
pub fn stats_from_readings(
    total_memory_bytes: u64,
    used_memory_bytes: u64,
    total_swap_bytes: u64,
    used_swap_bytes: u64,
    disk_total_bytes: u64,
    disk_available_bytes: u64,
    cpu_usage_permille: u32,
    cpu_cores_permille: Vec<u32>,
) -> (r: SystemStats)
    ensures
        r@.total_memory == total_memory_bytes / 1048576,
        r@.used_memory == used_memory_bytes / 1048576,
        r@.total_swap == total_swap_bytes / 1048576,
        r@.used_swap == used_swap_bytes / 1048576,
        r@.disk_total_bytes == disk_total_bytes,
        disk_available_bytes <= disk_total_bytes ==> r@.disk_used_bytes == disk_total_bytes
            - disk_available_bytes,
        disk_available_bytes > disk_total_bytes ==> r@.disk_used_bytes == 0,
        r@.cpu_usage_permille == cpu_usage_permille,
        r@.cpu_cores_permille == cpu_cores_permille@,
{
    let disk_used: u64 = if disk_available_bytes <= disk_total_bytes {
        disk_total_bytes - disk_available_bytes
    } else {
        0
    };
    SystemStats {
        total_memory: total_memory_bytes / 1048576,
        used_memory: used_memory_bytes / 1048576,
        total_swap: total_swap_bytes / 1048576,
        used_swap: used_swap_bytes / 1048576,
        disk_total_bytes,
        disk_used_bytes: disk_used,
        cpu_usage_permille,
        cpu_cores_permille,
    }
}

/// `used` of `total` in basis points (hundredths of a percent), the used
/// part clamped to the total; zero when the total is zero.
pub open spec fn spec_basis_points(used: u64, total: u64) -> int {
    if total == 0 {
        0
    } else if used > total {
        10000
    } else {
        (used * 10000) / (total as int)
    }
}

/// Computes `used` of `total` in basis points.
pub fn percent_basis_points(used: u64, total: u64) -> (r: u32)
    ensures
        r == spec_basis_points(used, total),
{
    if total == 0 {
        return 0;
    }
    let clamped: u64 = if used > total {
        total
    } else {
        used
    };
    let bp: u128 = (clamped as u128) * 10000 / (total as u128);
    proof {
        assert((clamped as int) * 10000 / (total as int) <= 10000) by (nonlinear_arith)
            requires
                0 < total as int,
                clamped as int <= total as int,
        ;
        assert((total as int) * 10000 / (total as int) == 10000) by (nonlinear_arith)
            requires
                0 < total as int,
        ;
    }
    bp as u32
}

/// A display threshold class for a utilization reading.
#[derive(Clone, Copy, PartialEq, Eq, Structural, Debug)]
pub enum UsageLevel {
    Low,
    Mid,
    High,
}

/// Memory display threshold: high above 85 percent.
pub open spec fn spec_memory_level(bp: int) -> UsageLevel {
    if bp > 8500 {
        UsageLevel::High
    } else {
        UsageLevel::Low
    }
}

pub fn memory_level(bp: u32) -> (r: UsageLevel)
    ensures
        r == spec_memory_level(bp as int),
{
    if bp > 8500 {
        UsageLevel::High
    } else {
        UsageLevel::Low
    }
}

/// Processor-core display thresholds: high above 80 percent of full load,
/// mid above 40.
pub open spec fn spec_core_level(permille: u32) -> UsageLevel {
    if permille > 800 {
        UsageLevel::High
    } else if permille > 400 {
        UsageLevel::Mid
    } else {
        UsageLevel::Low
    }
}

pub fn core_level(permille: u32) -> (r: UsageLevel)
    ensures
        r == spec_core_level(permille),
{
    if permille > 800 {
        UsageLevel::High
    } else if permille > 400 {
        UsageLevel::Mid
    } else {
        UsageLevel::Low
    }
}

/// The display class of every core, in core order.
pub fn core_levels(cores: &Vec<u32>) -> (r: Vec<UsageLevel>)
    ensures
        r@.len() == cores@.len(),
        forall|i: int| 0 <= i < cores@.len() ==> r@[i] == spec_core_level(#[trigger] cores@[i]),
{
    let mut out: Vec<UsageLevel> = Vec::new();
    let mut i: usize = 0;
    while i < cores.len()
        invariant
            0 <= i <= cores@.len(),
            out@.len() == i,
            forall|j: int| 0 <= j < i ==> out@[j] == spec_core_level(#[trigger] cores@[j]),
        decreases cores.len() - i,
    {
        out.push(core_level(cores[i]));
        i = i + 1;
    }
    out
}

} // verus!
