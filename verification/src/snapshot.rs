//! The telemetry collector: assembles one point-in-time snapshot out of what
//! was read from the system.

use crate::cpu::{calculate_proc_cpu_usage, cpu_sample, read_proc_stat, usage_between, CpuUsage};
use crate::sensors::{metrics_of, read_metrics, GpuSources, GpuSourcesView, PartialGpuMetrics};
use crate::text::text_view;
use crate::vendor::{detect_vendor, detected, VendorKind};
use vstd::prelude::*;

verus! {

/// What was read from the system for one snapshot.
#[derive(Debug, Clone, PartialEq, Eq)]
pub struct SystemReadings {
    /// The time of the reading, in seconds since the epoch.
    pub timestamp: u64,
    /// The time since boot, in seconds.
    pub uptime: u64,
    /// The memory in use, in bytes.
    pub memory_used_bytes: u64,
    /// The memory there is, in bytes.
    pub memory_total_bytes: u64,
    /// The text of the kernel's accounting file at the start of the sampling
    /// interval, where it could be read.
    pub stat_before: Option<String>,
    /// The text of the same file at the end of the interval.
    pub stat_after: Option<String>,
    /// The loads that the process table gives over the interval, in
    /// hundredths of a percent: first the aggregate slot, then one for each
    /// logical core.
    pub cpu_loads: Vec<u32>,
    /// The text of the PCI device listing, where it could be had.
    pub pci_listing: Option<String>,
    /// The raw sources of the graphics processor.
    pub gpu: GpuSources,
}

/// The mathematical value of `SystemReadings`.
pub struct SystemReadingsView {
    pub timestamp: u64,
    pub uptime: u64,
    pub memory_used_bytes: u64,
    pub memory_total_bytes: u64,
    pub stat_before: Option<Seq<char>>,
    pub stat_after: Option<Seq<char>>,
    pub cpu_loads: Seq<u32>,
    pub pci_listing: Option<Seq<char>>,
    pub gpu: GpuSourcesView,
}

impl View for SystemReadings {
    type V = SystemReadingsView;

    open spec fn view(&self) -> SystemReadingsView {
        SystemReadingsView {
            timestamp: self.timestamp,
            uptime: self.uptime,
            memory_used_bytes: self.memory_used_bytes,
            memory_total_bytes: self.memory_total_bytes,
            stat_before: text_view(self.stat_before),
            stat_after: text_view(self.stat_after),
            cpu_loads: self.cpu_loads@,
            pci_listing: text_view(self.pci_listing),
            gpu: self.gpu@,
        }
    }
}

/// One point-in-time aggregate of all measured metrics.
#[derive(Debug, Clone, PartialEq, Eq)]
pub struct TelemetrySnapshot {
    /// The time of the snapshot, in seconds since the epoch.
    pub timestamp: u64,
    /// The time since boot, in seconds.
    pub uptime: u64,
    /// The memory in use, in bytes.
    pub memory_used_bytes: u64,
    /// The memory there is, in bytes.
    pub memory_total_bytes: u64,
    /// The processor usage by the kernel's aggregate counters.
    pub cpu_accounting: Option<CpuUsage>,
    /// The processor usage by the process table, in hundredths of a percent.
    pub cpu_process_table: Option<u32>,
    /// The usage of each logical core, in hundredths of a percent; the index
    /// is the core's number.
    pub per_core_usage: Vec<u32>,
    /// The metrics of the graphics processor; none where no vendor was
    /// recognised.
    pub gpu: Option<PartialGpuMetrics>,
}

/// The mathematical value of a `TelemetrySnapshot`.
pub struct TelemetrySnapshotView {
    pub timestamp: u64,
    pub uptime: u64,
    pub memory_used_bytes: u64,
    pub memory_total_bytes: u64,
    pub cpu_accounting: Option<CpuUsage>,
    pub cpu_process_table: Option<u32>,
    pub per_core_usage: Seq<u32>,
    pub gpu: Option<PartialGpuMetrics>,
}

impl View for TelemetrySnapshot {
    type V = TelemetrySnapshotView;

    open spec fn view(&self) -> TelemetrySnapshotView {
        TelemetrySnapshotView {
            timestamp: self.timestamp,
            uptime: self.uptime,
            memory_used_bytes: self.memory_used_bytes,
            memory_total_bytes: self.memory_total_bytes,
            cpu_accounting: self.cpu_accounting,
            cpu_process_table: self.cpu_process_table,
            per_core_usage: self.per_core_usage@,
            gpu: self.gpu,
        }
    }
}

/// The sample of the accounting counters in a text that may be absent.
pub open spec fn sample_in(content: Option<Seq<char>>) -> Option<(u64, u64)> {
    match content {
        Some(text) => cpu_sample(text),
        None => None,
    }
}

/// The usage between the two samples of the interval; none unless both are
/// there.
pub open spec fn accounting_usage(
    before: Option<Seq<char>>,
    after: Option<Seq<char>>,
) -> Option<CpuUsage> {
    match (sample_in(before), sample_in(after)) {
        (Some(a), Some(b)) => Some(usage_between(a, b)),
        _ => None,
    }
}

/// The load of the aggregate slot: the first of the loads.
pub open spec fn aggregate_load(loads: Seq<u32>) -> Option<u32> {
    if loads.len() > 0 {
        Some(loads[0])
    } else {
        None
    }
}

/// The loads of the logical cores: all but the aggregate slot.
pub open spec fn core_loads(loads: Seq<u32>) -> Seq<u32> {
    if loads.len() > 0 {
        loads.drop_first()
    } else {
        loads
    }
}

/// The metrics of the graphics processor in a snapshot: those that the
/// sources give for the vendor, and none where the vendor is unknown.
pub open spec fn gpu_of(vendor: VendorKind, sources: GpuSourcesView) -> Option<PartialGpuMetrics> {
    if vendor == VendorKind::Unknown {
        None
    } else {
        Some(metrics_of(vendor, sources))
    }
}

/// The snapshot that the readings make.
pub open spec fn snapshot_of(readings: SystemReadingsView) -> TelemetrySnapshotView {
    TelemetrySnapshotView {
        timestamp: readings.timestamp,
        uptime: readings.uptime,
        memory_used_bytes: readings.memory_used_bytes,
        memory_total_bytes: readings.memory_total_bytes,
        cpu_accounting: accounting_usage(readings.stat_before, readings.stat_after),
        cpu_process_table: aggregate_load(readings.cpu_loads),
        per_core_usage: core_loads(readings.cpu_loads),
        gpu: gpu_of(detected(readings.pci_listing), readings.gpu),
    }
}

/// The sample of the accounting counters in a text that may be absent.
fn read_optional_stat(content: &Option<String>) -> (r: Option<(u64, u64)>)
    ensures
        r == sample_in(text_view(*content)),
{
    match content {
        Some(text) => read_proc_stat(text.as_str()),
        None => None,
    }
}

/// The text in `content` as a string slice.
fn as_optional_str(content: &Option<String>) -> (r: Option<&str>)
    ensures
        match r {
            Some(text) => text_view(*content) == Some(text@),
            None => text_view(*content) is None,
        },
{
    match content {
        Some(text) => Some(text.as_str()),
        None => None,
    }
}

/// Assembles the snapshot of one collection cycle. The two estimates of the
/// processor usage are kept side by side. The vendor is detected once, and
/// the metrics of the graphics processor come from that vendor's sources.
/// Every reading that could not be had is absent from the snapshot; the
/// collection itself never fails.
pub fn collect_snapshot(readings: &SystemReadings) -> (r: TelemetrySnapshot)
    ensures
        r@ == snapshot_of(readings@),
{
    let before = read_optional_stat(&readings.stat_before);
    let after = read_optional_stat(&readings.stat_after);
    let cpu_accounting = calculate_proc_cpu_usage(before, after);
    let cpu_process_table = if readings.cpu_loads.len() > 0 {
        Some(readings.cpu_loads[0])
    } else {
        None
    };
    let mut per_core_usage: Vec<u32> = Vec::new();
    let mut i: usize = 1;
    while i < readings.cpu_loads.len()
        invariant
            1 <= i,
            readings.cpu_loads@.len() > 0 ==> i <= readings.cpu_loads@.len(),
            readings.cpu_loads@.len() > 0 ==> per_core_usage@ == readings.cpu_loads@.subrange(
                1,
                i as int,
            ),
            readings.cpu_loads@.len() == 0 ==> per_core_usage@.len() == 0,
        decreases readings.cpu_loads@.len() - i,
    {
        per_core_usage.push(readings.cpu_loads[i]);
        i += 1;
    }
    proof {
        let loads = readings.cpu_loads@;
        if loads.len() > 0 {
            assert(loads.subrange(1, loads.len() as int) == loads.drop_first());
        } else {
            assert(per_core_usage@ == loads);
        }
    }
    let vendor = detect_vendor(as_optional_str(&readings.pci_listing));
    let gpu = match vendor {
        VendorKind::Unknown => None,
        _ => Some(read_metrics(vendor, &readings.gpu)),
    };
    TelemetrySnapshot {
        timestamp: readings.timestamp,
        uptime: readings.uptime,
        memory_used_bytes: readings.memory_used_bytes,
        memory_total_bytes: readings.memory_total_bytes,
        cpu_accounting,
        cpu_process_table,
        per_core_usage,
        gpu,
    }
}

} // verus!
