use deck_optimizer::cpu::CpuUsage;
use deck_optimizer::sensors::{AmdSources, GpuSources, PartialGpuMetrics};
use deck_optimizer::snapshot::{collect_snapshot, SystemReadings, TelemetrySnapshot};

fn bare_sources() -> GpuSources {
    GpuSources {
        amd: AmdSources {
            busy_percent: None,
            core_clock_hz: None,
            mem_clock_hz: None,
            hwmon_temps: vec![],
            vram_used: None,
            vram_total: None,
            pm_info: None,
        },
        nvidia_query: None,
    }
}

fn bare_readings() -> SystemReadings {
    SystemReadings {
        timestamp: 0,
        uptime: 0,
        memory_used_bytes: 0,
        memory_total_bytes: 0,
        stat_before: None,
        stat_after: None,
        cpu_loads: vec![],
        pci_listing: None,
        gpu: bare_sources(),
    }
}

#[test]
fn snapshot_with_nothing_readable_is_still_made() {
    assert_eq!(
        collect_snapshot(&bare_readings()),
        TelemetrySnapshot {
            timestamp: 0,
            uptime: 0,
            memory_used_bytes: 0,
            memory_total_bytes: 0,
            cpu_accounting: None,
            cpu_process_table: None,
            per_core_usage: vec![],
            gpu: None,
        }
    );
}

#[test]
fn snapshot_keeps_both_cpu_estimates() {
    let readings = SystemReadings {
        timestamp: 1_700_000_000,
        uptime: 3600,
        memory_used_bytes: 4_294_967_296,
        memory_total_bytes: 17_179_869_184,
        stat_before: Some("cpu 100 0 100 700 100 0 0\n".to_string()),
        stat_after: Some("cpu 150 0 150 1100 100 0 0\n".to_string()),
        cpu_loads: vec![2500, 1000, 4000, 0, 5000],
        ..bare_readings()
    };
    let snapshot = collect_snapshot(&readings);
    assert_eq!(snapshot.timestamp, 1_700_000_000);
    assert_eq!(snapshot.uptime, 3600);
    assert_eq!(snapshot.memory_used_bytes, 4_294_967_296);
    assert_eq!(snapshot.memory_total_bytes, 17_179_869_184);
    assert_eq!(snapshot.cpu_accounting, Some(CpuUsage { busy: 100, total: 500 }));
    assert_eq!(snapshot.cpu_accounting.unwrap().basis_points(), 2000);
    assert_eq!(snapshot.cpu_process_table, Some(2500));
    assert_eq!(snapshot.per_core_usage, vec![1000, 4000, 0, 5000]);
    assert_eq!(snapshot.gpu, None);
}

#[test]
fn snapshot_without_a_second_sample_has_no_accounting_estimate() {
    let readings = SystemReadings {
        stat_before: Some("cpu 100 0 100 700 100 0 0\n".to_string()),
        stat_after: None,
        cpu_loads: vec![300],
        ..bare_readings()
    };
    let snapshot = collect_snapshot(&readings);
    assert_eq!(snapshot.cpu_accounting, None);
    assert_eq!(snapshot.cpu_process_table, Some(300));
    assert_eq!(snapshot.per_core_usage, Vec::<u32>::new());
}

#[test]
fn snapshot_of_identical_samples_shows_zero_usage() {
    let stat = "cpu 100 0 100 700 100 0 0\n".to_string();
    let readings = SystemReadings {
        stat_before: Some(stat.clone()),
        stat_after: Some(stat),
        ..bare_readings()
    };
    let usage = collect_snapshot(&readings).cpu_accounting.unwrap();
    assert_eq!(usage, CpuUsage { busy: 0, total: 0 });
    assert_eq!(usage.basis_points(), 0);
}

#[test]
fn amd_snapshot_takes_load_from_debugfs_when_sysfs_is_absent() {
    let mut readings = bare_readings();
    readings.pci_listing = Some(
        "04:00.0 VGA compatible controller: Advanced Micro Devices, Inc. [AMD/ATI] VanGogh\n"
            .to_string(),
    );
    readings.gpu.amd.pm_info = Some("GPU Load: 42 %".to_string());
    let snapshot = collect_snapshot(&readings);
    assert_eq!(snapshot.gpu.unwrap().util_percent, Some(42));
}

#[test]
fn intel_snapshot_has_gpu_metrics_that_hold_nothing() {
    let mut readings = bare_readings();
    readings.pci_listing = Some("00:02.0 VGA compatible controller: Intel Corporation".to_string());
    readings.gpu.nvidia_query = Some("45, 62, 1500, 7000".to_string());
    assert_eq!(collect_snapshot(&readings).gpu, Some(PartialGpuMetrics::absent()));
}

#[test]
fn nvidia_snapshot_reads_the_query_answer() {
    let mut readings = bare_readings();
    readings.pci_listing = Some("01:00.0 3D controller: NVIDIA Corporation".to_string());
    readings.gpu.nvidia_query = Some("45, 62, 1500, 7000\n".to_string());
    assert_eq!(
        collect_snapshot(&readings).gpu,
        Some(PartialGpuMetrics {
            util_percent: Some(45),
            temp_millicelsius: Some(62_000),
            core_clock_mhz: Some(1500),
            mem_clock_mhz: Some(7000),
            vram_bytes: None,
        })
    );
}

#[test]
fn unknown_vendor_snapshot_has_no_gpu_metrics() {
    let mut readings = bare_readings();
    readings.pci_listing = Some("00:01.0 VGA compatible controller: Matrox".to_string());
    readings.gpu.amd.busy_percent = Some("12".to_string());
    assert_eq!(collect_snapshot(&readings).gpu, None);
}
