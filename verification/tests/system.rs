use diaspor_vfs::gpu::{
    detect_gpus, fresh_histories, record_sample, stop_metrics_polling, vendor_name, AdapterInfo,
    GpuMetricsHistory, PollingState, HISTORY_SAMPLES,
};
use diaspor_vfs::system::{
    disk_totals_from_diskstats, is_model_process, network_totals, IoCounters, RateUpdate, SystemInfo,
};

#[test]
fn vendors_are_named_by_pci_id() {
    assert_eq!(vendor_name(0x10DE), "NVIDIA");
    assert_eq!(vendor_name(0x1002), "AMD");
    assert_eq!(vendor_name(0x8086), "Intel");
    assert_eq!(vendor_name(0x106B), "Apple");
    assert_eq!(vendor_name(0x1234), "Unknown");
}

#[test]
fn software_renderers_are_not_gpus() {
    let adapters = vec![
        AdapterInfo { name: "llvmpipe".to_string(), vendor: 0x10005, driver: "mesa".to_string(), is_cpu: true },
        AdapterInfo { name: "RTX 4090".to_string(), vendor: 0x10DE, driver: "550".to_string(), is_cpu: false },
    ];
    let gpus = detect_gpus(&adapters);
    assert_eq!(gpus.len(), 1);
    assert_eq!(gpus[0].id, 1);
    assert_eq!(gpus[0].name, "RTX 4090");
    assert_eq!(gpus[0].vendor, "NVIDIA");
    assert_eq!(gpus[0].driver_version, "550");
    assert_eq!(gpus[0].memory_total_mb, 0);
}

#[test]
fn history_keeps_the_last_samples() {
    let mut h: GpuMetricsHistory<u32> = GpuMetricsHistory::new(0, 3);
    for x in 1..=5 {
        h.push(x);
    }
    assert_eq!(h.samples, vec![3, 4, 5]);
    assert_eq!(h.max_samples, 3);
}

#[test]
fn polled_samples_go_to_the_history_of_their_gpu() {
    let adapters = vec![
        AdapterInfo { name: "A".to_string(), vendor: 0x10DE, driver: "1".to_string(), is_cpu: false },
        AdapterInfo { name: "B".to_string(), vendor: 0x1002, driver: "2".to_string(), is_cpu: false },
    ];
    let gpus = detect_gpus(&adapters);
    let mut histories: Vec<GpuMetricsHistory<u32>> = fresh_histories(&gpus);
    assert_eq!(histories.len(), 2);
    assert_eq!(histories[1].max_samples, HISTORY_SAMPLES);
    assert_eq!(HISTORY_SAMPLES, 120);
    record_sample(&mut histories, gpus[1].id, 77);
    record_sample(&mut histories, 99, 5);
    assert!(histories[0].samples.is_empty());
    assert_eq!(histories[1].samples, vec![77]);
}

#[test]
fn polling_starts_once_and_stops() {
    let mut p = PollingState::new();
    assert!(!p.should_continue());
    assert!(p.start());
    assert!(!p.start());
    assert!(p.should_continue());
    stop_metrics_polling(&mut p);
    assert!(!p.should_continue());
}

#[test]
fn system_info_defaults() {
    let info = SystemInfo::from_probe(
        Some("Linux".to_string()),
        None,
        None,
        Some("box".to_string()),
        vec!["Ryzen".to_string(), "Ryzen".to_string()],
        8 * 1024 * 1024 * 1024 + 5,
        0,
    );
    assert_eq!(info.os_name, "Linux");
    assert_eq!(info.os_version, "Unknown");
    assert_eq!(info.cpu_brand, "Ryzen");
    assert_eq!(info.cpu_cores, 2);
    assert_eq!(info.total_memory_mb, 8192);
    let none = SystemInfo::from_probe(None, None, None, None, Vec::new(), 0, 0);
    assert_eq!(none.cpu_brand, "Unknown CPU");
}

#[test]
fn model_processes_by_name() {
    assert!(is_model_process("ollama"));
    assert!(is_model_process("Python3"));
    assert!(!is_model_process("bash"));
}

#[test]
fn diskstats_count_physical_disks_only() {
    let text = "   8       0 sda 100 0 2000 0 50 0 4000 0 0 0 0 0 0 0\n\
                   7       0 loop0 1 0 999 0 1 0 999 0 0 0 0 0 0 0\n\
                 253       0 dm-0 1 0 777 0 1 0 777 0 0 0 0 0 0 0\n\
                 259       0 nvme0n1 1 0 10 0 1 0 20 0 0 0 0 0 0 0\n\
                 short line\n";
    assert_eq!(disk_totals_from_diskstats(text), (2010 * 512, 4020 * 512));
}

#[test]
fn io_rates_follow_counter_growth() {
    let mut c = IoCounters::new(100, 200, 0, 0);
    assert!(c.update(false, 500, 500, 9, 9).is_none());
    assert_eq!(c.last_net_rx, 100);
    let step = c.update(true, 150, 180, 1000, 2000).unwrap();
    assert_eq!(step.net_rx, RateUpdate::Grew(50));
    assert_eq!(step.net_tx, RateUpdate::Keep);
    assert_eq!(step.disk_read, RateUpdate::Zero);
    assert_eq!(c.last_disk_read, 1000);
    let step = c.update(true, 150, 180, 1500, 2100).unwrap();
    assert_eq!(step.disk_read, RateUpdate::Grew(500));
    assert_eq!(step.disk_write, RateUpdate::Grew(100));
}

#[test]
fn network_totals_add_up_interfaces() {
    assert_eq!(network_totals(&vec![(10, 20), (1, 2), (0, 5)]), (11, 27));
    assert_eq!(network_totals(&Vec::new()), (0, 0));
}
