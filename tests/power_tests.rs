use esnode_core::derivations::{
    counter_delta, energy_delta_joules, pcie_bandwidth_milli_pct, DeltaTracker, PcieLinkSpeed,
};
use esnode_core::ebpf::{
    calculate_metrics, kernel_supports_sampling, parse_kernel_version, EbpfConfig, EbpfSample,
};
use esnode_core::pue::PueCalculator;

fn ratio(r: esnode_core::numtext::Ratio) -> f64 {
    r.num as f64 / r.den as f64
}

#[test]
fn test_pue_calculation() {
    let mut calc = PueCalculator::new();
    calc.update_it_power("server-1", 1_000_000);
    calc.update_facility_power("pdu-1", 1_000_000);
    assert_eq!(ratio(calc.calculate_pue()), 1.0);

    calc.update_it_power("server-2", 500_000);
    calc.update_facility_power("pdu-2", 1_000_000);
    assert_eq!(ratio(calc.calculate_pue()), 2000.0 / 1500.0);
}

#[test]
fn pue_edges() {
    let mut calc = PueCalculator::new();
    assert_eq!(ratio(calc.calculate_pue()), 0.0);
    calc.update_facility_power("pdu", 5_000);
    assert_eq!(ratio(calc.calculate_pue()), 0.0);
    calc.update_it_power("srv", 100);
    assert_eq!(ratio(calc.calculate_pue()), 10.0);
    calc.update_it_power("srv", 1_000);
    assert_eq!(ratio(calc.calculate_pue()), 5.0);
    assert_eq!(calc.total_it_power(), 1_000);
    assert_eq!(calc.calculate_overhead(), 4_000);
    assert_eq!(ratio(calc.calculate_efficiency()), 0.2);
    let report = calc.collect_internal();
    assert_eq!(report.facility_power_mw, 5_000);
    assert_eq!(report.it_power_mw, 1_000);
}

#[test]
fn pue_under_reported_facility_counts_as_one() {
    let mut calc = PueCalculator::new();
    calc.update_it_power("srv", 1_000_000);
    assert_eq!(ratio(calc.calculate_pue()), 0.0);
    calc.update_facility_power("pdu", 500_000);
    assert_eq!(ratio(calc.calculate_pue()), 1.0);
}

#[test]
fn test_ebpf_metrics_calculation() {
    let _config = EbpfConfig::default();
    let samples = vec![
        EbpfSample {
            timestamp_us: 1000,
            cpu_cycles: 1000000,
            cpu_instructions: 500000,
            l1_dcache_misses: 100,
            llc_misses: 10,
            power_mw: 50000,
            energy_uj: 500,
        },
        EbpfSample {
            timestamp_us: 2000,
            cpu_cycles: 1000000,
            cpu_instructions: 700000,
            l1_dcache_misses: 50,
            llc_misses: 5,
            power_mw: 60000,
            energy_uj: 600,
        },
    ];
    let metrics = calculate_metrics(&samples);
    assert_eq!(metrics.sample_count, 2);
    assert_eq!(ratio(metrics.instructions_per_cycle()), 0.6);
    assert_eq!(ratio(metrics.avg_power_mw()), 55000.0);
    assert_eq!(metrics.total_l1_cache_misses, 150);
    assert_eq!(metrics.total_energy_uj, 1100);
    assert_eq!(metrics.total_llc_misses, 15);
    assert_eq!(ratio(metrics.avg_cpu_cycles()), 1_000_000.0);
}

#[test]
fn ebpf_empty_batch() {
    let m = calculate_metrics(&[]);
    assert_eq!(m.sample_count, 0);
    assert_eq!(ratio(m.instructions_per_cycle()), 0.0);
    assert_eq!(ratio(m.avg_power_mw()), 0.0);
    let c = EbpfConfig::default();
    assert_eq!(c.sampling_interval_ms, 10);
    assert_eq!(c.sample_buffer_size, 10000);
}

#[test]
fn counter_rollback_applies_zero() {
    assert_eq!(counter_delta(100, 10), 0);
    assert_eq!(counter_delta(10, 100), 90);
    let mut t = DeltaTracker::new();
    assert_eq!(t.observe(100), 0);
    assert_eq!(t.observe(150), 50);
    assert_eq!(t.observe(10), 0);
    assert_eq!(t.total, 50);
    assert_eq!(t.observe(25), 15);
    assert_eq!(t.total, 65);
}

#[test]
fn pcie_percent_is_clamped() {
    assert_eq!(pcie_bandwidth_milli_pct(0, 0, PcieLinkSpeed::Gen4, 16), Some(0));
    // 8 GB/s of 16 lanes at 8 GB/s each: 1/16 = 6.25%
    assert_eq!(pcie_bandwidth_milli_pct(7_812_500, 0, PcieLinkSpeed::Gen3, 16), Some(6_250));
    assert_eq!(pcie_bandwidth_milli_pct(u64::MAX, u64::MAX, PcieLinkSpeed::Gen1, 0), Some(100_000));
    assert_eq!(pcie_bandwidth_milli_pct(5, 5, PcieLinkSpeed::Unknown, 16), None);
}

#[test]
fn energy_from_previous_power() {
    assert_eq!(energy_delta_joules(250_000, 2_000), 500);
    assert_eq!(energy_delta_joules(1_500, 999), 1);
    assert_eq!(energy_delta_joules(0, 5_000), 0);
    assert_eq!(energy_delta_joules(u64::MAX, u64::MAX), u64::MAX);
}

#[test]
fn kernel_versions() {
    assert_eq!(parse_kernel_version("5.15.0-91-generic"), Some((5, 15)));
    assert_eq!(parse_kernel_version("6.1"), Some((6, 1)));
    assert_eq!(parse_kernel_version("6"), None);
    assert_eq!(parse_kernel_version("6.1-rc3"), None);
    assert!(kernel_supports_sampling((5, 8)));
    assert!(!kernel_supports_sampling((5, 7)));
    assert!(kernel_supports_sampling((6, 0)));
    assert!(!kernel_supports_sampling((4, 19)));
}
