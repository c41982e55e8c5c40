use esnode_core::app_tokens::{parse_tokens, tokens_per_watt, TokenRateTracker};
use esnode_core::network::{InterfaceCounters, NetworkTracker};

fn iface(name: &str, rx: u64, tx: u64, drops: u64) -> InterfaceCounters {
    InterfaceCounters {
        name: name.to_string(),
        rx_bytes: rx,
        tx_bytes: tx,
        rx_errors: 0,
        rx_packets: 0,
        tx_packets: 0,
        rx_dropped: drops,
        tx_dropped: 0,
    }
}

#[test]
fn primary_nic_is_busiest_non_loopback() {
    let mut t = NetworkTracker::new();
    let first = t.observe(vec![iface("eth0", 100, 100, 0), iface("lo", 10, 10, 0)], 1_000);
    assert_eq!(first.deltas[0].rx_bytes, 100);
    let p = first.primary.unwrap();
    assert_eq!(p.name, "eth0");
    assert_eq!(p.rx_milli_bytes_per_sec, None);

    let tick = t.observe(
        vec![iface("eth0", 600, 100, 0), iface("eth1", 2_000, 2_000, 4), iface("lo", 1_000_000, 0, 0)],
        3_000,
    );
    assert_eq!(tick.deltas.len(), 3);
    assert_eq!(tick.deltas[0].rx_bytes, 500);
    assert_eq!(tick.deltas[0].tx_bytes, 0);
    let p = tick.primary.unwrap();
    assert_eq!(p.name, "eth1");
    // 2000 bytes over 2 s
    assert_eq!(p.rx_milli_bytes_per_sec, Some(1_000_000));
    assert_eq!(p.drops_milli_per_sec, Some(2_000));
}

#[test]
fn counter_reset_gives_zero_delta() {
    let mut t = NetworkTracker::new();
    t.observe(vec![iface("eth0", 100, 100, 0)], 0);
    let tick = t.observe(vec![iface("eth0", 10, 150, 0)], 1_000);
    assert_eq!(tick.deltas[0].rx_bytes, 0);
    assert_eq!(tick.deltas[0].tx_bytes, 50);
}

#[test]
fn idle_tick_still_names_a_primary() {
    let mut t = NetworkTracker::new();
    t.observe(vec![iface("eth0", 5, 5, 0)], 0);
    let tick = t.observe(vec![iface("eth0", 5, 5, 0), iface("lo", 9, 9, 0)], 1_000);
    let p = tick.primary.unwrap();
    assert_eq!(p.name, "eth0");
    assert_eq!(p.rx_milli_bytes_per_sec, Some(0));
}

#[test]
fn no_primary_with_only_loopback() {
    let mut t = NetworkTracker::new();
    let tick = t.observe(vec![iface("lo", 9, 9, 0)], 1_000);
    assert!(tick.primary.is_none());
    let tick = t.observe(vec![], 2_000);
    assert!(tick.primary.is_none());
}

#[test]
fn ties_go_to_the_first_interface() {
    let mut t = NetworkTracker::new();
    let tick = t.observe(vec![iface("a", 10, 0, 0), iface("b", 0, 10, 0)], 0);
    assert_eq!(tick.primary.unwrap().name, "a");
}

#[test]
fn token_counters_are_summed() {
    let body = "# HELP vllm:generation_tokens_total x\n\
                vllm:generation_tokens_total 1234\n\
                vllm:prompt_tokens_total{model=\"m\"} 5678.5\n\
                other_metric 99\n\
                tgi_generated_tokens 10\r\n\
                model_tokens_total 1e3\n";
    assert_eq!(parse_tokens(body), Some((1234 + 10) * 1000 + 5_678_500));
    assert_eq!(parse_tokens("other 1\n# vllm:prompt_tokens_total 5\n"), None);
    assert_eq!(parse_tokens(""), None);
}

#[test]
fn token_rate_and_efficiency() {
    let mut t = TokenRateTracker::new();
    assert_eq!(t.observe(1_000_000, 1_000), None);
    assert_eq!(t.observe(3_000_000, 3_000), Some(1_000_000));
    assert_eq!(t.observe(2_000_000, 4_000), None);
    assert_eq!(t.observe(2_500_000, 4_000), None);
    assert_eq!(t.observe(2_600_000, 5_000), Some(100_000));
    assert_eq!(tokens_per_watt(1_000_000, Some(250_000)), Some(4_000));
    assert_eq!(tokens_per_watt(1_000_000, None), None);
    assert_eq!(tokens_per_watt(1_000_000, Some(0)), None);
}
