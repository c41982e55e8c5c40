use esnode_core::netdev::{count_value, parse_netdev};

const TABLE: &str = "Inter-|   Receive                                                |  Transmit\n \
face |bytes    packets errs drop fifo frame compressed multicast|bytes    packets errs drop fifo colls carrier compressed\n    \
lo: 1000 10 0 0 0 0 0 0 1000 10 0 0 0 0 0 0\n  \
eth0: 123456 789 1 5 0 0 0 3 654321 987 0 7 0 0 0 0\n\
bad line without colon\n\
short: 1 2 3\n";

#[test]
fn device_table_is_parsed() {
    let rows = parse_netdev(TABLE);
    assert_eq!(rows.len(), 2);
    assert_eq!(rows[0].name, "lo");
    assert_eq!(rows[0].rx_packets, 10);
    assert_eq!(rows[1].name, "eth0");
    assert_eq!(rows[1].rx_packets, 789);
    assert_eq!(rows[1].rx_dropped, 5);
    assert_eq!(rows[1].tx_packets, 987);
    assert_eq!(rows[1].tx_dropped, 7);
}

#[test]
fn headers_only_give_nothing() {
    assert!(parse_netdev("a: 1 2 3 4 5 6 7 8 9 10 11 12 13 14 15 16\nb: 1 2 3 4 5 6 7 8 9 10 11 12 13 14 15 16\n").is_empty());
    assert!(parse_netdev("").is_empty());
}

#[test]
fn counter_words() {
    assert_eq!(count_value("42"), 42);
    assert_eq!(count_value("18446744073709551615"), u64::MAX);
    assert_eq!(count_value("18446744073709551616"), 0);
    assert_eq!(count_value("4x"), 0);
    assert_eq!(count_value(""), 0);
}
