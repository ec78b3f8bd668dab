use efbench_core::addr::{connect_error_message, endpoint_uri, format_server_addr};
use efbench_core::plot::plot_file_name;
use efbench_core::sysfs::{
    check_interface, interface_path, net_stat_path, net_stat_value, InterfaceError,
};
use efbench_core::text::{chars_of, is_white_space_char, parse_trimmed_u64, push_decimal};

fn decimal(n: u64) -> String {
    let mut s = String::new();
    push_decimal(&mut s, n);
    s
}

#[test]
fn decimal_matches_to_string() {
    for n in [0u64, 7, 9, 10, 42, 100, 65535, 1_000_000, u64::MAX] {
        assert_eq!(decimal(n), n.to_string());
    }
}

#[test]
fn push_decimal_appends() {
    let mut s = String::from("port ");
    push_decimal(&mut s, 8080);
    assert_eq!(s, "port 8080");
}

#[test]
fn parse_plain_and_padded() {
    assert_eq!(parse_trimmed_u64("123"), Some(123));
    assert_eq!(parse_trimmed_u64("  123\n"), Some(123));
    assert_eq!(parse_trimmed_u64("\t\r\n0\n"), Some(0));
    assert_eq!(parse_trimmed_u64("\u{a0}42\u{3000}"), Some(42));
    assert_eq!(parse_trimmed_u64("+17"), Some(17));
}

#[test]
fn parse_rejects_what_std_rejects() {
    for s in ["", "   ", "+", "-1", "-", "1 2", "12a", "0x10", "++1", "１２"] {
        assert_eq!(parse_trimmed_u64(s), None, "{s:?}");
        assert_eq!(s.trim().parse::<u64>().ok(), None, "{s:?}");
    }
}

#[test]
fn parse_agrees_with_std() {
    for s in [
        "0", "007", " 18446744073709551615 ", "18446744073709551616", "99999999999999999999",
        "+0", "\u{2028}5\u{85}", "5\u{200b}",
    ] {
        assert_eq!(parse_trimmed_u64(s), s.trim().parse::<u64>().ok(), "{s:?}");
    }
}

#[test]
fn parse_bounds() {
    assert_eq!(parse_trimmed_u64("18446744073709551615"), Some(u64::MAX));
    assert_eq!(parse_trimmed_u64("18446744073709551616"), None);
}

#[test]
fn white_space_matches_char_is_whitespace() {
    for c in (0u32..0x3100).filter_map(char::from_u32) {
        assert_eq!(is_white_space_char(c), c.is_whitespace(), "{:x}", c as u32);
    }
}

#[test]
fn chars_of_keeps_order() {
    assert_eq!(chars_of("aé漢\n"), vec!['a', 'é', '漢', '\n']);
}

#[test]
fn stat_file_round_trip() {
    for n in [0u64, 1, 4096, 123_456_789, u64::MAX] {
        let file = format!("{n}\n");
        assert_eq!(net_stat_value(Some(&file)), n);
    }
}

#[test]
fn stat_value_defaults_to_zero() {
    assert_eq!(net_stat_value(None), 0);
    assert_eq!(net_stat_value(Some("")), 0);
    assert_eq!(net_stat_value(Some("garbage\n")), 0);
    assert_eq!(net_stat_value(Some("18446744073709551616\n")), 0);
}

#[test]
fn paths() {
    assert_eq!(interface_path("eth0"), "/sys/class/net/eth0");
    assert_eq!(net_stat_path("eth0", "rx_bytes"), "/sys/class/net/eth0/statistics/rx_bytes");
    assert_eq!(net_stat_path("lo", "tx_bytes"), "/sys/class/net/lo/statistics/tx_bytes");
}

#[test]
fn check_interface_ok_when_present() {
    assert!(check_interface("eth0", true).is_ok());
}

#[test]
fn check_interface_not_found() {
    match check_interface("wlan9", false) {
        Err(e) => {
            let InterfaceError::NotFound { iface, path } = &e;
            assert_eq!(iface, "wlan9");
            assert_eq!(path, "/sys/class/net/wlan9");
            assert_eq!(
                e.message(),
                "network interface 'wlan9' not found at /sys/class/net/wlan9"
            );
        }
        Ok(()) => panic!("a missing interface was accepted"),
    }
}

#[test]
fn server_addresses() {
    assert_eq!(format_server_addr("127.0.0.1", 50051), "127.0.0.1:50051");
    assert_eq!(format_server_addr("::1", 0), "::1:0");
    assert_eq!(format_server_addr("host", 65535), "host:65535");
    assert_eq!(endpoint_uri("10.0.0.2:8080"), "http://10.0.0.2:8080");
    assert_eq!(
        connect_error_message("10.0.0.2:8080", "transport error"),
        "Failed to connect to server at 10.0.0.2:8080: transport error"
    );
}

#[test]
fn plot_file() {
    assert_eq!(plot_file_name("benchmark_output"), "benchmark_output.png");
    assert_eq!(plot_file_name(""), ".png");
}
