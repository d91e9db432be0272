use llmux::address::{check_ipv4, check_ipv6};
use llmux::config::ModelConfig;
use llmux::host::{render_origin, render_url_host};
use llmux::text::{chars_of, decimal, natural, same_text, split};

fn ipv4(text: &str) -> bool {
    check_ipv4(&chars_of(text))
}

fn ipv6(text: &str) -> bool {
    check_ipv6(&chars_of(text))
}

#[test]
fn ipv4_addresses() {
    for text in ["0.0.0.0", "127.0.0.1", "255.255.255.255", "10.0.0.2", "1.20.100.249"] {
        assert!(ipv4(text), "{text}");
    }
    for text in [
        "", "1", "1.2.3", "1.2.3.4.5", "256.0.0.1", "1.2.3.999", "01.2.3.4", "1.2.3.00",
        "1.2.3.", ".1.2.3", "1..2.3", "1.2.3.4 ", "1.2.3.a", "0x1.2.3.4", "1.2.3.0004",
        "+1.2.3.4", "-1.2.3.4", "1.2.3.4:80",
    ] {
        assert!(!ipv4(text), "{text}");
    }
}

#[test]
fn ipv6_addresses() {
    for text in [
        "::",
        "::1",
        "1::",
        "1:2:3:4:5:6:7:8",
        "2001:DB8::ff00:42:8329",
        "fe80::1",
        "0000:0000:0000:0000:0000:0000:0000:0000",
        "1:2:3:4:5:6:7::",
        "::2:3:4:5:6:7:8",
        "1:2:3::5:6:7:8",
        "::1.2.3.4",
        "::ffff:192.0.2.1",
        "1:2:3:4:5:6:1.2.3.4",
        "1:2:3:4:5::1.2.3.4",
        "64:ff9b::192.0.2.33",
    ] {
        assert!(ipv6(text), "{text}");
    }
    for text in [
        "",
        ":",
        ":::",
        "1",
        "1:2:3:4:5:6:7",
        "1:2:3:4:5:6:7:8:9",
        "1:2:3:4:5:6:7:8::",
        "::1:2:3:4:5:6:7:8",
        "1::2::3",
        "::1::",
        "1:::2",
        ":1:2:3:4:5:6:7:8",
        "1:2:3:4:5:6:7:8:",
        ":1::2",
        "1::2:",
        "12345::",
        "g::1",
        "fe80::1%eth0",
        "[::1]",
        "::1/64",
        "1.2.3.4",
        "1.2.3.4::",
        "::1.2.3.4:5",
        "1:2:3:4:5:6:7:1.2.3.4",
        "1:2:3:4:5:6::1.2.3.4",
        "::1.2.3.256",
        "::01.2.3.4",
        "::1.2.3",
        "1:2:3:4:5:6:1.2.3.4a",
        "a:b",
    ] {
        assert!(!ipv6(text), "{text}");
    }
}

#[test]
fn host_names() {
    let label = "a".repeat(63);
    let too_long_label = "a".repeat(64);
    let too_long = format!("{label}.{label}.{label}.{}", "a".repeat(62));
    for host in ["localhost", "a", "A-1.b", "x--y", "1.2.3", "256.1.1.1", label.as_str()] {
        assert!(ModelConfig::is_valid_hostname(host), "{host}");
    }
    for host in [
        "-a", "a-", "a.-b", "a-.b", "a.", ".a", ".", "a_b", "a b", "a/b", "a@b", "a%b",
        "m\u{fc}nchen.de", "a\n", too_long_label.as_str(), too_long.as_str(),
    ] {
        assert!(!ModelConfig::is_valid_hostname(host), "{host}");
    }
}

#[test]
fn ipv6_hosts_stand_between_brackets() {
    assert_eq!(render_url_host("::1"), "[::1]");
    assert_eq!(render_url_host("10.0.0.2"), "10.0.0.2");
    assert_eq!(render_url_host("localhost"), "localhost");
    assert_eq!(render_origin("::1", 8001), "http://[::1]:8001");
    assert_eq!(render_origin("localhost", 65535), "http://localhost:65535");
}

#[test]
fn different_backends_have_different_origins() {
    assert_ne!(render_origin("a", 11), render_origin("a1", 1));
    assert_ne!(render_origin("::1", 11), render_origin("::11", 1));
}

#[test]
fn decimal_numbers() {
    assert_eq!(natural(0), "0");
    assert_eq!(natural(9), "9");
    assert_eq!(natural(10), "10");
    assert_eq!(natural(65535), "65535");
    assert_eq!(natural(18446744073709551615), "18446744073709551615");
    assert_eq!(decimal(-1), "-1");
    assert_eq!(decimal(-2147483648), "-2147483648");
    assert_eq!(decimal(1234567890), "1234567890");
}

#[test]
fn splitting_keeps_empty_pieces() {
    let pieces = split(&chars_of("a::b"), ':');
    assert_eq!(pieces, vec![vec!['a'], vec![], vec!['b']]);
    assert_eq!(split(&chars_of(""), ':').len(), 1);
}

#[test]
fn text_comparison_is_exact() {
    assert!(same_text("", ""));
    assert!(same_text("m\u{fc}", "m\u{fc}"));
    assert!(!same_text("m", "M"));
    assert!(!same_text("m", "mm"));
}

#[test]
fn decimal_numbers_read_back() {
    for n in [0, 7, 10, 99, 100, 8001, 65535, 18446744073709551615] {
        assert_eq!(natural(n).parse::<u64>().unwrap(), n);
    }
}

#[test]
fn every_ipv4_address_is_a_host_name() {
    for host in ["127.0.0.1", "255.255.255.255", "0.0.0.0"] {
        assert!(ipv4(host));
        assert!(ModelConfig::is_valid_hostname(host));
        assert_eq!(render_url_host(host), host);
    }
}

#[test]
fn host_names_are_valid_label_by_label() {
    let hosts = ["a", "a.b", "-a", "", "a.", "x1.y-z", "a_b"];
    for front in hosts {
        for back in hosts {
            let both = ModelConfig::is_valid_hostname(front) && ModelConfig::is_valid_hostname(back);
            let joined = format!("{front}.{back}");
            assert_eq!(ModelConfig::is_valid_hostname(&joined), both, "{joined}");
        }
    }
}
