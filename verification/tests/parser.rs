use hostdni::net::{is_valid_hostname, is_valid_ip, is_valid_ipv4, is_valid_ipv6};
use hostdni::record::{parse_hosts_content, parse_line, render_line};
use hostdni::text::to_chars;

fn parse_str(line: &str) -> Option<hostdni::record::HostEntry> {
    parse_line(&to_chars(line), 0, 7)
}

#[test]
fn enabled_line_with_comment() {
    let e = parse_str("127.0.0.1   myapp.local   # dev box").expect("record expected");
    assert_eq!(e.ip, "127.0.0.1");
    assert_eq!(e.hostname, "myapp.local");
    assert_eq!(e.comment.as_deref(), Some("# dev box"));
    assert!(e.enabled);
}

#[test]
fn disabled_line() {
    let e = parse_str("#10.0.0.5 blocked.example.com").expect("record expected");
    assert_eq!(e.ip, "10.0.0.5");
    assert_eq!(e.hostname, "blocked.example.com");
    assert_eq!(e.comment, None);
    assert!(!e.enabled);
}

#[test]
fn pure_comment_yields_no_record() {
    assert!(parse_str("# just a note").is_none());
}

#[test]
fn empty_and_whitespace_lines_yield_no_record() {
    assert!(parse_str("").is_none());
    assert!(parse_str("   \t ").is_none());
}

#[test]
fn double_hash_yields_no_record() {
    assert!(parse_str("## 10.0.0.5 host.example").is_none());
}

#[test]
fn single_token_yields_no_record() {
    assert!(parse_str("127.0.0.1").is_none());
}

#[test]
fn invalid_address_is_skipped() {
    assert!(parse_str("999.1.1.1 host.example").is_none());
    assert!(parse_str("not-an-ip host.example").is_none());
    assert!(parse_str("1.2.3 host.example").is_none());
}

#[test]
fn invalid_hostname_is_skipped() {
    assert!(parse_str("127.0.0.1 bad_host").is_none());
    assert!(parse_str("127.0.0.1 bad/host").is_none());
}

#[test]
fn comment_tokens_are_joined_with_single_spaces() {
    let e = parse_str("192.168.0.1  router   up\tand   running").expect("record expected");
    assert_eq!(e.comment.as_deref(), Some("up and running"));
}

#[test]
fn ipv4_grammar() {
    assert!(is_valid_ipv4(&to_chars("0.0.0.0")));
    assert!(is_valid_ipv4(&to_chars("255.255.255.255")));
    assert!(is_valid_ipv4(&to_chars("010.001.000.255")));
    assert!(!is_valid_ipv4(&to_chars("256.1.1.1")));
    assert!(!is_valid_ipv4(&to_chars("1.2.3.4.5")));
    assert!(!is_valid_ipv4(&to_chars("1.2.3.")));
    assert!(!is_valid_ipv4(&to_chars("1.2.3")));
    assert!(!is_valid_ipv4(&to_chars("1.2.3.0004")));
}

#[test]
fn ipv6_grammar() {
    assert!(is_valid_ipv6(&to_chars("2001:0db8:85a3:0000:0000:8a2e:0370:7334")));
    assert!(is_valid_ipv6(&to_chars("::1")));
    assert!(is_valid_ipv6(&to_chars("::")));
    assert!(is_valid_ipv6(&to_chars("fe80::1%eth0")));
    assert!(is_valid_ipv6(&to_chars("::ffff:192.168.0.1")));
    assert!(is_valid_ipv6(&to_chars("1:2:3:4:5:6:192.168.0.1")));
    assert!(is_valid_ipv6(&to_chars("1::")));
    assert!(is_valid_ipv6(&to_chars("1:2:3:4:5:6:7:8")));
    assert!(!is_valid_ipv6(&to_chars("1:2:3:4:5:6:7:8:9")));
    assert!(!is_valid_ipv6(&to_chars(":::")));
    assert!(!is_valid_ipv6(&to_chars("1:2:3:4:5:6:7:")));
    assert!(!is_valid_ipv6(&to_chars(":1:2:3:4:5:6:7")));
    assert!(!is_valid_ipv6(&to_chars("12345::1")));
    assert!(!is_valid_ipv6(&to_chars("g::1")));
    assert!(!is_valid_ipv6(&to_chars("fe80::1%")));
}

#[test]
fn address_accepts_both_families() {
    assert!(is_valid_ip(&to_chars("127.0.0.1")));
    assert!(is_valid_ip(&to_chars("::1")));
    assert!(!is_valid_ip(&to_chars("localhost")));
}

#[test]
fn hostname_grammar() {
    assert!(is_valid_hostname(&to_chars("myapp.local")));
    assert!(is_valid_hostname(&to_chars("a-b.c%25")));
    assert!(!is_valid_hostname(&to_chars("")));
    assert!(!is_valid_hostname(&to_chars("a b")));
    assert!(!is_valid_hostname(&to_chars("a_b")));
}

#[test]
fn content_parsing_keeps_order_and_line_ids() {
    let content = "# heading\n127.0.0.1 localhost\n\nbadline\n#10.0.0.5 blocked.example.com\n";
    let records = parse_hosts_content(content, 3);
    assert_eq!(records.len(), 2);
    assert_eq!(records[0].ip, "127.0.0.1");
    assert_eq!(records[0].id, 1);
    assert!(records[0].enabled);
    assert_eq!(records[0].created_at, 3);
    assert_eq!(records[0].updated_at, 3);
    assert_eq!(records[1].hostname, "blocked.example.com");
    assert_eq!(records[1].id, 4);
    assert!(!records[1].enabled);
}

#[test]
fn round_trip_without_comment_is_identity() {
    for line in ["127.0.0.1 myapp.local", "#10.0.0.5 blocked.example.com", "  ::1\tlocal6  "] {
        let e = parse_str(line).expect("record expected");
        let rendered: String = render_line(&e).into_iter().collect();
        let back = parse_str(&rendered).expect("re-parse expected");
        assert_eq!(back.ip, e.ip);
        assert_eq!(back.hostname, e.hostname);
        assert_eq!(back.comment, e.comment);
        assert_eq!(back.enabled, e.enabled);
    }
}

#[test]
fn round_trip_with_comment_gains_a_marker() {
    let e = parse_str("127.0.0.1 myapp.local # dev box").expect("record expected");
    assert_eq!(e.comment.as_deref(), Some("# dev box"));
    let rendered: String = render_line(&e).into_iter().collect();
    assert_eq!(rendered, "127.0.0.1 myapp.local\t# # dev box");
    let back = parse_str(&rendered).expect("re-parse expected");
    assert_eq!(back.comment.as_deref(), Some("# # dev box"));
}

#[test]
fn rendering_disabled_record_prefixes_hash() {
    let e = parse_str("#10.0.0.5 blocked.example.com").expect("record expected");
    let rendered: String = render_line(&e).into_iter().collect();
    assert_eq!(rendered, "# 10.0.0.5 blocked.example.com");
}
