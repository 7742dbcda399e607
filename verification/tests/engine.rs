use hostdni::hosts::{
    build_and_save_hosts_file, create_host_entry, disable_hosts_file, enable_hosts_file,
    get_host_entries, get_hosts_file_count, get_hosts_status, read_hosts_file_streaming,
    save_hosts_file, stream_host_entries, stream_hosts_file_chunks, write_hosts_file_streaming,
    CreateHostEntryRequest, HostsFs,
};
use hostdni::page::{cap_chunk_size, clamp_page_size};
use hostdni::query::query_param;
use hostdni::response::HostsError;

const FIVE: &str = "10.0.0.1 one\n10.0.0.2 two\n10.0.0.3 three\n10.0.0.4 four\n10.0.0.5 five\n";

fn active(content: &str) -> HostsFs {
    HostsFs { active: Some(content.to_string()), disabled: None, backup: None }
}

#[test]
fn page_size_clamped_to_bounds() {
    assert_eq!(clamp_page_size(0), 1000);
    assert_eq!(clamp_page_size(999), 1000);
    assert_eq!(clamp_page_size(1000), 1000);
    assert_eq!(clamp_page_size(1500), 1500);
    assert_eq!(clamp_page_size(20000), 20000);
    assert_eq!(clamp_page_size(20001), 20000);
    assert_eq!(clamp_page_size(usize::MAX), 20000);
}

#[test]
fn chunk_size_capped() {
    assert_eq!(cap_chunk_size(10), 10);
    assert_eq!(cap_chunk_size(10000), 10000);
    assert_eq!(cap_chunk_size(10001), 10000);
}

#[test]
fn first_page_of_five_records() {
    let fs = active(FIVE);
    let p = read_hosts_file_streaming(&fs, 0, 2, 0).expect("read expected");
    assert_eq!(p.total, 5);
    assert_eq!(p.page, 0);
    assert_eq!(p.page_size, 2);
    assert_eq!(p.total_pages, 3);
    assert!(p.has_next);
    assert!(!p.has_prev);
    assert_eq!(p.data.len(), 2);
    assert_eq!(p.data[0].hostname, "one");
    assert_eq!(p.data[1].hostname, "two");
}

#[test]
fn last_page_is_short() {
    let fs = active(FIVE);
    let p = read_hosts_file_streaming(&fs, 2, 2, 0).expect("read expected");
    assert_eq!(p.data.len(), 1);
    assert_eq!(p.data[0].hostname, "five");
    assert!(!p.has_next);
    assert!(p.has_prev);
}

#[test]
fn page_beyond_end_is_empty() {
    let fs = active(FIVE);
    let p = read_hosts_file_streaming(&fs, 9, 2, 0).expect("read expected");
    assert_eq!(p.data.len(), 0);
    assert_eq!(p.total, 5);
}

#[test]
fn count_equals_full_read_length() {
    let fs = active(FIVE);
    let c = get_hosts_file_count(&fs, 0).expect("count expected");
    let p = read_hosts_file_streaming(&fs, 0, c, 0).expect("read expected");
    assert_eq!(c, 5);
    assert_eq!(p.data.len(), c);
}

#[test]
fn reads_fail_when_disabled() {
    let fs = HostsFs {
        active: None,
        disabled: Some("10.0.0.1 one\n".to_string()),
        backup: None,
    };
    assert_eq!(read_hosts_file_streaming(&fs, 0, 1000, 0).unwrap_err(), HostsError::Disabled);
    assert_eq!(get_hosts_file_count(&fs, 0).unwrap_err(), HostsError::Disabled);
    assert_eq!(stream_hosts_file_chunks(&fs, 10, 0, 0).unwrap_err(), HostsError::Disabled);
}

#[test]
fn reads_fail_when_missing() {
    let fs = HostsFs { active: None, disabled: None, backup: None };
    assert_eq!(read_hosts_file_streaming(&fs, 0, 1000, 0).unwrap_err(), HostsError::NotFound);
    assert_eq!(get_hosts_file_count(&fs, 0).unwrap_err(), HostsError::NotFound);
}

#[test]
fn chunked_read_slices_by_record_ordinal() {
    let fs = active(FIVE);
    let chunk = stream_hosts_file_chunks(&fs, 2, 1, 0).expect("chunk expected");
    assert_eq!(chunk.len(), 2);
    assert_eq!(chunk[0].hostname, "two");
    assert_eq!(chunk[1].hostname, "three");
    let tail = stream_hosts_file_chunks(&fs, 10, 4, 0).expect("chunk expected");
    assert_eq!(tail.len(), 1);
    assert_eq!(tail[0].hostname, "five");
}

#[test]
fn query_parameters_are_read_like_the_api() {
    assert_eq!(query_param("page=2&page_size=5", "page"), Some(2));
    assert_eq!(query_param("page=2&page_size=5", "page_size"), Some(5));
    assert_eq!(query_param("page=2", "page_size"), None);
    assert_eq!(query_param("page=x&page=7", "page"), Some(7));
    assert_eq!(query_param("", "page"), None);
    assert_eq!(query_param("page", "page"), None);
    assert_eq!(query_param("page=", "page"), None);
}

#[test]
fn listing_reads_query_and_clamps() {
    let fs = active(FIVE);
    let p = get_host_entries(&fs, "page=0&page_size=3", 0).expect("read expected");
    assert_eq!(p.page_size, 1000);
    assert_eq!(p.data.len(), 5);
    let p2 = get_host_entries(&fs, "", 0).expect("read expected");
    assert_eq!(p2.page, 0);
    assert_eq!(p2.page_size, 1000);
}

#[test]
fn streaming_reads_query_and_caps() {
    let fs = active(FIVE);
    let chunk = stream_host_entries(&fs, "chunk_size=2&offset=3", 0).expect("chunk expected");
    assert_eq!(chunk.len(), 2);
    assert_eq!(chunk[0].hostname, "four");
}

#[test]
fn write_backs_up_and_renders_records() {
    let mut fs = active("10.0.0.1 one\n");
    let records = hostdni::record::parse_hosts_content(FIVE, 0);
    write_hosts_file_streaming(&mut fs, &records, "2024-01-01T00:00:00Z").expect("write expected");
    assert_eq!(fs.backup.as_deref(), Some("10.0.0.1 one\n"));
    let expected = "# HostDNI managed hosts file\n# Generated on: 2024-01-01T00:00:00Z\n\n\
                    10.0.0.1 one\n10.0.0.2 two\n10.0.0.3 three\n10.0.0.4 four\n10.0.0.5 five\n";
    assert_eq!(fs.active.as_deref(), Some(expected));
}

#[test]
fn write_refused_while_disabled() {
    let mut fs = HostsFs {
        active: None,
        disabled: Some("x y\n".to_string()),
        backup: None,
    };
    let records = Vec::new();
    assert_eq!(
        write_hosts_file_streaming(&mut fs, &records, "t").unwrap_err(),
        HostsError::Disabled
    );
    assert_eq!(fs.disabled.as_deref(), Some("x y\n"));
    assert_eq!(fs.active, None);
}

#[test]
fn written_file_reads_back_with_same_records() {
    let mut fs = active(FIVE);
    let before = hostdni::record::parse_hosts_content(FIVE, 0);
    write_hosts_file_streaming(&mut fs, &before, "t").expect("write expected");
    let after = read_hosts_file_streaming(&fs, 0, 1000, 0).expect("read expected");
    assert_eq!(after.data.len(), before.len());
    for (a, b) in after.data.iter().zip(before.iter()) {
        assert_eq!(a.ip, b.ip);
        assert_eq!(a.hostname, b.hostname);
        assert_eq!(a.comment, b.comment);
        assert_eq!(a.enabled, b.enabled);
    }
}

#[test]
fn create_appends_and_persists() {
    let mut fs = active("10.0.0.1 one\n");
    let req = CreateHostEntryRequest {
        ip: "10.0.0.9".to_string(),
        hostname: "nine".to_string(),
        comment: None,
        enabled: None,
    };
    let e = create_host_entry(&mut fs, &req, 5, "t").expect("create expected");
    assert_eq!(e.ip, "10.0.0.9");
    assert_eq!(e.hostname, "nine");
    assert!(e.enabled);
    let expected = "# HostDNI managed hosts file\n# Generated on: t\n\n10.0.0.1 one\n10.0.0.9 nine\n";
    assert_eq!(fs.active.as_deref(), Some(expected));
    assert_eq!(fs.backup.as_deref(), Some("10.0.0.1 one\n"));
}

#[test]
fn create_rejects_malformed_fields() {
    let mut fs = active("10.0.0.1 one\n");
    let req = CreateHostEntryRequest {
        ip: "not-an-ip".to_string(),
        hostname: "nine".to_string(),
        comment: None,
        enabled: None,
    };
    assert_eq!(
        create_host_entry(&mut fs, &req, 5, "t").unwrap_err(),
        HostsError::ValidationFailed
    );
    assert_eq!(fs.active.as_deref(), Some("10.0.0.1 one\n"));
    let req2 = CreateHostEntryRequest {
        ip: "10.0.0.9".to_string(),
        hostname: "bad name".to_string(),
        comment: None,
        enabled: None,
    };
    assert_eq!(
        create_host_entry(&mut fs, &req2, 5, "t").unwrap_err(),
        HostsError::ValidationFailed
    );
}

#[test]
fn disable_then_enable_restores_bytes() {
    let mut fs = active(FIVE);
    disable_hosts_file(&mut fs).expect("disable expected");
    assert_eq!(fs.active, None);
    assert_eq!(fs.disabled.as_deref(), Some(FIVE));
    enable_hosts_file(&mut fs).expect("enable expected");
    assert_eq!(fs.active.as_deref(), Some(FIVE));
    assert_eq!(fs.disabled, None);
}

#[test]
fn second_disable_is_rejected_and_changes_nothing() {
    let mut fs = active(FIVE);
    disable_hosts_file(&mut fs).expect("disable expected");
    let err = disable_hosts_file(&mut fs).unwrap_err();
    assert_eq!(err, HostsError::Disabled);
    assert_eq!(fs.active, None);
    assert_eq!(fs.disabled.as_deref(), Some(FIVE));
}

#[test]
fn toggle_errors() {
    let mut missing = HostsFs { active: None, disabled: None, backup: None };
    assert_eq!(disable_hosts_file(&mut missing).unwrap_err(), HostsError::NotFound);
    assert_eq!(enable_hosts_file(&mut missing).unwrap_err(), HostsError::NotFound);
    let mut both = HostsFs {
        active: Some("a b\n".to_string()),
        disabled: Some("c d\n".to_string()),
        backup: None,
    };
    assert_eq!(disable_hosts_file(&mut both).unwrap_err(), HostsError::Conflict);
    assert_eq!(enable_hosts_file(&mut both).unwrap_err(), HostsError::Conflict);
}

#[test]
fn status_reports_presence_and_sizes() {
    let fs = HostsFs {
        active: None,
        disabled: Some("abcd".to_string()),
        backup: Some("xy".to_string()),
    };
    let st = get_hosts_status(&fs);
    assert!(st.disabled);
    assert!(!st.hosts_exists);
    assert!(st.disabled_exists);
    assert!(st.backup_exists);
    assert_eq!(st.hosts_size, None);
    assert_eq!(st.disabled_size, Some(4));
    assert_eq!(st.backup_size, Some(2));
}

#[test]
fn plain_rewrites_stamp_content() {
    let mut fs = HostsFs { active: None, disabled: None, backup: None };
    build_and_save_hosts_file(&mut fs, "T1");
    assert_eq!(
        fs.active.as_deref(),
        Some("# Managed by HostDNI. Last updated at: T1\n")
    );
    save_hosts_file(&mut fs, "1.2.3.4 host\n", "T2");
    assert_eq!(
        fs.active.as_deref(),
        Some("# Managed by HostDNI. Last updated at: T2\n\n1.2.3.4 host\n")
    );
}

#[test]
fn error_messages_are_nonempty() {
    for e in [
        HostsError::Disabled,
        HostsError::NotFound,
        HostsError::Conflict,
        HostsError::ValidationFailed,
        HostsError::IoFailure,
        HostsError::Unauthorized,
    ] {
        assert!(!e.message().is_empty());
    }
    assert_eq!(HostsError::Unauthorized.message(), "Invalid or missing API token");
}
