use hostdni::auth::{generate_token, TokenState};
use hostdni::logs::LogStore;

#[test]
fn fresh_state_validates_only_current_token() {
    let st = TokenState::new("tokenA".to_string(), 100);
    assert!(st.validate_token(Some("Bearer tokenA"), 100));
    assert!(!st.validate_token(Some("Bearer tokenB"), 100));
    assert!(!st.validate_token(Some("tokenA"), 100));
    assert!(!st.validate_token(Some("Bearer"), 100));
    assert!(!st.validate_token(None, 100));
}

#[test]
fn rotation_keeps_old_token_through_grace_window() {
    let mut st = TokenState::new("tokenA".to_string(), 100);
    st.rotate("tokenB".to_string(), 200);
    // immediately after rotation both tokens validate
    assert!(st.validate_token(Some("Bearer tokenB"), 200));
    assert!(st.validate_token(Some("Bearer tokenA"), 200));
    // still inside the grace window
    assert!(st.validate_token(Some("Bearer tokenA"), 259));
    // one second past the grace window the old token is out, the new stays
    assert!(!st.validate_token(Some("Bearer tokenA"), 261));
    assert!(st.validate_token(Some("Bearer tokenB"), 261));
}

#[test]
fn second_rotation_expires_the_first_token() {
    let mut st = TokenState::new("tokenA".to_string(), 0);
    st.rotate("tokenB".to_string(), 10);
    st.rotate("tokenC".to_string(), 20);
    assert!(st.validate_token(Some("Bearer tokenC"), 20));
    assert!(st.validate_token(Some("Bearer tokenB"), 20));
    assert!(!st.validate_token(Some("Bearer tokenA"), 20));
}

#[test]
fn token_endpoint_reports_time_to_rotation() {
    let st = TokenState::new("tokenA".to_string(), 1000);
    let r = st.get_token(1000);
    assert_eq!(r.token, "tokenA");
    assert_eq!(r.expires_in, 600);
    assert_eq!(st.get_token(1250).expires_in, 350);
    assert_eq!(st.get_token(1600).expires_in, 0);
    assert_eq!(st.get_token(9999).expires_in, 0);
}

#[test]
fn generated_tokens_are_long_random_alphanumerics() {
    let a = generate_token();
    let b = generate_token();
    assert_eq!(a.len(), 32);
    assert_eq!(b.len(), 32);
    assert!(a.chars().all(|c| c.is_ascii_alphanumeric()));
    assert_ne!(a, b);
}

#[test]
fn log_store_pages_and_counts() {
    let mut store = LogStore::new();
    store.generate_sample_logs(42, "2024-01-01 00:00:00");
    assert_eq!(store.get_network_logs_count(), 5);
    assert_eq!(store.get_network_logs().len(), 5);
    let page = store.get_network_logs_page(0, 2);
    assert_eq!(page.len(), 2);
    assert_eq!(page[0].domain, "google.com");
    assert_eq!(page[1].domain, "facebook.com");
    assert_eq!(page[1].status, "Blocked");
    let last = store.get_network_logs_page(2, 2);
    assert_eq!(last.len(), 1);
    assert_eq!(last[0].domain, "github.com");
    let beyond = store.get_network_logs_page(3, 2);
    assert_eq!(beyond.len(), 0);
}

#[test]
fn sample_logs_carry_the_given_instant() {
    let mut store = LogStore::new();
    store.generate_sample_logs(907, "ts");
    let logs = store.get_network_logs();
    assert_eq!(logs[0].id, "log_907");
    assert_eq!(logs[0].timestamp, "ts");
    assert_eq!(logs[0].protocol, "TCP");
    assert_eq!(logs[0].port, Some(443));
}

#[test]
fn monitoring_toggles_and_rejects_double_start() {
    let mut store = LogStore::new();
    assert!(!store.get_monitoring_state());
    store.start_network_monitoring().expect("start expected");
    assert!(store.get_monitoring_state());
    let err = store.start_network_monitoring().unwrap_err();
    assert_eq!(err, "Network monitoring is already running");
    store.stop_network_monitoring();
    assert!(!store.get_monitoring_state());
}

#[test]
fn clearing_logs_keeps_monitoring_flag() {
    let mut store = LogStore::new();
    store.generate_sample_logs(1, "ts");
    store.start_network_monitoring().expect("start expected");
    store.clear_network_logs();
    assert_eq!(store.get_network_logs_count(), 0);
    assert!(store.get_monitoring_state());
}
