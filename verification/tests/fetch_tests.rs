use adguardian::fetch::{
    basic_auth_header, basic_auth_value, check_status, crate_info_url, filter_list_url, instance_address, is_success_status,
    query_log_url, status_url, AdGuardFilteringStatus, FetchError, Filter, Query, QueryResponse, Question,
};

#[test]
fn authorization_header() {
    assert_eq!(basic_auth_value("admin", "secret"), "Basic YWRtaW46c2VjcmV0");
    assert_eq!(basic_auth_value("a", ""), "Basic YTo=");
    assert_eq!(basic_auth_value("", ""), "Basic Og==");
    assert_eq!(basic_auth_value("user", "p\u{e4}ss"), "Basic dXNlcjpww6Rzcw==");
}

#[test]
fn authorization_header_length() {
    for (u, p) in [("a", "b"), ("ab", "cd"), ("admin", "hunter22")] {
        let n = u.len() + 1 + p.len();
        assert_eq!(basic_auth_value(u, p).len(), 6 + 4 * ((n + 2) / 3));
    }
}

#[test]
fn endpoint_addresses() {
    assert_eq!(filter_list_url("http://10.0.0.2:3000"), "http://10.0.0.2:3000/control/filtering/status");
    assert_eq!(query_log_url("http://10.0.0.2:3000", 100), "http://10.0.0.2:3000/control/querylog?limit=100");
    assert_eq!(query_log_url("h", 0), "h/control/querylog?limit=0");
    assert_eq!(query_log_url("h", u32::MAX), "h/control/querylog?limit=4294967295");
    assert_eq!(instance_address("https", "127.0.0.1", "3000"), "https://127.0.0.1:3000");
    assert_eq!(status_url("http", "192.168.1.1", "80"), "http://192.168.1.1:80/control/status");
    assert_eq!(crate_info_url("adguardian"), "https://crates.io/api/v1/crates/adguardian");
}

#[test]
fn reply_status() {
    assert!(is_success_status(200));
    assert!(is_success_status(204));
    assert!(is_success_status(299));
    assert!(!is_success_status(199));
    assert!(!is_success_status(300));
    assert!(!is_success_status(401));
    assert_eq!(check_status(200), Ok(()));
    assert_eq!(check_status(404), Err(FetchError::RequestFailed { status: 404 }));
    assert_eq!(check_status(500), Err(FetchError::RequestFailed { status: 500 }));
}

#[test]
fn defaults_are_empty() {
    let q = Query::default();
    assert!(!q.cached);
    assert_eq!(q.upstream, "");
    assert_eq!(q.client, "");
    assert_eq!(q.elapsed_ms, "");
    assert_eq!(q.reason, "");
    assert_eq!(q.time, "");
    assert_eq!(q.question.class, "");
    assert_eq!(q.question.name, "");
    assert_eq!(q.question.question_type, "");
    let qs = Question::default();
    assert_eq!(qs.name, "");
    assert!(QueryResponse::default().data.is_empty());
}

#[test]
fn filter_status_holds_filters() {
    let s = AdGuardFilteringStatus {
        filters: Some(vec![Filter { name: "AdGuard DNS filter".to_string(), rules_count: 42, enabled: true }]),
    };
    let f = s.filters.as_ref().unwrap();
    assert_eq!(f.len(), 1);
    assert_eq!(f[0].rules_count, 42);
    assert!(f[0].enabled);
    assert!(AdGuardFilteringStatus { filters: None }.filters.is_none());
}

#[test]
fn authorization_prefix() {
    assert_eq!(basic_auth_header("YWRtaW46c2VjcmV0"), "Basic YWRtaW46c2VjcmV0");
    assert_eq!(basic_auth_header(""), "Basic ");
}
