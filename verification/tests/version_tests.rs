use adguardian::version::{
    check_version, strip_v, update_outcome, update_status, version_verdict, UpdateCheck, VersionCheck, VersionOrder,
};

#[test]
fn reported_versions() {
    assert_eq!(check_version(None), VersionCheck::Missing);
    assert_eq!(check_version(Some("v0.107.29")), VersionCheck::Supported);
    assert_eq!(check_version(Some("0.107.29")), VersionCheck::Supported);
    assert_eq!(check_version(Some("v0.107.30")), VersionCheck::Supported);
    assert_eq!(check_version(Some("v0.108.0-b.52")), VersionCheck::Supported);
    assert_eq!(check_version(Some("v1.0.0")), VersionCheck::Supported);
    assert_eq!(check_version(Some("v0.107.28")), VersionCheck::TooOld);
    assert_eq!(check_version(Some("0.106.99")), VersionCheck::TooOld);
    assert_eq!(check_version(Some("v0.107.29-beta.1")), VersionCheck::TooOld);
    assert_eq!(check_version(Some("0.107.29+build5")), VersionCheck::Supported);
    assert_eq!(check_version(Some("abc")), VersionCheck::Unparseable);
    assert_eq!(check_version(Some("")), VersionCheck::Unparseable);
    assert_eq!(check_version(Some("v")), VersionCheck::Unparseable);
    assert_eq!(check_version(Some("vv0.108.0")), VersionCheck::Unparseable);
    assert_eq!(check_version(Some("0.107")), VersionCheck::Unparseable);
    assert_eq!(check_version(Some("0.107.029")), VersionCheck::Unparseable);
}

#[test]
fn leading_v_is_ignored_on_values() {
    for t in ["0.107.29", "0.1.0", "x", "1.0.0-rc.1"] {
        assert_eq!(check_version(Some(&format!("v{}", t))), check_version(Some(t)));
    }
}

#[test]
fn verdict_table() {
    assert_eq!(version_verdict(false, false), VersionCheck::Unparseable);
    assert_eq!(version_verdict(false, true), VersionCheck::Unparseable);
    assert_eq!(version_verdict(true, true), VersionCheck::TooOld);
    assert_eq!(version_verdict(true, false), VersionCheck::Supported);
    assert_eq!(strip_v("v1"), "1");
    assert_eq!(strip_v("vv1"), "v1");
    assert_eq!(strip_v("1"), "1");
    assert_eq!(strip_v(""), "");
}

#[test]
fn update_outcomes() {
    assert_eq!(
        update_status("0.5.0", Some("0.6.0")),
        UpdateCheck::Available { current: "0.5.0".to_string(), latest: "0.6.0".to_string() }
    );
    assert_eq!(update_status("0.6.0", Some("0.6.0")), UpdateCheck::UpToDate { current: "0.6.0".to_string() });
    assert_eq!(update_status("0.7.0", Some("0.6.0")), UpdateCheck::PreRelease { current: "0.7.0".to_string() });
    assert_eq!(
        update_status("1.0.0-alpha", Some("1.0.0")),
        UpdateCheck::Available { current: "1.0.0-alpha".to_string(), latest: "1.0.0".to_string() }
    );
    assert_eq!(update_status("0.6.0", None), UpdateCheck::Unknown);
    assert_eq!(update_status("0.6.0", Some("not a version")), UpdateCheck::Unknown);
    assert_eq!(update_status("0.0.0", Some("1.0.0")), UpdateCheck::Unknown);
    assert_eq!(update_status("garbage", Some("1.0.0")), UpdateCheck::Unknown);
    assert_eq!(update_status("1.0.0", Some("0.0.0")), UpdateCheck::Unknown);
}

#[test]
fn outcome_table() {
    let s = |t: &str| t.to_string();
    assert_eq!(update_outcome(s("1"), s("2"), true, false, VersionOrder::Older), UpdateCheck::Unknown);
    assert_eq!(update_outcome(s("1"), s("2"), false, true, VersionOrder::Newer), UpdateCheck::Unknown);
    assert_eq!(
        update_outcome(s("1"), s("2"), false, false, VersionOrder::Older),
        UpdateCheck::Available { current: s("1"), latest: s("2") }
    );
    assert_eq!(update_outcome(s("3"), s("2"), false, false, VersionOrder::Newer), UpdateCheck::PreRelease { current: s("3") });
    assert_eq!(update_outcome(s("2"), s("2"), false, false, VersionOrder::Same), UpdateCheck::UpToDate { current: s("2") });
}
