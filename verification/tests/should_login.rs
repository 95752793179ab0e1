use aws_sso_tools::should_login::{decide, exit_status, fmt_duration, report};
use aws_sso_tools::sso::{Error, UnixTime};

fn secs(n: u64) -> u64 {
    n
}

#[test]
fn fmt_duration_seconds() {
    assert_eq!(fmt_duration(secs(0)), "0s");
    assert_eq!(fmt_duration(secs(1)), "1s");
    assert_eq!(fmt_duration(secs(59)), "59s");
}

#[test]
fn fmt_duration_minutes_boundary() {
    assert_eq!(fmt_duration(secs(60)), "1m");
    assert_eq!(fmt_duration(secs(61)), "1m 1s");
    assert_eq!(fmt_duration(secs(90)), "1m 30s");
}

#[test]
fn fmt_duration_minutes_exact() {
    assert_eq!(fmt_duration(secs(120)), "2m");
    assert_eq!(fmt_duration(secs(3599)), "59m 59s");
}

#[test]
fn fmt_duration_hours_boundary() {
    assert_eq!(fmt_duration(secs(3600)), "1h");
    assert_eq!(fmt_duration(secs(3660)), "1h 1m");
    assert_eq!(fmt_duration(secs(7200)), "2h");
    assert_eq!(fmt_duration(secs(7261)), "2h 1m");
}

#[test]
fn fmt_duration_hours_no_minutes() {
    assert_eq!(fmt_duration(secs(3600 * 8)), "8h");
}

#[test]
fn fmt_duration_large_values() {
    assert_eq!(fmt_duration(86400 * 3 + 59), "72h");
    assert_eq!(fmt_duration(u64::MAX), "5124095576030431h");
    assert_eq!(fmt_duration(3600 + 59), "1h");
}

fn at(secs: i64, nanos: u32) -> UnixTime {
    UnixTime { secs, nanos }
}

#[test]
fn expired_token_needs_login_whatever_the_grace() {
    let d = decide(Ok(at(100, 0)), at(100, 1), 0, "dev").unwrap();
    assert!(d.should_login);
    assert_eq!(d.reason, "SSO token has expired");
    let d = decide(Ok(at(100, 0)), at(200, 0), 1000, "dev").unwrap();
    assert!(d.should_login);
}

#[test]
fn token_within_grace_needs_login() {
    let d = decide(Ok(at(1000, 500)), at(940, 0), 61, "dev").unwrap();
    assert!(d.should_login);
    assert_eq!(d.reason, "SSO token expires in 1m (grace period: 1m 1s)");
}

#[test]
fn token_outside_grace_is_valid() {
    let d = decide(Ok(at(8200, 0)), at(1000, 0), 60, "dev").unwrap();
    assert!(!d.should_login);
    assert_eq!(d.reason, "SSO token valid for 2h");
    assert_eq!(report(&d), "should not login: SSO token valid for 2h");
    let r = Ok(d);
    assert_eq!(exit_status(&r), 1);
}

#[test]
fn token_expiring_now_is_valid_without_grace() {
    let d = decide(Ok(at(50, 7)), at(50, 7), 0, "dev").unwrap();
    assert!(!d.should_login);
    assert_eq!(d.reason, "SSO token valid for 0s");
}

#[test]
fn longer_grace_keeps_a_needed_login() {
    for grace in [10u64, 11, 100, 100000] {
        let d = decide(Ok(at(1009, 0)), at(1000, 0), grace, "p").unwrap();
        assert!(d.should_login);
    }
    let d = decide(Ok(at(1009, 0)), at(1000, 0), 9, "p").unwrap();
    assert!(!d.should_login);
}

#[test]
fn missing_profile_and_config_need_no_login() {
    let d = decide(Err(Error::NoProfile("dev".to_owned())), at(0, 0), 0, "dev").unwrap();
    assert!(!d.should_login);
    assert_eq!(d.reason, "profile \"dev\" not found in ~/.aws/config");
    let d = decide(Err(Error::NoSsoConfig("dev".to_owned())), at(0, 0), 0, "dev").unwrap();
    assert!(!d.should_login);
    assert_eq!(d.reason, "profile \"dev\" has no SSO configuration");
}

#[test]
fn missing_token_needs_login() {
    let d = decide(Err(Error::NoToken), at(0, 0), 0, "dev").unwrap();
    assert!(d.should_login);
    assert_eq!(d.reason, "no SSO token cache found");
    assert_eq!(report(&d), "should login: no SSO token cache found");
    assert_eq!(exit_status(&Ok(d)), 0);
}

#[test]
fn other_errors_are_handed_back() {
    let r = decide(Err(Error::Parse("bad".to_owned())), at(0, 0), 0, "dev");
    assert!(matches!(r, Err(Error::Parse(ref m)) if m == "bad"));
    assert_eq!(exit_status(&r), 2);
    let r = decide(Err(Error::Io("denied".to_owned())), at(0, 0), 0, "dev");
    assert!(matches!(r, Err(Error::Io(_))));
}

#[test]
fn profile_name_is_quoted_with_escapes() {
    let d = decide(Err(Error::NoProfile("a\"b".to_owned())), at(0, 0), 0, "a\"b").unwrap();
    assert_eq!(d.reason, "profile \"a\\\"b\" not found in ~/.aws/config");
}
