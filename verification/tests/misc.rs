use aws_sso_tools::active_profile::get;
use aws_sso_tools::flow::{after_maybe_login, after_should_login, exit_code, AfterCheck};
use aws_sso_tools::home::{home_dir, home_from_env, passwd_retry_len, passwd_step, PasswdStep, PASSWD_BUFFER_START};
use aws_sso_tools::show_code::show;
use aws_sso_tools::sso::Error;
use aws_sso_tools::sibling::sibling_bin;
use aws_sso_tools::{count_digits, grace_period_from, parse_grace_period, MAX_DURATION_DIGITS};

#[test]
fn explicit_arg_takes_priority() {
    assert_eq!(get(Some("myprofile"), None, None), "myprofile");
    assert_eq!(get(Some("myprofile"), Some("env"), Some("other")), "myprofile");
}

#[test]
fn falls_back_to_default_when_no_env_vars() {
    assert_eq!(get(None, None, None), "default");
}

#[test]
fn uses_aws_profile_env_var() {
    assert_eq!(get(None, Some("from-env"), None), "from-env");
}

#[test]
fn aws_default_profile_is_fallback() {
    assert_eq!(get(None, None, Some("from-default-env")), "from-default-env");
}

#[test]
fn empty_env_var_is_skipped() {
    assert_eq!(get(None, Some(""), None), "default");
    assert_eq!(get(None, Some(""), Some("second")), "second");
    assert_eq!(get(None, Some("first"), Some("second")), "first");
}

#[test]
fn explicit_empty_profile_is_kept() {
    assert_eq!(get(Some(""), Some("env"), None), "");
}

#[test]
fn show_writes_the_code_line() {
    assert_eq!(show("ABCD-1234"), "AWS SSO code: ABCD-1234");
}

#[test]
fn grace_periods() {
    let t = parse_grace_period("2h 37min").unwrap();
    assert_eq!((t.secs, t.nanos), (9420, 0));
    let t = parse_grace_period("4.2s").unwrap();
    assert_eq!((t.secs, t.nanos), (4, 200_000_000));
    let t = parse_grace_period("0").unwrap();
    assert_eq!((t.secs, t.nanos), (0, 0));
    assert_eq!(parse_grace_period("").err().unwrap(), "invalid duration: value was empty");
    assert_eq!(parse_grace_period("  ").err().unwrap(), "invalid duration: value was empty");
    assert!(parse_grace_period("ten minutes").unwrap_err().starts_with("invalid duration: "));
    assert_eq!(grace_period_from(Err("x".to_owned())).err().unwrap(), "invalid duration: x");
    let t = grace_period_from(Ok((5, 6))).unwrap();
    assert_eq!((t.secs, t.nanos), (5, 6));
}

#[test]
fn home_directory_choice() {
    assert_eq!(home_dir(Some("/home/a"), Some("/home/b")).unwrap(), "/home/a");
    assert_eq!(home_dir(Some(""), Some("/home/b")).unwrap(), "/home/b");
    assert_eq!(home_dir(None, Some("/home/b")).unwrap(), "/home/b");
    match home_dir(None, None) {
        Err(Error::Parse(m)) => assert_eq!(m, "cannot determine home directory"),
        _ => panic!("expected an error"),
    }
    assert_eq!(home_from_env(Some("")), None);
    assert_eq!(home_from_env(Some("/x")), Some("/x".to_owned()));
}

#[test]
fn passwd_buffer_doubles_up_to_the_limit() {
    assert_eq!(passwd_retry_len(34, 34, 4096), Some(8192));
    assert_eq!(passwd_retry_len(34, 34, 32768), Some(65536));
    assert_eq!(passwd_retry_len(34, 34, 65536), None);
    assert_eq!(passwd_retry_len(0, 34, 4096), None);
}

#[test]
fn exit_statuses_are_passed_on() {
    assert_eq!(exit_code(Some(3)), 3);
    assert_eq!(exit_code(None), 1);
    assert!(matches!(after_should_login(Some(0)), AfterCheck::Login));
    assert!(matches!(after_should_login(Some(1)), AfterCheck::Exit(0)));
    assert!(matches!(after_should_login(Some(2)), AfterCheck::Exit(2)));
    assert!(matches!(after_should_login(None), AfterCheck::Exit(1)));
    assert_eq!(after_maybe_login(true, Some(0)), None);
    assert_eq!(after_maybe_login(false, Some(4)), Some(4));
    assert_eq!(after_maybe_login(false, None), Some(1));
}

#[test]
fn digit_counts_bound_the_grace_text() {
    assert_eq!(count_digits("2h 37min"), 3);
    assert_eq!(count_digits(""), 0);
    assert_eq!(count_digits("18446744073709551615s 1000000000ns"), 30);
    assert!(count_digits("18446744073709551615s 1000000000ns") > MAX_DURATION_DIGITS);
    let t = parse_grace_period("99999999999y").unwrap();
    assert_eq!(t.secs, 99_999_999_999u64 * 31_557_600);
}

#[test]
fn sibling_paths() {
    assert_eq!(sibling_bin(Some("/usr/local/bin"), "aws-sso-show-code"), "/usr/local/bin/aws-sso-show-code");
    assert_eq!(sibling_bin(Some("/"), "tool"), "/tool");
    assert_eq!(sibling_bin(Some("/opt/x/"), "tool"), "/opt/x/tool");
    assert_eq!(sibling_bin(Some(""), "tool"), "tool");
    assert_eq!(sibling_bin(Some("/opt"), "/abs/tool"), "/abs/tool");
    assert_eq!(sibling_bin(None, "tool"), "tool");
    let joined = std::path::Path::new("/usr/local/bin").join("aws-sso-show-code");
    assert_eq!(joined.to_str().unwrap(), sibling_bin(Some("/usr/local/bin"), "aws-sso-show-code"));
}

#[test]
fn passwd_steps() {
    assert_eq!(passwd_step(34, 34, 4096, true), PasswdStep::Retry(8192));
    assert_eq!(passwd_step(34, 34, 65536, true), PasswdStep::Fail);
    assert_eq!(passwd_step(0, 34, 4096, true), PasswdStep::Fail);
    assert_eq!(passwd_step(5, 34, 4096, false), PasswdStep::Fail);
    assert_eq!(passwd_step(0, 34, 4096, false), PasswdStep::Done);
    let mut len = PASSWD_BUFFER_START;
    let mut lookups = 1;
    while let PasswdStep::Retry(n) = passwd_step(34, 34, len, true) {
        len = n;
        lookups += 1;
    }
    assert_eq!((lookups, len), (5, 65536));
}
