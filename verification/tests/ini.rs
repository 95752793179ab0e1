use aws_sso_tools::ini::parse_ini;

#[test]
fn parse_ini_basic_section_and_key() {
    let ini = "[default]\nregion = us-east-1\n";
    let result = parse_ini(ini);
    assert_eq!(result.get("default", "region"), Some("us-east-1"));
}

#[test]
fn parse_ini_multiple_sections() {
    let ini = "[default]\nregion = us-east-1\n\n[profile dev]\nregion = eu-west-1\n";
    let result = parse_ini(ini);
    assert_eq!(result.get("default", "region"), Some("us-east-1"));
    assert_eq!(result.get("profile dev", "region"), Some("eu-west-1"));
}

#[test]
fn parse_ini_trims_whitespace() {
    let ini = "[default]\n  region  =  us-east-1  \n";
    let result = parse_ini(ini);
    assert_eq!(result.get("default", "region"), Some("us-east-1"));
}

#[test]
fn parse_ini_skips_hash_comments() {
    let ini = "# this is a comment\n[default]\nregion = us-east-1\n";
    let result = parse_ini(ini);
    assert!(!result.has_section("# this is a comment"));
    assert_eq!(result.get("default", "region"), Some("us-east-1"));
}

#[test]
fn parse_ini_skips_semicolon_comments() {
    let ini = "; this is a comment\n[default]\nregion = us-east-1\n";
    let result = parse_ini(ini);
    assert_eq!(result.get("default", "region"), Some("us-east-1"));
}

#[test]
fn parse_ini_aws_profile_format() {
    let ini = "\
[default]
sso_session = my-session
region = us-east-1

[sso-session my-session]
sso_start_url = https://my-sso.awsapps.com/start
sso_region = us-east-1
";
    let result = parse_ini(ini);
    assert_eq!(result.get("default", "sso_session"), Some("my-session"));
    assert_eq!(
        result.get("sso-session my-session", "sso_start_url"),
        Some("https://my-sso.awsapps.com/start")
    );
}

#[test]
fn parse_ini_value_with_equals_sign() {
    let ini = "[default]\nurl = https://example.com/path?foo=bar\n";
    let result = parse_ini(ini);
    assert_eq!(result.get("default", "url"), Some("https://example.com/path?foo=bar"));
}

#[test]
fn parse_ini_later_value_replaces_earlier() {
    let ini = "[a]\nk = 1\n[b]\nk = 2\n[a]\nk = 3\n";
    let result = parse_ini(ini);
    assert_eq!(result.get("a", "k"), Some("3"));
    assert_eq!(result.get("b", "k"), Some("2"));
}

#[test]
fn parse_ini_pairs_before_any_header_go_to_unnamed_section() {
    let result = parse_ini("k = v\n[s]\n");
    assert_eq!(result.get("", "k"), Some("v"));
    assert!(!result.has_section("s"));
}

#[test]
fn parse_ini_header_name_is_trimmed_and_crlf_handled() {
    let result = parse_ini("[  profile x  ]\r\nkey=value\r\n");
    assert_eq!(result.get("profile x", "key"), Some("value"));
}

#[test]
fn parse_ini_lines_without_equals_are_ignored() {
    let result = parse_ini("[s]\njust words\n[\nk=v\n");
    assert_eq!(result.get("s", "k"), Some("v"));
    assert!(!result.has_section("["));
}

#[test]
fn parse_ini_comment_line_between_lines_changes_nothing() {
    let with = parse_ini("[s]\n# note\nk = v\n   ; another\n\nx = y\n");
    assert_eq!(with.get("s", "k"), Some("v"));
    assert_eq!(with.get("s", "x"), Some("y"));
    assert_eq!(with.get("s", "# note"), None);
}

#[test]
fn parse_ini_unicode_whitespace_is_trimmed() {
    let result = parse_ini("[s]\n\u{3000}k\u{a0}=\u{2003}v\u{85}\n");
    assert_eq!(result.get("s", "k"), Some("v"));
}

#[test]
fn parse_ini_lowercases_option_names_only() {
    let result = parse_ini("[Default]\nRegion = US-East-1\nSSO_Session = Mine\n");
    assert_eq!(result.get("Default", "region"), Some("US-East-1"));
    assert_eq!(result.get("Default", "sso_session"), Some("Mine"));
    assert_eq!(result.get("Default", "Region"), None);
    assert!(!result.has_section("default"));
}

#[test]
fn parse_ini_header_alone_makes_no_section() {
    let result = parse_ini("[empty]\n");
    assert!(!result.has_section("empty"));
}

#[test]
fn parse_ini_unicode_keys_are_lowercased() {
    let result = parse_ini("[s]\nÄRGER = 1\n");
    assert_eq!(result.get("s", "ärger"), Some("1"));
}
