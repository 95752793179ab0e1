use aws_sso_tools::ini::parse_ini;
use aws_sso_tools::sso::{
    cache_key, expiry_from_rfc3339, expiry_from_token, expiry_from_token_file, section_key,
    token_file_for, token_file_name, Error, TokenFile,
};

/// What reading a token's JSON gives: its `expiresAt` text, or why there is
/// none.
fn read_token(json: &str) -> Result<String, String> {
    let v: serde_json::Value = serde_json::from_str(json).map_err(|e| e.to_string())?;
    match v.get("expiresAt") {
        Some(serde_json::Value::String(s)) => Ok(s.clone()),
        Some(_) => Err("invalid type for field `expiresAt`".to_owned()),
        None => Err("missing field `expiresAt`".to_owned()),
    }
}

fn parse_expires_at(json: &str) -> Result<aws_sso_tools::sso::UnixTime, Error> {
    match read_token(json) {
        Ok(t) => expiry_from_token(Ok(t.as_str())),
        Err(m) => expiry_from_token(Err(m.as_str())),
    }
}

#[test]
fn parse_expires_at_valid_rfc3339() {
    let json = r#"{"expiresAt": "2024-01-15T12:00:00Z"}"#;
    let result = parse_expires_at(json).unwrap();
    let secs = result.secs;
    assert_eq!(secs, 1705320000);
    assert_eq!(result.nanos, 0);
}

#[test]
fn parse_expires_at_invalid_json() {
    let result = parse_expires_at("not json");
    assert!(matches!(result, Err(Error::Parse(_))));
}

#[test]
fn parse_expires_at_missing_field() {
    let json = r#"{"someOtherField": "value"}"#;
    let result = parse_expires_at(json);
    assert!(matches!(result, Err(Error::Parse(_))));
}

#[test]
fn parse_expires_at_invalid_datetime() {
    let json = r#"{"expiresAt": "not-a-date"}"#;
    let result = parse_expires_at(json);
    assert!(matches!(result, Err(Error::Parse(_))));
}

#[test]
fn expiry_with_offset_and_fraction() {
    let t = expiry_from_token(Ok("2024-01-15T13:30:00.25+01:30")).unwrap();
    assert_eq!(t.secs, 1705320000);
    assert_eq!(t.nanos, 250_000_000);
}

#[test]
fn expiry_error_messages_name_their_stage() {
    match expiry_from_token(Err("oops")) {
        Err(Error::Parse(m)) => assert_eq!(m, "parsing token cache: oops"),
        _ => panic!("expected a parse error"),
    }
    match expiry_from_rfc3339(Err("bad time".to_owned())) {
        Err(Error::Parse(m)) => assert_eq!(m, "parsing expiry time: bad time"),
        _ => panic!("expected a parse error"),
    }
    match expiry_from_token(Ok("not-a-date")) {
        Err(Error::Parse(m)) => assert!(m.starts_with("parsing expiry time: ")),
        _ => panic!("expected a parse error"),
    }
    let t = expiry_from_rfc3339(Ok((-5, 7))).unwrap();
    assert_eq!((t.secs, t.nanos), (-5, 7));
}

#[test]
fn token_file_reads_map_to_errors() {
    assert!(matches!(expiry_from_token_file(TokenFile::Missing), Err(Error::NoToken)));
    match expiry_from_token_file(TokenFile::Unreadable("permission denied".to_owned())) {
        Err(Error::Io(m)) => assert_eq!(m, "permission denied"),
        _ => panic!("expected an io error"),
    }
    let t = expiry_from_token_file(TokenFile::Read(Ok("1970-01-01T00:01:00Z".to_owned()))).unwrap();
    assert_eq!(t.secs, 60);
}

#[test]
fn token_path_produces_40_char_hex_filename() {
    let filename = token_file_name("https://my-sso.awsapps.com/start");
    assert!(filename.ends_with(".json"));
    let stem = &filename[..filename.len() - 5];
    assert_eq!(stem.len(), 40);
    assert!(stem.chars().all(|c| c.is_ascii_hexdigit()));
}

#[test]
fn token_path_is_deterministic() {
    let a = token_file_name("my-session");
    let b = token_file_name("my-session");
    assert_eq!(a, b);
}

#[test]
fn token_path_differs_for_different_keys() {
    let a = token_file_name("session-a");
    let b = token_file_name("session-b");
    assert_ne!(a, b);
}

#[test]
fn token_file_name_is_sha1_hex() {
    assert_eq!(token_file_name("my-session"), "9e28173066ce536e277c5fb355efd9c64f398167.json");
    assert_eq!(
        token_file_name("https://my-sso.awsapps.com/start"),
        "a00fce5cb007c23a469c136160398db65edcb180.json"
    );
}

#[test]
fn section_keys() {
    assert_eq!(section_key("default"), "default");
    assert_eq!(section_key("dev"), "profile dev");
    assert_eq!(section_key(""), "profile ");
}

const CONFIG: &str = "\
[default]
sso_session = my-session
sso_start_url = https://legacy.example/start
region = us-east-1

[sso-session my-session]
sso_start_url = https://my-sso.awsapps.com/start

[profile legacy]
sso_start_url = https://legacy.example/start

[profile plain]
region = eu-west-1

[profile broken]
sso_session = nowhere

[profile nourl]
sso_session = empty

[sso-session empty]
sso_region = us-east-1
";

#[test]
fn sso_session_takes_priority_over_start_url() {
    let cfg = parse_ini(CONFIG);
    assert_eq!(cache_key(&cfg, "default").unwrap(), "my-session");
    assert_eq!(cache_key(&cfg, "legacy").unwrap(), "https://legacy.example/start");
}

#[test]
fn cache_key_errors() {
    let cfg = parse_ini(CONFIG);
    assert!(matches!(cache_key(&cfg, "missing"), Err(Error::NoProfile(ref p)) if p == "missing"));
    assert!(matches!(cache_key(&cfg, "plain"), Err(Error::NoSsoConfig(ref p)) if p == "plain"));
    assert!(matches!(cache_key(&cfg, "nourl"), Err(Error::NoSsoConfig(ref p)) if p == "nourl"));
    match cache_key(&cfg, "broken") {
        Err(Error::Parse(m)) => assert_eq!(m, "sso-session \"nowhere\" not found"),
        _ => panic!("expected a parse error"),
    }
}

#[test]
fn token_file_for_profile() {
    assert_eq!(
        token_file_for(CONFIG, "default").unwrap(),
        "9e28173066ce536e277c5fb355efd9c64f398167.json"
    );
    assert!(matches!(token_file_for(CONFIG, "nope"), Err(Error::NoProfile(_))));
}

#[test]
fn option_names_match_in_any_case() {
    let cfg = parse_ini("[profile up]\nSSO_Start_URL = https://x.example/start\n");
    assert_eq!(cache_key(&cfg, "up").unwrap(), "https://x.example/start");
}
