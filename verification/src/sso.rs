//! Where the SSO token of a profile is cached, and when it expires.
//!
//! A profile's section in `~/.aws/config` names either an `sso_session`
//! (new style, which takes priority) or an `sso_start_url` (legacy). That
//! name is the token's cache key; the token is cached in
//! `~/.aws/sso/cache/<lowercase hex SHA-1 of the key>.json`, a JSON object
//! whose `expiresAt` field is an RFC 3339 time.
use vstd::prelude::*;
use crate::ini::{ini_model, parse_ini, IniConfig, Sections};
use crate::text::{hex_digit, hex_digit_char, push_char, same_text};

verus! {

/// Why the expiry of a profile's token could not be found.
#[derive(Debug)]
pub enum Error {
    /// The profile has no section in `~/.aws/config`.
    NoProfile(String),
    /// The profile's section names neither an SSO session nor a start URL.
    NoSsoConfig(String),
    /// No cached token exists for the profile.
    NoToken,
    /// Reading a file failed.
    Io(String),
    /// A file or a value in it could not be understood.
    Parse(String),
}

/// `Error` with its texts as sequences of characters.
pub enum ErrorModel {
    NoProfile(Seq<char>),
    NoSsoConfig(Seq<char>),
    NoToken,
    Io(Seq<char>),
    Parse(Seq<char>),
}

impl View for Error {
    type V = ErrorModel;

    open spec fn view(&self) -> ErrorModel {
        match self {
            Error::NoProfile(p) => ErrorModel::NoProfile(p@),
            Error::NoSsoConfig(p) => ErrorModel::NoSsoConfig(p@),
            Error::NoToken => ErrorModel::NoToken,
            Error::Io(m) => ErrorModel::Io(m@),
            Error::Parse(m) => ErrorModel::Parse(m@),
        }
    }
}

/// A point in time: `secs` seconds and `nanos` nanoseconds after the Unix
/// epoch (`secs` may be negative; `nanos` exceeds a second only at a leap
/// second).
#[derive(Clone, Copy, Debug)]
pub struct UnixTime {
    pub secs: i64,
    pub nanos: u32,
}

impl UnixTime {
    /// Nanoseconds since the epoch.
    pub open spec fn instant(self) -> int {
        self.secs * 1_000_000_000 + self.nanos
    }
}

/// What `{:?}` makes of a string: the string quoted, with its special
/// characters escaped.
pub uninterp spec fn debug_form(s: Seq<char>) -> Seq<char>;

/// `format!("{:?}", s)`. Its contract claims only that the result depends
/// on `s` alone; the quoting and escaping rules of `Debug` for `str` are not
/// stated.
#[verifier::external_body]
pub(crate) fn debug_quoted(s: &str) -> (r: String)
    ensures
        r@ == debug_form(s@),
{
    format!("{:?}", s)
}

/// The config section of a profile.
pub open spec fn section_key_of(profile: Seq<char>) -> Seq<char> {
    if profile == "default"@ {
        "default"@
    } else {
        "profile "@ + profile
    }
}

/// `default` is the section `[default]`; every other profile `p` is
/// `[profile p]`.
pub fn section_key(profile: &str) -> (r: String)
    ensures
        r@ == section_key_of(profile@),
        profile@ != "default"@ ==> r@ == "profile "@ + profile@,
{
    if same_text(profile, "default") {
        String::from_str("default")
    } else {
        let mut s = String::from_str("profile ");
        s.append(profile);
        s
    }
}

/// The section of a profile other than `default` is `profile ` followed by
/// the profile's name exactly as given; `default` is its own section.
pub proof fn law_section_key_form(p: Seq<char>)
    ensures
        p != "default"@ ==> section_key_of(p) == "profile "@ + p && section_key_of(p).subrange(
            8,
            section_key_of(p).len() as int,
        ) == p,
        p == "default"@ ==> section_key_of(p) == "default"@,
{
    reveal_strlit("profile ");
    if p != "default"@ {
        assert(("profile "@ + p).subrange(8, ("profile "@ + p).len() as int) == p);
    }
}

/// Different profiles use different sections: no two profile names share a
/// config section.
pub proof fn law_section_key_injective(p1: Seq<char>, p2: Seq<char>)
    requires
        section_key_of(p1) == section_key_of(p2),
    ensures
        p1 == p2,
{
    reveal_strlit("profile ");
    reveal_strlit("default");
    let pre = "profile "@;
    if p1 != "default"@ && p2 != "default"@ {
        assert(p1 == (pre + p1).subrange(8, (pre + p1).len() as int));
        assert(p2 == (pre + p2).subrange(8, (pre + p2).len() as int));
    } else if p1 != "default"@ {
        assert((pre + p1)[0] == 'p');
        assert("default"@[0] == 'd');
    } else if p2 != "default"@ {
        assert((pre + p2)[0] == 'p');
        assert("default"@[0] == 'd');
    }
}

/// The token cache key of `profile` under the configuration `cfg`, or why
/// there is none.
pub open spec fn cache_key_of(cfg: Sections, profile: Seq<char>) -> Result<Seq<char>, ErrorModel> {
    let sk = section_key_of(profile);
    if !cfg.contains_key(sk) {
        Err(ErrorModel::NoProfile(profile))
    } else if cfg[sk].contains_key("sso_session"@) {
        let name = cfg[sk]["sso_session"@];
        let ss = "sso-session "@ + name;
        if !cfg.contains_key(ss) {
            Err(ErrorModel::Parse("sso-session "@ + debug_form(name) + " not found"@))
        } else if !cfg[ss].contains_key("sso_start_url"@) {
            Err(ErrorModel::NoSsoConfig(profile))
        } else {
            Ok(name)
        }
    } else if cfg[sk].contains_key("sso_start_url"@) {
        Ok(cfg[sk]["sso_start_url"@])
    } else {
        Err(ErrorModel::NoSsoConfig(profile))
    }
}

/// A profile whose section names an `sso_session` `n` uses `n` as its
/// cache key as soon as the section `sso-session n` holds an
/// `sso_start_url`, whatever else the profile's own section holds (its own
/// `sso_start_url` included).
pub proof fn law_session_key(cfg: Sections, p: Seq<char>, n: Seq<char>)
    requires
        cfg.contains_key(section_key_of(p)),
        cfg[section_key_of(p)].contains_key("sso_session"@),
        cfg[section_key_of(p)]["sso_session"@] == n,
        cfg.contains_key("sso-session "@ + n),
        cfg["sso-session "@ + n].contains_key("sso_start_url"@),
    ensures
        cache_key_of(cfg, p) == Ok::<Seq<char>, ErrorModel>(n),
{
}

/// A profile that names an `sso_session` whose section is missing, or whose
/// section holds no `sso_start_url`, has no cache key, even when its own
/// section holds an `sso_start_url`.
pub proof fn law_session_without_url(cfg: Sections, p: Seq<char>, n: Seq<char>)
    requires
        cfg.contains_key(section_key_of(p)),
        cfg[section_key_of(p)].contains_key("sso_session"@),
        cfg[section_key_of(p)]["sso_session"@] == n,
        !(cfg.contains_key("sso-session "@ + n) && cfg["sso-session "@ + n].contains_key(
            "sso_start_url"@,
        )),
    ensures
        cache_key_of(cfg, p) is Err,
        !cfg.contains_key("sso-session "@ + n) ==> cache_key_of(cfg, p) == Err::<
            Seq<char>,
            ErrorModel,
        >(ErrorModel::Parse("sso-session "@ + debug_form(n) + " not found"@)),
        cfg.contains_key("sso-session "@ + n) ==> cache_key_of(cfg, p) == Err::<
            Seq<char>,
            ErrorModel,
        >(ErrorModel::NoSsoConfig(p)),
{
}

/// A profile that names no `sso_session` uses its own `sso_start_url` as
/// its cache key, and has no SSO configuration without one.
pub proof fn law_legacy_key(cfg: Sections, p: Seq<char>)
    requires
        cfg.contains_key(section_key_of(p)),
        !cfg[section_key_of(p)].contains_key("sso_session"@),
    ensures
        cfg[section_key_of(p)].contains_key("sso_start_url"@) ==> cache_key_of(cfg, p) == Ok::<
            Seq<char>,
            ErrorModel,
        >(cfg[section_key_of(p)]["sso_start_url"@]),
        !cfg[section_key_of(p)].contains_key("sso_start_url"@) ==> cache_key_of(cfg, p) == Err::<
            Seq<char>,
            ErrorModel,
        >(ErrorModel::NoSsoConfig(p)),
{
}

/// A profile without a section in the configuration is reported as such,
/// and only such a profile is.
pub proof fn law_missing_profile(cfg: Sections, p: Seq<char>)
    ensures
        cache_key_of(cfg, p) == Err::<Seq<char>, ErrorModel>(ErrorModel::NoProfile(p))
            <==> !cfg.contains_key(section_key_of(p)),
{
}

/// A `Result` of this module with its texts as sequences of characters.
pub open spec fn text_result(r: Result<String, Error>) -> Result<Seq<char>, ErrorModel> {
    match r {
        Ok(s) => Ok(s@),
        Err(e) => Err(e@),
    }
}

/// The token cache key of `profile`: the profile's `sso_session` when it
/// names one (which must then have a section with an `sso_start_url`), else
/// its `sso_start_url`.
pub fn cache_key(config: &IniConfig, profile: &str) -> (r: Result<String, Error>)
    ensures
        text_result(r) == cache_key_of(config@, profile@),
{
    proof {
        reveal_strlit("sso_session");
        reveal_strlit("sso_start_url");
        reveal_strlit("sso-session ");
        reveal_strlit(" not found");
    }
    let sk = section_key(profile);
    if !config.has_section(sk.as_str()) {
        return Err(Error::NoProfile(String::from_str(profile)));
    }
    match config.get(sk.as_str(), "sso_session") {
        Some(name) => {
            let mut ss = String::from_str("sso-session ");
            ss.append(name);
            if !config.has_section(ss.as_str()) {
                let mut msg = String::from_str("sso-session ");
                let quoted = debug_quoted(name);
                msg.append(quoted.as_str());
                msg.append(" not found");
                return Err(Error::Parse(msg));
            }
            match config.get(ss.as_str(), "sso_start_url") {
                Some(_) => Ok(String::from_str(name)),
                None => Err(Error::NoSsoConfig(String::from_str(profile))),
            }
        },
        None => match config.get(sk.as_str(), "sso_start_url") {
            Some(url) => Ok(String::from_str(url)),
            None => Err(Error::NoSsoConfig(String::from_str(profile))),
        },
    }
}

/// The SHA-1 digest of a byte sequence.
pub uninterp spec fn sha1_of(data: Seq<u8>) -> Seq<u8>;

/// `sha1::Sha1::digest`: the digest of `data`, which is 20 bytes long.
#[verifier::external_body]
fn sha1_digest(data: &[u8]) -> (r: Vec<u8>)
    ensures
        r@ == sha1_of(data@),
        r@.len() == 20,
{
    <sha1::Sha1 as sha1::Digest>::digest(data).to_vec()
}

/// Each byte as two lowercase hexadecimal digits, as `{:02x}` writes it.
pub open spec fn hex_lower(b: Seq<u8>) -> Seq<char>
    decreases b.len(),
{
    if b.len() == 0 {
        Seq::empty()
    } else {
        hex_lower(b.drop_last()) + seq![
            hex_digit((b.last() / 16) as int),
            hex_digit((b.last() % 16) as int),
        ]
    }
}

/// The name of the file that caches the token for `key`.
pub open spec fn token_file_name_of(key: Seq<char>) -> Seq<char> {
    hex_lower(sha1_of(vstd::utf8::encode_utf8(key))) + ".json"@
}

/// The name of the token cache file for `cache_key`, inside
/// `~/.aws/sso/cache/`: the SHA-1 of the key's UTF-8 bytes in lowercase hex,
/// and `.json`.
pub fn token_file_name(cache_key: &str) -> (r: String)
    ensures
        r@ == token_file_name_of(cache_key@),
        r@.len() == 45,
        forall|i: int| 0 <= i < 40 ==> is_lower_hex(#[trigger] r@[i]),
        r@.subrange(40, 45) == ".json"@,
{
    let digest = sha1_digest(cache_key.as_bytes());
    let mut out = String::new();
    let mut i: usize = 0;
    while i < digest.len()
        invariant
            i <= digest.len(),
            out@ == hex_lower(digest@.take(i as int)),
        decreases digest.len() - i,
    {
        let b = digest[i];
        assert(digest@.take(i + 1).drop_last() == digest@.take(i as int));
        push_char(&mut out, hex_digit_char(b / 16));
        push_char(&mut out, hex_digit_char(b % 16));
        i = i + 1;
    }
    assert(digest@.take(digest.len() as int) == digest@);
    proof {
        lemma_hex_lower_shape(digest@);
    }
    let ghost hex = out@;
    out.append(".json");
    proof {
        reveal_strlit(".json");
        assert(out@.subrange(40, 45) == ".json"@);
        assert forall|i: int| 0 <= i < 40 implies is_lower_hex(#[trigger] out@[i]) by {
            assert(out@[i] == hex[i]);
        }
    }
    out
}

/// A lowercase hexadecimal digit.
pub open spec fn is_lower_hex(c: char) -> bool {
    ('0' <= c && c <= '9') || ('a' <= c && c <= 'f')
}

proof fn lemma_hex_digit(n: int)
    requires
        0 <= n < 16,
    ensures
        is_lower_hex(hex_digit(n)),
        forall|m: int| 0 <= m < 16 && hex_digit(m) == hex_digit(n) ==> m == n,
{
}

proof fn lemma_hex_lower_shape(b: Seq<u8>)
    ensures
        hex_lower(b).len() == 2 * b.len(),
        forall|i: int| 0 <= i < hex_lower(b).len() ==> is_lower_hex(#[trigger] hex_lower(b)[i]),
    decreases b.len(),
{
    if b.len() > 0 {
        lemma_hex_lower_shape(b.drop_last());
        lemma_hex_digit((b.last() / 16) as int);
        lemma_hex_digit((b.last() % 16) as int);
        let prev = hex_lower(b.drop_last());
        assert forall|i: int| 0 <= i < hex_lower(b).len() implies is_lower_hex(
            #[trigger] hex_lower(b)[i],
        ) by {
            if i < prev.len() {
                assert(hex_lower(b)[i] == prev[i]);
            }
        }
    }
}

proof fn lemma_hex_lower_injective(a: Seq<u8>, b: Seq<u8>)
    requires
        hex_lower(a) == hex_lower(b),
    ensures
        a == b,
    decreases a.len(),
{
    lemma_hex_lower_shape(a);
    lemma_hex_lower_shape(b);
    if a.len() > 0 {
        let ha = hex_lower(a);
        let hb = hex_lower(b);
        let n = ha.len();
        lemma_hex_digit((a.last() / 16) as int);
        lemma_hex_digit((a.last() % 16) as int);
        assert(ha[n - 2] == hb[n - 2]);
        assert(ha[n - 1] == hb[n - 1]);
        assert(a.last() / 16 == b.last() / 16);
        assert(a.last() % 16 == b.last() % 16);
        assert(hex_lower(a.drop_last()) == ha.subrange(0, n - 2));
        assert(hex_lower(b.drop_last()) == hb.subrange(0, n - 2));
        lemma_hex_lower_injective(a.drop_last(), b.drop_last());
        assert(a == a.drop_last().push(a.last()));
        assert(b == b.drop_last().push(b.last()));
    }
}

/// Two cache keys share a token file only when the SHA-1 digests of their
/// UTF-8 bytes are equal: the file name determines the digest.
pub proof fn law_token_file_determines_digest(k1: Seq<char>, k2: Seq<char>)
    requires
        token_file_name_of(k1) == token_file_name_of(k2),
    ensures
        sha1_of(vstd::utf8::encode_utf8(k1)) == sha1_of(vstd::utf8::encode_utf8(k2)),
{
    let h1 = hex_lower(sha1_of(vstd::utf8::encode_utf8(k1)));
    let h2 = hex_lower(sha1_of(vstd::utf8::encode_utf8(k2)));
    let j = ".json"@;
    assert(h1 == (h1 + j).subrange(0, h1.len() as int));
    assert(h2 == (h2 + j).subrange(0, h2.len() as int));
    assert(h1.len() == h2.len());
    lemma_hex_lower_injective(
        sha1_of(vstd::utf8::encode_utf8(k1)),
        sha1_of(vstd::utf8::encode_utf8(k2)),
    );
}

/// The result of reading an RFC 3339 date-time: the instant as seconds and
/// nanoseconds after the epoch, or the reason the text is not one.
pub uninterp spec fn rfc3339_instant(s: Seq<char>) -> Result<(i64, u32), Seq<char>>;

/// `chrono::DateTime::parse_from_rfc3339`, with the instant given as
/// `timestamp()` and `timestamp_subsec_nanos()` and the error as its
/// `Display` text. The contract claims only that the result depends on `s`
/// alone; which texts are accepted and what they mean is not stated.
#[verifier::external_body]
fn parse_rfc3339(s: &str) -> (r: Result<(i64, u32), String>)
    ensures
        match r {
            Ok(t) => rfc3339_instant(s@) == Ok::<(i64, u32), Seq<char>>(t),
            Err(e) => rfc3339_instant(s@) == Err::<(i64, u32), Seq<char>>(e@),
        },
{
    match chrono::DateTime::parse_from_rfc3339(s) {
        Ok(dt) => Ok((dt.timestamp(), dt.timestamp_subsec_nanos())),
        Err(e) => Err(e.to_string()),
    }
}

/// The expiry that a read RFC 3339 time gives.
pub open spec fn expiry_of(parsed: Result<(i64, u32), Seq<char>>) -> Result<UnixTime, ErrorModel> {
    match parsed {
        Ok(t) => Ok(UnixTime { secs: t.0, nanos: t.1 }),
        Err(m) => Err(ErrorModel::Parse("parsing expiry time: "@ + m)),
    }
}

/// An expiry time as a `Result` with its error as a model.
pub open spec fn time_result(r: Result<UnixTime, Error>) -> Result<UnixTime, ErrorModel> {
    match r {
        Ok(t) => Ok(t),
        Err(e) => Err(e@),
    }
}

/// Turns the outcome of reading the `expiresAt` time into the token's expiry.
pub fn expiry_from_rfc3339(parsed: Result<(i64, u32), String>) -> (r: Result<UnixTime, Error>)
    ensures
        time_result(r) == expiry_of(
            match parsed {
                Ok(t) => Ok(t),
                Err(m) => Err(m@),
            },
        ),
{
    match parsed {
        Ok((secs, nanos)) => Ok(UnixTime { secs, nanos }),
        Err(m) => {
            let mut msg = String::from_str("parsing expiry time: ");
            msg.append(m.as_str());
            Err(Error::Parse(msg))
        },
    }
}

/// The expiry that a token gives, from the outcome of reading its JSON: the
/// `expiresAt` text, or why the JSON did not hold one.
pub open spec fn token_expiry_of(token: Result<Seq<char>, Seq<char>>) -> Result<UnixTime, ErrorModel> {
    match token {
        Ok(t) => expiry_of(rfc3339_instant(t)),
        Err(m) => Err(ErrorModel::Parse("parsing token cache: "@ + m)),
    }
}

/// The expiry of a cached token, given what reading the token's JSON gave:
/// its `expiresAt` text, or the reason it could not be read.
pub fn expiry_from_token(token: Result<&str, &str>) -> (r: Result<UnixTime, Error>)
    ensures
        time_result(r) == token_expiry_of(
            match token {
                Ok(t) => Ok(t@),
                Err(m) => Err(m@),
            },
        ),
{
    match token {
        Ok(t) => expiry_from_rfc3339(parse_rfc3339(t)),
        Err(m) => {
            let mut msg = String::from_str("parsing token cache: ");
            msg.append(m);
            Err(Error::Parse(msg))
        },
    }
}

/// The token file that a configuration text gives for `profile`.
pub open spec fn token_file_for_of(config: Seq<char>, profile: Seq<char>) -> Result<Seq<char>, ErrorModel> {
    match cache_key_of(ini_model(config), profile) {
        Ok(k) => Ok(token_file_name_of(k)),
        Err(e) => Err(e),
    }
}

/// The name of the file in `~/.aws/sso/cache/` that caches the token of
/// `profile`, given the text of `~/.aws/config`.
pub fn token_file_for(config: &str, profile: &str) -> (r: Result<String, Error>)
    ensures
        text_result(r) == token_file_for_of(config@, profile@),
{
    let cfg = parse_ini(config);
    match cache_key(&cfg, profile) {
        Ok(k) => Ok(token_file_name(k.as_str())),
        Err(e) => Err(e),
    }
}

/// What reading a token cache file gave.
#[derive(Debug)]
pub enum TokenFile {
    /// The file does not exist.
    Missing,
    /// The file exists but could not be read; the message says why.
    Unreadable(String),
    /// The file was read as JSON: its `expiresAt` text, or why the JSON did
    /// not hold one.
    Read(Result<String, String>),
}

/// The expiry that a token cache file gives.
pub open spec fn token_file_expiry_of(file: TokenFile) -> Result<UnixTime, ErrorModel> {
    match file {
        TokenFile::Missing => Err(ErrorModel::NoToken),
        TokenFile::Unreadable(m) => Err(ErrorModel::Io(m@)),
        TokenFile::Read(Ok(t)) => token_expiry_of(Ok(t@)),
        TokenFile::Read(Err(m)) => token_expiry_of(Err(m@)),
    }
}

/// The expiry of the token, from what reading its cache file gave: a missing
/// file means there is no token.
pub fn expiry_from_token_file(file: TokenFile) -> (r: Result<UnixTime, Error>)
    ensures
        time_result(r) == token_file_expiry_of(file),
{
    match file {
        TokenFile::Missing => Err(Error::NoToken),
        TokenFile::Unreadable(m) => Err(Error::Io(m)),
        TokenFile::Read(Ok(t)) => expiry_from_token(Ok(t.as_str())),
        TokenFile::Read(Err(m)) => expiry_from_token(Err(m.as_str())),
    }
}

} // verus!
