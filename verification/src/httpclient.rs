//! A configurable HTTP client for calling Grafana or other services.
//!
//! [`new_client`] builds a [`reqwest::Client`] from a set of [`Options`]
//! (timeouts, TLS, default headers and basic authentication). The default
//! headers are checked here, and the first one that HTTP does not accept is
//! reported by name.
use std::time::Duration;
use vstd::prelude::*;
use vstd::string::StringSliceAdditionalSpecFns;

use crate::backend::mtls::{base64_encoding, base64_padded};

verus! {

#[verifier::external_type_specification]
#[verifier::external_body]
pub struct ExClient(reqwest::Client);

#[verifier::external_type_specification]
#[verifier::external_body]
pub struct ExClientBuilder(reqwest::ClientBuilder);

#[verifier::external_type_specification]
#[verifier::external_body]
pub struct ExCertificate(reqwest::Certificate);

#[verifier::external_type_specification]
#[verifier::external_body]
pub struct ExReqwestError(reqwest::Error);

#[verifier::external_type_specification]
#[verifier::external_body]
pub struct ExHeaderName(http::HeaderName);

#[verifier::external_type_specification]
#[verifier::external_body]
pub struct ExHeaderValue(http::HeaderValue);

#[verifier::external_type_specification]
#[verifier::external_body]
pub struct ExInvalidHeaderName(http::header::InvalidHeaderName);

#[verifier::external_type_specification]
#[verifier::external_body]
pub struct ExInvalidHeaderValue(http::header::InvalidHeaderValue);

#[verifier::external_type_specification]
#[verifier::external_body]
#[verifier::reject_recursive_types(T)]
pub struct ExHeaderMap<T>(http::HeaderMap<T>);

#[verifier::external_type_specification]
#[verifier::external_body]
pub struct ExMaxSizeReached(http::header::MaxSizeReached);

/// Timeout and connection-pool options.
#[derive(Debug)]
pub struct TimeoutOptions {
    /// Total request timeout.
    pub timeout: Duration,
    /// Timeout for establishing a connection.
    pub connect_timeout: Duration,
    /// How long an idle connection is kept in the pool.
    pub idle_timeout: Duration,
    /// Maximum idle connections kept per host (`0` = unlimited).
    pub max_idle_per_host: usize,
}

impl Clone for TimeoutOptions {
    fn clone(&self) -> (t: Self)
        ensures
            t == *self,
    {
        TimeoutOptions {
            timeout: self.timeout,
            connect_timeout: self.connect_timeout,
            idle_timeout: self.idle_timeout,
            max_idle_per_host: self.max_idle_per_host,
        }
    }
}

/// The duration of `secs` whole seconds, as `Duration::from_secs` gives it.
pub uninterp spec fn seconds(secs: u64) -> Duration;

/// Calls `Duration::from_secs` (std). Claimed: the duration depends on
/// `secs` alone, which is named by `seconds`.
#[verifier::external_body]
fn duration_from_secs(secs: u64) -> (d: Duration)
    ensures
        d == seconds(secs),
{
    Duration::from_secs(secs)
}

impl Default for TimeoutOptions {
    /// A 30 s request timeout, a 10 s connect timeout, a 90 s idle timeout
    /// and at most 100 idle connections per host.
    fn default() -> (t: Self)
        ensures
            t.timeout == seconds(30),
            t.connect_timeout == seconds(10),
            t.idle_timeout == seconds(90),
            t.max_idle_per_host == 100,
    {
        TimeoutOptions {
            timeout: duration_from_secs(30),
            connect_timeout: duration_from_secs(10),
            idle_timeout: duration_from_secs(90),
            max_idle_per_host: 100,
        }
    }
}

/// HTTP basic authentication credentials.
#[derive(Clone, Debug)]
pub struct BasicAuth {
    /// The username.
    pub user: String,
    /// The password.
    pub password: String,
}

impl BasicAuth {
    /// Create basic authentication credentials.
    pub fn new(user: &str, password: &str) -> (a: Self)
        ensures
            a.user@ == user@,
            a.password@ == password@,
    {
        BasicAuth { user: user.to_owned(), password: password.to_owned() }
    }
}

/// TLS options.
#[derive(Clone, Debug, Default)]
pub struct TlsOptions {
    /// Do not verify the server's certificate. **Insecure** — for development only.
    pub insecure_skip_verify: bool,
    /// An additional CA certificate (PEM) to trust.
    pub ca_certificate: Option<String>,
}

/// Options for building an HTTP client.
#[derive(Clone, Debug)]
pub struct Options {
    /// Timeout and connection-pool options.
    pub timeouts: TimeoutOptions,
    /// Basic authentication applied to every request, if set.
    pub basic_auth: Option<BasicAuth>,
    /// TLS options.
    pub tls: TlsOptions,
    /// Default headers added to every request.
    pub headers: Vec<(String, String)>,
}

impl Default for Options {
    /// Default timeouts, no authentication, default TLS and no headers.
    fn default() -> (o: Self)
        ensures
            o.timeouts.timeout == seconds(30),
            o.timeouts.connect_timeout == seconds(10),
            o.timeouts.idle_timeout == seconds(90),
            o.timeouts.max_idle_per_host == 100,
            o.basic_auth is None,
            !o.tls.insecure_skip_verify,
            o.tls.ca_certificate is None,
            o.headers@.len() == 0,
    {
        Options {
            timeouts: TimeoutOptions::default(),
            basic_auth: None,
            tls: TlsOptions { insecure_skip_verify: false, ca_certificate: None },
            headers: Vec::new(),
        }
    }
}

/// Errors that can occur while building an HTTP client.
#[derive(Debug)]
pub enum ClientError {
    /// A default header name or value was invalid.
    Header(String),
    /// The configured client could not be built (e.g. an invalid CA certificate).
    Build(reqwest::Error),
    /// The default headers do not fit in a header map.
    TooManyHeaders,
}

/// A character that may appear in an HTTP header name (an RFC 9110 token
/// character).
pub open spec fn is_token_char(c: char) -> bool {
    ||| 'a' <= c <= 'z'
    ||| 'A' <= c <= 'Z'
    ||| '0' <= c <= '9'
    ||| c == '!' || c == '#' || c == '$' || c == '%' || c == '&' || c == '\''
    ||| c == '*' || c == '+' || c == '-' || c == '.' || c == '^' || c == '_'
    ||| c == '`' || c == '|' || c == '~'
}

/// A string that `http` accepts as a header name: between 1 and 65535 token
/// characters.
pub open spec fn valid_header_name(s: Seq<char>) -> bool {
    &&& 0 < s.len() <= 65535
    &&& forall|i: int| 0 <= i < s.len() ==> is_token_char(#[trigger] s[i])
}

/// A character that may appear in an HTTP header value: a tab, or anything
/// but an ASCII control character.
pub open spec fn is_header_value_char(c: char) -> bool {
    c == '\t' || (c as int >= 32 && c as int != 127)
}

/// A string that `http` accepts as a header value.
pub open spec fn valid_header_value(s: Seq<char>) -> bool {
    forall|i: int| 0 <= i < s.len() ==> is_header_value_char(#[trigger] s[i])
}

/// A character with ASCII upper case letters turned to lower case.
pub open spec fn ascii_lower(c: char) -> char {
    if 'A' <= c <= 'Z' {
        ((c as int) + 32) as char
    } else {
        c
    }
}

/// A string with ASCII upper case letters turned to lower case, as `http`
/// writes a header name.
pub open spec fn ascii_lowercase(s: Seq<char>) -> Seq<char> {
    s.map_values(|c: char| ascii_lower(c))
}

/// The error text of `http` for a header name it does not accept.
pub open spec fn invalid_name_text() -> Seq<char> {
    "invalid HTTP header name"@
}

/// The error text of `http` for a header value it does not accept.
pub open spec fn invalid_value_text() -> Seq<char> {
    "failed to parse header value"@
}

/// The message reported for the first default header that HTTP does not
/// accept, if there is one: the header's name and why it was refused.
pub open spec fn header_problem(headers: Seq<(String, String)>) -> Option<Seq<char>>
    decreases headers.len(),
{
    if headers.len() == 0 {
        None
    } else if !valid_header_name(headers[0].0@) {
        Some(headers[0].0@ + ": "@ + invalid_name_text())
    } else if !valid_header_value(headers[0].1@) {
        Some(ascii_lowercase(headers[0].0@) + ": "@ + invalid_value_text())
    } else {
        header_problem(headers.drop_first())
    }
}

/// The contents of a header map: each header name (in lower case, as
/// `http` keeps it) with the text of its value and whether the value is
/// marked sensitive.
pub uninterp spec fn header_map_contents(m: http::HeaderMap) -> Map<Seq<char>, (Seq<char>, bool)>;

/// Calls `HeaderMap::try_with_capacity` (http). Claimed: it fails exactly
/// when the capacity exceeds what a header map can hold (24576: with a third
/// added, it must fit a table of 32768 slots), and otherwise gives an empty
/// map.
#[verifier::external_body]
fn header_map_with_capacity(capacity: usize) -> (r: Result<
    http::HeaderMap,
    http::header::MaxSizeReached,
>)
    ensures
        r is Ok <==> capacity <= 24576,
        r matches Ok(m) ==> header_map_contents(m).dom() == Set::<Seq<char>>::empty(),
{
    http::HeaderMap::try_with_capacity(capacity)
}

/// Calls `HeaderMap::try_insert` (http) with `name` as a `HeaderName`
/// (`HeaderName::from_bytes`) and `value` as a `HeaderValue`
/// (`HeaderValue::from_str`, then `set_sensitive`). Claimed: on success the
/// map holds, under the lower-case name, this value and sensitivity alone,
/// and every other name as before; a map of fewer than 6553 names never
/// fails (only a map of thousands of names can outgrow its largest table).
/// `requires` admits only a name and a value that `http` accepts, so both
/// conversions succeed.
#[verifier::external_body]
fn header_map_insert(map: &mut http::HeaderMap, name: &str, value: &str, sensitive: bool) -> (r:
    Result<(), http::header::MaxSizeReached>)
    requires
        valid_header_name(name@),
        valid_header_value(value@),
    ensures
        r is Ok ==> header_map_contents(*final(map)) == header_map_contents(*old(map)).insert(
            ascii_lowercase(name@),
            (value@, sensitive),
        ),
        header_map_contents(*old(map)).dom().finite() && header_map_contents(
            *old(map),
        ).dom().len() < 6553 ==> r is Ok,
{
    let name = http::HeaderName::from_bytes(name.as_bytes()).expect("a valid header name");
    let mut value = http::HeaderValue::from_str(value).expect("a valid header value");
    value.set_sensitive(sensitive);
    map.try_insert(name, value).map(|_previous| ())
}

/// Calls `HeaderName::from_bytes` (http) on the bytes of `name`. Claimed: it
/// succeeds exactly for between 1 and 65535 token characters.
#[verifier::external_body]
fn header_name_from_str(name: &str) -> (r: Result<
    http::HeaderName,
    http::header::InvalidHeaderName,
>)
    ensures
        r is Ok <==> valid_header_name(name@),
{
    http::HeaderName::from_bytes(name.as_bytes())
}

/// Calls `HeaderValue::from_str` (http). Claimed: it succeeds exactly when no
/// character is an ASCII control character other than a tab.
#[verifier::external_body]
fn header_value_from_str(value: &str) -> (r: Result<
    http::HeaderValue,
    http::header::InvalidHeaderValue,
>)
    ensures
        r is Ok <==> valid_header_value(value@),
{
    http::HeaderValue::from_str(value)
}

/// Calls the `Display` impl of `InvalidHeaderName` (http). Claimed: the text
/// is "invalid HTTP header name".
#[verifier::external_body]
fn invalid_name_message(e: &http::header::InvalidHeaderName) -> (s: String)
    ensures
        s@ == invalid_name_text(),
{
    format!("{e}")
}

/// Calls the `Display` impl of `InvalidHeaderValue` (http). Claimed: the text
/// is "failed to parse header value".
#[verifier::external_body]
fn invalid_value_message(e: &http::header::InvalidHeaderValue) -> (s: String)
    ensures
        s@ == invalid_value_text(),
{
    format!("{e}")
}

/// Calls `Client::builder` (reqwest) and sets, on the new builder, the
/// request timeout (`timeout`), the connect timeout (`connect_timeout`), the
/// pool's idle timeout (`pool_idle_timeout`), its idle connections per host
/// (`pool_max_idle_per_host`), the default headers (`default_headers`) and
/// whether invalid certificates are accepted (`danger_accept_invalid_certs`),
/// each to what `settings` holds, the headers as the map `headers` built from
/// them. `requires` admits only the settings of `options` (which the call
/// does not read otherwise). Nothing is claimed of the builder, which Verus
/// cannot look into.
#[verifier::external_body]
fn configured_builder(
    options: &Options,
    settings: &ClientSettings,
    headers: http::HeaderMap,
) -> (b: reqwest::ClientBuilder)
    requires
        settings_for(*settings, *options),
        header_map_contents(headers) == header_entries(settings.headers@),
{
    reqwest::Client::builder()
        .timeout(settings.timeout)
        .connect_timeout(settings.connect_timeout)
        .pool_idle_timeout(settings.idle_timeout)
        .pool_max_idle_per_host(settings.pool_max_idle_per_host)
        .default_headers(headers)
        .danger_accept_invalid_certs(settings.accept_invalid_certs)
}

/// Calls `Certificate::from_pem` (reqwest). Nothing is claimed.
#[verifier::external_body]
fn certificate_from_pem(pem: &[u8]) -> (r: Result<reqwest::Certificate, reqwest::Error>) {
    reqwest::Certificate::from_pem(pem)
}

/// Calls `ClientBuilder::add_root_certificate` (reqwest). Nothing is claimed.
#[verifier::external_body]
fn with_root_certificate(b: reqwest::ClientBuilder, cert: reqwest::Certificate) -> (r:
    reqwest::ClientBuilder) {
    b.add_root_certificate(cert)
}

/// Calls `ClientBuilder::build` (reqwest). Nothing is claimed; building can
/// fail, for instance on an invalid CA certificate.
#[verifier::external_body]
fn build_client(b: reqwest::ClientBuilder) -> (r: Result<reqwest::Client, reqwest::Error>) {
    b.build()
}

/// The name of a header as `http` writes it: ASCII letters in lower case.
pub fn header_name_text(name: &str) -> (s: String)
    ensures
        s@ == ascii_lowercase(name@),
{
    let n = name.unicode_len();
    let mut s = String::new();
    let mut i: usize = 0;
    while i < n
        invariant
            n == name@.len(),
            i <= n,
            s@ == ascii_lowercase(name@.take(i as int)),
        decreases n - i,
    {
        let c = name.get_char(i);
        let piece = name.substring_char(i, i + 1);
        let ghost before = s@;
        if 'A' <= c && c <= 'Z' {
            let lower = "abcdefghijklmnopqrstuvwxyz";
            proof {
                reveal_strlit("abcdefghijklmnopqrstuvwxyz");
            }
            let k = (c as u32 - 65) as usize;
            assert(lower@[k as int] == ascii_lower(c));
            s.append(lower.substring_char(k, k + 1));
            assert(s@ =~= before.push(ascii_lower(c)));
        } else {
            s.append(piece);
            assert(piece@ =~= seq![c]);
            assert(s@ =~= before.push(ascii_lower(c)));
        }
        assert(name@.take(i + 1) =~= name@.take(i as int).push(c));
        assert(ascii_lowercase(name@.take(i + 1)) =~= ascii_lowercase(name@.take(i as int)).push(
            ascii_lower(c),
        ));
        i += 1;
    }
    assert(name@.take(n as int) =~= name@);
    s
}

proof fn lemma_base64_chars_are_header_value_chars(s: Seq<u8>, padded: bool)
    ensures
        valid_header_value(base64_encoding(s, padded)),
    decreases s.len(),
{
    let e = base64_encoding(s, padded);
    if s.len() >= 3 {
        lemma_base64_chars_are_header_value_chars(s.skip(3), padded);
    }
    assert forall|i: int| 0 <= i < e.len() implies is_header_value_char(#[trigger] e[i]) by {
        if s.len() >= 3 && i >= 4 {
            assert(e[i] == base64_encoding(s.skip(3), padded)[i - 4]);
        }
    }
}

/// The value of the `authorization` header for the credentials `user` and
/// `password`: `"Basic "` and the padded standard base64 of the UTF-8 bytes
/// of `user:password`.
pub open spec fn basic_auth_text(user: Seq<char>, password: Seq<char>) -> Seq<char> {
    "Basic "@ + base64_encoding(vstd::utf8::encode_utf8(user + seq![':'] + password), true)
}

/// The value of the `authorization` header for basic authentication:
/// `"Basic "` and the padded standard base64 of `user:password`.
pub fn basic_auth_value(auth: &BasicAuth) -> (v: String)
    ensures
        v@ == basic_auth_text(auth.user@, auth.password@),
        valid_header_value(v@),
{
    let mut credentials = auth.user.clone();
    credentials.append(":");
    credentials.append(auth.password.as_str());
    let bytes = credentials.as_str().as_bytes();
    let token = base64_padded(bytes);
    let mut value = String::from_str("Basic ");
    value.append(token.as_str());
    proof {
        reveal_strlit("Basic ");
        reveal_strlit(":");
        assert(credentials@ =~= auth.user@ + seq![':'] + auth.password@);
        lemma_base64_chars_are_header_value_chars(bytes@, true);
        assert(value@ =~= "Basic "@ + token@);
        assert forall|i: int| 0 <= i < value@.len() implies is_header_value_char(
            #[trigger] value@[i],
        ) by {
            if i >= 6 {
                assert(value@[i] == token@[i - 6]);
            }
        }
    }
    value
}

/// What a client is built with: plain values computed from [`Options`].
pub struct ClientSettings {
    /// Total request timeout.
    pub timeout: Duration,
    /// Timeout for establishing a connection.
    pub connect_timeout: Duration,
    /// How long an idle connection is kept in the pool.
    pub idle_timeout: Duration,
    /// Maximum idle connections kept per host (`usize::MAX`: no limit).
    pub pool_max_idle_per_host: usize,
    /// The default headers: each lower-case name once, with its value and
    /// whether the value is marked sensitive.
    pub headers: Vec<(String, String, bool)>,
    /// Whether invalid server certificates are accepted.
    pub accept_invalid_certs: bool,
    /// An additional CA certificate (PEM) to trust.
    pub ca_certificate: Option<String>,
}

/// The map that a list of headers with distinct names stands for.
pub open spec fn header_entries(s: Seq<(String, String, bool)>) -> Map<
    Seq<char>,
    (Seq<char>, bool),
> {
    Map::new(
        |k: Seq<char>| exists|i: int| 0 <= i < s.len() && s[i].0@ == k,
        |k: Seq<char>|
            {
                let e = s[choose|i: int| 0 <= i < s.len() && s[i].0@ == k];
                (e.1@, e.2)
            },
    )
}

/// No header name occurs twice in the list.
pub open spec fn header_names_distinct(s: Seq<(String, String, bool)>) -> bool {
    forall|i: int, j: int| 0 <= i < j < s.len() ==> s[i].0@ != s[j].0@
}

/// The default headers that a list of name/value pairs gives, inserted in
/// order: names in lower case, a later value replacing an earlier one under
/// the same name, none sensitive.
pub open spec fn headers_inserted(s: Seq<(String, String)>) -> Map<Seq<char>, (Seq<char>, bool)>
    decreases s.len(),
{
    if s.len() == 0 {
        Map::empty()
    } else {
        headers_inserted(s.drop_last()).insert(ascii_lowercase(s.last().0@), (s.last().1@, false))
    }
}

/// The name of the basic-authentication header.
pub open spec fn authorization_name() -> Seq<char> {
    seq!['a', 'u', 't', 'h', 'o', 'r', 'i', 'z', 'a', 't', 'i', 'o', 'n']
}

/// The default headers a client is built with: the given headers, then, with
/// basic authentication, a sensitive `authorization` header with the
/// credentials' value, which replaces any given one.
pub open spec fn default_headers(options: Options) -> Map<Seq<char>, (Seq<char>, bool)> {
    match options.basic_auth {
        Some(auth) => headers_inserted(options.headers@).insert(
            authorization_name(),
            (basic_auth_text(auth.user@, auth.password@), true),
        ),
        None => headers_inserted(options.headers@),
    }
}

/// `s` holds what a client built from `options` is set up with.
pub open spec fn settings_for(s: ClientSettings, options: Options) -> bool {
    &&& s.timeout == options.timeouts.timeout
    &&& s.connect_timeout == options.timeouts.connect_timeout
    &&& s.idle_timeout == options.timeouts.idle_timeout
    &&& s.pool_max_idle_per_host == (if options.timeouts.max_idle_per_host > 0 {
        options.timeouts.max_idle_per_host
    } else {
        usize::MAX
    })
    &&& header_entries(s.headers@) == default_headers(options)
    &&& s.accept_invalid_certs == options.tls.insecure_skip_verify
    &&& s.ca_certificate == options.tls.ca_certificate
}

/// What a client is set up with follows the options field by field: the
/// three timeouts, the pool limit (none when the options give `0`), the
/// certificate switch, the CA text, and the default headers: each given
/// header under its lower-case name with the last value given for it, and
/// with basic authentication the sensitive `authorization` header holding
/// `"Basic "` and the base64 of `user:password`.
pub proof fn law_settings_follow_options(s: ClientSettings, options: Options, name: Seq<char>)
    requires
        settings_for(s, options),
    ensures
        s.timeout == options.timeouts.timeout,
        s.connect_timeout == options.timeouts.connect_timeout,
        s.idle_timeout == options.timeouts.idle_timeout,
        options.timeouts.max_idle_per_host > 0 ==> s.pool_max_idle_per_host
            == options.timeouts.max_idle_per_host,
        options.timeouts.max_idle_per_host == 0 ==> s.pool_max_idle_per_host == usize::MAX,
        s.accept_invalid_certs == options.tls.insecure_skip_verify,
        s.ca_certificate == options.tls.ca_certificate,
        options.basic_auth matches Some(a) ==> header_entries(s.headers@)[seq![
            'a',
            'u',
            't',
            'h',
            'o',
            'r',
            'i',
            'z',
            'a',
            't',
            'i',
            'o',
            'n',
        ]] == ("Basic "@ + base64_encoding(
            vstd::utf8::encode_utf8(a.user@ + seq![':'] + a.password@),
            true,
        ), true),
        options.basic_auth is None && options.headers@.len() > 0 ==> header_entries(s.headers@)[
            ascii_lowercase(options.headers@.last().0@)] == (options.headers@.last().1@, false),
        options.basic_auth is None ==> (header_entries(s.headers@).contains_key(name) <==> exists|
            i: int,
        | 0 <= i < options.headers@.len() && ascii_lowercase(#[trigger] options.headers@[i].0@)
            == name),
{
    lemma_headers_inserted_names(options.headers@, name);
}

proof fn lemma_headers_inserted_names(h: Seq<(String, String)>, name: Seq<char>)
    ensures
        headers_inserted(h).contains_key(name) <==> exists|i: int|
            0 <= i < h.len() && ascii_lowercase(#[trigger] h[i].0@) == name,
    decreases h.len(),
{
    if h.len() > 0 {
        lemma_headers_inserted_names(h.drop_last(), name);
        if headers_inserted(h.drop_last()).contains_key(name) {
            let i = choose|i: int|
                0 <= i < h.drop_last().len() && ascii_lowercase(#[trigger] h.drop_last()[i].0@)
                    == name;
            assert(h[i] == h.drop_last()[i]);
        }
        if ascii_lowercase(h.last().0@) == name {
            assert(ascii_lowercase(h[h.len() - 1].0@) == name);
        }
        if exists|i: int| 0 <= i < h.len() && ascii_lowercase(#[trigger] h[i].0@) == name {
            let i = choose|i: int| 0 <= i < h.len() && ascii_lowercase(#[trigger] h[i].0@) == name;
            if i < h.len() - 1 {
                assert(h.drop_last()[i] == h[i]);
            }
        }
    }
}

/// The settings' headers can be put into a header map: distinct lower-case
/// names and values that `http` accepts.
pub open spec fn settings_headers_ok(s: ClientSettings) -> bool {
    &&& header_names_distinct(s.headers@)
    &&& forall|k: Seq<char>| #[trigger]
        header_entries(s.headers@).contains_key(k) ==> valid_header_name(k) && ascii_lowercase(k)
            == k && valid_header_value(header_entries(s.headers@)[k].0)
}

proof fn lemma_header_entry_value(s: Seq<(String, String, bool)>, i: int)
    requires
        header_names_distinct(s),
        0 <= i < s.len(),
    ensures
        header_entries(s).contains_key(s[i].0@),
        header_entries(s)[s[i].0@] == (s[i].1@, s[i].2),
{
    let k = s[i].0@;
    assert(exists|j: int| 0 <= j < s.len() && s[j].0@ == k);
    let j = choose|j: int| 0 <= j < s.len() && s[j].0@ == k;
    assert(j == i);
}

proof fn lemma_header_entries_push(s: Seq<(String, String, bool)>, e: (String, String, bool))
    requires
        header_names_distinct(s.push(e)),
    ensures
        header_entries(s.push(e)) == header_entries(s).insert(e.0@, (e.1@, e.2)),
{
    let t = s.push(e);
    assert(header_names_distinct(s)) by {
        assert forall|i: int, j: int| 0 <= i < j < s.len() implies s[i].0@ != s[j].0@ by {
            assert(t[i] == s[i] && t[j] == s[j]);
        }
    }
    let target = header_entries(s).insert(e.0@, (e.1@, e.2));
    assert forall|q: Seq<char>| #[trigger]
        header_entries(t).contains_key(q) == target.contains_key(q) by {
        if header_entries(s).contains_key(q) {
            let x = choose|x: int| 0 <= x < s.len() && s[x].0@ == q;
            assert(t[x].0@ == q);
        }
        if q == e.0@ {
            assert(t[s.len() as int].0@ == q);
        }
        if header_entries(t).contains_key(q) {
            let x = choose|x: int| 0 <= x < t.len() && t[x].0@ == q;
            if x < s.len() {
                assert(s[x].0@ == q);
            }
        }
    }
    assert forall|q: Seq<char>| #[trigger]
        header_entries(t).contains_key(q) implies header_entries(t)[q] == target[q] by {
        let x = choose|x: int| 0 <= x < t.len() && t[x].0@ == q;
        lemma_header_entry_value(t, x);
        if x < s.len() {
            assert(t[x] == s[x]);
            assert(t[x].0@ != t[s.len() as int].0@);
            lemma_header_entry_value(s, x);
        } else {
            assert(t[x] == e);
        }
    }
    assert(header_entries(t) =~= target);
}

/// The position of the header named `name` in the list, if there is one.
fn header_position(headers: &Vec<(String, String, bool)>, name: &String) -> (r: Option<usize>)
    ensures
        match r {
            Some(j) => j < headers@.len() && headers@[j as int].0@ == name@,
            None => forall|x: int| 0 <= x < headers@.len() ==> headers@[x].0@ != name@,
        },
{
    let mut j: usize = 0;
    while j < headers.len()
        invariant
            j <= headers@.len(),
            forall|x: int| 0 <= x < j ==> headers@[x].0@ != name@,
        decreases headers.len() - j,
    {
        if headers[j].0 == *name {
            return Some(j);
        }
        j += 1;
    }
    None
}

/// Put the header `name: value` into the list, replacing the value of a
/// header of the same name.
fn set_header(headers: &mut Vec<(String, String, bool)>, name: String, value: String, sensitive: bool)
    requires
        header_names_distinct(old(headers)@),
    ensures
        header_names_distinct(final(headers)@),
        header_entries(final(headers)@) == header_entries(old(headers)@).insert(
            name@,
            (value@, sensitive),
        ),
        final(headers)@.len() <= old(headers)@.len() + 1,
{
    let ghost before = headers@;
    let ghost k = name@;
    let ghost v = (value@, sensitive);
    match header_position(headers, &name) {
        Some(j) => {
            proof {
                lemma_header_entry_value(before, j as int);
            }
            headers.set(j, (name, value, sensitive));
            proof {
                let target = header_entries(before).insert(k, v);
                assert forall|x: int, y: int|
                    0 <= x < y < headers@.len() implies headers@[x].0@ != headers@[y].0@ by {
                    if x != j && y != j {
                        assert(before[x].0@ != before[y].0@);
                    }
                }
                assert forall|q: Seq<char>| #[trigger]
                    header_entries(headers@).contains_key(q) == target.contains_key(q) by {
                    if header_entries(before).contains_key(q) && q != k {
                        let x = choose|x: int| 0 <= x < before.len() && before[x].0@ == q;
                        assert(headers@[x].0@ == q);
                    }
                    if q == k {
                        assert(headers@[j as int].0@ == q);
                    }
                    if header_entries(headers@).contains_key(q) {
                        let x = choose|x: int| 0 <= x < headers@.len() && headers@[x].0@ == q;
                        if x != j {
                            assert(before[x].0@ == q);
                        }
                    }
                }
                assert forall|q: Seq<char>| #[trigger]
                    header_entries(headers@).contains_key(q) implies header_entries(headers@)[q]
                    == target[q] by {
                    let x = choose|x: int| 0 <= x < headers@.len() && headers@[x].0@ == q;
                    lemma_header_entry_value(headers@, x);
                    if x != j {
                        lemma_header_entry_value(before, x);
                    }
                }
                assert(header_entries(headers@) =~= target);
            }
        },
        None => {
            let ghost e = (name, value, sensitive);
            headers.push((name, value, sensitive));
            proof {
                assert(headers@ == before.push(e));
                assert forall|x: int, y: int|
                    0 <= x < y < headers@.len() implies headers@[x].0@ != headers@[y].0@ by {
                    if y < before.len() {
                        assert(before[x].0@ != before[y].0@);
                    }
                }
                lemma_header_entries_push(before, e);
            }
        },
    }
}

proof fn lemma_lowercase_keeps_valid_name(n: Seq<char>)
    requires
        valid_header_name(n),
    ensures
        valid_header_name(ascii_lowercase(n)),
        ascii_lowercase(ascii_lowercase(n)) == ascii_lowercase(n),
{
    let l = ascii_lowercase(n);
    assert forall|i: int| 0 <= i < l.len() implies is_token_char(#[trigger] l[i]) && ascii_lower(
        l[i],
    ) == l[i] by {
        assert(is_token_char(n[i]));
        assert(l[i] == ascii_lower(n[i]));
    }
    assert(ascii_lowercase(l) =~= l);
}

proof fn lemma_authorization_name()
    ensures
        valid_header_name(authorization_name()),
        ascii_lowercase(authorization_name()) == authorization_name(),
{
    let a = authorization_name();
    assert forall|i: int| 0 <= i < a.len() implies is_token_char(#[trigger] a[i]) && ascii_lower(
        a[i],
    ) == a[i] by {
        assert('a' <= a[i] <= 'z');
    }
    assert(ascii_lowercase(a) =~= a);
}

/// The settings a client is built with from `options`, or the error for the
/// first default header that HTTP does not accept.
///
/// The default headers are checked in order; the first one that HTTP does not
/// accept is reported as [`ClientError::Header`], with its name and the
/// reason. Otherwise the settings hold the options' timeouts, their pool
/// limit (none when it is `0`), their headers by lower-case name with the
/// last value given for a name, then, with basic authentication, the
/// sensitive `authorization` header, and their TLS options.
pub fn client_settings(options: &Options) -> (r: Result<ClientSettings, ClientError>)
    ensures
        match r {
            Ok(s) => {
                &&& header_problem(options.headers@) is None
                &&& settings_for(s, *options)
                &&& settings_headers_ok(s)
                &&& s.headers@.len() <= options.headers@.len() + 1
            },
            Err(e) => header_problem(options.headers@) matches Some(m) && e matches ClientError::Header(
                msg,
            ) && msg@ == m,
        },
{
    let mut headers: Vec<(String, String, bool)> = Vec::new();
    let mut i: usize = 0;
    assert(options.headers@.skip(0) =~= options.headers@);
    assert(header_entries(headers@) =~= headers_inserted(options.headers@.take(0)));
    while i < options.headers.len()
        invariant
            i <= options.headers@.len(),
            header_problem(options.headers@) == header_problem(options.headers@.skip(i as int)),
            header_names_distinct(headers@),
            headers@.len() <= i,
            header_entries(headers@) == headers_inserted(options.headers@.take(i as int)),
            forall|k: Seq<char>| #[trigger]
                header_entries(headers@).contains_key(k) ==> valid_header_name(k) && ascii_lowercase(
                    k,
                ) == k && valid_header_value(header_entries(headers@)[k].0),
        decreases options.headers.len() - i,
    {
        let name_str = options.headers[i].0.as_str();
        let value_str = options.headers[i].1.as_str();
        proof {
            assert(options.headers@.skip(i as int)[0] == options.headers@[i as int]);
            assert(options.headers@.skip(i as int).drop_first() =~= options.headers@.skip(
                i + 1,
            ));
            assert(options.headers@.take(i + 1).drop_last() =~= options.headers@.take(i as int));
        }
        match header_name_from_str(name_str) {
            Ok(_) => {},
            Err(e) => {
                let mut message = String::from_str(name_str);
                message.append(": ");
                let reason = invalid_name_message(&e);
                message.append(reason.as_str());
                proof {
                    reveal_strlit(": ");
                }
                return Err(ClientError::Header(message));
            },
        }
        let lower = header_name_text(name_str);
        match header_value_from_str(value_str) {
            Ok(_) => {},
            Err(e) => {
                let mut message = lower;
                message.append(": ");
                let reason = invalid_value_message(&e);
                message.append(reason.as_str());
                proof {
                    reveal_strlit(": ");
                }
                return Err(ClientError::Header(message));
            },
        }
        proof {
            lemma_lowercase_keeps_valid_name(name_str@);
        }
        let ghost before = header_entries(headers@);
        set_header(&mut headers, lower, value_str.to_owned(), false);
        proof {
            assert forall|k: Seq<char>| #[trigger]
                header_entries(headers@).contains_key(k) implies valid_header_name(k)
                && ascii_lowercase(k) == k && valid_header_value(header_entries(headers@)[k].0) by {
                if k != ascii_lowercase(name_str@) {
                    assert(before.contains_key(k));
                }
            }
        }
        i += 1;
    }
    proof {
        assert(options.headers@.skip(i as int).len() == 0);
        assert(options.headers@.take(i as int) =~= options.headers@);
    }
    match &options.basic_auth {
        Some(auth) => {
            let value = basic_auth_value(auth);
            let name = String::from_str("authorization");
            proof {
                reveal_strlit("authorization");
                assert(name@ =~= authorization_name());
                lemma_authorization_name();
            }
            let ghost before = header_entries(headers@);
            set_header(&mut headers, name, value, true);
            proof {
                assert forall|k: Seq<char>| #[trigger]
                    header_entries(headers@).contains_key(k) implies valid_header_name(k)
                    && ascii_lowercase(k) == k && valid_header_value(
                    header_entries(headers@)[k].0,
                ) by {
                    if k != authorization_name() {
                        assert(before.contains_key(k));
                    }
                }
            }
        },
        None => {},
    }
    let ca_certificate = match &options.tls.ca_certificate {
        Some(ca) => Some(ca.clone()),
        None => None,
    };
    let pool_max_idle_per_host = if options.timeouts.max_idle_per_host > 0 {
        options.timeouts.max_idle_per_host
    } else {
        usize::MAX
    };
    Ok(
        ClientSettings {
            timeout: options.timeouts.timeout,
            connect_timeout: options.timeouts.connect_timeout,
            idle_timeout: options.timeouts.idle_timeout,
            pool_max_idle_per_host,
            headers,
            accept_invalid_certs: options.tls.insecure_skip_verify,
            ca_certificate,
        },
    )
}

/// The header map of the settings' default headers, or `None` when they do
/// not fit in one.
fn default_header_map(settings: &ClientSettings) -> (r: Option<http::HeaderMap>)
    requires
        settings_headers_ok(*settings),
    ensures
        r matches Some(m) ==> header_map_contents(m) == header_entries(settings.headers@),
        settings.headers@.len() < 6553 ==> r is Some,
{
    let headers = &settings.headers;
    let mut m = match header_map_with_capacity(headers.len()) {
        Ok(m) => m,
        Err(_) => {
            return None;
        },
    };
    let mut i: usize = 0;
    assert(header_map_contents(m) =~= Map::<Seq<char>, (Seq<char>, bool)>::empty());
    assert(header_entries(headers@.take(0)) =~= Map::<Seq<char>, (Seq<char>, bool)>::empty());
    while i < headers.len()
        invariant
            i <= headers@.len(),
            settings_headers_ok(*settings),
            headers == &settings.headers,
            header_map_contents(m) == header_entries(headers@.take(i as int)),
            header_map_contents(m).dom().finite(),
            header_map_contents(m).dom().len() <= i,
        decreases headers.len() - i,
    {
        proof {
            lemma_header_entry_value(headers@, i as int);
            assert(headers@.take(i + 1) =~= headers@.take(i as int).push(headers@[i as int]));
            let prefix = headers@.take(i + 1);
            assert(header_names_distinct(prefix)) by {
                assert forall|x: int, y: int| 0 <= x < y < prefix.len() implies #[trigger] prefix[x].0@
                    != #[trigger] prefix[y].0@ by {
                    assert(headers@[x].0@ != headers@[y].0@);
                }
            }
            lemma_header_entries_push(headers@.take(i as int), headers@[i as int]);
        }
        match header_map_insert(&mut m, headers[i].0.as_str(), headers[i].1.as_str(), headers[i].2) {
            Ok(()) => {},
            Err(_) => {
                return None;
            },
        }
        i += 1;
    }
    assert(headers@.take(i as int) =~= headers@);
    Some(m)
}

/// Build a client set up with `settings`.
fn client_with_settings(options: &Options, settings: &ClientSettings) -> (r: Result<
    reqwest::Client,
    ClientError,
>)
    requires
        settings_for(*settings, *options),
        settings_headers_ok(*settings),
    ensures
        r matches Err(e) ==> e is Build || e is TooManyHeaders,
        r matches Err(ClientError::TooManyHeaders) ==> settings.headers@.len() >= 6553,
{
    let headers = match default_header_map(settings) {
        Some(h) => h,
        None => {
            return Err(ClientError::TooManyHeaders);
        },
    };
    let mut builder = configured_builder(options, settings, headers);
    match &settings.ca_certificate {
        Some(ca) => {
            match certificate_from_pem(ca.as_str().as_bytes()) {
                Ok(cert) => {
                    builder = with_root_certificate(builder, cert);
                },
                Err(e) => {
                    return Err(ClientError::Build(e));
                },
            }
        },
        None => {},
    }
    match build_client(builder) {
        Ok(client) => Ok(client),
        Err(e) => Err(ClientError::Build(e)),
    }
}

/// Build a [`reqwest::Client`] from the given [`Options`].
///
/// The client is built with [`client_settings`] of the options: the first
/// default header that HTTP does not accept is reported as
/// [`ClientError::Header`], with its name and the reason. Default headers
/// that do not fit in a header map, which takes thousands of names, are
/// reported as [`ClientError::TooManyHeaders`]. Building the client itself
/// can fail, which is reported as [`ClientError::Build`].
pub fn new_client(options: &Options) -> (r: Result<reqwest::Client, ClientError>)
    ensures
        r matches Err(ClientError::TooManyHeaders) ==> options.headers@.len() + 1 >= 6553,
        header_problem(options.headers@) matches Some(m) ==> r matches Err(
            ClientError::Header(msg),
        ) && msg@ == m,
        header_problem(options.headers@) is None ==> !(r matches Err(ClientError::Header(_))),
{
    match client_settings(options) {
        Ok(settings) => client_with_settings(options, &settings),
        Err(e) => Err(e),
    }
}

} // verus!
