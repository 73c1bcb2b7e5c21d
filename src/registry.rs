//! The capability registry: picks, by the locator's scheme, which backend
//! operator serves it, and builds that operator from the current
//! configuration.
use vstd::prelude::*;
use crate::error::StoreError;

verus! {

#[verifier::external_type_specification]
#[verifier::external_body]
pub struct ExHttpClient(reqwest::Client);

/// Credentials and placement of the S3-like backend.
#[derive(Debug)]
pub struct S3Config {
    pub root: String,
    pub bucket: String,
    pub region: String,
    pub access_key_id: String,
    pub secret_access_key: String,
}

impl Default for S3Config {
    fn default() -> (r: S3Config)
        ensures
            r.is_empty(),
    {
        S3Config::empty()
    }
}

impl S3Config {
    pub open spec fn is_empty(self) -> bool {
        &&& self.root@.len() == 0
        &&& self.bucket@.len() == 0
        &&& self.region@.len() == 0
        &&& self.access_key_id@.len() == 0
        &&& self.secret_access_key@.len() == 0
    }

    /// A configuration with every field empty.
    pub fn empty() -> (r: S3Config)
        ensures
            r.is_empty(),
    {
        S3Config {
            root: String::new(),
            bucket: String::new(),
            region: String::new(),
            access_key_id: String::new(),
            secret_access_key: String::new(),
        }
    }

    /// A copy of this configuration.
    pub fn duplicate(&self) -> (r: S3Config)
        ensures
            r == *self,
    {
        S3Config {
            root: self.root.clone(),
            bucket: self.bucket.clone(),
            region: self.region.clone(),
            access_key_id: self.access_key_id.clone(),
            secret_access_key: self.secret_access_key.clone(),
        }
    }
}

/// What the registry reads of a resource locator.
#[derive(Debug)]
pub struct ResourceLocator {
    pub scheme: String,
    pub host: String,
    /// The port, where the locator names one.
    pub port: Option<u16>,
}

/// The backend operator that serves a locator, before it is built.
#[derive(Debug)]
pub enum BackendPlan {
    /// The S3-like service, with the configuration current at resolution.
    S3 { config: S3Config, endpoint: String },
    /// A pass-through HTTP service at `endpoint`, whose every request carries
    /// `headers`.
    Http { endpoint: String, headers: Vec<(String, String)> },
}

/// The endpoint of the S3-like service.
pub open spec fn s3_endpoint() -> Seq<char> {
    "https://s3.amazonaws.com"@
}

/// `c` is the lower-case ASCII letter or other character `lower`, up to case.
pub open spec fn same_ignoring_case(c: char, lower: char) -> bool {
    c == lower || (97 <= (lower as u32) <= 122 && (c as u32) + 32 == (lower as u32))
}

/// The scheme `s` is `name` (written in lower case), up to ASCII case.
pub open spec fn scheme_is(s: Seq<char>, name: Seq<char>) -> bool {
    &&& s.len() == name.len()
    &&& forall|i: int| 0 <= i < s.len() ==> same_ignoring_case(#[trigger] s[i], name[i])
}

/// Whether the scheme `s` is `name` (written in lower case), up to ASCII case.
pub fn scheme_matches(s: &str, name: &str) -> (r: bool)
    ensures
        r == scheme_is(s@, name@),
{
    let n = s.unicode_len();
    let m = name.unicode_len();
    if n != m {
        return false;
    }
    let mut i: usize = 0;
    while i < n
        invariant
            i <= n,
            n == s@.len(),
            m == name@.len(),
            n == m,
            forall|j: int| 0 <= j < i ==> same_ignoring_case(#[trigger] s@[j], name@[j]),
        decreases n - i,
    {
        let c = s.get_char(i);
        let l = name.get_char(i);
        let lu = l as u32;
        let same = c == l || (97 <= lu && lu <= 122 && (c as u32) + 32 == lu);
        if !same {
            return false;
        }
        i = i + 1;
    }
    true
}

/// The decimal digit `d`.
pub open spec fn digit_char(d: nat) -> char {
    seq!['0', '1', '2', '3', '4', '5', '6', '7', '8', '9'][d as int]
}

/// The decimal numeral of `n`, without leading zeros.
pub open spec fn decimal(n: nat) -> Seq<char>
    decreases n,
{
    if n < 10 {
        seq![digit_char(n)]
    } else {
        decimal(n / 10).push(digit_char(n % 10))
    }
}

fn digit_str(d: u16) -> (r: &'static str)
    requires
        d < 10,
    ensures
        r@ == seq![digit_char(d as nat)],
{
    proof {
        reveal_strlit("0");
        reveal_strlit("1");
        reveal_strlit("2");
        reveal_strlit("3");
        reveal_strlit("4");
        reveal_strlit("5");
        reveal_strlit("6");
        reveal_strlit("7");
        reveal_strlit("8");
        reveal_strlit("9");
    }
    let r = match d {
        0 => "0",
        1 => "1",
        2 => "2",
        3 => "3",
        4 => "4",
        5 => "5",
        6 => "6",
        7 => "7",
        8 => "8",
        _ => "9",
    };
    assert(r@ =~= seq![digit_char(d as nat)]);
    r
}

/// The decimal numeral of a port number.
pub fn decimal_string(n: u16) -> (r: String)
    ensures
        r@ == decimal(n as nat),
    decreases n,
{
    if n < 10 {
        String::from_str(digit_str(n))
    } else {
        let mut s = decimal_string(n / 10);
        s.append(digit_str(n % 10));
        assert(s@ =~= decimal(n as nat));
        s
    }
}

/// The port that a scheme uses where the locator names none.
pub open spec fn default_port(secure: bool) -> u16 {
    if secure {
        443
    } else {
        80
    }
}

/// The endpoint `scheme://host:port` of a pass-through HTTP operator, with
/// the scheme's default port where the locator names none.
pub open spec fn http_endpoint(scheme: Seq<char>, host: Seq<char>, port: Option<u16>, secure: bool) -> Seq<char> {
    let p = match port {
        Some(p) => p,
        None => default_port(secure),
    };
    scheme + "://"@ + host + ":"@ + decimal(p as nat)
}

/// The header that lets a browser-like host accept the answers of any origin.
pub open spec fn allows_any_origin(headers: Seq<(String, String)>) -> bool {
    exists|i: int|
        0 <= i < headers.len() && (#[trigger] headers[i]).0@ == "access-control-allow-origin"@
            && headers[i].1@ == "*"@
}

/// The registry: the current S3-like configuration. Every resolution reads
/// it anew; nothing built from it is kept.
#[derive(Debug)]
pub struct OpendalRegistry {
    pub config: S3Config,
}

/// Relies on `reqwest::ClientBuilder`: a client that sends `headers` with
/// every request; `None` where a header is malformed or the client cannot
/// be built.
#[verifier::external_body]
fn client_with_headers(headers: &Vec<(String, String)>) -> Option<reqwest::Client> {
    let mut map = reqwest::header::HeaderMap::new();
    for (name, value) in headers {
        let name = reqwest::header::HeaderName::from_bytes(name.as_bytes()).ok()?;
        let value = reqwest::header::HeaderValue::from_str(value).ok()?;
        map.insert(name, value);
    }
    reqwest::ClientBuilder::new().default_headers(map).build().ok()
}

/// Relies on `opendal::Operator::new` over the `Http` service: an operator
/// for `endpoint` that sends its requests through `client`; `None` where the
/// service refuses the configuration.
#[verifier::external_body]
fn http_operator(endpoint: &str, client: reqwest::Client) -> Option<opendal::Operator> {
    let builder = opendal::services::Http::default()
        .http_client(opendal::raw::HttpClient::with(client))
        .endpoint(endpoint);
    opendal::Operator::new(builder).ok().map(|b| b.finish())
}

/// Relies on `opendal::Operator::new` over the `S3` service: an operator
/// built from `config` at `endpoint`; `None` where the service refuses the
/// configuration (a malformed bucket, for one).
#[verifier::external_body]
fn s3_operator(config: &S3Config, endpoint: &str) -> Option<opendal::Operator> {
    let builder = opendal::services::S3::default()
        .root(&config.root)
        .bucket(&config.bucket)
        .region(&config.region)
        .endpoint(endpoint)
        .access_key_id(&config.access_key_id)
        .secret_access_key(&config.secret_access_key);
    opendal::Operator::new(builder).ok().map(|b| b.finish())
}

impl OpendalRegistry {
    /// A registry with an empty configuration.
    pub fn new() -> (r: OpendalRegistry)
        ensures
            r.config.is_empty(),
    {
        OpendalRegistry { config: S3Config::empty() }
    }

    /// Replaces the S3-like configuration as a whole; later resolutions see
    /// the new one.
    pub fn set_s3_config(&mut self, s3_config: S3Config)
        ensures
            final(self).config == s3_config,
    {
        self.config = s3_config;
    }

    /// Picks the operator that serves `loc`, by its scheme up to case: "s3"
    /// is the S3-like service with the current configuration; "http" and
    /// "https" are a pass-through service at `scheme://host:port` whose
    /// requests allow any origin; any other scheme has no backend.
    pub fn resolve(&self, loc: &ResourceLocator) -> (r: Result<BackendPlan, StoreError>)
        ensures
            scheme_is(loc.scheme@, "s3"@) ==> (r matches Ok(BackendPlan::S3 { config, endpoint })
                && config == self.config && endpoint@ == s3_endpoint()),
            scheme_is(loc.scheme@, "http"@) ==> (r matches Ok(BackendPlan::Http { endpoint, headers })
                && endpoint@ == http_endpoint("http"@, loc.host@, loc.port, false)
                && allows_any_origin(headers@)),
            scheme_is(loc.scheme@, "https"@) ==> (r matches Ok(BackendPlan::Http { endpoint, headers })
                && endpoint@ == http_endpoint("https"@, loc.host@, loc.port, true)
                && allows_any_origin(headers@)),
            !scheme_is(loc.scheme@, "s3"@) && !scheme_is(loc.scheme@, "http"@) && !scheme_is(
                loc.scheme@,
                "https"@,
            ) ==> (r matches Err(StoreError::BackendUnavailable)),
    {
        proof {
            reveal_strlit("http");
            reveal_strlit("https");
            reveal_strlit("s3");
        }
        if scheme_matches(loc.scheme.as_str(), "s3") {
            return Ok(
                BackendPlan::S3 {
                    config: self.config.duplicate(),
                    endpoint: String::from_str("https://s3.amazonaws.com"),
                },
            );
        }
        let http = scheme_matches(loc.scheme.as_str(), "http");
        let https = scheme_matches(loc.scheme.as_str(), "https");
        if !http && !https {
            return Err(StoreError::BackendUnavailable);
        }
        assert(!(http && https));
        let (name, secure) = if http {
            ("http", false)
        } else {
            ("https", true)
        };
        let port = match loc.port {
            Some(p) => p,
            None => if secure {
                443
            } else {
                80
            },
        };
        let mut endpoint = String::from_str(name);
        endpoint.append("://");
        endpoint.append(loc.host.as_str());
        endpoint.append(":");
        let digits = decimal_string(port);
        endpoint.append(digits.as_str());
        let mut headers: Vec<(String, String)> = Vec::new();
        headers.push(
            (String::from_str("access-control-allow-origin"), String::from_str("*")),
        );
        assert(headers@[0].0@ == "access-control-allow-origin"@);
        Ok(BackendPlan::Http { endpoint, headers })
    }

    /// Builds the operator that serves `loc` from the current configuration.
    /// Fails with `BackendUnavailable` where the scheme has no backend or the
    /// backend refuses the configuration.
    pub fn build_from_url(&self, loc: &ResourceLocator) -> (r: Result<opendal::Operator, StoreError>)
        ensures
            !scheme_is(loc.scheme@, "s3"@) && !scheme_is(loc.scheme@, "http"@) && !scheme_is(
                loc.scheme@,
                "https"@,
            ) ==> (r matches Err(StoreError::BackendUnavailable)),
            r matches Err(e) ==> (e matches StoreError::BackendUnavailable),
    {
        match self.resolve(loc) {
            Ok(BackendPlan::S3 { config, endpoint }) => match s3_operator(&config, endpoint.as_str()) {
                Some(op) => Ok(op),
                None => Err(StoreError::BackendUnavailable),
            },
            Ok(BackendPlan::Http { endpoint, headers }) => match client_with_headers(&headers) {
                Some(client) => match http_operator(endpoint.as_str(), client) {
                    Some(op) => Ok(op),
                    None => Err(StoreError::BackendUnavailable),
                },
                None => Err(StoreError::BackendUnavailable),
            },
            Err(_) => Err(StoreError::BackendUnavailable),
        }
    }
}

} // verus!
