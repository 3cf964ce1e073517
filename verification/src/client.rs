//! The client core: identity and auth headers, endpoint URLs and queries,
//! and the interpretation of HTTP statuses and response envelopes. The
//! transport (sending requests, reading bodies, decoding JSON text) is the
//! caller's.

use std::sync::Arc;
use std::sync::atomic::{AtomicU64, Ordering};
use vstd::prelude::*;
use vstd::string::StringExecFns;
use vstd::wrapping::u64_specs;
use crate::config::{
    ClientConfig, spec_cloud_base, spec_mainland_flag, spec_openapi_base, spec_platform_header,
};
use crate::error::{CloudError, Result};
use crate::model::{Envelope, MediaId, PageCursor, code_is_ok};
use crate::text::opt_view;
use crate::session::{Session, session_of};
use crate::signing::{Signer, SignerView};
use crate::text::{
    contains, dec_int, dec_nat, hex_fixed, push_decimal, push_decimal_signed, push_hex_fixed,
    spec_to_lowercase, str_contains, str_prefix, to_lowercase,
};

verus! {

/// The HTTP client of the transport stack.
#[verifier::external_type_specification]
#[verifier::external_body]
pub struct ExHttpClient(reqwest::Client);

/// `Clone` of the HTTP client (a handle to a shared connection pool);
/// nothing is stated of the copy.
pub assume_specification[ <reqwest::Client as std::clone::Clone>::clone ](c: &reqwest::Client) -> reqwest::Client;

/// The `User-Agent` value that a client built by `reqwest`'s builder sends
/// by default.
pub uninterp spec fn spec_http_user_agent(h: reqwest::Client) -> Seq<char>;

/// Trusted wrapper of `reqwest::Client::builder().user_agent(..).build()`.
/// The builder stores the user agent among the client's default headers; a
/// built client sends it. Whether the TLS/HTTP stack can be built depends on
/// the machine (and the builder refuses a user agent that is no valid header
/// value), so it is not stated when the result is `Ok`.
#[verifier::external_body]
fn build_http(user_agent: &str) -> (r: core::result::Result<reqwest::Client, reqwest::Error>)
    ensures
        r matches Ok(h) ==> spec_http_user_agent(h) == user_agent@,
{
    reqwest::Client::builder().user_agent(user_agent.to_owned()).build()
}

/// Whether `c` may stand in an HTTP header name (an RFC 7230 `tchar`).
pub open spec fn is_tchar(c: char) -> bool {
    ||| ('a' <= c && c <= 'z')
    ||| ('A' <= c && c <= 'Z')
    ||| ('0' <= c && c <= '9')
    ||| c == '!' || c == '#' || c == '$' || c == '%' || c == '&' || c == '\''
    ||| c == '*' || c == '+' || c == '-' || c == '.' || c == '^' || c == '_'
    ||| c == '`' || c == '|' || c == '~'
}

/// Whether a string is a valid HTTP header name: 1 to 65535 `tchar`s.
pub open spec fn spec_header_name_ok(name: Seq<char>) -> bool {
    &&& 1 <= name.len() <= 65535
    &&& forall|i: int| 0 <= i < name.len() ==> is_tchar(#[trigger] name[i])
}

/// Whether a string is a valid HTTP header value: no control character but
/// horizontal tab.
pub open spec fn spec_header_value_ok(value: Seq<char>) -> bool {
    forall|i: int|
        0 <= i < value.len() ==> (#[trigger] value[i] == '\t' || (' ' <= value[i] && value[i]
            != '\x7f'))
}

/// Trusted wrapper of `reqwest::header::HeaderName::from_bytes`: it accepts
/// exactly the non-empty names of at most 65535 token characters.
#[verifier::external_body]
fn header_name_valid(name: &str) -> (r: bool)
    ensures
        r == spec_header_name_ok(name@),
{
    reqwest::header::HeaderName::from_bytes(name.as_bytes()).is_ok()
}

/// Trusted wrapper of `reqwest::header::HeaderValue::from_str`: it refuses
/// exactly the values with a control byte other than horizontal tab.
#[verifier::external_body]
fn header_value_valid(value: &str) -> (r: bool)
    ensures
        r == spec_header_value_ok(value@),
{
    reqwest::header::HeaderValue::from_str(value).is_ok()
}

/// The two 64-bit halves of a trace id seed, each a splitmix64-style mix.
pub open spec fn spec_trace_halves(seed: u64) -> (u64, u64) {
    let x = u64_specs::wrapping_add(seed, 0x9E37_79B9_7F4A_7C15);
    let x = u64_specs::wrapping_mul(x ^ (x >> 30u64), 0xBF58_476D_1CE4_E5B9);
    let a = x ^ (x >> 31u64);
    let y = u64_specs::wrapping_add(a, 0x9E37_79B9_7F4A_7C15);
    let y = u64_specs::wrapping_mul(y ^ (y >> 30u64), 0x94D0_49BB_1331_11EB);
    let b = y ^ (y >> 29u64);
    (a, b)
}

/// 32 lowercase hex digits derived from a per-request seed.
pub open spec fn spec_trace_hex(seed: u64) -> Seq<char> {
    hex_fixed(spec_trace_halves(seed).0 as nat, 16) + hex_fixed(spec_trace_halves(seed).1 as nat, 16)
}

/// A 32-hex-digit trace id body, derived from a per-request seed.
pub fn trace_hex(seed: u64) -> (s: String)
    ensures
        s@ == spec_trace_hex(seed),
{
    let mut x = seed.wrapping_add(0x9E37_79B9_7F4A_7C15);
    x = (x ^ (x >> 30u64)).wrapping_mul(0xBF58_476D_1CE4_E5B9);
    let a = x ^ (x >> 31u64);
    let mut y = a.wrapping_add(0x9E37_79B9_7F4A_7C15);
    y = (y ^ (y >> 30u64)).wrapping_mul(0x94D0_49BB_1331_11EB);
    let b = y ^ (y >> 29u64);
    let mut s = String::new();
    push_hex_fixed(&mut s, a, 16);
    push_hex_fixed(&mut s, b, 16);
    s
}

/// A header as name and value characters.
pub type HeaderView = (Seq<char>, Seq<char>);

/// The views of a list of headers.
pub open spec fn headers_view(h: Seq<(String, String)>) -> Seq<HeaderView> {
    h.map_values(|p: (String, String)| (p.0@, p.1@))
}

/// The headers an API call carries, in order, before empty values are
/// dropped: client identity, the trace id, then the session token twice.
pub open spec fn header_candidates(cfg: ClientConfig, session: Option<Session>, seed: u64) -> Seq<
    HeaderView,
> {
    let identity = seq![
        ("X-APP-VERSION"@, cfg.app_version@),
        ("app_traffic"@, cfg.app_traffic@),
        ("X-Equipment-Code"@, cfg.equipment_code@),
        ("x-insta360-platform"@, spec_platform_header(cfg.platform)),
        ("X-Language"@, cfg.language@),
        ("X-MainLand"@, spec_mainland_flag(cfg.region)),
        ("Referer"@, "https://cloud.insta360.com/"@),
        ("X-Insta360-Trace-Id"@, "pc"@ + spec_trace_hex(seed)),
    ];
    match session {
        Some(s) => identity + seq![
            ("Authentication"@, s.user_token@),
            ("X-User-Token"@, s.user_token@),
        ],
        None => identity,
    }
}

/// The message of a refused header name.
pub open spec fn bad_name_message(name: Seq<char>) -> Seq<char> {
    "bad header name "@ + name + ": invalid HTTP header name"@
}

/// The message of a refused header value.
pub open spec fn bad_value_message(name: Seq<char>) -> Seq<char> {
    "bad header value for "@ + name + ": failed to parse header value"@
}

/// Putting candidate headers in order: a header with an empty value is
/// skipped; the first refused name or value ends with its message;
/// otherwise the headers kept, in order.
pub open spec fn put_headers(c: Seq<HeaderView>) -> core::result::Result<Seq<HeaderView>, Seq<char>>
    decreases c.len(),
{
    if c.len() == 0 {
        Ok(Seq::empty())
    } else {
        let (n, v) = c[0];
        if v.len() == 0 {
            put_headers(c.drop_first())
        } else if !spec_header_name_ok(n) {
            Err(bad_name_message(n))
        } else if !spec_header_value_ok(v) {
            Err(bad_value_message(n))
        } else {
            match put_headers(c.drop_first()) {
                Ok(rest) => Ok(seq![(n, v)] + rest),
                Err(m) => Err(m),
            }
        }
    }
}

/// Whether a header-building result is the outcome of putting `c`.
pub open spec fn headers_match(r: Result<Vec<(String, String)>>, c: Seq<HeaderView>) -> bool {
    match r {
        Ok(h) => put_headers(c) == Ok::<Seq<HeaderView>, Seq<char>>(headers_view(h@)),
        Err(e) => e matches CloudError::Signing(m) && put_headers(c) == Err::<
            Seq<HeaderView>,
            Seq<char>,
        >(m@),
    }
}

fn cat(a: &str, b: &str, c: &str) -> (s: String)
    ensures
        s@ == a@ + b@ + c@,
{
    let mut s = a.to_owned();
    s.append(b);
    s.append(c);
    s
}

/// Assemble the identity and auth headers of an API call, given the trace
/// seed of the request.
pub fn headers_for(cfg: &ClientConfig, session: Option<&Session>, seed: u64) -> (r: Result<
    Vec<(String, String)>,
>)
    ensures
        headers_match(
            r,
            header_candidates(
                *cfg,
                session_of(session),
                seed,
            ),
        ),
{
    let ghost sess = session_of(session);
    let mut cands: Vec<(String, String)> = Vec::new();
    cands.push(("X-APP-VERSION".to_owned(), cfg.app_version.clone()));
    cands.push(("app_traffic".to_owned(), cfg.app_traffic.clone()));
    cands.push(("X-Equipment-Code".to_owned(), cfg.equipment_code.clone()));
    cands.push(("x-insta360-platform".to_owned(), cfg.platform.header_value().to_owned()));
    cands.push(("X-Language".to_owned(), cfg.language.clone()));
    cands.push(("X-MainLand".to_owned(), cfg.region.mainland_flag().to_owned()));
    cands.push(("Referer".to_owned(), "https://cloud.insta360.com/".to_owned()));
    let mut trace = "pc".to_owned();
    trace.append(trace_hex(seed).as_str());
    cands.push(("X-Insta360-Trace-Id".to_owned(), trace));
    match session {
        Some(s) => {
            cands.push(("Authentication".to_owned(), s.user_token.clone()));
            cands.push(("X-User-Token".to_owned(), s.user_token.clone()));
        },
        None => {},
    }
    let ghost c = header_candidates(*cfg, sess, seed);
    assert(headers_view(cands@) =~= c);
    let mut out: Vec<(String, String)> = Vec::new();
    let mut i: usize = 0;
    assert(c.skip(0) =~= c);
    while i < cands.len()
        invariant
            i <= cands.len(),
            headers_view(cands@) == c,
            c == header_candidates(*cfg, sess, seed),
            sess == session_of(session),
            put_headers(c) == match put_headers(c.skip(i as int)) {
                Ok(rest) => Ok::<Seq<HeaderView>, Seq<char>>(headers_view(out@) + rest),
                Err(m) => Err(m),
            },
        decreases cands.len() - i,
    {
        let ghost tail = c.skip(i as int);
        assert(tail[0] == c[i as int]);
        assert(tail.drop_first() =~= c.skip(i + 1));
        let name = &cands[i].0;
        let value = &cands[i].1;
        assert(c[i as int] == (name@, value@));
        if !value.as_str().is_empty() {
            if !header_name_valid(name.as_str()) {
                assert(put_headers(tail) == Err::<Seq<HeaderView>, Seq<char>>(
                    bad_name_message(name@),
                ));
                return Err(
                    CloudError::Signing(
                        cat("bad header name ", name.as_str(), ": invalid HTTP header name"),
                    ),
                );
            }
            if !header_value_valid(value.as_str()) {
                assert(put_headers(tail) == Err::<Seq<HeaderView>, Seq<char>>(
                    bad_value_message(name@),
                ));
                return Err(
                    CloudError::Signing(
                        cat("bad header value for ", name.as_str(), ": failed to parse header value"),
                    ),
                );
            }
            let ghost before = headers_view(out@);
            out.push((name.clone(), value.clone()));
            assert(headers_view(out@) =~= before + seq![(name@, value@)]);
            proof {
                match put_headers(c.skip(i + 1)) {
                    Ok(rest) => {
                        assert(before + seq![(name@, value@)] + rest =~= before + (seq![
                            (name@, value@),
                        ] + rest));
                    },
                    Err(m) => {},
                }
            }
        }
        i = i + 1;
    }
    assert(c.skip(i as int) =~= Seq::<HeaderView>::empty());
    assert(headers_view(out@) + Seq::<HeaderView>::empty() =~= headers_view(out@));
    Ok(out)
}

/// Client for the Insta360 cloud API: configuration, signer, API hosts and
/// the per-request trace counter, plus the HTTP stack the caller sends with.
#[derive(Clone)]
pub struct CloudClient {
    http: reqwest::Client,
    cfg: ClientConfig,
    signer: Signer,
    base: String,
    cloud_base: String,
    nonce_seed: Arc<AtomicU64>,
}

/// The abstract state of a [`CloudClient`].
pub struct CloudClientView {
    pub cfg: ClientConfig,
    pub signer: SignerView,
    /// Account/app API host.
    pub base: Seq<char>,
    /// Cloud media API host.
    pub cloud_base: Seq<char>,
}

impl View for CloudClient {
    type V = CloudClientView;

    closed spec fn view(&self) -> CloudClientView {
        CloudClientView {
            cfg: self.cfg,
            signer: self.signer@,
            base: self.base@,
            cloud_base: self.cloud_base@,
        }
    }
}

/// An API endpoint with its arguments.
#[derive(Debug, Clone)]
pub enum Endpoint {
    /// `GET {openapi}/account/v2/getProfile`.
    Profile,
    /// `GET {openapi}/account/v2/refreshToken`.
    Refresh,
    /// `GET {cloud}/cloud/service/media/view/list?pageNumber&pageSize`.
    ListMedia(PageCursor),
    /// `GET {cloud}/cloud/service/media/view/detail?mediaId`.
    MediaDetail(MediaId),
    /// `GET {cloud}/cloud/service/media/download?mediaId`.
    ResolveDownload(MediaId),
}

/// The URL of an endpoint on the given hosts.
pub open spec fn spec_endpoint_url(base: Seq<char>, cloud_base: Seq<char>, ep: Endpoint) -> Seq<char> {
    match ep {
        Endpoint::Profile => base + "/account/v2/getProfile"@,
        Endpoint::Refresh => base + "/account/v2/refreshToken"@,
        Endpoint::ListMedia(_) => cloud_base + "/cloud/service/media/view/list"@,
        Endpoint::MediaDetail(_) => cloud_base + "/cloud/service/media/view/detail"@,
        Endpoint::ResolveDownload(_) => cloud_base + "/cloud/service/media/download"@,
    }
}

/// The query parameters of an endpoint, in order.
pub open spec fn spec_endpoint_query(ep: Endpoint) -> Seq<HeaderView> {
    match ep {
        Endpoint::Profile => Seq::empty(),
        Endpoint::Refresh => Seq::empty(),
        Endpoint::ListMedia(c) => seq![
            ("pageNumber"@, dec_nat(c.page as nat)),
            ("pageSize"@, dec_nat(c.count as nat)),
        ],
        Endpoint::MediaDetail(id) => seq![("mediaId"@, id@)],
        Endpoint::ResolveDownload(id) => seq![("mediaId"@, id@)],
    }
}

/// The abstract state of a client built from `cfg`.
pub open spec fn spec_client_view(cfg: ClientConfig) -> CloudClientView {
    CloudClientView {
        cfg: cfg,
        signer: SignerView {
            app_key: cfg.app_key@,
            sign_key: cfg.sign_key@,
            can_sign: cfg.spec_can_sign(),
        },
        base: spec_openapi_base(cfg.region),
        cloud_base: spec_cloud_base(cfg.region),
    }
}

impl CloudClient {
    /// Construct a client from config. Fails only if the TLS/HTTP stack
    /// cannot be built; the stack sends `cfg.user_agent` as its user agent.
    pub fn new(cfg: ClientConfig) -> (r: Result<CloudClient>)
        ensures
            r matches Ok(c) ==> c@ == spec_client_view(cfg) && spec_http_user_agent(c.http_stack())
                == cfg.user_agent@,
            r matches Err(e) ==> e is Http,
    {
        let http = match build_http(cfg.user_agent.as_str()) {
            Ok(h) => h,
            Err(e) => {
                return Err(CloudError::Http(e));
            },
        };
        Ok(CloudClient::from_stack(cfg, http))
    }

    /// A client from config and an already built HTTP stack.
    pub fn from_stack(cfg: ClientConfig, http: reqwest::Client) -> (c: CloudClient)
        ensures
            c@ == spec_client_view(cfg),
            c.http_stack() == http,
    {
        let signer = Signer::new(&cfg);
        let base = cfg.region.openapi_base().to_owned();
        let cloud_base = cfg.region.cloud_base().to_owned();
        CloudClient { http, signer, base, cloud_base, cfg, nonce_seed: Arc::new(AtomicU64::new(0)) }
    }

    /// The HTTP stack this client was built with.
    pub closed spec fn http_stack(&self) -> reqwest::Client {
        self.http
    }

    /// The underlying HTTP client (the download path uses it for the plain
    /// GET of signed storage URLs).
    pub fn http(&self) -> (h: &reqwest::Client)
        ensures
            *h == self.http_stack(),
    {
        &self.http
    }

    /// The configuration this client was built from.
    pub fn config(&self) -> (c: &ClientConfig)
        ensures
            *c == self@.cfg,
    {
        &self.cfg
    }

    /// The identity and auth headers of the next API call. Each call takes a
    /// fresh trace seed from the shared counter; what the counter hands out
    /// is not known here, so the headers are those of some seed.
    pub fn build_headers(&self, session: Option<&Session>) -> (r: Result<Vec<(String, String)>>)
        ensures
            exists|seed: u64|
                headers_match(
                    r,
                    #[trigger] header_candidates(
                        self@.cfg,
                        session_of(session),
                        seed,
                    ),
                ),
    {
        let seed = self.nonce_seed.fetch_add(1, Ordering::Relaxed);
        let r = headers_for(&self.cfg, session, seed);
        assert(headers_match(
            r,
            header_candidates(
                self@.cfg,
                session_of(session),
                seed,
            ),
        ));
        r
    }

    /// The URL of an endpoint.
    pub fn endpoint_url(&self, ep: &Endpoint) -> (u: String)
        ensures
            u@ == spec_endpoint_url(self@.base, self@.cloud_base, *ep),
    {
        let mut u = match ep {
            Endpoint::Profile | Endpoint::Refresh => self.base.clone(),
            _ => self.cloud_base.clone(),
        };
        match ep {
            Endpoint::Profile => u.append("/account/v2/getProfile"),
            Endpoint::Refresh => u.append("/account/v2/refreshToken"),
            Endpoint::ListMedia(_) => u.append("/cloud/service/media/view/list"),
            Endpoint::MediaDetail(_) => u.append("/cloud/service/media/view/detail"),
            Endpoint::ResolveDownload(_) => u.append("/cloud/service/media/download"),
        }
        u
    }
}

/// The query parameters of an endpoint.
pub fn endpoint_query(ep: &Endpoint) -> (q: Vec<(String, String)>)
    ensures
        headers_view(q@) == spec_endpoint_query(*ep),
{
    let mut q: Vec<(String, String)> = Vec::new();
    match ep {
        Endpoint::ListMedia(c) => {
            let mut p = String::new();
            push_decimal(&mut p, c.page as u64);
            let mut n = String::new();
            push_decimal(&mut n, c.count as u64);
            q.push(("pageNumber".to_owned(), p));
            q.push(("pageSize".to_owned(), n));
        },
        Endpoint::MediaDetail(id) => {
            q.push(("mediaId".to_owned(), id.0.clone()));
        },
        Endpoint::ResolveDownload(id) => {
            q.push(("mediaId".to_owned(), id.0.clone()));
        },
        _ => {},
    }
    assert(headers_view(q@) =~= spec_endpoint_query(*ep));
    q
}

/// A `401` answer is an auth failure; any other status goes on to decoding.
pub fn check_unauthorized(url: &str, status: u16) -> (r: Result<()>)
    ensures
        status == 401 ==> (r matches Err(CloudError::Auth(m)) && m@ == "401 from "@ + url@),
        status != 401 ==> r is Ok,
{
    if status == 401 {
        let mut m = "401 from ".to_owned();
        m.append(url);
        return Err(CloudError::Auth(m));
    }
    Ok(())
}

/// The message of a response body that is not a valid envelope: the URL,
/// the status, the decoding error and the first 200 characters of the body.
pub open spec fn bad_response_message(
    url: Seq<char>,
    status_text: Seq<char>,
    error_text: Seq<char>,
    body: Seq<char>,
) -> Seq<char> {
    "bad response from "@ + url + " (http "@ + status_text + "): "@ + error_text + "; body: "@
        + body.take(
        if body.len() < 200 {
            body.len() as int
        } else {
            200
        },
    )
}

/// The error of a response body that is not a valid envelope: an API error
/// carrying the HTTP status as its code, and a message naming the URL, the
/// status, the decoding error and the first 200 characters of the body.
pub fn bad_response(url: &str, status: u16, status_text: &str, error_text: &str, body: &str) -> (e:
    CloudError)
    ensures
        e matches CloudError::Api { code, message } && code == status as i64 && message@
            == bad_response_message(url@, status_text@, error_text@, body@),
{
    let mut m = "bad response from ".to_owned();
    m.append(url);
    m.append(" (http ");
    m.append(status_text);
    m.append("): ");
    m.append(error_text);
    m.append("; body: ");
    m.append(str_prefix(body, 200).as_str());
    CloudError::Api { code: status as i64, message: m }
}

/// Whether an envelope failure is an auth failure: code 401, or a message
/// that mentions a token (compared in lowercase).
pub open spec fn spec_is_token_failure(code: i64, lower_message: Seq<char>) -> bool {
    code == 401 || contains(lower_message, "token"@)
}

/// Whether `e` is the error of a failed envelope with the given code and
/// message, `lower_message` being the message in lowercase.
pub open spec fn is_envelope_error(
    e: CloudError,
    code: i64,
    message: Seq<char>,
    lower_message: Seq<char>,
) -> bool {
    if spec_is_token_failure(code, lower_message) {
        e matches CloudError::Auth(m) && m@ == "api code "@ + dec_int(code as int) + ": "@ + message
    } else {
        e matches CloudError::Api { code: c, message: m } && c == code && m@ == message
    }
}

/// The error of a failed envelope, given its message in lowercase.
pub fn envelope_error(code: i64, message: String, lowered: &str) -> (e: CloudError)
    ensures
        is_envelope_error(e, code, message@, lowered@),
{
    if code == 401 || str_contains(lowered, "token") {
        let mut m = "api code ".to_owned();
        push_decimal_signed(&mut m, code);
        m.append(": ");
        m.append(message.as_str());
        CloudError::Auth(m)
    } else {
        CloudError::Api { code, message }
    }
}

/// Whether `r` is the outcome of a decoded envelope: its data when the
/// code reports success and data is present, an "empty data" API error
/// when it is absent, else the error that the code and message describe.
pub open spec fn envelope_outcome<T>(env: Envelope<T>, r: Result<T>) -> bool {
    &&& !code_is_ok(env.code) ==> ({
        let code: i64 = match env.code {
            Some(c) => c,
            None => -1i64,
        };
        let msg = match opt_view(env.message) {
            Some(m) => m,
            None => Seq::empty(),
        };
        r matches Err(e) && is_envelope_error(e, code, msg, spec_to_lowercase(msg))
    })
    &&& code_is_ok(env.code) && env.data is None ==> (r matches Err(
        CloudError::Api { code, message },
    ) && code == 0 && message@ == "empty data"@)
    &&& code_is_ok(env.code) && env.data is Some ==> r == Ok::<T, CloudError>(env.data->0)
}

/// The payload of a decoded envelope: its data when the code reports
/// success, else the error the code and message describe.
pub fn check_envelope<T>(env: Envelope<T>) -> (r: Result<T>)
    ensures
        envelope_outcome(env, r),
{
    if !env.is_ok() {
        let code = match env.code {
            Some(c) => c,
            None => -1,
        };
        let msg = match env.message {
            Some(m) => m,
            None => String::new(),
        };
        let lowered = to_lowercase(msg.as_str());
        return Err(envelope_error(code, msg, lowered.as_str()));
    }
    match env.data {
        Some(d) => Ok(d),
        None => Err(CloudError::Api { code: 0, message: "empty data".to_owned() }),
    }
}

/// The payload of an API response, checked in order: a `401` status is an
/// auth failure; otherwise a body that did not decode as an envelope (given
/// as the decoding error's text) is a bad response; otherwise the envelope
/// decides.
pub fn check_response<T>(
    url: &str,
    status: u16,
    status_text: &str,
    body: &str,
    decoded: core::result::Result<Envelope<T>, String>,
) -> (r: Result<T>)
    ensures
        status == 401 ==> (r matches Err(CloudError::Auth(m)) && m@ == "401 from "@ + url@),
        status != 401 ==> match decoded {
            Err(msg) => r matches Err(CloudError::Api { code, message }) && code == status as i64
                && message@ == bad_response_message(url@, status_text@, msg@, body@),
            Ok(env) => envelope_outcome(env, r),
        },
{
    match check_unauthorized(url, status) {
        Err(e) => {
            return Err(e);
        },
        Ok(()) => {},
    }
    match decoded {
        Err(msg) => Err(bad_response(url, status, status_text, msg.as_str(), body)),
        Ok(env) => check_envelope(env),
    }
}

} // verus!
