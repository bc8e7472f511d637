//! The HTTP client of the Control server: its options, the endpoint it talks
//! to, the requests it frames, the responses it reads and when it retries.
//! Sending and receiving the bytes is left to the caller.
use vstd::prelude::*;
use std::time::Duration;
use crate::models::OAuthProvider;
use vstd::utf8::encode_utf8;
use crate::text::{
    chars_of, decimal_string, decimal_text, is_blank, owned, parse_unsigned, parse_unsigned_at,
    push_char, push_str, rsplit_once_spec, split_once_spec, string_of, trim, word_at,
};

verus! {

#[verifier::external_type_specification]
#[verifier::external_body]
pub struct ExIoError(std::io::Error);

#[verifier::external_type_specification]
#[verifier::external_body]
pub struct ExJsonError(serde_json::Error);

/// What `Duration::from_millis` gives for a number of milliseconds.
pub uninterp spec fn millis_duration(ms: u64) -> Duration;

/// `Duration::from_millis`; the duration is named by `millis_duration`.
#[verifier::external_body]
pub(crate) fn duration_from_millis(ms: u64) -> (d: Duration)
    ensures
        d == millis_duration(ms),
{
    Duration::from_millis(ms)
}

/// An HTTP status code.
#[derive(Clone, Copy, Debug, PartialEq, Eq, Structural)]
pub struct StatusCode(u16);

impl StatusCode {
    /// The number of the code.
    pub closed spec fn code(self) -> u16 {
        self.0
    }

    /// A status code is its number: two codes are equal exactly when their
    /// numbers are, so `from_u16` neither maps nor merges numbers.
    pub proof fn law_code_is_its_number(a: StatusCode, b: StatusCode)
        ensures
            (a == b) <==> (a.code() == b.code()),
    {
    }

    pub fn from_u16(value: u16) -> (r: Self)
        ensures
            r.code() == value,
    {
        StatusCode(value)
    }

    pub fn as_u16(self) -> (r: u16)
        ensures
            r == self.code(),
    {
        self.0
    }

    /// A 2xx code.
    pub fn is_success(self) -> (r: bool)
        ensures
            r == (200 <= self.code() < 300),
    {
        200 <= self.0 && self.0 < 300
    }

    /// A code worth retrying: request timeout, too many requests, or any
    /// server error (5xx).
    pub fn is_retryable(self) -> (r: bool)
        ensures
            r == (self.code() == 408 || self.code() == 429 || (500 <= self.code() && self.code() <= 599)),
    {
        self.0 == 408 || self.0 == 429 || (500 <= self.0 && self.0 <= 599)
    }

    /// The code as `Display` writes it.
    pub fn to_text(self) -> (r: String)
        ensures
            r@ == decimal_text(self.code() as nat),
    {
        decimal_string(self.0 as u64)
    }
}

#[derive(Debug)]
pub enum ControlClientError {
    InvalidBaseUrl { value: String, reason: String },
    Io(std::io::Error),
    Timeout { timeout: Duration },
    Json(serde_json::Error),
    HttpStatus { status_code: StatusCode, body: Vec<u8> },
    MalformedResponse { reason: String },
}

impl ControlClientError {
    /// Whether the request may succeed when it is sent again: failures of the
    /// connection and timeouts, and retryable status codes.
    pub fn is_retryable(&self) -> (r: bool)
        ensures
            r == match self {
                ControlClientError::Io(_) => true,
                ControlClientError::Timeout { .. } => true,
                ControlClientError::HttpStatus { status_code, .. } => {
                    let c = status_code.code();
                    c == 408 || c == 429 || (500 <= c && c <= 599)
                },
                _ => false,
            },
    {
        match self {
            ControlClientError::Io(_) => true,
            ControlClientError::Timeout { .. } => true,
            ControlClientError::HttpStatus { status_code, .. } => status_code.is_retryable(),
            ControlClientError::InvalidBaseUrl { .. } => false,
            ControlClientError::Json(_) => false,
            ControlClientError::MalformedResponse { .. } => false,
        }
    }
}

/// How the client times out and retries requests.
#[derive(Clone, Copy, Debug, PartialEq, Eq)]
pub struct HttpControlClientOptions {
    request_timeout: Option<Duration>,
    max_retries: u32,
    retry_backoff: Duration,
}

impl HttpControlClientOptions {
    pub closed spec fn timeout_spec(self) -> Option<Duration> {
        self.request_timeout
    }

    pub closed spec fn retries_spec(self) -> u32 {
        self.max_retries
    }

    pub closed spec fn backoff_spec(self) -> Duration {
        self.retry_backoff
    }

    /// A copy of the options.
    pub fn copied(&self) -> (r: Self)
        ensures
            r == *self,
    {
        HttpControlClientOptions {
            request_timeout: self.request_timeout,
            max_retries: self.max_retries,
            retry_backoff: self.retry_backoff,
        }
    }

    pub fn request_timeout(&self) -> (r: Option<Duration>)
        ensures
            r == self.timeout_spec(),
    {
        self.request_timeout
    }

    pub fn max_retries(&self) -> (r: u32)
        ensures
            r == self.retries_spec(),
    {
        self.max_retries
    }

    pub fn retry_backoff(&self) -> (r: Duration)
        ensures
            r == self.backoff_spec(),
    {
        self.retry_backoff
    }

    pub fn with_request_timeout(self, timeout: Duration) -> (r: Self)
        ensures
            r.timeout_spec() == Some(timeout),
            r.retries_spec() == self.retries_spec(),
            r.backoff_spec() == self.backoff_spec(),
    {
        HttpControlClientOptions { request_timeout: Some(timeout), ..self }
    }

    pub fn without_request_timeout(self) -> (r: Self)
        ensures
            r.timeout_spec() is None,
            r.retries_spec() == self.retries_spec(),
            r.backoff_spec() == self.backoff_spec(),
    {
        HttpControlClientOptions { request_timeout: None, ..self }
    }

    pub fn with_max_retries(self, max_retries: u32) -> (r: Self)
        ensures
            r.timeout_spec() == self.timeout_spec(),
            r.retries_spec() == max_retries,
            r.backoff_spec() == self.backoff_spec(),
    {
        HttpControlClientOptions { max_retries, ..self }
    }

    pub fn with_retry_backoff(self, retry_backoff: Duration) -> (r: Self)
        ensures
            r.timeout_spec() == self.timeout_spec(),
            r.retries_spec() == self.retries_spec(),
            r.backoff_spec() == retry_backoff,
    {
        HttpControlClientOptions { retry_backoff, ..self }
    }
}

impl Default for HttpControlClientOptions {
    /// No timeout, no retries, no backoff.
    fn default() -> (r: Self)
        ensures
            r.timeout_spec() is None,
            r.retries_spec() == 0,
            r.backoff_spec() == millis_duration(0),
    {
        HttpControlClientOptions {
            request_timeout: None,
            max_retries: 0,
            retry_backoff: duration_from_millis(0),
        }
    }
}

/// Counts the attempts of one request and decides whether to send it again.
pub struct RequestAttempts {
    retries: u32,
}

impl RequestAttempts {
    /// The number of retries made so far.
    pub closed spec fn retries_made(self) -> u32 {
        self.retries
    }

    pub fn new() -> (r: Self)
        ensures
            r.retries_made() == 0,
    {
        RequestAttempts { retries: 0 }
    }

    /// After an attempt whose outcome is `retryable` or not: whether to send
    /// the request again. It is sent again while the outcome is retryable and
    /// fewer than `max_retries` retries were made.
    pub fn retry_after(&mut self, retryable: bool, max_retries: u32) -> (again: bool)
        ensures
            again == (retryable && old(self).retries_made() < max_retries),
            again ==> final(self).retries_made() == old(self).retries_made() + 1,
            !again ==> final(self).retries_made() == old(self).retries_made(),
    {
        if retryable && self.retries < max_retries {
            self.retries = self.retries + 1;
            true
        } else {
            false
        }
    }
}

/// How many times a request is sent when its attempts come out, in order,
/// retryable or not as `outcomes` says, `made` retries having been made:
/// each attempt is followed by another exactly when `retry_after` grants one.
pub open spec fn times_sent(outcomes: Seq<bool>, made: nat, max_retries: nat) -> nat
    decreases outcomes.len(),
{
    if outcomes.len() == 0 {
        0
    } else if outcomes[0] && made < max_retries {
        1 + times_sent(outcomes.drop_first(), made + 1, max_retries)
    } else {
        1
    }
}

/// Whatever the outcomes, a request is sent at most `max_retries + 1` times.
pub proof fn law_retries_are_bounded(outcomes: Seq<bool>, max_retries: u32)
    ensures
        times_sent(outcomes, 0, max_retries as nat) <= max_retries + 1,
{
    lemma_times_sent_bound(outcomes, 0, max_retries as nat);
}

proof fn lemma_times_sent_bound(outcomes: Seq<bool>, made: nat, max_retries: nat)
    requires
        made <= max_retries,
    ensures
        times_sent(outcomes, made, max_retries) <= max_retries - made + 1,
    decreases outcomes.len(),
{
    if outcomes.len() > 0 && outcomes[0] && made < max_retries {
        lemma_times_sent_bound(outcomes.drop_first(), made + 1, max_retries);
    }
}

// ---------------------------------------------------------------------------
// The endpoint.

pub open spec fn http_scheme() -> Seq<char> {
    seq!['h', 't', 't', 'p', ':', '/', '/']
}

/// Trailing `/` characters removed.
pub open spec fn trim_trailing_slashes(s: Seq<char>) -> Seq<char>
    decreases s.len(),
{
    if s.len() > 0 && s.last() == '/' {
        trim_trailing_slashes(s.drop_last())
    } else {
        s
    }
}

/// The host and port of a base URL, or why it is refused.
pub open spec fn parse_endpoint(s: Seq<char>) -> Result<(Seq<char>, u16), Seq<char>> {
    if !(s.len() >= 7 && s.take(7) == http_scheme()) {
        Err("only http:// URLs are supported"@)
    } else {
        match rsplit_once_spec(trim_trailing_slashes(s.skip(7)), ':') {
            None => Err("missing host:port"@),
            Some((host, port)) => if trim(host).len() == 0 {
                Err("host must not be empty"@)
            } else {
                match parse_unsigned(port, 65535) {
                    None => Err("port must be a valid u16"@),
                    Some(n) => Ok((host, n as u16)),
                }
            },
        }
    }
}

/// `host:port`.
pub open spec fn host_port(host: Seq<char>, port: u16) -> Seq<char> {
    host + seq![':'] + decimal_text(port as nat)
}

/// The host and port of the Control server.
#[derive(Clone, Debug, PartialEq, Eq)]
pub struct ControlEndpoint {
    host: String,
    port: u16,
}

impl ControlEndpoint {
    pub closed spec fn host_spec(&self) -> Seq<char> {
        self.host@
    }

    pub closed spec fn port_spec(&self) -> u16 {
        self.port
    }

    pub fn copied(&self) -> (r: Self)
        ensures
            r.host_spec() == self.host_spec(),
            r.port_spec() == self.port_spec(),
    {
        ControlEndpoint { host: self.host.clone(), port: self.port }
    }

    /// Reads `http://host:port`, with any trailing slashes.
    pub fn parse(base_url: &str) -> (r: Result<Self, ControlClientError>)
        ensures
            match parse_endpoint(base_url@) {
                Ok((host, port)) => r matches Ok(e) && e.host_spec() == host && e.port_spec() == port,
                Err(reason) => r matches Err(ControlClientError::InvalidBaseUrl { value, reason: why })
                    && value@ == base_url@ && why@ == reason,
            },
    {
        let v = chars_of(base_url);
        let scheme = v.len() >= 7 && v[0] == 'h' && v[1] == 't' && v[2] == 't' && v[3] == 'p' && v[4]
            == ':' && v[5] == '/' && v[6] == '/';
        if !scheme {
            proof {
                if v@.len() >= 7 && v@.take(7) == http_scheme() {
                    assert(v@[0] == v@.take(7)[0] && v@[1] == v@.take(7)[1] && v@[2] == v@.take(7)[2]
                        && v@[3] == v@.take(7)[3] && v@[4] == v@.take(7)[4] && v@[5] == v@.take(7)[5]
                        && v@[6] == v@.take(7)[6]);
                }
            }
            return Err(
                ControlClientError::InvalidBaseUrl {
                    value: owned(base_url),
                    reason: owned("only http:// URLs are supported"),
                },
            );
        }
        assert(v@.take(7) =~= http_scheme());
        let mut end = v.len();
        assert(v@.skip(7) =~= v@.subrange(7, end as int));
        while end > 7 && v[end - 1] == '/'
            invariant
                7 <= end <= v@.len(),
                trim_trailing_slashes(v@.skip(7)) == trim_trailing_slashes(v@.subrange(7, end as int)),
            decreases end,
        {
            assert(v@.subrange(7, end as int).drop_last() =~= v@.subrange(7, end - 1));
            end = end - 1;
        }
        assert(trim_trailing_slashes(v@.subrange(7, end as int)) == v@.subrange(7, end as int));
        let split = crate::text::rsplit_once_in(&v, 7, end, ':');
        let i = match split {
            Some(i) => i,
            None => {
                return Err(
                    ControlClientError::InvalidBaseUrl {
                        value: owned(base_url),
                        reason: owned("missing host:port"),
                    },
                );
            },
        };
        let host = string_of(&v, 7, i);
        if is_blank(host.as_str()) {
            return Err(
                ControlClientError::InvalidBaseUrl {
                    value: owned(base_url),
                    reason: owned("host must not be empty"),
                },
            );
        }
        match parse_unsigned_at(&v, i + 1, end, 65535) {
            Some(port) => Ok(ControlEndpoint { host, port: port as u16 }),
            None => Err(
                ControlClientError::InvalidBaseUrl {
                    value: owned(base_url),
                    reason: owned("port must be a valid u16"),
                },
            ),
        }
    }

    /// `host:port`, the address to connect to.
    pub fn addr(&self) -> (r: String)
        ensures
            r@ == host_port(self.host_spec(), self.port_spec()),
    {
        let mut s = self.host.clone();
        push_char(&mut s, ':');
        let p = decimal_string(self.port as u64);
        push_str(&mut s, p.as_str());
        assert(s@ =~= host_port(self.host_spec(), self.port_spec()));
        s
    }

    /// The value of the `Host` header.
    pub fn host_header(&self) -> (r: String)
        ensures
            r@ == host_port(self.host_spec(), self.port_spec()),
    {
        self.addr()
    }
}

// ---------------------------------------------------------------------------
// The client.

/// Whether a token has the shape `payload.signature` of a signed token:
/// some text before and after its first dot.
pub open spec fn signed_token_shape(t: Seq<char>) -> bool {
    match split_once_spec(t, '.') {
        Some((payload, signature)) => payload.len() > 0 && signature.len() > 0,
        None => false,
    }
}

pub fn looks_like_signed_token(token: &str) -> (r: bool)
    ensures
        r == signed_token_shape(token@),
{
    let v = chars_of(token);
    match crate::text::split_once_at(&v, '.') {
        Some(i) => i > 0 && i < v.len() - 1,
        None => false,
    }
}

/// The header line that carries a bearer token, if there is one.
pub open spec fn authorization_line(token: Option<Seq<char>>) -> Seq<char> {
    match token {
        Some(t) => "Authorization: Bearer "@ + t + "\r\n"@,
        None => Seq::empty(),
    }
}

/// The request line and headers of a request with a JSON body of `len`
/// bytes.
pub open spec fn request_head_text(
    method: Seq<char>,
    path: Seq<char>,
    host: Seq<char>,
    auth: Seq<char>,
    len: nat,
) -> Seq<char> {
    method + " "@ + path + " HTTP/1.1\r\nHost: "@ + host + "\r\n"@ + auth
        + "Content-Type: application/json\r\nContent-Length: "@ + decimal_text(len)
        + "\r\nConnection: close\r\n\r\n"@
}

/// A client of the Control server's HTTP API.
#[derive(Clone, Debug)]
pub struct HttpControlClient {
    endpoint: ControlEndpoint,
    bearer_token: Option<String>,
    options: HttpControlClientOptions,
}

pub open spec fn opt_chars(o: Option<String>) -> Option<Seq<char>> {
    match o {
        Some(s) => Some(s@),
        None => None,
    }
}

impl HttpControlClient {
    pub closed spec fn endpoint_spec(&self) -> (Seq<char>, u16) {
        (self.endpoint.host_spec(), self.endpoint.port_spec())
    }

    pub closed spec fn token_spec(&self) -> Option<Seq<char>> {
        opt_chars(self.bearer_token)
    }

    pub closed spec fn options_spec(&self) -> HttpControlClientOptions {
        self.options
    }

    pub fn new(base_url: &str) -> (r: Result<Self, ControlClientError>)
        ensures
            match parse_endpoint(base_url@) {
                Ok(e) => r matches Ok(c) && c.endpoint_spec() == e && c.token_spec() is None
                    && c.options_spec().timeout_spec() is None && c.options_spec().retries_spec() == 0
                    && c.options_spec().backoff_spec() == millis_duration(0),
                Err(reason) => r matches Err(ControlClientError::InvalidBaseUrl { value, reason: why })
                    && value@ == base_url@ && why@ == reason,
            },
    {
        Self::with_options(base_url, HttpControlClientOptions::default())
    }

    pub fn with_options(base_url: &str, options: HttpControlClientOptions) -> (r: Result<
        Self,
        ControlClientError,
    >)
        ensures
            match parse_endpoint(base_url@) {
                Ok(e) => r matches Ok(c) && c.endpoint_spec() == e && c.token_spec() is None
                    && c.options_spec() == options,
                Err(reason) => r matches Err(ControlClientError::InvalidBaseUrl { value, reason: why })
                    && value@ == base_url@ && why@ == reason,
            },
    {
        let endpoint = ControlEndpoint::parse(base_url)?;
        Ok(HttpControlClient { endpoint, bearer_token: None, options })
    }

    pub fn with_bearer_token(base_url: &str, bearer_token: &str) -> (r: Result<Self, ControlClientError>)
        ensures
            match parse_endpoint(base_url@) {
                Ok(e) => r matches Ok(c) && c.endpoint_spec() == e && c.token_spec() == Some(bearer_token@)
                    && c.options_spec().timeout_spec() is None && c.options_spec().retries_spec() == 0
                    && c.options_spec().backoff_spec() == millis_duration(0),
                Err(reason) => r matches Err(ControlClientError::InvalidBaseUrl { value, reason: why })
                    && value@ == base_url@ && why@ == reason,
            },
    {
        Self::with_bearer_token_and_options(
            base_url,
            bearer_token,
            HttpControlClientOptions::default(),
        )
    }

    pub fn with_bearer_token_and_options(
        base_url: &str,
        bearer_token: &str,
        options: HttpControlClientOptions,
    ) -> (r: Result<Self, ControlClientError>)
        ensures
            match parse_endpoint(base_url@) {
                Ok(e) => r matches Ok(c) && c.endpoint_spec() == e && c.token_spec() == Some(bearer_token@)
                    && c.options_spec() == options,
                Err(reason) => r matches Err(ControlClientError::InvalidBaseUrl { value, reason: why })
                    && value@ == base_url@ && why@ == reason,
            },
    {
        let endpoint = ControlEndpoint::parse(base_url)?;
        Ok(HttpControlClient { endpoint, bearer_token: Some(owned(bearer_token)), options })
    }

    pub fn set_bearer_token(&mut self, bearer_token: &str)
        ensures
            final(self).token_spec() == Some(bearer_token@),
            final(self).endpoint_spec() == old(self).endpoint_spec(),
            final(self).options_spec() == old(self).options_spec(),
    {
        self.bearer_token = Some(owned(bearer_token));
    }

    pub fn options(&self) -> (r: &HttpControlClientOptions)
        ensures
            *r == self.options_spec(),
    {
        &self.options
    }

    pub fn endpoint(&self) -> (r: &ControlEndpoint)
        ensures
            (r.host_spec(), r.port_spec()) == self.endpoint_spec(),
    {
        &self.endpoint
    }

    /// A client that sends `bearer_token`, trimmed, when it has the shape of a
    /// signed token, and no token otherwise.
    pub fn with_optional_bearer_token(base_url: &str, bearer_token: &str) -> (r: Result<
        Self,
        ControlClientError,
    >)
        ensures
            match parse_endpoint(base_url@) {
                Ok(e) => r matches Ok(c) && c.endpoint_spec() == e && c.token_spec() == (if signed_token_shape(
                    trim(bearer_token@),
                ) {
                    Some(trim(bearer_token@))
                } else {
                    None
                }) && c.options_spec().timeout_spec() is None && c.options_spec().retries_spec() == 0
                    && c.options_spec().backoff_spec() == millis_duration(0),
                Err(reason) => r matches Err(ControlClientError::InvalidBaseUrl { value, reason: why })
                    && value@ == base_url@ && why@ == reason,
            },
    {
        Self::with_optional_bearer_token_and_options(
            base_url,
            bearer_token,
            HttpControlClientOptions::default(),
        )
    }

    pub fn with_optional_bearer_token_and_options(
        base_url: &str,
        bearer_token: &str,
        options: HttpControlClientOptions,
    ) -> (r: Result<Self, ControlClientError>)
        ensures
            match parse_endpoint(base_url@) {
                Ok(e) => r matches Ok(c) && c.endpoint_spec() == e && c.token_spec() == (if signed_token_shape(
                    trim(bearer_token@),
                ) {
                    Some(trim(bearer_token@))
                } else {
                    None
                }) && c.options_spec() == options,
                Err(reason) => r matches Err(ControlClientError::InvalidBaseUrl { value, reason: why })
                    && value@ == base_url@ && why@ == reason,
            },
    {
        let token = crate::text::trimmed(bearer_token);
        if looks_like_signed_token(token.as_str()) {
            Self::with_bearer_token_and_options(base_url, token.as_str(), options)
        } else {
            Self::with_options(base_url, options)
        }
    }

    /// The `Authorization` header line, or nothing without a token.
    pub fn authorization_header(&self) -> (r: String)
        ensures
            r@ == authorization_line(self.token_spec()),
    {
        match &self.bearer_token {
            Some(token) => {
                let mut s = owned("Authorization: Bearer ");
                push_str(&mut s, token.as_str());
                push_str(&mut s, "\r\n");
                assert(s@ =~= authorization_line(self.token_spec()));
                s
            },
            None => {
                let s = String::new();
                assert(s@ =~= authorization_line(self.token_spec()));
                s
            },
        }
    }

    /// The request line and headers that precede a body of `body_len` bytes.
    pub fn request_head(&self, method: &str, path: &str, body_len: usize) -> (r: String)
        ensures
            r@ == request_head_text(
                method@,
                path@,
                host_port(self.endpoint_spec().0, self.endpoint_spec().1),
                authorization_line(self.token_spec()),
                body_len as nat,
            ),
    {
        let mut s = owned(method);
        push_str(&mut s, " ");
        push_str(&mut s, path);
        push_str(&mut s, " HTTP/1.1\r\nHost: ");
        let host = self.endpoint.host_header();
        push_str(&mut s, host.as_str());
        push_str(&mut s, "\r\n");
        let auth = self.authorization_header();
        push_str(&mut s, auth.as_str());
        push_str(&mut s, "Content-Type: application/json\r\nContent-Length: ");
        let len = decimal_string(body_len as u64);
        push_str(&mut s, len.as_str());
        push_str(&mut s, "\r\nConnection: close\r\n\r\n");
        assert(s@ =~= request_head_text(
            method@,
            path@,
            host_port(self.endpoint_spec().0, self.endpoint_spec().1),
            authorization_line(self.token_spec()),
            body_len as nat,
        ));
        s
    }
}

// ---------------------------------------------------------------------------
// Responses.

/// Whether `\r\n\r\n` starts at `i`.
pub open spec fn terminator_at(b: Seq<u8>, i: int) -> bool {
    0 <= i && i + 4 <= b.len() && b[i] == 13 && b[i + 1] == 10 && b[i + 2] == 13 && b[i + 3] == 10
}

/// The first position at or after `i` where `\r\n\r\n` starts.
pub open spec fn terminator_from(b: Seq<u8>, i: nat) -> Option<nat>
    decreases b.len() - i,
{
    if i + 4 > b.len() {
        None
    } else if terminator_at(b, i as int) {
        Some(i)
    } else {
        terminator_from(b, i + 1)
    }
}

pub proof fn lemma_terminator_from(b: Seq<u8>, i: nat)
    ensures
        match terminator_from(b, i) {
            Some(h) => i <= h && h + 4 <= b.len() && terminator_at(b, h as int),
            None => true,
        },
    decreases b.len() - i,
{
    if i + 4 <= b.len() && !terminator_at(b, i as int) {
        lemma_terminator_from(b, i + 1);
    }
}

/// Where the headers of a response end.
pub open spec fn header_end(b: Seq<u8>) -> Option<nat> {
    terminator_from(b, 0)
}

/// `text` with one trailing carriage return removed.
pub open spec fn strip_cr(l: Seq<char>) -> Seq<char> {
    if l.len() > 0 && l.last() == '\r' {
        l.drop_last()
    } else {
        l
    }
}

/// The first item of `str::lines`.
pub open spec fn first_line(s: Seq<char>) -> Option<Seq<char>> {
    if s.len() == 0 {
        None
    } else {
        match split_once_spec(s, '\n') {
            Some((line, _)) => Some(strip_cr(line)),
            None => Some(s),
        }
    }
}

/// The status code that headers carry, or why there is none.
pub open spec fn status_of_headers(text: Seq<char>) -> Result<u16, Seq<char>> {
    match first_line(text) {
        None => Err("missing status line"@),
        Some(line) => match word_at(line, 1) {
            None => Err("missing status code"@),
            Some(w) => match parse_unsigned(w, 65535) {
                None => Err("status code is not numeric"@),
                Some(n) => Ok(n as u16),
            },
        },
    }
}

pub open spec fn missing_terminator_reason(len: nat) -> Seq<char> {
    "missing header terminator in "@ + decimal_text(len) + " bytes"@
}

/// A response: its status code and body.
pub struct HttpResponse {
    pub status_code: StatusCode,
    pub body: Vec<u8>,
}

/// `std::str::from_utf8` on `bytes[..end]`. The standard library accepts
/// exactly the byte strings that are the UTF-8 encoding of some text, and the
/// text it gives back is that one.
#[verifier::external_body]
fn utf8_prefix(bytes: &[u8], end: usize) -> (r: Option<String>)
    requires
        end <= bytes@.len(),
    ensures
        match r {
            Some(s) => encode_utf8(s@) == bytes@.take(end as int),
            None => forall|s: Seq<char>| #[trigger] encode_utf8(s) != bytes@.take(end as int),
        },
{
    match std::str::from_utf8(&bytes[..end]) {
        Ok(s) => Some(s.to_string()),
        Err(_) => None,
    }
}

/// The position where the headers of a response end.
pub fn find_header_end(bytes: &[u8]) -> (r: Option<usize>)
    ensures
        match r {
            Some(i) => header_end(bytes@) == Some(i as nat),
            None => header_end(bytes@) is None,
        },
{
    let mut i: usize = 0;
    while i < bytes.len() && bytes.len() - i >= 4
        invariant
            i <= bytes@.len(),
            header_end(bytes@) == terminator_from(bytes@, i as nat),
        decreases bytes@.len() - i,
    {
        if bytes[i] == 13 && bytes[i + 1] == 10 && bytes[i + 2] == 13 && bytes[i + 3] == 10 {
            return Some(i);
        }
        i = i + 1;
    }
    None
}

fn malformed(reason: &str) -> (e: ControlClientError)
    ensures
        e matches ControlClientError::MalformedResponse { reason: why } && why@ == reason@,
{
    ControlClientError::MalformedResponse { reason: owned(reason) }
}

/// The status code that response headers carry.
pub fn status_code_of(text: &str) -> (r: Result<u16, ControlClientError>)
    ensures
        match status_of_headers(text@) {
            Ok(code) => r == Ok::<u16, ControlClientError>(code),
            Err(reason) => r matches Err(ControlClientError::MalformedResponse { reason: why })
                && why@ == reason,
        },
{
    let v = chars_of(text);
    if v.len() == 0 {
        return Err(malformed("missing status line"));
    }
    let line_end = match crate::text::split_once_at(&v, '\n') {
        Some(i) => if i > 0 && v[i - 1] == '\r' {
            assert(v@.subrange(0, i - 1) =~= strip_cr(v@.subrange(0, i as int)));
            i - 1
        } else {
            assert(v@.subrange(0, i as int) =~= strip_cr(v@.subrange(0, i as int)));
            i
        },
        None => {
            assert(v@.subrange(0, v@.len() as int) =~= v@);
            v.len()
        },
    };
    assert(first_line(v@) == Some(v@.subrange(0, line_end as int)));
    let (a, b) = match crate::text::nth_word(&v, 0, line_end, 1) {
        Some(w) => w,
        None => {
            return Err(malformed("missing status code"));
        },
    };
    match parse_unsigned_at(&v, a, b, 65535) {
        Some(n) => Ok(n as u16),
        None => Err(malformed("status code is not numeric")),
    }
}

/// The bytes from `start` on.
fn bytes_from(bytes: &[u8], start: usize) -> (r: Vec<u8>)
    requires
        start <= bytes@.len(),
    ensures
        r@ == bytes@.skip(start as int),
{
    let mut body: Vec<u8> = Vec::new();
    let mut i = start;
    while i < bytes.len()
        invariant
            start <= i <= bytes@.len(),
            body@ == bytes@.subrange(start as int, i as int),
        decreases bytes@.len() - i,
    {
        body.push(bytes[i]);
        i = i + 1;
        assert(body@ =~= bytes@.subrange(start as int, i as int));
    }
    assert(body@ =~= bytes@.skip(start as int));
    body
}

/// Reads a response: the status code from its status line, and the body
/// after the blank line that ends its headers.
pub fn parse_response(bytes: &[u8]) -> (r: Result<HttpResponse, ControlClientError>)
    ensures
        match header_end(bytes@) {
            None => r matches Err(ControlClientError::MalformedResponse { reason })
                && reason@ == missing_terminator_reason(bytes@.len()),
            Some(h) => if exists|s: Seq<char>| #[trigger] encode_utf8(s) == bytes@.take(h as int) {
                match status_of_headers(choose|s: Seq<char>| #[trigger] encode_utf8(s) == bytes@.take(h as int)) {
                    Ok(code) => r matches Ok(resp) && resp.status_code.code() == code && resp.body@
                        == bytes@.skip(h as int + 4),
                    Err(reason) => r matches Err(ControlClientError::MalformedResponse { reason: why })
                        && why@ == reason,
                }
            } else {
                r matches Err(ControlClientError::MalformedResponse { reason })
                    && reason@ == "headers are not valid utf-8"@
            },
        },
{
    let h = match find_header_end(bytes) {
        Some(h) => h,
        None => {
            let mut reason = owned("missing header terminator in ");
            let n = decimal_string(bytes.len() as u64);
            push_str(&mut reason, n.as_str());
            push_str(&mut reason, " bytes");
            assert(reason@ =~= missing_terminator_reason(bytes@.len()));
            return Err(ControlClientError::MalformedResponse { reason });
        },
    };
    proof {
        lemma_terminator_from(bytes@, 0);
        assert(h + 4 <= bytes@.len());
    }
    let text = match utf8_prefix(bytes, h) {
        Some(t) => t,
        None => {
            return Err(malformed("headers are not valid utf-8"));
        },
    };
    proof {
        assert(encode_utf8(text@) == bytes@.take(h as int));
        let c = choose|s: Seq<char>| #[trigger] encode_utf8(s) == bytes@.take(h as int);
        crate::query::lemma_encode_utf8_injective(c, text@);
        assert(c == text@);
    }
    let code = status_code_of(text.as_str())?;
    let n = bytes.len();
    assert(h + 4 <= n);
    let body = bytes_from(bytes, h + 4);
    Ok(HttpResponse { status_code: StatusCode::from_u16(code), body })
}

impl HttpResponse {
    /// The body of a successful response; any other status is an error that
    /// carries the code and the body.
    pub fn into_success_body(self) -> (r: Result<Vec<u8>, ControlClientError>)
        ensures
            200 <= self.status_code.code() < 300 ==> (r matches Ok(b) && b@ == self.body@),
            !(200 <= self.status_code.code() < 300) ==> (r matches Err(
                ControlClientError::HttpStatus { status_code, body },
            ) && status_code == self.status_code && body@ == self.body@),
    {
        if self.status_code.is_success() {
            Ok(self.body)
        } else {
            Err(ControlClientError::HttpStatus { status_code: self.status_code, body: self.body })
        }
    }
}

// ---------------------------------------------------------------------------
// Paths.

/// How a sign-in provider is named in request paths.
pub open spec fn provider_path(provider: OAuthProvider) -> Seq<char> {
    match provider {
        OAuthProvider::GitHub => "github"@,
    }
}

pub fn oauth_provider_path(provider: OAuthProvider) -> (r: &'static str)
    ensures
        r@ == provider_path(provider),
{
    match provider {
        OAuthProvider::GitHub => "github",
    }
}

/// The path of one linked sign-in identity.
pub fn oauth_identity_path(provider: OAuthProvider, provider_user_id: &str) -> (r: String)
    ensures
        r@ == "/oauth/identities/"@ + provider_path(provider) + "/"@ + provider_user_id@,
{
    let mut s = owned("/oauth/identities/");
    push_str(&mut s, oauth_provider_path(provider));
    push_str(&mut s, "/");
    push_str(&mut s, provider_user_id);
    s
}

} // verus!
