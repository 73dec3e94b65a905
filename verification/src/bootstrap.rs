//! Bootstrap-token resolution: from a token file, from the environment, or from the EC2
//! instance metadata service.
//!
//! The metadata service is asked three times over plain HTTP: for a metadata token, for
//! the name of the instance's role, and for the credentials of that role. The reading and
//! sending is the caller's; what is sent, and what an answer means, is decided here.

use crate::clock::Span;
use crate::config::{BootstrapSource, BOOTSTRAP_ENV_VAR};
use crate::files::ReadFailure;
use crate::secret::{self, Secret};
use crate::text::{
    self, chars_of, copy_text, decimal_text, filled_line, find_char, find_last, parse_u16,
    same_text, slice_text, text_of_bytes, text_of_utf8, trim, word,
};
use vstd::prelude::*;
use vstd::slice::slice_subrange;
use vstd::string::*;

verus! {

pub const IMDS_BASE_URL: &'static str = "http://169.254.169.254";

/// The longest lifetime that the metadata service grants a token: six hours.
pub const IMDS_TOKEN_TTL_SECONDS: u32 = 21_600;

/// How long one call to the metadata service may take.
pub const IMDS_TIMEOUT_MS: u64 = 2_000;

/// A bootstrap token, wiped from memory when it is dropped and redacted in debug output.
#[derive(Debug)]
pub struct BootstrapToken(Secret);

impl BootstrapToken {
    /// The token's text.
    pub closed spec fn text(&self) -> Seq<char> {
        secret::secret_text(self.0)
    }

    /// Makes a token of `value` as it is.
    pub fn new(value: String) -> (r: BootstrapToken)
        ensures
            r.text() == value@,
    {
        BootstrapToken(Secret::seal(value))
    }

    /// Hands out the token's text.
    pub fn expose(&self) -> (r: &str)
        ensures
            r@ == self.text(),
    {
        self.0.expose()
    }
}

impl Clone for BootstrapToken {
    fn clone(&self) -> (r: BootstrapToken)
        ensures
            r.text() == self.text(),
    {
        BootstrapToken(self.0.duplicate())
    }
}

/// Why there is no bootstrap token.
#[derive(Debug)]
pub enum BootstrapError {
    FileNotFound { path: String },
    FileEmpty { path: String },
    Io { path: String, message: String },
    EnvUnset { var: String },
    EnvEmpty { var: String },
    ImdsInvalidBaseUrl(String),
    ImdsConnect { addr: String, message: String },
    ImdsIo(String),
    ImdsTimeout { endpoint: String, timeout_ms: u128 },
    ImdsHttp { endpoint: String, status: u16, body: String },
    ImdsMalformedResponse { endpoint: String },
    ImdsEmptyToken,
    ImdsNoInstanceRole,
}

/// The model of a `BootstrapError`.
pub enum BootstrapFault {
    FileNotFound(Seq<char>),
    FileEmpty(Seq<char>),
    Io(Seq<char>, Seq<char>),
    EnvUnset(Seq<char>),
    EnvEmpty(Seq<char>),
    ImdsInvalidBaseUrl(Seq<char>),
    ImdsConnect(Seq<char>, Seq<char>),
    ImdsIo(Seq<char>),
    ImdsTimeout(Seq<char>, int),
    ImdsHttp(Seq<char>, u16, Seq<char>),
    ImdsMalformedResponse(Seq<char>),
    ImdsEmptyToken,
    ImdsNoInstanceRole,
}

impl View for BootstrapError {
    type V = BootstrapFault;

    open spec fn view(&self) -> BootstrapFault {
        match *self {
            BootstrapError::FileNotFound { path } => BootstrapFault::FileNotFound(path@),
            BootstrapError::FileEmpty { path } => BootstrapFault::FileEmpty(path@),
            BootstrapError::Io { path, message } => BootstrapFault::Io(path@, message@),
            BootstrapError::EnvUnset { var } => BootstrapFault::EnvUnset(var@),
            BootstrapError::EnvEmpty { var } => BootstrapFault::EnvEmpty(var@),
            BootstrapError::ImdsInvalidBaseUrl(url) => BootstrapFault::ImdsInvalidBaseUrl(url@),
            BootstrapError::ImdsConnect { addr, message } => BootstrapFault::ImdsConnect(
                addr@,
                message@,
            ),
            BootstrapError::ImdsIo(message) => BootstrapFault::ImdsIo(message@),
            BootstrapError::ImdsTimeout { endpoint, timeout_ms } => BootstrapFault::ImdsTimeout(
                endpoint@,
                timeout_ms as int,
            ),
            BootstrapError::ImdsHttp { endpoint, status, body } => BootstrapFault::ImdsHttp(
                endpoint@,
                status,
                body@,
            ),
            BootstrapError::ImdsMalformedResponse {
                endpoint,
            } => BootstrapFault::ImdsMalformedResponse(endpoint@),
            BootstrapError::ImdsEmptyToken => BootstrapFault::ImdsEmptyToken,
            BootstrapError::ImdsNoInstanceRole => BootstrapFault::ImdsNoInstanceRole,
        }
    }
}

/// What has to be done to get a token from a source.
#[derive(Debug)]
pub enum FetchPlan {
    /// Read this file and hand what came of it to `fetch_file`.
    ReadFile { path: String },
    /// Read this environment variable and hand what came of it to `fetch_env_with_var`.
    ReadEnv { var: String },
    /// Walk through `ImdsStep` against this service, with this limit on each call.
    AskImds { base_url: String, timeout: Span },
}

/// Tells what to do to get a token from `source`.
pub fn fetch_plan(source: &BootstrapSource) -> (r: FetchPlan)
    ensures
        match *source {
            BootstrapSource::File { path } => r is ReadFile && r->path@ == path@,
            BootstrapSource::Env => r is ReadEnv && r->var@ == BOOTSTRAP_ENV_VAR@,
            BootstrapSource::Imds => r is AskImds && r->base_url@ == IMDS_BASE_URL@ && r->timeout
                == Span::millis(IMDS_TIMEOUT_MS as int),
        },
        match *source {
            BootstrapSource::File { .. } => true,
            BootstrapSource::Env => r->var@ == "REMO_BROKER_BOOTSTRAP_TOKEN"@,
            BootstrapSource::Imds => r->base_url@ == "http://169.254.169.254"@ && r->timeout.nanos
                == 2_000_000_000,
        },
{
    match source {
        BootstrapSource::File { path } => FetchPlan::ReadFile { path: copy_text(path.as_str()) },
        BootstrapSource::Env => FetchPlan::ReadEnv { var: copy_text(BOOTSTRAP_ENV_VAR) },
        BootstrapSource::Imds => FetchPlan::AskImds {
            base_url: copy_text(IMDS_BASE_URL),
            timeout: Span::from_millis(IMDS_TIMEOUT_MS),
        },
    }
}

/// What the token file at `path` comes to.
pub open spec fn file_outcome(path: Seq<char>, read: Result<String, ReadFailure>) -> Result<
    Seq<char>,
    BootstrapFault,
> {
    match read {
        Ok(s) => if text::trimmed(s@).len() == 0 {
            Err(BootstrapFault::FileEmpty(path))
        } else {
            Ok(text::trimmed(s@))
        },
        Err(failure) => if failure.missing {
            Err(BootstrapFault::FileNotFound(path))
        } else {
            Err(BootstrapFault::Io(path, failure.message@))
        },
    }
}

/// The outcome that a result with a token stands for.
pub open spec fn token_outcome(r: Result<BootstrapToken, BootstrapError>) -> Result<
    Seq<char>,
    BootstrapFault,
> {
    match r {
        Ok(token) => Ok(token.text()),
        Err(e) => Err(e@),
    }
}

/// The outcome that a result with text stands for.
pub open spec fn text_outcome(r: Result<String, BootstrapError>) -> Result<
    Seq<char>,
    BootstrapFault,
> {
    match r {
        Ok(s) => Ok(s@),
        Err(e) => Err(e@),
    }
}

/// Takes the contents of a token file: the text without the whitespace around it.
pub fn fetch_file(path: &str, read: Result<String, ReadFailure>) -> (r: Result<
    BootstrapToken,
    BootstrapError,
>)
    ensures
        token_outcome(r) == file_outcome(path@, read),
{
    match read {
        Ok(s) => {
            let trimmed = trim(s.as_str());
            if trimmed.as_str().is_empty() {
                return Err(BootstrapError::FileEmpty { path: copy_text(path) });
            }
            Ok(BootstrapToken::new(trimmed))
        },
        Err(failure) => if failure.missing {
            Err(BootstrapError::FileNotFound { path: copy_text(path) })
        } else {
            Err(BootstrapError::Io { path: copy_text(path), message: failure.message })
        },
    }
}

/// What reading an environment variable came to.
pub enum EnvRead {
    Value(String),
    Unset,
    /// It is set, to what is no Unicode text.
    NotUnicode,
}

/// What the environment variable `var` comes to. One that holds no text counts as empty.
pub open spec fn env_outcome(var: Seq<char>, read: EnvRead) -> Result<Seq<char>, BootstrapFault> {
    match read {
        EnvRead::Value(s) => if s@.len() == 0 {
            Err(BootstrapFault::EnvEmpty(var))
        } else {
            Ok(s@)
        },
        EnvRead::Unset => Err(BootstrapFault::EnvUnset(var)),
        EnvRead::NotUnicode => Err(BootstrapFault::EnvEmpty(var)),
    }
}

/// Takes the value of an environment variable as it is.
pub fn fetch_env_with_var(var: &str, read: EnvRead) -> (r: Result<BootstrapToken, BootstrapError>)
    ensures
        token_outcome(r) == env_outcome(var@, read),
{
    match read {
        EnvRead::Value(s) => if s.as_str().is_empty() {
            Err(BootstrapError::EnvEmpty { var: copy_text(var) })
        } else {
            Ok(BootstrapToken::new(s))
        },
        EnvRead::Unset => Err(BootstrapError::EnvUnset { var: copy_text(var) }),
        EnvRead::NotUnicode => Err(BootstrapError::EnvEmpty { var: copy_text(var) }),
    }
}

/// Where, from index `i` on, the headers of a response end: at the first empty line.
pub open spec fn headers_end(raw: Seq<u8>, i: int) -> Option<int>
    decreases raw.len() - i,
{
    if i < 0 || i + 4 > raw.len() {
        None
    } else if raw[i] == 13 && raw[i + 1] == 10 && raw[i + 2] == 13 && raw[i + 3] == 10 {
        Some(i)
    } else {
        headers_end(raw, i + 1)
    }
}

/// The status code that the headers of a response name: the second word of their first
/// line.
pub open spec fn status_code(headers: Seq<char>) -> Option<u16> {
    match text::nth_word(headers.take(text::position(headers, '\n')), 1) {
        Some(code) => text::u16_value(code),
        None => None,
    }
}

/// What a response comes to, given its headers, if they are text, and its body.
pub open spec fn parts_outcome(
    endpoint: Seq<char>,
    headers: Option<Seq<char>>,
    body: Seq<char>,
) -> Result<Seq<char>, BootstrapFault> {
    match headers {
        None => Err(BootstrapFault::ImdsMalformedResponse(endpoint)),
        Some(headers) => match status_code(headers) {
            None => Err(BootstrapFault::ImdsMalformedResponse(endpoint)),
            Some(status) => if 200 <= status < 300 {
                Ok(body)
            } else {
                Err(BootstrapFault::ImdsHttp(endpoint, status, body))
            },
        },
    }
}

/// The text of a response's body: the one that it encodes, or, where it is no UTF-8, what
/// `String::from_utf8_lossy` makes of it.
pub open spec fn body_text(bytes: Seq<u8>) -> Seq<char> {
    if vstd::utf8::valid_utf8(bytes) {
        vstd::utf8::decode_utf8(bytes)
    } else {
        text::utf8_lossy(bytes)
    }
}

/// What a response comes to: its body, or what is wrong with it. The body runs to the end
/// of the response.
pub open spec fn response_outcome(endpoint: Seq<char>, raw: Seq<u8>) -> Result<
    Seq<char>,
    BootstrapFault,
> {
    match headers_end(raw, 0) {
        None => Err(BootstrapFault::ImdsMalformedResponse(endpoint)),
        Some(end) => parts_outcome(
            endpoint,
            if vstd::utf8::valid_utf8(raw.take(end)) {
                Some(vstd::utf8::decode_utf8(raw.take(end)))
            } else {
                None
            },
            body_text(raw.skip(end + 4)),
        ),
    }
}

fn find_headers_end(raw: &[u8]) -> (r: Option<usize>)
    ensures
        match r {
            Some(end) => headers_end(raw@, 0) == Some(end as int) && end + 4 <= raw@.len(),
            None => headers_end(raw@, 0) is None,
        },
{
    let mut i: usize = 0;
    while i < raw.len() && raw.len() - i >= 4
        invariant
            i <= raw@.len(),
            headers_end(raw@, 0) == headers_end(raw@, i as int),
        decreases raw@.len() - i,
    {
        if raw[i] == 13 && raw[i + 1] == 10 && raw[i + 2] == 13 && raw[i + 3] == 10 {
            return Some(i);
        }
        i = i + 1;
    }
    None
}

/// Finds the status code that the headers of a response name.
pub fn find_status(headers: &str) -> (r: Option<u16>)
    ensures
        r == status_code(headers@),
{
    let cs = chars_of(headers);
    assert(cs@.skip(0) =~= cs@);
    let end = find_char(&cs, '\n', 0);
    assert(headers@.subrange(0, end as int) =~= headers@.take(end as int));
    let line = slice_text(headers, 0, end);
    match word(line.as_str(), 1) {
        Some(code) => parse_u16(code.as_str()),
        None => None,
    }
}

/// Takes an HTTP response apart. A status outside 200 to 299 is an error that carries the
/// body.
pub fn parse_http_response(endpoint: &str, raw: &[u8]) -> (r: Result<String, BootstrapError>)
    ensures
        text_outcome(r) == response_outcome(endpoint@, raw@),
{
    let end: usize = match find_headers_end(raw) {
        None => return Err(
            BootstrapError::ImdsMalformedResponse { endpoint: copy_text(endpoint) },
        ),
        Some(end) => end,
    };
    let total: usize = raw.len();
    let header_bytes = slice_subrange(raw, 0, end);
    assert(header_bytes@ =~= raw@.take(end as int));
    let body_bytes = slice_subrange(raw, end + 4, total);
    assert(body_bytes@ =~= raw@.skip(end + 4));
    read_response(endpoint, text_of_utf8(header_bytes), text_of_bytes(body_bytes))
}

/// Makes sense of a response's headers, if they are text, and body.
pub fn read_response(endpoint: &str, headers: Option<String>, body: String) -> (r: Result<
    String,
    BootstrapError,
>)
    ensures
        text_outcome(r) == parts_outcome(endpoint@, text::optional_text(headers), body@),
{
    let headers = match headers {
        None => return Err(
            BootstrapError::ImdsMalformedResponse { endpoint: copy_text(endpoint) },
        ),
        Some(headers) => headers,
    };
    match find_status(headers.as_str()) {
        None => Err(BootstrapError::ImdsMalformedResponse { endpoint: copy_text(endpoint) }),
        Some(status) => if status < 200 || status >= 300 {
            Err(BootstrapError::ImdsHttp { endpoint: copy_text(endpoint), status, body })
        } else {
            Ok(body)
        },
    }
}

/// The scheme that a base URL has to name.
pub open spec fn has_http_scheme(url: Seq<char>) -> bool {
    url.len() >= 7 && url.take(7) == "http://"@
}

/// The host and port of `http://host[:port]`, whatever path follows. The port is 80 where
/// none is given.
pub open spec fn base_url_parts(url: Seq<char>) -> Option<(Seq<char>, u16)> {
    if !has_http_scheme(url) {
        None
    } else {
        let rest = url.skip(7);
        let authority = rest.take(text::position(rest, '/'));
        let colon = text::last_position(authority, ':');
        if colon >= 0 {
            match text::u16_value(authority.skip(colon + 1)) {
                Some(port) => if colon > 0 {
                    Some((authority.take(colon), port))
                } else {
                    None
                },
                None => None,
            }
        } else if authority.len() == 0 {
            None
        } else {
            Some((authority, 80))
        }
    }
}

/// Takes a base URL apart into host and port.
pub fn parse_base_url(url: &str) -> (r: Result<(String, u16), BootstrapError>)
    ensures
        match r {
            Ok((host, port)) => base_url_parts(url@) == Some((host@, port)),
            Err(e) => base_url_parts(url@) is None && e@ == BootstrapFault::ImdsInvalidBaseUrl(
                url@,
            ),
        },
{
    proof {
        reveal_strlit("http://");
    }
    let cs = chars_of(url);
    if cs.len() < 7 {
        return Err(BootstrapError::ImdsInvalidBaseUrl(copy_text(url)));
    }
    let scheme = slice_text(url, 0, 7);
    assert(scheme@ =~= url@.take(7));
    if !same_text(scheme.as_str(), "http://") {
        return Err(BootstrapError::ImdsInvalidBaseUrl(copy_text(url)));
    }
    let end: usize = find_char(&cs, '/', 7);
    let authority = slice_text(url, 7, end);
    assert(authority@ =~= url@.skip(7).take(end - 7));
    let authority_chars = chars_of(authority.as_str());
    match find_last(&authority_chars, ':') {
        Some(colon) => {
            let host = slice_text(authority.as_str(), 0, colon);
            assert(host@ =~= authority@.take(colon as int));
            let digits = slice_text(authority.as_str(), colon + 1, authority_chars.len());
            assert(digits@ =~= authority@.skip(colon + 1));
            match parse_u16(digits.as_str()) {
                Some(port) => if colon > 0 {
                    Ok((host, port))
                } else {
                    Err(BootstrapError::ImdsInvalidBaseUrl(copy_text(url)))
                },
                None => Err(BootstrapError::ImdsInvalidBaseUrl(copy_text(url))),
            }
        },
        None => if authority_chars.len() == 0 {
            Err(BootstrapError::ImdsInvalidBaseUrl(copy_text(url)))
        } else {
            Ok((authority, 80))
        },
    }
}

/// Where the metadata service hands out tokens.
pub const IMDS_TOKEN_ENDPOINT: &'static str = "/latest/api/token";

/// Where the metadata service lists roles; a role's credentials stand under its name.
pub const IMDS_ROLE_ENDPOINT: &'static str = "/latest/meta-data/iam/security-credentials/";

/// How far the exchange with the metadata service has come.
pub enum ImdsStep {
    /// The metadata token is asked for.
    Token,
    /// The role is asked for.
    Role { metadata_token: String },
    /// The role's credentials are asked for.
    Credentials { metadata_token: String, role: String },
}

/// The model of an `ImdsStep`.
pub enum ImdsStage {
    Token,
    Role(Seq<char>),
    Credentials(Seq<char>, Seq<char>),
}

impl View for ImdsStep {
    type V = ImdsStage;

    open spec fn view(&self) -> ImdsStage {
        match *self {
            ImdsStep::Token => ImdsStage::Token,
            ImdsStep::Role { metadata_token } => ImdsStage::Role(metadata_token@),
            ImdsStep::Credentials { metadata_token, role } => ImdsStage::Credentials(
                metadata_token@,
                role@,
            ),
        }
    }
}

/// Where a step's request goes.
pub open spec fn step_endpoint(stage: ImdsStage) -> Seq<char> {
    match stage {
        ImdsStage::Token => IMDS_TOKEN_ENDPOINT@,
        ImdsStage::Role(_) => IMDS_ROLE_ENDPOINT@,
        ImdsStage::Credentials(_, role) => IMDS_ROLE_ENDPOINT@ + role,
    }
}

/// The request that a step sends, to the letter.
pub open spec fn step_request(stage: ImdsStage) -> Seq<char> {
    match stage {
        ImdsStage::Token => "PUT "@ + step_endpoint(stage)
            + " HTTP/1.1\r\nHost: 169.254.169.254\r\nX-aws-ec2-metadata-token-ttl-seconds: "@
            + text::decimal(IMDS_TOKEN_TTL_SECONDS as nat)
            + "\r\nContent-Length: 0\r\nConnection: close\r\n\r\n"@,
        ImdsStage::Role(token) => "GET "@ + step_endpoint(stage)
            + " HTTP/1.1\r\nHost: 169.254.169.254\r\nX-aws-ec2-metadata-token: "@ + token
            + "\r\nConnection: close\r\n\r\n"@,
        ImdsStage::Credentials(token, _) => "GET "@ + step_endpoint(stage)
            + " HTTP/1.1\r\nHost: 169.254.169.254\r\nX-aws-ec2-metadata-token: "@ + token
            + "\r\nConnection: close\r\n\r\n"@,
    }
}

/// What the exchange does next.
pub enum ImdsNext {
    /// Take this step.
    Ask(ImdsStep),
    /// The exchange is over and has brought this token.
    Done(BootstrapToken),
    /// The exchange is over and has brought none.
    Failed(BootstrapError),
}

/// The model of an `ImdsNext`.
pub enum ImdsTurn {
    Ask(ImdsStage),
    Done(Seq<char>),
    Failed(BootstrapFault),
}

impl View for ImdsNext {
    type V = ImdsTurn;

    open spec fn view(&self) -> ImdsTurn {
        match *self {
            ImdsNext::Ask(step) => ImdsTurn::Ask(step@),
            ImdsNext::Done(token) => ImdsTurn::Done(token.text()),
            ImdsNext::Failed(e) => ImdsTurn::Failed(e@),
        }
    }
}

/// Where the exchange goes from a step, given what the step's call came to.
pub open spec fn next_turn(stage: ImdsStage, call: Result<Seq<char>, BootstrapFault>) -> ImdsTurn {
    match call {
        Err(fault) => ImdsTurn::Failed(fault),
        Ok(body) => match stage {
            ImdsStage::Token => if text::trimmed(body).len() == 0 {
                ImdsTurn::Failed(BootstrapFault::ImdsEmptyToken)
            } else {
                ImdsTurn::Ask(ImdsStage::Role(text::trimmed(body)))
            },
            ImdsStage::Role(token) => match text::first_filled_line(body) {
                Some(role) => ImdsTurn::Ask(ImdsStage::Credentials(token, role)),
                None => ImdsTurn::Failed(BootstrapFault::ImdsNoInstanceRole),
            },
            ImdsStage::Credentials(_, _) => ImdsTurn::Done(body),
        },
    }
}

/// A `GET` with the metadata token in its header.
fn token_request(endpoint: &str, metadata_token: &str) -> (r: String)
    ensures
        r@ == "GET "@ + endpoint@
            + " HTTP/1.1\r\nHost: 169.254.169.254\r\nX-aws-ec2-metadata-token: "@ + metadata_token@
            + "\r\nConnection: close\r\n\r\n"@,
{
    let mut r = copy_text("GET ");
    r.append(endpoint);
    r.append(" HTTP/1.1\r\nHost: 169.254.169.254\r\nX-aws-ec2-metadata-token: ");
    r.append(metadata_token);
    r.append("\r\nConnection: close\r\n\r\n");
    r
}

impl ImdsStep {
    /// Where this step's request goes.
    pub fn endpoint(&self) -> (r: String)
        ensures
            r@ == step_endpoint(self@),
    {
        match self {
            ImdsStep::Token => copy_text(IMDS_TOKEN_ENDPOINT),
            ImdsStep::Role { .. } => copy_text(IMDS_ROLE_ENDPOINT),
            ImdsStep::Credentials { role, .. } => {
                let mut r = copy_text(IMDS_ROLE_ENDPOINT);
                r.append(role.as_str());
                r
            },
        }
    }

    /// The request that this step sends.
    pub fn request(&self) -> (r: String)
        ensures
            r@ == step_request(self@),
    {
        let endpoint = self.endpoint();
        match self {
            ImdsStep::Token => {
                let mut r = copy_text("PUT ");
                r.append(endpoint.as_str());
                r.append(
                    " HTTP/1.1\r\nHost: 169.254.169.254\r\nX-aws-ec2-metadata-token-ttl-seconds: ",
                );
                r.append(decimal_text(IMDS_TOKEN_TTL_SECONDS as u64).as_str());
                r.append("\r\nContent-Length: 0\r\nConnection: close\r\n\r\n");
                r
            },
            ImdsStep::Role { metadata_token } => token_request(
                endpoint.as_str(),
                metadata_token.as_str(),
            ),
            ImdsStep::Credentials { metadata_token, .. } => token_request(
                endpoint.as_str(),
                metadata_token.as_str(),
            ),
        }
    }

    /// Takes what this step's call came to and tells how to go on. The credentials are
    /// taken as they come.
    pub fn advance(self, call: Result<String, BootstrapError>) -> (r: ImdsNext)
        ensures
            r@ == next_turn(self@, text_outcome(call)),
    {
        let body = match call {
            Err(e) => return ImdsNext::Failed(e),
            Ok(body) => body,
        };
        match self {
            ImdsStep::Token => {
                let metadata_token = trim(body.as_str());
                if metadata_token.as_str().is_empty() {
                    return ImdsNext::Failed(BootstrapError::ImdsEmptyToken);
                }
                ImdsNext::Ask(ImdsStep::Role { metadata_token })
            },
            ImdsStep::Role { metadata_token } => match filled_line(body.as_str()) {
                Some(role) => ImdsNext::Ask(ImdsStep::Credentials { metadata_token, role }),
                None => ImdsNext::Failed(BootstrapError::ImdsNoInstanceRole),
            },
            ImdsStep::Credentials { .. } => ImdsNext::Done(BootstrapToken::new(body)),
        }
    }
}

/// What one call to the metadata service came to, before it is understood.
pub enum ImdsReply {
    ConnectFailed(String),
    IoFailed(String),
    /// Connecting, or sending and reading, took longer than the limit.
    TimedOut,
    /// The whole response, up to the end of the connection.
    Response(Vec<u8>),
}

/// What a call to the service at `base_url` comes to.
pub open spec fn call_outcome(
    base_url: Seq<char>,
    endpoint: Seq<char>,
    timeout: Span,
    reply: ImdsReply,
) -> Result<Seq<char>, BootstrapFault> {
    match base_url_parts(base_url) {
        None => Err(BootstrapFault::ImdsInvalidBaseUrl(base_url)),
        Some((host, port)) => match reply {
            ImdsReply::ConnectFailed(message) => Err(
                BootstrapFault::ImdsConnect(
                    host + ":"@ + text::decimal(port as nat),
                    message@,
                ),
            ),
            ImdsReply::IoFailed(message) => Err(BootstrapFault::ImdsIo(message@)),
            ImdsReply::TimedOut => Err(
                BootstrapFault::ImdsTimeout(endpoint, timeout.nanos as int / 1_000_000),
            ),
            ImdsReply::Response(raw) => response_outcome(endpoint, raw@),
        },
    }
}

/// Makes sense of one call to the service at `base_url`.
pub fn imds_round_trip(base_url: &str, endpoint: &str, timeout: Span, reply: ImdsReply) -> (r:
    Result<String, BootstrapError>)
    ensures
        text_outcome(r) == call_outcome(base_url@, endpoint@, timeout, reply),
{
    let (host, port) = match parse_base_url(base_url) {
        Err(e) => return Err(e),
        Ok(parts) => parts,
    };
    match reply {
        ImdsReply::ConnectFailed(message) => {
            let mut addr = host;
            addr.append(":");
            addr.append(decimal_text(port as u64).as_str());
            Err(BootstrapError::ImdsConnect { addr, message })
        },
        ImdsReply::IoFailed(message) => Err(BootstrapError::ImdsIo(message)),
        ImdsReply::TimedOut => Err(
            BootstrapError::ImdsTimeout {
                endpoint: copy_text(endpoint),
                timeout_ms: timeout.nanos / 1_000_000,
            },
        ),
        ImdsReply::Response(raw) => parse_http_response(endpoint, raw.as_slice()),
    }
}

/// A token from a file or from the environment is never empty, and one from a file has no
/// whitespace around it.
pub proof fn tokens_are_never_empty(
    path: Seq<char>,
    read: Result<String, ReadFailure>,
    var: Seq<char>,
    env: EnvRead,
)
    ensures
        match file_outcome(path, read) {
            Ok(token) => token.len() > 0 && !text::is_space(token[0]) && !text::is_space(
                token.last(),
            ),
            Err(_) => true,
        },
        match env_outcome(var, env) {
            Ok(token) => token.len() > 0,
            Err(_) => true,
        },
{
    match read {
        Ok(s) => {
            text::trimmed_has_no_outer_space(s@);
        },
        Err(_) => {},
    }
}

/// What the three calls of the exchange come to, one after the other: each is made only
/// where those before it succeeded, with what they brought.
pub open spec fn exchange(
    first: Result<Seq<char>, BootstrapFault>,
    second: Result<Seq<char>, BootstrapFault>,
    third: Result<Seq<char>, BootstrapFault>,
) -> ImdsTurn {
    match next_turn(ImdsStage::Token, first) {
        ImdsTurn::Ask(role_stage) => match next_turn(role_stage, second) {
            ImdsTurn::Ask(credentials_stage) => next_turn(credentials_stage, third),
            over => over,
        },
        over => over,
    }
}

/// The exchange ends after three calls at most. It brings a token exactly where the first
/// call brings a metadata token, the second a role and the third an answer, and the token
/// is that answer as it came; otherwise it ends with the first thing that went wrong.
pub proof fn exchange_brings_the_credentials(
    first: Result<Seq<char>, BootstrapFault>,
    second: Result<Seq<char>, BootstrapFault>,
    third: Result<Seq<char>, BootstrapFault>,
)
    ensures
        !(exchange(first, second, third) is Ask),
        exchange(first, second, third) is Done <==> {
            &&& first is Ok && text::trimmed(first->Ok_0).len() > 0
            &&& second is Ok && text::first_filled_line(second->Ok_0) is Some
            &&& third is Ok
        },
        exchange(first, second, third) is Done ==> exchange(first, second, third)->Done_0
            == third->Ok_0,
        first is Err ==> exchange(first, second, third) == ImdsTurn::Failed(first->Err_0),
        first is Ok && text::trimmed(first->Ok_0).len() == 0 ==> exchange(first, second, third)
            == ImdsTurn::Failed(BootstrapFault::ImdsEmptyToken),
        first is Ok && text::trimmed(first->Ok_0).len() > 0 && second is Err ==> exchange(
            first,
            second,
            third,
        ) == ImdsTurn::Failed(second->Err_0),
        first is Ok && text::trimmed(first->Ok_0).len() > 0 && second is Ok
            && text::first_filled_line(second->Ok_0) is None ==> exchange(first, second, third)
            == ImdsTurn::Failed(BootstrapFault::ImdsNoInstanceRole),
{
}

/// A response whose status is not 2xx never passes for an answer.
pub proof fn only_2xx_answers_count(endpoint: Seq<char>, raw: Seq<u8>)
    ensures
        response_outcome(endpoint, raw) is Ok ==> headers_end(raw, 0) is Some && ({
            let headers = vstd::utf8::decode_utf8(raw.take(headers_end(raw, 0)->0));
            status_code(headers) is Some && 200 <= status_code(headers)->0 < 300
        }),
        response_outcome(endpoint, raw) is Err ==> {
            ||| response_outcome(endpoint, raw)->Err_0 == BootstrapFault::ImdsMalformedResponse(
                endpoint,
            )
            ||| response_outcome(endpoint, raw)->Err_0 is ImdsHttp
        },
{
}

/// A token file holds the text between the whitespace around it, whatever that text is. One with
/// nothing else in it is empty, one that is not there was not found, and one that cannot be read
/// tells why.
pub proof fn token_files_hold_what_stands_between_spaces(
    path: Seq<char>,
    s: String,
    lead: Seq<char>,
    core: Seq<char>,
    trail: Seq<char>,
    failure: ReadFailure,
)
    requires
        s@ == lead + core + trail,
        forall|i: int| 0 <= i < lead.len() ==> text::is_space(#[trigger] lead[i]),
        forall|i: int| 0 <= i < trail.len() ==> text::is_space(#[trigger] trail[i]),
        core.len() > 0 ==> !text::is_space(core[0]) && !text::is_space(core.last()),
    ensures
        core.len() > 0 ==> file_outcome(path, Ok(s)) == Ok::<_, BootstrapFault>(core),
        core.len() == 0 ==> file_outcome(path, Ok(s)) == Err::<Seq<char>, _>(
            BootstrapFault::FileEmpty(path),
        ),
        failure.missing ==> file_outcome(path, Err(failure)) == Err::<Seq<char>, _>(
            BootstrapFault::FileNotFound(path),
        ),
        !failure.missing ==> file_outcome(path, Err(failure)) == Err::<Seq<char>, _>(
            BootstrapFault::Io(path, failure.message@),
        ),
{
    text::trimming_removes_outer_space(lead, core, trail);
}

/// A token from the environment is the variable's value to the letter, whitespace and all.
pub proof fn environment_tokens_are_taken_as_they_are(var: Seq<char>, s: String)
    ensures
        s@.len() > 0 ==> env_outcome(var, EnvRead::Value(s)) == Ok::<_, BootstrapFault>(s@),
        s@.len() == 0 ==> env_outcome(var, EnvRead::Value(s)) == Err::<Seq<char>, _>(
            BootstrapFault::EnvEmpty(var),
        ),
        env_outcome(var, EnvRead::NotUnicode) == Err::<Seq<char>, _>(BootstrapFault::EnvEmpty(var)),
        env_outcome(var, EnvRead::Unset) == Err::<Seq<char>, _>(BootstrapFault::EnvUnset(var)),
{
}

/// A response's headers end at its first empty line, and nowhere where it has none.
pub proof fn headers_end_at_the_first_empty_line(raw: Seq<u8>, i: int)
    requires
        0 <= i,
        forall|j: int|
            0 <= j < i && j + 4 <= raw.len() ==> #[trigger] raw.subrange(j, j + 4) != seq![
                13u8,
                10u8,
                13u8,
                10u8,
            ],
    ensures
        i + 4 <= raw.len() && raw.subrange(i, i + 4) == seq![13u8, 10u8, 13u8, 10u8]
            ==> headers_end(raw, 0) == Some(i),
        i + 4 > raw.len() ==> headers_end(raw, 0) is None,
{
    lemma_headers_from(raw, 0, i);
    if i + 4 <= raw.len() && raw.subrange(i, i + 4) == seq![13u8, 10u8, 13u8, 10u8] {
        let four = raw.subrange(i, i + 4);
        assert(four[0] == raw[i] && four[1] == raw[i + 1] && four[2] == raw[i + 2] && four[3]
            == raw[i + 3]);
    }
}

proof fn lemma_headers_from(raw: Seq<u8>, k: int, i: int)
    requires
        0 <= k <= i,
        forall|j: int|
            k <= j < i && j + 4 <= raw.len() ==> #[trigger] raw.subrange(j, j + 4) != seq![
                13u8,
                10u8,
                13u8,
                10u8,
            ],
    ensures
        headers_end(raw, k) == headers_end(raw, i),
    decreases i - k,
{
    if k < i {
        lemma_headers_from(raw, k + 1, i);
        if k + 4 <= raw.len() {
            let four = raw.subrange(k, k + 4);
            assert(four != seq![13u8, 10u8, 13u8, 10u8]);
            if raw[k] == 13 && raw[k + 1] == 10 && raw[k + 2] == 13 && raw[k + 3] == 10 {
                assert(four =~= seq![13u8, 10u8, 13u8, 10u8]);
            }
        }
    }
}

/// The status that headers name is the second word of their first line, read as a number; what
/// stands in the other lines does not count.
pub proof fn the_first_line_names_the_status(line: Seq<char>, rest: Seq<char>)
    requires
        !line.contains('\n'),
    ensures
        status_code(line.push('\n') + rest) == status_code(line),
        match text::nth_word(line, 1) {
            Some(code) => status_code(line) == text::u16_value(code),
            None => status_code(line) is None,
        },
{
    assert forall|j: int| 0 <= j < line.len() implies line[j] != '\n' by {
        assert(line.contains(line[j]));
    }
    let headers = line.push('\n') + rest;
    text::lemma_position_is(line, '\n', line.len() as int);
    text::lemma_position_is(headers, '\n', line.len() as int);
    assert(headers.take(line.len() as int) =~= line);
    assert(line.take(line.len() as int) =~= line);
}

/// An answer that names a status from 200 to 299 is its body, whole; one that names another
/// status is an error with that status and the whole body; one that names none says nothing.
pub proof fn answers_are_their_bodies(
    endpoint: Seq<char>,
    head: Seq<u8>,
    body: Seq<u8>,
    empty_line: Seq<u8>,
)
    requires
        empty_line == seq![13u8, 10u8, 13u8, 10u8],
        headers_end(head + empty_line + body, 0) == Some(head.len() as int),
    ensures
        ({
            let outcome = response_outcome(endpoint, head + empty_line + body);
            let status = status_code(vstd::utf8::decode_utf8(head));
            let whole = if vstd::utf8::valid_utf8(body) {
                vstd::utf8::decode_utf8(body)
            } else {
                text::utf8_lossy(body)
            };
            if !vstd::utf8::valid_utf8(head) || status is None {
                outcome == Err::<Seq<char>, _>(BootstrapFault::ImdsMalformedResponse(endpoint))
            } else if 200 <= status->0 <= 299 {
                outcome == Ok::<_, BootstrapFault>(whole)
            } else {
                outcome == Err::<Seq<char>, _>(
                    BootstrapFault::ImdsHttp(endpoint, status->0, whole),
                )
            }
        }),
{
    let raw = head + empty_line + body;
    assert(raw.take(head.len() as int) =~= head);
    assert(raw.skip(head.len() as int + 4) =~= body);
}

/// A response without an empty line says nothing.
pub proof fn responses_without_an_empty_line_say_nothing(endpoint: Seq<char>, raw: Seq<u8>)
    requires
        headers_end(raw, 0) is None,
    ensures
        response_outcome(endpoint, raw) == Err::<Seq<char>, _>(
            BootstrapFault::ImdsMalformedResponse(endpoint),
        ),
{
}

/// What came back is judged by its headers and handed on by its body.
pub proof fn parts_are_judged_by_their_status(
    endpoint: Seq<char>,
    headers: Seq<char>,
    body: Seq<char>,
)
    ensures
        parts_outcome(endpoint, None, body) == Err::<Seq<char>, _>(
            BootstrapFault::ImdsMalformedResponse(endpoint),
        ),
        match status_code(headers) {
            None => parts_outcome(endpoint, Some(headers), body) == Err::<Seq<char>, _>(
                BootstrapFault::ImdsMalformedResponse(endpoint),
            ),
            Some(status) => {
                &&& 200 <= status <= 299 ==> parts_outcome(endpoint, Some(headers), body) == Ok::<
                    _,
                    BootstrapFault,
                >(body)
                &&& status < 200 || status > 299 ==> parts_outcome(endpoint, Some(headers), body)
                    == Err::<Seq<char>, _>(BootstrapFault::ImdsHttp(endpoint, status, body))
            },
        },
{
}

/// A base URL names its host and, behind the last colon, its port; a path behind them does not
/// count. Without a colon the port is 80.
pub proof fn base_urls_name_host_and_port(host: Seq<char>, port: Seq<char>, tail: Seq<char>)
    requires
        !host.contains('/'),
        !port.contains('/'),
        !port.contains(':'),
        tail.len() > 0 ==> tail[0] == '/',
    ensures
        ({
            let parts = base_url_parts("http://"@ + host + ":"@ + port + tail);
            match text::u16_value(port) {
                Some(n) => {
                    &&& host.len() > 0 ==> parts == Some((host, n))
                    &&& host.len() == 0 ==> parts is None
                },
                None => parts is None,
            }
        }),
        !host.contains(':') && host.len() > 0 ==> base_url_parts("http://"@ + host + tail) == Some(
            (host, 80u16),
        ),
        host.len() == 0 ==> base_url_parts("http://"@ + host + tail) is None,
{
    reveal_strlit("http://");
    reveal_strlit(":");
    assert(":"@ =~= seq![':']);
    let named = host + ":"@ + port;
    let url = "http://"@ + host + ":"@ + port + tail;
    assert(url.take(7) =~= "http://"@);
    assert(url.skip(7) =~= named + tail);
    assert forall|j: int| 0 <= j < named.len() implies named[j] != '/' by {
        if j < host.len() {
            assert(host.contains(host[j]));
        } else if j > host.len() {
            assert(port.contains(port[j - host.len() - 1]));
        }
    }
    assert forall|j: int| 0 <= j < named.len() implies (named + tail)[j] != '/' by {
        assert((named + tail)[j] == named[j]);
    }
    text::lemma_position_is(named + tail, '/', named.len() as int);
    assert((named + tail).take(named.len() as int) =~= named);
    assert forall|j: int| host.len() < j < named.len() implies named[j] != ':' by {
        assert(named[j] == port[j - host.len() - 1]);
        assert(port.contains(port[j - host.len() - 1]));
    }
    text::last_positions_are_last(named, ':', host.len() as int);
    assert(named.skip(host.len() as int + 1) =~= port);
    assert(named.take(host.len() as int) =~= host);
    let bare = "http://"@ + host + tail;
    assert(bare.take(7) =~= "http://"@);
    assert(bare.skip(7) =~= host + tail);
    assert forall|j: int| 0 <= j < host.len() implies (host + tail)[j] != '/' by {
        assert(host.contains(host[j]));
    }
    text::lemma_position_is(host + tail, '/', host.len() as int);
    assert((host + tail).take(host.len() as int) =~= host);
    if !host.contains(':') {
        assert forall|j: int| -1 < j < host.len() implies host[j] != ':' by {
            assert(host.contains(host[j]));
        }
        text::last_positions_are_last(host, ':', -1);
    }
}

/// A base URL of another scheme names nothing.
pub proof fn only_http_is_spoken(url: Seq<char>)
    requires
        forall|rest: Seq<char>| url != #[trigger] ("http://"@ + rest),
    ensures
        base_url_parts(url) is None,
{
    reveal_strlit("http://");
    if url.len() >= 7 && url.take(7) == "http://"@ {
        assert(url =~= "http://"@ + url.skip(7));
    }
}

/// The exchange asks for a metadata token, then for the role, then for the role's credentials,
/// each by this request to the letter.
pub proof fn requests_are_sent_to_the_letter(token: Seq<char>, role: Seq<char>)
    ensures
        step_endpoint(ImdsStage::Token) == "/latest/api/token"@,
        step_endpoint(ImdsStage::Role(token)) == "/latest/meta-data/iam/security-credentials/"@,
        step_endpoint(ImdsStage::Credentials(token, role))
            == "/latest/meta-data/iam/security-credentials/"@ + role,
        step_request(ImdsStage::Token) == "PUT "@ + "/latest/api/token"@
            + " HTTP/1.1\r\nHost: 169.254.169.254\r\nX-aws-ec2-metadata-token-ttl-seconds: "@
            + text::decimal(21_600) + "\r\nContent-Length: 0\r\nConnection: close\r\n\r\n"@,
        step_request(ImdsStage::Role(token)) == "GET "@
            + "/latest/meta-data/iam/security-credentials/"@
            + " HTTP/1.1\r\nHost: 169.254.169.254\r\nX-aws-ec2-metadata-token: "@ + token
            + "\r\nConnection: close\r\n\r\n"@,
        step_request(ImdsStage::Credentials(token, role)) == "GET "@ + (
        "/latest/meta-data/iam/security-credentials/"@ + role)
            + " HTTP/1.1\r\nHost: 169.254.169.254\r\nX-aws-ec2-metadata-token: "@ + token
            + "\r\nConnection: close\r\n\r\n"@,
{
}

/// Each step of the exchange hands on what it brought: the metadata token, without the
/// whitespace around it, to both later steps, the first role that is listed to the last, and the
/// credentials as they came. A call that fails ends the exchange with its own error.
pub proof fn steps_hand_on_what_they_bring(
    stage: ImdsStage,
    token: Seq<char>,
    role: Seq<char>,
    body: Seq<char>,
    fault: BootstrapFault,
)
    ensures
        next_turn(stage, Err(fault)) == ImdsTurn::Failed(fault),
        text::trimmed(body).len() > 0 ==> next_turn(ImdsStage::Token, Ok(body)) == ImdsTurn::Ask(
            ImdsStage::Role(text::trimmed(body)),
        ),
        text::trimmed(body).len() == 0 ==> next_turn(ImdsStage::Token, Ok(body))
            == ImdsTurn::Failed(BootstrapFault::ImdsEmptyToken),
        match text::first_filled_line(body) {
            Some(first) => next_turn(ImdsStage::Role(token), Ok(body)) == ImdsTurn::Ask(
                ImdsStage::Credentials(token, first),
            ),
            None => next_turn(ImdsStage::Role(token), Ok(body)) == ImdsTurn::Failed(
                BootstrapFault::ImdsNoInstanceRole,
            ),
        },
        next_turn(ImdsStage::Credentials(token, role), Ok(body)) == ImdsTurn::Done(body),
{
}

/// A call to a service is told apart by how it went: an unusable URL before anything else, a
/// connection that failed with the address that was tried, a limit that ran out with its whole
/// milliseconds, and a response with what it says.
pub proof fn calls_come_to_what_happened(
    base_url: Seq<char>,
    endpoint: Seq<char>,
    timeout: Span,
    reply: ImdsReply,
    ms: int,
)
    requires
        ms * 1_000_000 <= timeout.nanos < (ms + 1) * 1_000_000,
    ensures
        match base_url_parts(base_url) {
            None => call_outcome(base_url, endpoint, timeout, reply) == Err::<Seq<char>, _>(
                BootstrapFault::ImdsInvalidBaseUrl(base_url),
            ),
            Some((host, port)) => match reply {
                ImdsReply::ConnectFailed(message) => call_outcome(
                    base_url,
                    endpoint,
                    timeout,
                    reply,
                ) == Err::<Seq<char>, _>(
                    BootstrapFault::ImdsConnect(
                        host + ":"@ + text::decimal(port as nat),
                        message@,
                    ),
                ),
                ImdsReply::IoFailed(message) => call_outcome(base_url, endpoint, timeout, reply)
                    == Err::<Seq<char>, _>(BootstrapFault::ImdsIo(message@)),
                ImdsReply::TimedOut => call_outcome(base_url, endpoint, timeout, reply) == Err::<
                    Seq<char>,
                    _,
                >(BootstrapFault::ImdsTimeout(endpoint, ms)),
                ImdsReply::Response(raw) => call_outcome(base_url, endpoint, timeout, reply)
                    == response_outcome(endpoint, raw@),
            },
        },
{
    assert(timeout.nanos as int / 1_000_000 == ms);
}

/// Errors, steps, turns and outcomes are told as they are.
pub proof fn bootstrap_results_are_told_as_they_are(
    error: BootstrapError,
    step: ImdsStep,
    next: ImdsNext,
    token: BootstrapToken,
    s: String,
)
    ensures
        match error {
            BootstrapError::FileNotFound { path } => error@ == BootstrapFault::FileNotFound(path@),
            BootstrapError::FileEmpty { path } => error@ == BootstrapFault::FileEmpty(path@),
            BootstrapError::Io { path, message } => error@ == BootstrapFault::Io(path@, message@),
            BootstrapError::EnvUnset { var } => error@ == BootstrapFault::EnvUnset(var@),
            BootstrapError::EnvEmpty { var } => error@ == BootstrapFault::EnvEmpty(var@),
            BootstrapError::ImdsInvalidBaseUrl(url) => error@
                == BootstrapFault::ImdsInvalidBaseUrl(url@),
            BootstrapError::ImdsConnect { addr, message } => error@
                == BootstrapFault::ImdsConnect(addr@, message@),
            BootstrapError::ImdsIo(message) => error@ == BootstrapFault::ImdsIo(message@),
            BootstrapError::ImdsTimeout { endpoint, timeout_ms } => error@
                == BootstrapFault::ImdsTimeout(endpoint@, timeout_ms as int),
            BootstrapError::ImdsHttp { endpoint, status, body } => error@
                == BootstrapFault::ImdsHttp(endpoint@, status, body@),
            BootstrapError::ImdsMalformedResponse { endpoint } => error@
                == BootstrapFault::ImdsMalformedResponse(endpoint@),
            BootstrapError::ImdsEmptyToken => error@ == BootstrapFault::ImdsEmptyToken,
            BootstrapError::ImdsNoInstanceRole => error@ == BootstrapFault::ImdsNoInstanceRole,
        },
        match step {
            ImdsStep::Token => step@ == ImdsStage::Token,
            ImdsStep::Role { metadata_token } => step@ == ImdsStage::Role(metadata_token@),
            ImdsStep::Credentials { metadata_token, role } => step@ == ImdsStage::Credentials(
                metadata_token@,
                role@,
            ),
        },
        match next {
            ImdsNext::Ask(step) => next@ == ImdsTurn::Ask(step@),
            ImdsNext::Done(token) => next@ == ImdsTurn::Done(token.text()),
            ImdsNext::Failed(e) => next@ == ImdsTurn::Failed(e@),
        },
        token_outcome(Ok(token)) == Ok::<_, BootstrapFault>(token.text()),
        token_outcome(Err(error)) == Err::<Seq<char>, _>(error@),
        text_outcome(Ok(s)) == Ok::<_, BootstrapFault>(s@),
        text_outcome(Err(error)) == Err::<Seq<char>, _>(error@),
{
}

} // verus!
