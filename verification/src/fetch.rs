//! The data that the AdGuard Home API returns, and the requests made to it:
//! their addresses, their `Authorization` header and the check of the reply's status.
use vstd::prelude::*;
use vstd::string::*;
use vstd::utf8::encode_utf8;
use base64::Engine;
use crate::text::{decimal, format_decimal};

verus! {

broadcast use vstd::string::group_string_axioms;

// ------------------------------------------------------------------- the data

/// The reply of `/control/filtering/status`.
#[derive(Debug)]
pub struct AdGuardFilteringStatus {
    pub filters: Option<Vec<Filter>>,
}

/// One filter list configured in AdGuard Home.
#[derive(Debug)]
pub struct Filter {
    pub name: String,
    pub rules_count: u32,
    pub enabled: bool,
}

/// The reply of `/control/querylog`; a field missing from the reply takes its default.
#[derive(Debug)]
pub struct QueryResponse {
    pub data: Vec<Query>,
}

/// One entry of the query log.
#[derive(Debug)]
pub struct Query {
    pub cached: bool,
    pub client: String,
    pub upstream: String,
    pub elapsed_ms: String,
    pub question: Question,
    pub reason: String,
    pub time: String,
}

/// The DNS question of a query-log entry.
#[derive(Debug)]
pub struct Question {
    pub class: String,
    pub name: String,
    pub question_type: String,
}

impl Default for Question {
    fn default() -> (q: Self)
        ensures
            q.class@.len() == 0,
            q.name@.len() == 0,
            q.question_type@.len() == 0,
    {
        Question { class: String::new(), name: String::new(), question_type: String::new() }
    }
}

impl Default for Query {
    fn default() -> (q: Self)
        ensures
            !q.cached,
            q.client@.len() == 0,
            q.upstream@.len() == 0,
            q.elapsed_ms@.len() == 0,
            q.question.class@.len() == 0,
            q.question.name@.len() == 0,
            q.question.question_type@.len() == 0,
            q.reason@.len() == 0,
            q.time@.len() == 0,
    {
        Query {
            cached: false,
            client: String::new(),
            upstream: String::new(),
            elapsed_ms: String::new(),
            question: Question::default(),
            reason: String::new(),
            time: String::new(),
        }
    }
}

impl Default for QueryResponse {
    fn default() -> (r: Self)
        ensures
            r.data@.len() == 0,
    {
        QueryResponse { data: Vec::new() }
    }
}

// ------------------------------------------------------------- base64 encoding

/// What `base64::engine::general_purpose::STANDARD.encode` gives for `bytes`:
/// standard alphabet, with `=` padding.
pub uninterp spec fn base64_standard(bytes: Seq<u8>) -> Seq<char>;

/// The length of the padded base64 text of `n` bytes.
pub open spec fn base64_len(n: nat) -> nat {
    4 * ((n + 2) / 3)
}

/// `base64::Engine::encode` with the `STANDARD` engine, on the UTF-8 bytes of `text`.
/// Its result is named `base64_standard`; of it, the contract states only its length,
/// four characters for each started group of three bytes. `encode` panics when that
/// length does not fit in a `usize`, so the call requires that it does.
#[verifier::external_body]
fn encode_base64(text: &str) -> (r: String)
    requires
        base64_len(encode_utf8(text@).len()) <= usize::MAX,
    ensures
        r@ == base64_standard(encode_utf8(text@)),
        r@.len() == base64_len(encode_utf8(text@).len()),
{
    base64::engine::general_purpose::STANDARD.encode(text)
}

// -------------------------------------------------------------------- requests

/// The credentials `username:password` that basic authentication encodes.
pub open spec fn credentials(username: Seq<char>, password: Seq<char>) -> Seq<char> {
    username + seq![':'] + password
}

/// The value of the `Authorization` header for basic authentication:
/// `Basic ` and the base64 text of `username:password`.
pub open spec fn basic_auth(username: Seq<char>, password: Seq<char>) -> Seq<char> {
    "Basic "@ + base64_standard(encode_utf8(credentials(username, password)))
}

/// The header carries the whole username, a colon and the whole password, encoded
/// in base64 after `Basic `; nothing of either is dropped or changed.
pub proof fn law_basic_auth_encodes_whole_credentials(username: Seq<char>, password: Seq<char>)
    ensures
        basic_auth(username, password) == "Basic "@ + base64_standard(encode_utf8(username + seq![':'] + password)),
        credentials(username, password).len() == username.len() + 1 + password.len(),
        credentials(username, password).take(username.len() as int) == username,
        credentials(username, password)[username.len() as int] == ':',
        credentials(username, password).skip(username.len() as int + 1) == password,
{
    let c = credentials(username, password);
    assert(c.take(username.len() as int) =~= username);
    assert(c.skip(username.len() as int + 1) =~= password);
}

/// Builds the `Authorization` header value that every request to AdGuard Home carries.
pub fn basic_auth_value(username: &str, password: &str) -> (r: String)
    requires
        base64_len(encode_utf8(credentials(username@, password@)).len()) <= usize::MAX,
    ensures
        r@ == basic_auth(username@, password@),
        r@ == "Basic "@ + base64_standard(encode_utf8(username@ + seq![':'] + password@)),
{
    let mut creds = username.to_owned();
    creds.append(":");
    creds.append(password);
    proof {
        reveal_strlit(":");
        assert(creds@ =~= credentials(username@, password@));
    }
    let encoded = encode_base64(creds.as_str());
    basic_auth_header(encoded.as_str())
}

/// The `Authorization` value for credentials already encoded in base64.
pub fn basic_auth_header(encoded: &str) -> (r: String)
    ensures
        r@ == "Basic "@ + encoded@,
{
    let mut r = "Basic ".to_owned();
    r.append(encoded);
    r
}

/// The address of the filter-list endpoint of the instance at `endpoint`.
pub fn filter_list_url(endpoint: &str) -> (r: String)
    ensures
        r@ == endpoint@ + "/control/filtering/status"@,
{
    let mut r = endpoint.to_owned();
    r.append("/control/filtering/status");
    r
}

/// The address of the query-log endpoint, asking for at most `limit` entries.
pub fn query_log_url(endpoint: &str, limit: u32) -> (r: String)
    ensures
        r@ == endpoint@ + "/control/querylog?limit="@ + decimal(limit as nat),
{
    let mut r = endpoint.to_owned();
    r.append("/control/querylog?limit=");
    let n = format_decimal(limit as u64);
    r.append(n.as_str());
    r
}

/// The base address of an instance: `protocol://ip:port`.
pub fn instance_address(protocol: &str, ip: &str, port: &str) -> (r: String)
    ensures
        r@ == protocol@ + "://"@ + ip@ + seq![':'] + port@,
{
    let mut r = protocol.to_owned();
    r.append("://");
    r.append(ip);
    r.append(":");
    r.append(port);
    proof {
        reveal_strlit(":");
    }
    r
}

/// The address of the status endpoint of the instance at `protocol://ip:port`.
pub fn status_url(protocol: &str, ip: &str, port: &str) -> (r: String)
    ensures
        r@ == protocol@ + "://"@ + ip@ + seq![':'] + port@ + "/control/status"@,
{
    let mut r = instance_address(protocol, ip, port);
    r.append("/control/status");
    r
}

/// The crates.io address that describes the crate `name`.
pub fn crate_info_url(name: &str) -> (r: String)
    ensures
        r@ == "https://crates.io/api/v1/crates/"@ + name@,
{
    let mut r = "https://crates.io/api/v1/crates/".to_owned();
    r.append(name);
    r
}

// --------------------------------------------------------------------- replies

/// `StatusCode::is_success`: the status is in `200..=299`.
pub open spec fn success_status(code: u16) -> bool {
    200 <= code && code <= 299
}

/// Whether an HTTP status code reports success.
pub fn is_success_status(code: u16) -> (r: bool)
    ensures
        r == success_status(code),
{
    200 <= code && code <= 299
}

/// Exactly the statuses 200 through 299 are successes: 199, 300, 401, 403, 404 and
/// 500 are not.
pub proof fn law_success_is_2xx(code: u16)
    ensures
        success_status(code) <==> 200 <= code && code <= 299,
        success_status(code) ==> code / 100 == 2,
        code / 100 == 2 ==> success_status(code),
{
}

/// Why a request to AdGuard Home gave no data.
#[derive(Debug, Clone, Copy, PartialEq, Eq, Structural)]
pub enum FetchError {
    /// The reply came with this status, which is not a success.
    RequestFailed { status: u16 },
}

/// Accepts a reply whose status is a success; any other status is an error
/// that names it ("Request failed with status code ...").
pub fn check_status(code: u16) -> (r: Result<(), FetchError>)
    ensures
        r is Ok <==> success_status(code),
        r matches Err(FetchError::RequestFailed { status }) ==> status == code,
{
    if is_success_status(code) {
        Ok(())
    } else {
        Err(FetchError::RequestFailed { status: code })
    }
}

} // verus!
