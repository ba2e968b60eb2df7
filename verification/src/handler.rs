//! Per-connection protocol decisions.
//!
//! A request whose first line yields a path token other than the literal
//! `ip` is routed to geo-lookup mode: the token is relayed to the
//! geolocation collaborator and its raw body is echoed back under the JSON
//! content type. Every other request is routed to IP-echo mode: the header
//! lines are scanned for forwarding rules and the resolved address is
//! echoed back under the HTML content type. Either way the counting key is
//! tallied and the key's new count is reported for the request log.
use vstd::prelude::*;

use crate::chars::str_eq;
use crate::counter::{spec_count, spec_inc, CounterStore};
use crate::parse::{extract_path_token, spec_path_token};
use crate::resolve::{resolve_ip, spec_resolve};
use crate::response::{build_response, byte_len, spec_response, ContentType};
use vstd::string::StringExecFns;

verus! {

/// Where a request is routed.
pub enum Route {
    /// Geo-lookup mode, carrying the path token that is both the query key
    /// and the counting key.
    Geo(String),
    /// Plain IP-echo mode.
    IpEcho,
}

/// The token that sends a request into geo-lookup mode: a path token was
/// extracted and it is not the literal `ip`.
pub open spec fn spec_geo_token(line: Seq<char>) -> Option<Seq<char>> {
    match spec_path_token(line) {
        Some(t) => if t != "ip"@ {
            Some(t)
        } else {
            None
        },
        None => None,
    }
}

/// Decides the routing for a request line, exactly as [`spec_geo_token`]
/// describes it.
pub fn route_request(line: &str) -> (r: Route)
    ensures
        match r {
            Route::Geo(tok) => spec_geo_token(line@) == Some(tok@),
            Route::IpEcho => spec_geo_token(line@) is None,
        },
{
    match extract_path_token(line) {
        Some(tok) => {
            if str_eq(tok.as_str(), "ip") {
                Route::IpEcho
            } else {
                Route::Geo(tok)
            }
        },
        None => Route::IpEcho,
    }
}

/// A path token equal to exactly `ip` never triggers geo-lookup mode.
pub proof fn lemma_ip_token_never_geo(line: Seq<char>)
    requires
        spec_path_token(line) == Some("ip"@),
    ensures
        spec_geo_token(line) is None,
{
}

/// The geo-lookup request URL for a token.
pub fn geo_url(token: &str) -> (r: String)
    ensures
        r@ == "http://ip-api.com/json/"@ + token@ + "?lang=zh-CN"@,
{
    let mut r = String::from_str("http://ip-api.com/json/");
    r.append(token);
    r.append("?lang=zh-CN");
    r
}

/// What one handled request leaves behind: the response to write back, the
/// counting key, and the key's new count (for the request log).
pub struct Reply {
    pub response: String,
    pub key: String,
    pub count: usize,
}

/// Finishes a geo-lookup request: the collaborator's raw body is relayed
/// verbatim under the JSON content type, and the path token is tallied.
pub fn finish_geo(store: &mut CounterStore, token: &str, body: &str) -> (r: Reply)
    requires
        old(store).wf(),
        byte_len(body@) <= usize::MAX,
    ensures
        final(store).wf(),
        final(store)@ == spec_inc(old(store)@, token@),
        r.response@ == spec_response(ContentType::Json, body@),
        r.key@ == token@,
        r.count as int == spec_count(final(store)@, token@),
{
    let response = build_response(ContentType::Json, body);
    let count = store.increment(token);
    Reply { response: response, key: token.to_owned(), count: count }
}

/// Finishes an IP-echo request: the header lines are scanned for
/// forwarding rules, the resolved address is echoed as the body under the
/// HTML content type, and that address is tallied.
pub fn finish_ip_echo(store: &mut CounterStore, peer: &str, headers: &Vec<String>) -> (r: Reply)
    requires
        old(store).wf(),
        byte_len(spec_resolve(peer@, headers.deep_view())) <= usize::MAX,
    ensures
        final(store).wf(),
        ({
            let ip = spec_resolve(peer@, headers.deep_view());
            &&& final(store)@ == spec_inc(old(store)@, ip)
            &&& r.key@ == ip
            &&& r.response@ == spec_response(ContentType::Html, ip)
            &&& r.count as int == spec_count(final(store)@, ip)
        }),
{
    let ip = resolve_ip(peer, headers);
    let response = build_response(ContentType::Html, ip.as_str());
    let count = store.increment(ip.as_str());
    Reply { response: response, key: ip, count: count }
}

} // verus!
