//! Resolution of the caller's address from forwarding headers.
//!
//! The resolved address starts as the transport-level peer address. Every
//! header line is tested against the three forwarding-header rules in their
//! fixed priority order, and each match overwrites the address, so the last
//! matching line wins, and within one line the last matching rule in
//! priority order wins.
use vstd::prelude::*;

use crate::parse::{rule_capture, spec_rule_capture, HeaderRule};

verus! {

/// What one header line contributes: the capture of the last rule in
/// priority order that matches the line, if any rule does.
pub open spec fn spec_line_capture(line: Seq<char>) -> Option<Seq<char>> {
    if spec_rule_capture(line, HeaderRule::RemoteHost) is Some {
        spec_rule_capture(line, HeaderRule::RemoteHost)
    } else if spec_rule_capture(line, HeaderRule::RealIp) is Some {
        spec_rule_capture(line, HeaderRule::RealIp)
    } else {
        spec_rule_capture(line, HeaderRule::ForwardedFor)
    }
}

/// The resolved address: the capture of the last header line (in receipt
/// order) that matches any rule, or the peer address if none matches.
pub open spec fn spec_resolve(peer: Seq<char>, headers: Seq<Seq<char>>) -> Seq<char>
    decreases headers.len(),
{
    if headers.len() == 0 {
        peer
    } else {
        match spec_line_capture(headers.last()) {
            Some(ip) => ip,
            None => spec_resolve(peer, headers.drop_last()),
        }
    }
}

/// Resolves the caller's address from the peer address and the header lines,
/// exactly as [`spec_resolve`] describes it.
pub fn resolve_ip(peer: &str, headers: &Vec<String>) -> (ip: String)
    ensures
        ip@ == spec_resolve(peer@, headers.deep_view()),
{
    let ghost hs = headers.deep_view();
    let mut ip = peer.to_owned();
    let mut h: usize = 0;
    while h < headers.len()
        invariant
            hs == headers.deep_view(),
            h <= headers.len(),
            ip@ == spec_resolve(peer@, hs.take(h as int)),
        decreases headers.len() - h,
    {
        let line: &str = headers[h].as_str();
        if let Some(v) = rule_capture(line, HeaderRule::ForwardedFor) {
            ip = v;
        }
        if let Some(v) = rule_capture(line, HeaderRule::RealIp) {
            ip = v;
        }
        if let Some(v) = rule_capture(line, HeaderRule::RemoteHost) {
            ip = v;
        }
        proof {
            assert(hs.take(h + 1).drop_last() =~= hs.take(h as int));
            assert(hs.take(h + 1).last() == line@);
        }
        h = h + 1;
    }
    proof {
        assert(hs.take(headers.len() as int) =~= hs);
    }
    ip
}

/// The resolution rule in its stated form: if some header line matches a
/// rule, the resolved address is the capture of the last such line.
pub proof fn lemma_resolve_last_match(peer: Seq<char>, headers: Seq<Seq<char>>, i: int)
    requires
        0 <= i < headers.len(),
        spec_line_capture(headers[i]) is Some,
        forall|j: int| i < j < headers.len() ==> spec_line_capture(headers[j]) is None,
    ensures
        spec_resolve(peer, headers) == spec_line_capture(headers[i]).unwrap(),
    decreases headers.len(),
{
    if i == headers.len() - 1 {
    } else {
        assert(spec_line_capture(headers.last()) is None);
        lemma_resolve_last_match(peer, headers.drop_last(), i);
    }
}

/// The fallback in its stated form: if no header line matches any rule, the
/// resolved address is the transport-level peer address.
pub proof fn lemma_resolve_no_match(peer: Seq<char>, headers: Seq<Seq<char>>)
    requires
        forall|j: int| 0 <= j < headers.len() ==> spec_line_capture(headers[j]) is None,
    ensures
        spec_resolve(peer, headers) == peer,
    decreases headers.len(),
{
    if headers.len() > 0 {
        assert(spec_line_capture(headers.last()) is None);
        lemma_resolve_no_match(peer, headers.drop_last());
    }
}

} // verus!
