//! The firewall proxy of sandboxed scripts: which `CONNECT` requests it tunnels.
use vstd::prelude::*;
use crate::text::{
    split_ws, split_ws_vec, split_on, split_on_vec, views, to_chars, string_of_all, starts_with,
    starts_with_str, str_views, contains_str,
};

verus! {

/// What the proxy does with one request.
#[derive(Clone, Debug, PartialEq, Eq)]
pub enum ProxyDecision {
    /// Open a tunnel to `host:port` and answer `200 Connection Established`.
    Tunnel(String),
    /// Refuse the host with `403 Forbidden`.
    Forbidden(String),
    /// Answer `400 Bad Request`: not a `CONNECT`.
    BadRequest,
    /// Answer nothing: a `CONNECT` without a target.
    Ignore,
}

/// The host of a `host:port` target: the text before its first `:`.
pub open spec fn target_host(host_port: Seq<char>) -> Seq<char> {
    split_on(host_port, ':')[0]
}

/// What the proxy does with a request whose text is `req`, given the allowed hosts.
pub open spec fn proxy_decision(req: Seq<char>, allowed: Seq<Seq<char>>) -> ProxyDecisionView {
    if !starts_with(req, "CONNECT "@) {
        ProxyDecisionView::BadRequest
    } else if split_ws(req).len() < 2 {
        ProxyDecisionView::Ignore
    } else if allowed.contains(target_host(split_ws(req)[1])) {
        ProxyDecisionView::Tunnel(split_ws(req)[1])
    } else {
        ProxyDecisionView::Forbidden(target_host(split_ws(req)[1]))
    }
}

/// The decision as text.
pub enum ProxyDecisionView {
    Tunnel(Seq<char>),
    Forbidden(Seq<char>),
    BadRequest,
    Ignore,
}

impl View for ProxyDecision {
    type V = ProxyDecisionView;

    open spec fn view(&self) -> ProxyDecisionView {
        match self {
            ProxyDecision::Tunnel(t) => ProxyDecisionView::Tunnel(t@),
            ProxyDecision::Forbidden(h) => ProxyDecisionView::Forbidden(h@),
            ProxyDecision::BadRequest => ProxyDecisionView::BadRequest,
            ProxyDecision::Ignore => ProxyDecisionView::Ignore,
        }
    }
}

/// Decides on one request: a `CONNECT` to an allowed host is tunnelled, to another host
/// refused; anything else is a bad request (see `proxy_decision`).
pub fn decide(req: &str, allowed: &Vec<String>) -> (r: ProxyDecision)
    ensures
        r@ == proxy_decision(req@, str_views(allowed@)),
{
    proof { reveal_strlit("CONNECT "); }
    if !starts_with_str(req, "CONNECT ") {
        return ProxyDecision::BadRequest;
    }
    let rc = to_chars(req);
    let parts = split_ws_vec(&rc);
    if parts.len() < 2 {
        return ProxyDecision::Ignore;
    }
    assert(views(parts@)[1] == parts@[1]@);
    let hp = &parts[1];
    let pieces = split_on_vec(hp, ':');
    proof { crate::range::lemma_split_on_nonempty(hp@, ':'); }
    assert(views(pieces@)[0] == pieces@[0]@);
    let host = string_of_all(&pieces[0]);
    if contains_str(allowed, host.as_str()) {
        ProxyDecision::Tunnel(string_of_all(hp))
    } else {
        ProxyDecision::Forbidden(host)
    }
}

} // verus!
