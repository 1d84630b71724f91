//! The error page the gateway answers with, and the counters it raises.

use vstd::prelude::*;
use vstd::string::*;

use crate::endpoint::{peer_conn_open, read_socket_stats, SocketStats};
use crate::metrics::{
    advanced, is_server_error, lemma_advanced_compose, lemma_advanced_none, status_counters, Counter, GatewayMetrics,
};
use crate::text::{decimal, push_decimal};

verus! {

/// The title and explanation shown on an error page.
#[derive(Debug)]
pub struct ErrorPage {
    pub title: String,
    pub body: String,
}

/// The reason phrase that the `http` crate registers for status `code`, if any.
pub uninterp spec fn canonical_reason_of(code: u16) -> Option<Seq<char>>;

/// The canonical reason phrase of a status code, from
/// `http::StatusCode::canonical_reason` (through hyper's re-export).
///
/// Trusted: the result is `canonical_reason_of(code)`; `code` is a valid status
/// code, so `StatusCode::from_u16` accepts it.
#[verifier::external_body]
fn canonical_reason(code: u16) -> (r: Option<&'static str>)
    requires
        100 <= code <= 999,
    ensures
        r is Some <==> canonical_reason_of(code) is Some,
        r matches Some(s) ==> canonical_reason_of(code) == Some(s@),
{
    match hyper::StatusCode::from_u16(code) {
        Ok(status) => status.canonical_reason(),
        Err(_) => None,
    }
}

/// The page title for status `code`: the code, a space, and its reason phrase
/// (nothing after the space when the code has none).
pub open spec fn spec_title(code: u16) -> Seq<char> {
    decimal(code as nat) + " "@ + match canonical_reason_of(code) {
        Some(reason) => reason,
        None => Seq::empty(),
    }
}

/// The explanation shown for status `code`.
pub open spec fn spec_body(code: u16) -> Seq<char> {
    if code == 400 {
        "The request could not be understood by the gateway. Please try again."@
    } else if code == 401 {
        "You are not logged in or your session has expired. Please sign in and try again."@
    } else if code == 403 {
        "Access to this resource is not allowed through the gateway."@
    } else if code == 404 {
        "The requested page could not be found through the gateway."@
    } else if code == 500 {
        "The gateway encountered an internal error. Please try again later."@
    } else if code == 502 {
        "The gateway could not get a valid response from the upstream service."@
    } else if code == 503 {
        "The service is temporarily unavailable. Please try again shortly."@
    } else if code == 504 {
        "The upstream service took too long to respond."@
    } else {
        "The service experienced an unexpected error."@
    }
}

/// The counters that answering with status `code` raises.
pub open spec fn response_counters(code: u16, has_existing_peer_conn: bool) -> Set<Counter> {
    status_counters(code).union(
        if 500 <= code < 600 {
            if has_existing_peer_conn {
                set![Counter::Failures5xxWithPeerConn]
            } else {
                set![Counter::Failures5xxWithoutPeerConn]
            }
        } else {
            Set::empty()
        },
    )
}

/// The explanation shown for status `code`.
pub fn body_for_status(code: u16) -> (r: &'static str)
    ensures
        r@ == spec_body(code),
{
    if code == 400 {
        "The request could not be understood by the gateway. Please try again."
    } else if code == 401 {
        "You are not logged in or your session has expired. Please sign in and try again."
    } else if code == 403 {
        "Access to this resource is not allowed through the gateway."
    } else if code == 404 {
        "The requested page could not be found through the gateway."
    } else if code == 500 {
        "The gateway encountered an internal error. Please try again later."
    } else if code == 502 {
        "The gateway could not get a valid response from the upstream service."
    } else if code == 503 {
        "The service is temporarily unavailable. Please try again shortly."
    } else if code == 504 {
        "The upstream service took too long to respond."
    } else {
        "The service experienced an unexpected error."
    }
}

/// The page title for status `code`.
pub fn title_for_status(code: u16) -> (r: String)
    requires
        100 <= code <= 999,
    ensures
        r@ == spec_title(code),
{
    let mut title = String::new();
    push_decimal(&mut title, code as u64);
    title.append(" ");
    match canonical_reason(code) {
        Some(reason) => title.append(reason),
        None => {},
    }
    proof {
        assert(Seq::<char>::empty() + decimal(code as nat) =~= decimal(code as nat));
        if canonical_reason_of(code) is None {
            assert(decimal(code as nat) + " "@ + Seq::<char>::empty() =~= decimal(code as nat) + " "@);
        }
    }
    title
}

/// The error page for status `code` (a valid status code), counting the
/// response by status and, for a 5xx, by whether a peer connection existed.
pub fn error_page_for(metrics: &mut GatewayMetrics, code: u16, has_existing_peer_conn: bool) -> (page: ErrorPage)
    requires
        100 <= code <= 999,
    ensures
        page.title@ == spec_title(code),
        page.body@ == spec_body(code),
        advanced(*old(metrics), *final(metrics), response_counters(code, has_existing_peer_conn)),
{
    let ghost start = *metrics;
    metrics.inc_status_code(code);
    let ghost m1 = *metrics;
    if is_server_error(code) {
        metrics.inc_5xx_failure_by_peer_conn_state(has_existing_peer_conn);
        proof {
            let f = if has_existing_peer_conn {
                set![Counter::Failures5xxWithPeerConn]
            } else {
                set![Counter::Failures5xxWithoutPeerConn]
            };
            lemma_advanced_compose(start, m1, *metrics, status_counters(code), f);
        }
    } else {
        proof {
            lemma_advanced_none(m1);
            lemma_advanced_compose(start, m1, m1, status_counters(code), Set::empty());
            assert(response_counters(code, has_existing_peer_conn) =~= status_counters(code).union(Set::empty()));
        }
    }
    let title = title_for_status(code);
    let mut body = String::new();
    body.append(body_for_status(code));
    proof {
        assert(Seq::<char>::empty() + spec_body(code) =~= spec_body(code));
    }
    ErrorPage { title, body }
}

/// The error page for status `code` (see [`error_page_for`]) given the
/// endpoint's connection counts `stats` as read: a server error is counted as a
/// failure with an existing peer connection exactly when more peer connections
/// were opened than closed.
pub fn error_response_with_stats(metrics: &mut GatewayMetrics, stats: &SocketStats, code: u16) -> (page: ErrorPage)
    requires
        100 <= code <= 999,
    ensures
        page.title@ == spec_title(code),
        page.body@ == spec_body(code),
        advanced(*old(metrics), *final(metrics), response_counters(code, stats.conns_opened > stats.conns_closed)),
{
    let peer_conn = peer_conn_open(stats.conns_opened, stats.conns_closed);
    error_page_for(metrics, code, peer_conn)
}

/// The error page for status `code` (see [`error_response_with_stats`]),
/// reading the endpoint's connection counts when the status is a server error.
///
/// The counts are live, so which of the two failure counters a server error
/// raises is stated of the counts read, in [`error_response_with_stats`].
pub fn error_response(metrics: &mut GatewayMetrics, endpoint: &iroh::Endpoint, code: u16) -> (page: ErrorPage)
    requires
        100 <= code <= 999,
    ensures
        page.title@ == spec_title(code),
        page.body@ == spec_body(code),
        advanced(*old(metrics), *final(metrics), response_counters(code, true))
            || advanced(*old(metrics), *final(metrics), response_counters(code, false)),
{
    if is_server_error(code) {
        let stats = read_socket_stats(endpoint);
        error_response_with_stats(metrics, &stats, code)
    } else {
        error_page_for(metrics, code, false)
    }
}

/// A server-error response raises the failure counter with an existing peer
/// connection exactly when the connection counts show more opened than closed,
/// and the one without otherwise; any other status raises neither.
pub proof fn lemma_failure_follows_connection_counts(code: u16, opened: u64, closed: u64)
    ensures
        response_counters(code, opened > closed).contains(Counter::Failures5xxWithPeerConn) == (500 <= code < 600
            && opened > closed),
        response_counters(code, opened > closed).contains(Counter::Failures5xxWithoutPeerConn) == (500 <= code < 600
            && opened <= closed),
{
}

} // verus!
