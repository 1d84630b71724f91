//! The counters over a run of calls: what each counter holds after any number
//! of increments, and what a run of requests or error responses leaves behind.

use vstd::prelude::*;

use crate::accounting::{keeps_accounting, lemma_request_balanced, splits};
use crate::endpoint::SocketStats;
use crate::metrics::{advanced, bumped, counter_lines, socket_lines, spec_render, status_counters, Counter, GatewayMetrics};
use crate::resolver::{lemma_request_counted_once, request_counters, DatumHeaders, RequestKind, RequestSource};

verus! {

/// How many of the steps in `steps` raise counter `c`.
pub open spec fn times_raised(steps: Seq<Set<Counter>>, c: Counter) -> nat
    decreases steps.len(),
{
    if steps.len() == 0 {
        0
    } else {
        times_raised(steps.drop_last(), c) + if steps.last().contains(c) {
            1nat
        } else {
            0nat
        }
    }
}

/// `x` after `n` increments that wrap around at 2^64.
pub open spec fn plus_wrapping(x: u64, n: nat) -> u64 {
    ((x + n) % 0x1_0000_0000_0000_0000) as u64
}

/// `states` is a run of the counters in which step `i` (one call of an `inc_*`
/// method, or one request or response) raises the counters `steps[i]`.
pub open spec fn is_run(states: Seq<GatewayMetrics>, steps: Seq<Set<Counter>>) -> bool {
    &&& states.len() == steps.len() + 1
    &&& forall|i: int| #![trigger steps[i]] 0 <= i < steps.len() ==> advanced(states[i], states[i + 1], steps[i])
}

/// Every counter of `m` is zero, as in [`GatewayMetrics::new`].
pub open spec fn all_zero(m: GatewayMetrics) -> bool {
    forall|c: Counter| #[trigger] m.count(c) == 0
}

/// One more increment of a wrapping counter.
proof fn lemma_plus_wrapping_step(x: u64, n: nat)
    ensures
        bumped(plus_wrapping(x, n)) == plus_wrapping(x, n + 1),
{
    let m: int = 0x1_0000_0000_0000_0000;
    vstd::arithmetic::div_mod::lemma_add_mod_noop(x + n, 1, m);
}

/// A counter is raised at most once per step.
proof fn lemma_times_raised_bound(steps: Seq<Set<Counter>>, c: Counter)
    ensures
        times_raised(steps, c) <= steps.len(),
    decreases steps.len(),
{
    if steps.len() > 0 {
        lemma_times_raised_bound(steps.drop_last(), c);
    }
}

/// After any run of calls, each counter holds its starting value plus the
/// number of steps that raised it, wrapping around at 2^64; in particular a
/// counter that no step raised is unchanged. Calls made from several threads
/// through the mutex that guards the counters form such a run, so no
/// increment is lost.
pub proof fn lemma_run_counts(states: Seq<GatewayMetrics>, steps: Seq<Set<Counter>>)
    requires
        is_run(states, steps),
    ensures
        forall|c: Counter| #[trigger] states.last().count(c) == plus_wrapping(states[0].count(c), times_raised(steps, c)),
    decreases steps.len(),
{
    if steps.len() == 0 {
        assert forall|c: Counter| #[trigger] states.last().count(c) == plus_wrapping(states[0].count(c), times_raised(steps, c)) by {
            assert(states[0].count(c) + 0 < 0x1_0000_0000_0000_0000int);
        }
    } else {
        let n = steps.len() - 1;
        let prefix = states.drop_last();
        let first_steps = steps.drop_last();
        assert forall|i: int| #![trigger first_steps[i]] 0 <= i < first_steps.len() implies advanced(
            prefix[i],
            prefix[i + 1],
            first_steps[i],
        ) by {
            assert(steps[i] == first_steps[i]);
        }
        lemma_run_counts(prefix, first_steps);
        assert(steps[n] == steps.last());
        assert(advanced(states[n], states[n + 1], steps[n]));
        assert forall|c: Counter| #[trigger] states.last().count(c) == plus_wrapping(states[0].count(c), times_raised(steps, c)) by {
            assert(prefix.last() == states[n]);
            assert(prefix[0] == states[0]);
            lemma_plus_wrapping_step(states[0].count(c), times_raised(first_steps, c));
        }
    }
}

/// From fresh counters, a run of at most 2^64 - 1 steps leaves each counter at
/// exactly the number of steps that raised it.
pub proof fn lemma_fresh_run_counts(states: Seq<GatewayMetrics>, steps: Seq<Set<Counter>>)
    requires
        is_run(states, steps),
        all_zero(states[0]),
        steps.len() <= u64::MAX,
    ensures
        forall|c: Counter| #[trigger] states.last().count(c) == times_raised(steps, c),
{
    lemma_run_counts(states, steps);
    assert forall|c: Counter| #[trigger] states.last().count(c) == times_raised(steps, c) by {
        lemma_times_raised_bound(steps, c);
        assert(states[0].count(c) == 0);
    }
}

/// The counters that each of a run of requests raises: where it came in, its
/// kind (`None` when it could not be classified), its routing headers, and
/// whether a peer connection existed.
pub open spec fn request_steps(requests: Seq<(RequestSource, Option<RequestKind>, DatumHeaders, bool)>) -> Seq<Set<Counter>> {
    Seq::new(requests.len(), |i: int| request_counters(requests[i].0, requests[i].1, requests[i].2, requests[i].3))
}

/// The relations between the counts of a run of requests.
proof fn lemma_request_times(requests: Seq<(RequestSource, Option<RequestKind>, DatumHeaders, bool)>)
    ensures
        ({
            let s = request_steps(requests);
            &&& times_raised(s, Counter::RequestsTcp) + times_raised(s, Counter::RequestsUds) == requests.len()
            &&& times_raised(s, Counter::RequestsTunnel) + times_raised(s, Counter::RequestsOrigin) <= requests.len()
            &&& times_raised(s, Counter::RequestsTunnel) == times_raised(s, Counter::RequestsTunnelTcp) + times_raised(
                s,
                Counter::RequestsTunnelUds,
            )
            &&& times_raised(s, Counter::RequestsTunnel) == times_raised(s, Counter::TunnelReuseWithPeerConn)
                + times_raised(s, Counter::TunnelReuseWithoutPeerConn)
            &&& times_raised(s, Counter::RequestsOrigin) == times_raised(s, Counter::RequestsOriginTcp) + times_raised(
                s,
                Counter::RequestsOriginUds,
            )
            &&& times_raised(s, Counter::RequestsOrigin) == times_raised(s, Counter::OriginReuseWithPeerConn)
                + times_raised(s, Counter::OriginReuseWithoutPeerConn)
            &&& times_raised(s, Counter::DeniedMissingHeaderNodeId) <= times_raised(s, Counter::DeniedMissingHeader)
        }),
    decreases requests.len(),
{
    if requests.len() > 0 {
        let rest = requests.drop_last();
        lemma_request_times(rest);
        let s = request_steps(requests);
        assert(s.drop_last() =~= request_steps(rest));
        let (source, kind, h, p) = requests.last();
        let last = request_counters(source, kind, h, p);
        assert(s.last() == last);
        lemma_request_counted_once(source, kind, h, p);
        lemma_request_balanced(source, kind, h, p);
        assert(keeps_accounting(last));
        assert(splits(last, Counter::RequestsTunnel, Counter::RequestsTunnelTcp, Counter::RequestsTunnelUds));
        assert(splits(last, Counter::RequestsOrigin, Counter::RequestsOriginTcp, Counter::RequestsOriginUds));
        assert(splits(last, Counter::RequestsTunnel, Counter::TunnelReuseWithPeerConn, Counter::TunnelReuseWithoutPeerConn));
        assert(splits(last, Counter::RequestsOrigin, Counter::OriginReuseWithPeerConn, Counter::OriginReuseWithoutPeerConn));
        assert(last.contains(Counter::DeniedMissingHeaderNodeId) ==> last.contains(Counter::DeniedMissingHeader));
    }
}

/// After a run of `n` requests from fresh counters (`n` at most 2^64 - 1):
/// - requests over TCP plus requests over the Unix socket number `n`;
/// - tunnel plus origin requests number at most `n` (unclassified requests count
///   as neither);
/// - tunnel requests equal tunnel requests over TCP plus over the Unix socket,
///   and equal tunnel attempts with plus without an existing peer connection;
///   the same for origin requests;
/// - requests denied for a missing endpoint id are at most those denied for a
///   missing header.
pub proof fn lemma_requests_counted(
    states: Seq<GatewayMetrics>,
    requests: Seq<(RequestSource, Option<RequestKind>, DatumHeaders, bool)>,
)
    requires
        is_run(states, request_steps(requests)),
        all_zero(states[0]),
        requests.len() <= u64::MAX,
    ensures
        ({
            let m = states.last();
            &&& m.count(Counter::RequestsTcp) + m.count(Counter::RequestsUds) == requests.len()
            &&& m.count(Counter::RequestsTunnel) + m.count(Counter::RequestsOrigin) <= requests.len()
            &&& m.count(Counter::RequestsTunnel) == m.count(Counter::RequestsTunnelTcp) + m.count(Counter::RequestsTunnelUds)
            &&& m.count(Counter::RequestsTunnel) == m.count(Counter::TunnelReuseWithPeerConn) + m.count(
                Counter::TunnelReuseWithoutPeerConn,
            )
            &&& m.count(Counter::RequestsOrigin) == m.count(Counter::RequestsOriginTcp) + m.count(Counter::RequestsOriginUds)
            &&& m.count(Counter::RequestsOrigin) == m.count(Counter::OriginReuseWithPeerConn) + m.count(
                Counter::OriginReuseWithoutPeerConn,
            )
            &&& m.count(Counter::DeniedMissingHeaderNodeId) <= m.count(Counter::DeniedMissingHeader)
        }),
{
    lemma_fresh_run_counts(states, request_steps(requests));
    lemma_request_times(requests);
}

/// How many of `codes` lie in `lo..hi`.
pub open spec fn codes_between(codes: Seq<u16>, lo: int, hi: int) -> nat
    decreases codes.len(),
{
    if codes.len() == 0 {
        0
    } else {
        codes_between(codes.drop_last(), lo, hi) + if lo <= codes.last() < hi {
            1nat
        } else {
            0nat
        }
    }
}

/// The counters that each of a run of `inc_status_code` calls raises.
pub open spec fn status_steps(codes: Seq<u16>) -> Seq<Set<Counter>> {
    Seq::new(codes.len(), |i: int| status_counters(codes[i]))
}

/// The counts of a run of status codes.
proof fn lemma_status_times(codes: Seq<u16>)
    ensures
        ({
            let s = status_steps(codes);
            &&& times_raised(s, Counter::Responses4xx) == codes_between(codes, 400, 500)
            &&& times_raised(s, Counter::Responses5xx) == codes_between(codes, 500, 600)
            &&& times_raised(s, Counter::Responses5xx) == times_raised(s, Counter::Responses500) + times_raised(
                s,
                Counter::Responses502,
            ) + times_raised(s, Counter::Responses503) + times_raised(s, Counter::Responses504) + times_raised(
                s,
                Counter::ResponsesOther5xx,
            )
        }),
    decreases codes.len(),
{
    if codes.len() > 0 {
        let rest = codes.drop_last();
        lemma_status_times(rest);
        let s = status_steps(codes);
        assert(s.drop_last() =~= status_steps(rest));
        assert(s.last() == status_counters(codes.last()));
    }
}

/// After a run of `n` calls of `inc_status_code` from fresh counters (`n` at
/// most 2^64 - 1): the 4xx count is the number of client-error codes; the 5xx
/// count is the number of server-error codes, and is the sum of the counts for
/// 500, 502, 503, 504 and the other 5xx codes.
pub proof fn lemma_status_codes_counted(states: Seq<GatewayMetrics>, codes: Seq<u16>)
    requires
        is_run(states, status_steps(codes)),
        all_zero(states[0]),
        codes.len() <= u64::MAX,
    ensures
        ({
            let m = states.last();
            &&& m.count(Counter::Responses4xx) == codes_between(codes, 400, 500)
            &&& m.count(Counter::Responses5xx) == codes_between(codes, 500, 600)
            &&& m.count(Counter::Responses5xx) == m.count(Counter::Responses500) + m.count(Counter::Responses502)
                + m.count(Counter::Responses503) + m.count(Counter::Responses504) + m.count(Counter::ResponsesOther5xx)
        }),
{
    lemma_fresh_run_counts(states, status_steps(codes));
    lemma_status_times(codes);
}

/// After a run of at most 2^64 - 1 calls from fresh counters, the metrics
/// exposition shows each counter as the number of calls that raised it: the
/// counters' lines are those of `times_raised`, whatever the socket counters
/// and the proxy's own metrics text.
pub proof fn lemma_render_after_run(
    states: Seq<GatewayMetrics>,
    steps: Seq<Set<Counter>>,
    stats: SocketStats,
    downstream: Seq<char>,
)
    requires
        is_run(states, steps),
        all_zero(states[0]),
        steps.len() <= u64::MAX,
    ensures
        spec_render(states.last(), stats, downstream) == socket_lines(
            counter_lines(Seq::empty(), |c: Counter| times_raised(steps, c)),
            stats,
        ) + downstream,
{
    lemma_fresh_run_counts(states, steps);
    let m = states.last();
    assert((|c: Counter| m.count(c) as nat) =~= (|c: Counter| times_raised(steps, c)));
}

/// A counter that no step raises is raised no times.
proof fn lemma_times_raised_none(steps: Seq<Set<Counter>>, c: Counter)
    requires
        forall|i: int| 0 <= i < steps.len() ==> !(#[trigger] steps[i]).contains(c),
    ensures
        times_raised(steps, c) == 0,
    decreases steps.len(),
{
    if steps.len() > 0 {
        let rest = steps.drop_last();
        assert forall|i: int| 0 <= i < rest.len() implies !(#[trigger] rest[i]).contains(c) by {
            assert(rest[i] == steps[i]);
        }
        lemma_times_raised_none(rest, c);
        assert(steps[steps.len() - 1] == steps.last());
    }
}

/// After a run from fresh counters, a counter that no call raised still reads
/// zero, so its exposition line ends in ` 0`.
pub proof fn lemma_unraised_counters_stay_zero(states: Seq<GatewayMetrics>, steps: Seq<Set<Counter>>, c: Counter)
    requires
        is_run(states, steps),
        all_zero(states[0]),
        forall|i: int| 0 <= i < steps.len() ==> !(#[trigger] steps[i]).contains(c),
    ensures
        states.last().count(c) == 0,
        counter_lines(Seq::empty(), |x: Counter| times_raised(steps, x)) == counter_lines(
            Seq::empty(),
            |x: Counter| if x == c { 0nat } else { times_raised(steps, x) },
        ),
{
    lemma_run_counts(states, steps);
    lemma_times_raised_none(steps, c);
    assert(states[0].count(c) == 0);
    assert((|x: Counter| times_raised(steps, x)) =~= (|x: Counter| if x == c { 0nat } else { times_raised(steps, x) }));
}

/// How many of `flags` equal `v`.
pub open spec fn count_flags(flags: Seq<bool>, v: bool) -> nat
    decreases flags.len(),
{
    if flags.len() == 0 {
        0
    } else {
        count_flags(flags.drop_last(), v) + if flags.last() == v {
            1nat
        } else {
            0nat
        }
    }
}

/// The counters raised by a run of `inc_tunnel_reuse_attempt` calls (or, when
/// `tunnel` is false, of `inc_origin_reuse_attempt` calls) with the flags `flags`.
pub open spec fn reuse_steps(flags: Seq<bool>, tunnel: bool) -> Seq<Set<Counter>> {
    Seq::new(
        flags.len(),
        |i: int|
            if flags[i] {
                set![reuse_counter(tunnel, true)]
            } else {
                set![reuse_counter(tunnel, false)]
            },
    )
}

/// The counter of upstream attempts of one kind, with or without an existing
/// peer connection.
pub open spec fn reuse_counter(tunnel: bool, with_existing: bool) -> Counter {
    if tunnel {
        if with_existing { Counter::TunnelReuseWithPeerConn } else { Counter::TunnelReuseWithoutPeerConn }
    } else {
        if with_existing { Counter::OriginReuseWithPeerConn } else { Counter::OriginReuseWithoutPeerConn }
    }
}

proof fn lemma_reuse_times(flags: Seq<bool>, tunnel: bool)
    ensures
        times_raised(reuse_steps(flags, tunnel), reuse_counter(tunnel, true)) == count_flags(flags, true),
        times_raised(reuse_steps(flags, tunnel), reuse_counter(tunnel, false)) == count_flags(flags, false),
        forall|c: Counter|
            c != reuse_counter(tunnel, true) && c != reuse_counter(tunnel, false) ==> #[trigger] times_raised(
                reuse_steps(flags, tunnel),
                c,
            ) == 0,
    decreases flags.len(),
{
    if flags.len() > 0 {
        let rest = flags.drop_last();
        lemma_reuse_times(rest, tunnel);
        let s = reuse_steps(flags, tunnel);
        assert(s.drop_last() =~= reuse_steps(rest, tunnel));
        assert forall|c: Counter|
            c != reuse_counter(tunnel, true) && c != reuse_counter(tunnel, false) implies #[trigger] times_raised(s, c) == 0 by {
            assert(times_raised(reuse_steps(rest, tunnel), c) == 0);
        }
    }
}

/// After `a` calls with an existing peer connection and `b` without, in any
/// order, from fresh counters (`a + b` at most 2^64 - 1), the attempt counters
/// of that kind hold `a` and `b`, and every other counter is still zero.
pub proof fn lemma_reuse_attempts_counted(states: Seq<GatewayMetrics>, flags: Seq<bool>, tunnel: bool)
    requires
        is_run(states, reuse_steps(flags, tunnel)),
        all_zero(states[0]),
        flags.len() <= u64::MAX,
    ensures
        states.last().count(reuse_counter(tunnel, true)) == count_flags(flags, true),
        states.last().count(reuse_counter(tunnel, false)) == count_flags(flags, false),
        forall|c: Counter|
            c != reuse_counter(tunnel, true) && c != reuse_counter(tunnel, false) ==> #[trigger] states.last().count(c) == 0,
{
    lemma_fresh_run_counts(states, reuse_steps(flags, tunnel));
    lemma_reuse_times(flags, tunnel);
}

} // verus!
