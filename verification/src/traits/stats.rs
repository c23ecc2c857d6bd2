//! Statistics of a session.

use std::time::Duration;
use vstd::prelude::*;

use crate::ez::connection::ConnectionStats;

verus! {

/// Connection-level statistics.
///
/// `None` means that the implementation doesn't track a metric, while `Some(0)` means
/// actually zero.
pub trait Stats {
    /// Total bytes sent over the connection, including retransmissions and overhead.
    fn bytes_sent(&self) -> (metric: Option<u64>)
        default_ensures
            metric is None,
    {
        None
    }

    /// Total bytes received over the connection, including duplicate and overhead.
    fn bytes_received(&self) -> (metric: Option<u64>)
        default_ensures
            metric is None,
    {
        None
    }

    /// Total bytes lost (detected via retransmission or acknowledgement).
    fn bytes_lost(&self) -> (metric: Option<u64>)
        default_ensures
            metric is None,
    {
        None
    }

    /// Total number of datagrams sent.
    fn packets_sent(&self) -> (metric: Option<u64>)
        default_ensures
            metric is None,
    {
        None
    }

    /// Total number of datagrams received.
    fn packets_received(&self) -> (metric: Option<u64>)
        default_ensures
            metric is None,
    {
        None
    }

    /// Total number of datagrams detected as lost.
    fn packets_lost(&self) -> (metric: Option<u64>)
        default_ensures
            metric is None,
    {
        None
    }

    /// Smoothed round-trip time estimate.
    fn rtt(&self) -> (metric: Option<Duration>)
        default_ensures
            metric is None,
    {
        None
    }

    /// Estimated available send bandwidth, in bits per second.
    fn estimated_send_rate(&self) -> (metric: Option<u64>)
        default_ensures
            metric is None,
    {
        None
    }
}

/// Statistics of a transport that tracks none.
pub struct StatsUnavailable;

impl Stats for StatsUnavailable {
    fn bytes_sent(&self) -> (metric: Option<u64>)
        ensures
            metric is None,
    {
        None
    }

    fn bytes_received(&self) -> (metric: Option<u64>)
        ensures
            metric is None,
    {
        None
    }

    fn bytes_lost(&self) -> (metric: Option<u64>)
        ensures
            metric is None,
    {
        None
    }

    fn packets_sent(&self) -> (metric: Option<u64>)
        ensures
            metric is None,
    {
        None
    }

    fn packets_received(&self) -> (metric: Option<u64>)
        ensures
            metric is None,
    {
        None
    }

    fn packets_lost(&self) -> (metric: Option<u64>)
        ensures
            metric is None,
    {
        None
    }

    fn rtt(&self) -> (metric: Option<Duration>)
        ensures
            metric is None,
    {
        None
    }

    fn estimated_send_rate(&self) -> (metric: Option<u64>)
        ensures
            metric is None,
    {
        None
    }
}

impl Stats for ConnectionStats {
    fn bytes_sent(&self) -> (metric: Option<u64>)
        ensures
            metric == Some(self.bytes_sent),
    {
        Some(self.bytes_sent)
    }

    fn bytes_received(&self) -> (metric: Option<u64>)
        ensures
            metric == Some(self.bytes_received),
    {
        Some(self.bytes_received)
    }

    fn bytes_lost(&self) -> (metric: Option<u64>)
        ensures
            metric == Some(self.bytes_lost),
    {
        Some(self.bytes_lost)
    }

    fn packets_sent(&self) -> (metric: Option<u64>)
        ensures
            metric == Some(self.packets_sent),
    {
        Some(self.packets_sent)
    }

    fn packets_received(&self) -> (metric: Option<u64>)
        ensures
            metric == Some(self.packets_received),
    {
        Some(self.packets_received)
    }

    fn packets_lost(&self) -> (metric: Option<u64>)
        ensures
            metric == Some(self.packets_lost),
    {
        Some(self.packets_lost)
    }

    fn rtt(&self) -> (metric: Option<Duration>)
        ensures
            metric == self.rtt,
    {
        self.rtt
    }

    fn estimated_send_rate(&self) -> (metric: Option<u64>)
        ensures
            metric == self.send_rate,
    {
        self.send_rate
    }
}

/// The statistics of a connection tell each of its counters under its own name; a transport that
/// tracks nothing tells nothing.
pub proof fn law_every_counter_is_told_under_its_own_name(stats: &ConnectionStats, none: &StatsUnavailable)
    ensures
        forall|metric: Option<u64>|
            #[trigger] call_ensures(<ConnectionStats as Stats>::bytes_sent, (stats,), metric) ==> metric == Some(stats.bytes_sent),
        forall|metric: Option<u64>|
            #[trigger] call_ensures(<StatsUnavailable as Stats>::bytes_sent, (none,), metric) ==> metric is None,
        forall|metric: Option<u64>|
            #[trigger] call_ensures(<ConnectionStats as Stats>::bytes_received, (stats,), metric) ==> metric == Some(stats.bytes_received),
        forall|metric: Option<u64>|
            #[trigger] call_ensures(<StatsUnavailable as Stats>::bytes_received, (none,), metric) ==> metric is None,
        forall|metric: Option<u64>|
            #[trigger] call_ensures(<ConnectionStats as Stats>::bytes_lost, (stats,), metric) ==> metric == Some(stats.bytes_lost),
        forall|metric: Option<u64>|
            #[trigger] call_ensures(<StatsUnavailable as Stats>::bytes_lost, (none,), metric) ==> metric is None,
        forall|metric: Option<u64>|
            #[trigger] call_ensures(<ConnectionStats as Stats>::packets_sent, (stats,), metric) ==> metric == Some(stats.packets_sent),
        forall|metric: Option<u64>|
            #[trigger] call_ensures(<StatsUnavailable as Stats>::packets_sent, (none,), metric) ==> metric is None,
        forall|metric: Option<u64>|
            #[trigger] call_ensures(<ConnectionStats as Stats>::packets_received, (stats,), metric) ==> metric == Some(stats.packets_received),
        forall|metric: Option<u64>|
            #[trigger] call_ensures(<StatsUnavailable as Stats>::packets_received, (none,), metric) ==> metric is None,
        forall|metric: Option<u64>|
            #[trigger] call_ensures(<ConnectionStats as Stats>::packets_lost, (stats,), metric) ==> metric == Some(stats.packets_lost),
        forall|metric: Option<u64>|
            #[trigger] call_ensures(<StatsUnavailable as Stats>::packets_lost, (none,), metric) ==> metric is None,
        forall|metric: Option<Duration>|
            #[trigger] call_ensures(<ConnectionStats as Stats>::rtt, (stats,), metric) ==> metric == stats.rtt,
        forall|metric: Option<Duration>|
            #[trigger] call_ensures(<StatsUnavailable as Stats>::rtt, (none,), metric) ==> metric is None,
        forall|metric: Option<u64>|
            #[trigger] call_ensures(<ConnectionStats as Stats>::estimated_send_rate, (stats,), metric) ==> metric == stats.send_rate,
        forall|metric: Option<u64>|
            #[trigger] call_ensures(<StatsUnavailable as Stats>::estimated_send_rate, (none,), metric) ==> metric is None,
{
}

} // verus!
