//! How fast a download may go, and with how many connections.

use vstd::prelude::*;
use crate::engine::metrics::SchedulerMetrics;
use crate::engine::transport::{
    counted, growth_shield_samples, protocol_growth_shield_min_samples, record_max_active_connections,
    record_protocol_scale_metric, scale_counted,
};
use crate::engine::types::{ProtocolFamily, ScalerAction, ScalerConfig, WorkerState};
use crate::units::{ceil_div, clamp_int, max_int, max_u64, max_usize, min_int, saturated};

verus! {

/// A limit on bytes per second. A quota of zero is no limit.
#[derive(Debug, Clone, Copy, PartialEq, Eq, Structural)]
pub struct TokenBucket {
    pub quota_bytes_per_sec: u64,
    pub tokens: i64,
    pub refill_interval_ms: u64,
}

impl TokenBucket {
    pub fn new() -> (r: TokenBucket)
        ensures
            r == (TokenBucket { quota_bytes_per_sec: 0, tokens: 0, refill_interval_ms: 100 }),
    {
        TokenBucket { quota_bytes_per_sec: 0, tokens: 0, refill_interval_ms: 100 }
    }

    /// The tokens after `interval_ms` more: what the quota grants in that
    /// time, but no more than it grants in two seconds.
    pub open spec fn refilled(self, interval_ms: int) -> int {
        if self.quota_bytes_per_sec == 0 {
            i64::MAX as int / 2
        } else {
            min_int(
                self.tokens + self.quota_bytes_per_sec * interval_ms / 1000,
                min_int(self.quota_bytes_per_sec * 2, i64::MAX as int),
            )
        }
    }

    pub fn refill(&mut self, interval_ms: u64)
        ensures
            *final(self) == (TokenBucket { tokens: old(self).refilled(interval_ms as int) as i64, ..*old(self) }),
            i64::MIN <= old(self).refilled(interval_ms as int) <= i64::MAX,
    {
        let quota: u64 = self.quota_bytes_per_sec;
        if quota == 0 {
            self.tokens = i64::MAX / 2;
            return ;
        }
        assert(0 <= quota * interval_ms <= u64::MAX * u64::MAX) by (nonlinear_arith)
            requires
                0 <= quota <= u64::MAX,
                0 <= interval_ms <= u64::MAX,
        ;
        let add: u128 = (quota as u128) * (interval_ms as u128) / 1000;
        let wide_cap: u128 = (quota as u128) * 2;
        let cap: i64 = if wide_cap > i64::MAX as u128 {
            i64::MAX
        } else {
            wide_cap as i64
        };
        let bounded: i128 = if add > u64::MAX as u128 * 2 {
            u64::MAX as i128 * 2
        } else {
            add as i128
        };
        let sum: i128 = self.tokens as i128 + bounded;
        self.tokens = if sum > cap as i128 {
            cap
        } else {
            sum as i64
        };
    }

    /// Takes `bytes` tokens; whether there were enough.
    pub fn consume(&mut self, bytes: usize) -> (r: bool)
        ensures
            old(self).quota_bytes_per_sec == 0 ==> r && *final(self) == *old(self),
            old(self).quota_bytes_per_sec > 0 ==> {
                &&& r == (old(self).tokens - bytes >= 0)
                &&& *final(self) == (TokenBucket {
                    tokens: max_int(old(self).tokens - bytes, i64::MIN as int) as i64,
                    ..*old(self)
                })
            },
    {
        if self.quota_bytes_per_sec == 0 {
            return true;
        }
        let remaining: i128 = self.tokens as i128 - bytes as i128;
        self.tokens = if remaining < i64::MIN as i128 {
            i64::MIN
        } else {
            remaining as i64
        };
        remaining >= 0
    }
}

/// With a quota, no more is ever saved up than two seconds' worth.
pub proof fn law_bucket_is_capped(b: TokenBucket, interval_ms: int)
    requires
        b.quota_bytes_per_sec > 0,
        interval_ms >= 0,
    ensures
        b.refilled(interval_ms) <= b.quota_bytes_per_sec * 2,
{
}

/// The quota of a download: the share of the global limit and its own limit,
/// whichever is less, where zero is no limit.
pub open spec fn quota_for(share: int, own: int) -> int {
    if share == 0 {
        own
    } else if own == 0 {
        share
    } else {
        min_int(share, own)
    }
}

/// How a request went.
#[derive(Debug, Clone, Copy, PartialEq, Eq, Structural)]
pub enum RequestKind {
    /// Over a connection that was open.
    Reused,
    /// Over a new connection.
    Fresh,
}

/// How the throughput changed since a connection was added.
#[derive(Debug, Clone, Copy, PartialEq, Eq, Structural)]
pub enum GainSignal {
    /// There is nothing to compare with.
    Unknown,
    /// It fell by more than three per cent.
    Loss,
    /// It did not change enough to tell.
    Unclear,
    /// It rose by as much as a connection should bring.
    Gain,
}

/// What the measurements say at a heartbeat.
#[derive(Debug, Clone, Copy, PartialEq, Eq, Structural)]
pub struct HeartbeatSignals {
    pub gain: GainSignal,
    /// The throughput per connection is below 85 per cent of the best.
    pub inefficient: bool,
}

/// What to do at a heartbeat.
#[derive(Debug, Clone, Copy, PartialEq, Eq, Structural)]
pub enum ScaleDecision {
    /// No worker is left: start up to so many.
    Recover(usize),
    /// End the weakest worker, if there is one.
    Drop,
    /// Add a worker, if there is a connection for it.
    Add,
    /// Nothing.
    Hold,
}

/// The counters and switches of the scaler of one download.
#[derive(Debug, Clone, Copy, PartialEq, Eq, Structural)]
pub struct Scaler {
    pub n_active: usize,
    pub last_action: ScalerAction,
    pub slow_start_remaining: u32,
    pub config: ScalerConfig,
    pub reused_count: u64,
    pub total_request_count: u64,
    pub reused_rtt_samples: u64,
    pub skip_growth_sample: bool,
    pub reuse_health_low: bool,
    pub last_add_was_stream: bool,
    pub h2_stream_count: usize,
    pub h2_stream_saturated: bool,
    pub last_protocol: ProtocolFamily,
}

impl Scaler {
    /// The scaler of a download that begins.
    pub fn from_config(config: ScalerConfig) -> (r: Scaler)
        ensures
            r == (Scaler {
                n_active: 1,
                last_action: ScalerAction::Hold,
                slow_start_remaining: 3,
                config,
                reused_count: 0,
                total_request_count: 0,
                reused_rtt_samples: 0,
                skip_growth_sample: false,
                reuse_health_low: false,
                last_add_was_stream: false,
                h2_stream_count: 0,
                h2_stream_saturated: false,
                last_protocol: ProtocolFamily::Other,
            }),
    {
        Scaler {
            n_active: 1,
            last_action: ScalerAction::Hold,
            slow_start_remaining: 3,
            config,
            reused_count: 0,
            total_request_count: 0,
            reused_rtt_samples: 0,
            skip_growth_sample: false,
            reuse_health_low: false,
            last_add_was_stream: false,
            h2_stream_count: 0,
            h2_stream_saturated: false,
            last_protocol: ProtocolFamily::Other,
        }
    }

    /// Takes the mark that the next growth sample is to be skipped, and counts it.
    pub fn take_skip(&mut self, metrics: &mut SchedulerMetrics) -> (skip: bool)
        ensures
            skip == old(self).skip_growth_sample,
            *final(self) == (Scaler { skip_growth_sample: false, ..*old(self) }),
            *final(metrics) == if skip {
                SchedulerMetrics { skipped_growth_samples: counted(old(metrics).skipped_growth_samples), ..*old(metrics) }
            } else {
                *old(metrics)
            },
    {
        let skip: bool = self.skip_growth_sample;
        self.skip_growth_sample = false;
        if skip {
            SchedulerMetrics::add(&mut metrics.skipped_growth_samples, 1);
        }
        skip
    }

    /// Whether this heartbeat belongs to the slow start, which it shortens.
    pub fn take_slow_start(&mut self) -> (slow: bool)
        ensures
            slow == (old(self).slow_start_remaining > 0),
            *final(self) == (Scaler {
                slow_start_remaining: max_int(old(self).slow_start_remaining - 1, 0) as u32,
                ..*old(self)
            }),
    {
        if self.slow_start_remaining > 0 {
            self.slow_start_remaining = self.slow_start_remaining - 1;
            true
        } else {
            false
        }
    }

    /// What a heartbeat calls for.
    pub open spec fn decision(self, s: HeartbeatSignals) -> ScaleDecision {
        let min_c = self.config.min_connections;
        let max_c = self.config.max_connections;
        if self.n_active == 0 {
            ScaleDecision::Recover(max_int(min_c as int, 1) as usize)
        } else if self.last_action == ScalerAction::Grow {
            if s.gain == GainSignal::Loss && self.n_active > min_c {
                ScaleDecision::Drop
            } else {
                ScaleDecision::Hold
            }
        } else if s.inefficient && self.n_active > min_c {
            ScaleDecision::Drop
        } else if self.n_active < max_c && !self.h2_stream_saturated {
            ScaleDecision::Add
        } else {
            ScaleDecision::Hold
        }
    }

    /// The scaler after a heartbeat: a growth that brought a loss or a gain is
    /// settled.
    pub open spec fn settled(self, signals: HeartbeatSignals) -> Scaler {
        Scaler {
            last_action: if self.n_active > 0 && self.last_action == ScalerAction::Grow && (signals.gain
                == GainSignal::Loss || signals.gain == GainSignal::Gain) {
                ScalerAction::Hold
            } else {
                self.last_action
            },
            ..self
        }
    }

    /// Decides what to do at a heartbeat. A growth that brought a loss or a
    /// gain is settled.
    pub fn decide(&mut self, signals: HeartbeatSignals) -> (d: ScaleDecision)
        ensures
            d == old(self).decision(signals),
            *final(self) == old(self).settled(signals),
    {
        let min_c: usize = self.config.min_connections;
        let max_c: usize = self.config.max_connections;
        if self.n_active == 0 {
            return ScaleDecision::Recover(max_usize(min_c, 1));
        }
        if self.last_action == ScalerAction::Grow {
            match signals.gain {
                GainSignal::Loss => {
                    self.last_action = ScalerAction::Hold;
                    if self.n_active > min_c {
                        return ScaleDecision::Drop;
                    }
                },
                GainSignal::Gain => {
                    self.last_action = ScalerAction::Hold;
                },
                _ => {},
            }
            return ScaleDecision::Hold;
        }
        if signals.inefficient && self.n_active > min_c {
            return ScaleDecision::Drop;
        }
        if self.n_active < max_c && !self.h2_stream_saturated {
            return ScaleDecision::Add;
        }
        ScaleDecision::Hold
    }

    /// Whether a worker that is added now is one more stream of an HTTP/2
    /// connection, given whether more than 70 per cent of requests reuse one.
    pub open spec fn adds_stream(self, protocol: ProtocolFamily, reuse_high: bool) -> bool {
        protocol == ProtocolFamily::Http2 && reuse_high && self.reused_rtt_samples >= 2
    }

    pub fn is_stream_add(&self, protocol: ProtocolFamily, reuse_high: bool) -> (r: bool)
        ensures
            r == self.adds_stream(protocol, reuse_high),
    {
        protocol == ProtocolFamily::Http2 && reuse_high && self.reused_rtt_samples >= 2
    }

    /// How many heartbeats a new connection is given, out of `base`, which is
    /// reckoned from the round trip: one for a stream; else one more where
    /// HTTP/1 connections are not reused well, one less where HTTP/2
    /// connections are, at most two for HTTP/3, within one to four.
    pub open spec fn slow_start(
        self,
        base: int,
        protocol: ProtocolFamily,
        is_stream_add: bool,
        reuse_low: bool,
        reuse_high: bool,
    ) -> int {
        let b = clamp_int(base, 1, 4);
        if is_stream_add {
            1
        } else {
            match protocol {
                ProtocolFamily::Http1 => if reuse_low {
                    clamp_int(b + 1, 1, 4)
                } else {
                    b
                },
                ProtocolFamily::Http2 => if reuse_high && self.reused_rtt_samples >= 2 {
                    clamp_int(b - 1, 1, 4)
                } else {
                    b
                },
                ProtocolFamily::Http3 => min_int(b, 2),
                ProtocolFamily::Other => b,
            }
        }
    }

    pub fn compute_slow_start_heartbeats(
        &self,
        base: u32,
        protocol: ProtocolFamily,
        is_stream_add: bool,
        reuse_low: bool,
        reuse_high: bool,
    ) -> (r: u32)
        ensures
            r == self.slow_start(base as int, protocol, is_stream_add, reuse_low, reuse_high),
            1 <= r <= 4,
    {
        let b: u32 = if base < 1 {
            1
        } else if base > 4 {
            4
        } else {
            base
        };
        if is_stream_add {
            return 1;
        }
        match protocol {
            ProtocolFamily::Http1 => {
                if reuse_low && b < 4 {
                    b + 1
                } else {
                    b
                }
            },
            ProtocolFamily::Http2 => {
                if reuse_high && self.reused_rtt_samples >= 2 && b > 1 {
                    b - 1
                } else {
                    b
                }
            },
            ProtocolFamily::Http3 => {
                if b > 2 {
                    2
                } else {
                    b
                }
            },
            ProtocolFamily::Other => b,
        }
    }

    /// The scaler after `recovered` workers were started where none was left.
    pub fn record_recovery(
        &mut self,
        recovered: usize,
        protocol: ProtocolFamily,
        slow_start_heartbeats: u32,
        metrics: &mut SchedulerMetrics,
    )
        ensures
            recovered == 0 ==> *final(self) == *old(self) && *final(metrics) == *old(metrics),
            recovered > 0 ==> {
                &&& *final(self) == (Scaler {
                    n_active: recovered,
                    last_action: ScalerAction::Grow,
                    slow_start_remaining: slow_start_heartbeats,
                    ..*old(self)
                })
                &&& *final(metrics) == recovery_counted(*old(metrics), protocol, recovered as int)
            },
    {
        if recovered == 0 {
            return ;
        }
        let mut i: usize = 0;
        while i < recovered
            invariant
                i <= recovered,
                *metrics == recoveries_counted(*old(metrics), protocol, i as int),
            decreases recovered - i,
        {
            record_protocol_scale_metric(metrics, protocol, ScalerAction::Grow, false);
            i = i + 1;
        }
        self.n_active = recovered;
        self.last_action = ScalerAction::Grow;
        self.slow_start_remaining = slow_start_heartbeats;
        record_max_active_connections(metrics, recovered);
    }

    /// The scaler after a connection was granted for one more worker.
    /// `flat` tells whether the throughput is within five per cent of what
    /// it was before.
    pub fn record_add(
        &mut self,
        protocol: ProtocolFamily,
        is_stream_add: bool,
        flat: bool,
        slow_start_heartbeats: u32,
        metrics: &mut SchedulerMetrics,
    )
        requires
            old(self).h2_stream_count < usize::MAX,
            old(self).n_active < usize::MAX,
        ensures
            *final(self) == old(self).grown(is_stream_add, flat, slow_start_heartbeats),
            *final(metrics) == old(self).add_counted(*old(metrics), protocol, is_stream_add, flat),
    {
        self.last_add_was_stream = is_stream_add;
        if is_stream_add {
            self.h2_stream_count = self.h2_stream_count + 1;
            if self.h2_stream_count >= 3 {
                if flat {
                    if !self.h2_stream_saturated {
                        self.h2_stream_saturated = true;
                        SchedulerMetrics::add(&mut metrics.h2_stream_saturated_count, 1);
                    }
                } else {
                    self.h2_stream_saturated = false;
                }
            }
        }
        self.slow_start_remaining = slow_start_heartbeats;
        self.last_action = ScalerAction::Grow;
        record_protocol_scale_metric(metrics, protocol, ScalerAction::Grow, is_stream_add);
        record_max_active_connections(metrics, self.n_active + 1);
        self.n_active = self.n_active + 1;
    }

    /// The scaler with one more worker: a third stream, or a later one, that
    /// brings nothing shows that the connection is full.
    pub open spec fn grown(self, is_stream_add: bool, flat: bool, slow_start_heartbeats: u32) -> Scaler {
        let streams = if is_stream_add {
            (self.h2_stream_count + 1) as usize
        } else {
            self.h2_stream_count
        };
        Scaler {
            n_active: (self.n_active + 1) as usize,
            last_action: ScalerAction::Grow,
            slow_start_remaining: slow_start_heartbeats,
            last_add_was_stream: is_stream_add,
            h2_stream_count: streams,
            h2_stream_saturated: if is_stream_add && streams >= 3 {
                flat
            } else {
                self.h2_stream_saturated
            },
            ..self
        }
    }

    /// The counters after a worker was added.
    pub open spec fn add_counted(
        self,
        m: SchedulerMetrics,
        protocol: ProtocolFamily,
        is_stream_add: bool,
        flat: bool,
    ) -> SchedulerMetrics {
        let newly = is_stream_add && self.h2_stream_count >= 2 && flat && !self.h2_stream_saturated;
        let n = scale_counted(
            if newly {
                SchedulerMetrics { h2_stream_saturated_count: counted(m.h2_stream_saturated_count), ..m }
            } else {
                m
            },
            protocol,
            ScalerAction::Grow,
            is_stream_add,
        );
        SchedulerMetrics {
            max_active_connections_observed: max_int(n.max_active_connections_observed as int, self.n_active + 1) as u64,
            ..n
        }
    }

    /// The scaler after a worker was told to end.
    pub fn record_drop(&mut self, protocol: ProtocolFamily, metrics: &mut SchedulerMetrics)
        requires
            old(self).n_active > 0,
        ensures
            *final(self) == (Scaler {
                n_active: (old(self).n_active - 1) as usize,
                last_action: ScalerAction::Shrink,
                ..*old(self)
            }),
            *final(metrics) == scale_counted(*old(metrics), protocol, ScalerAction::Shrink, false),
    {
        self.n_active = self.n_active - 1;
        self.last_action = ScalerAction::Shrink;
        record_protocol_scale_metric(metrics, protocol, ScalerAction::Shrink, false);
    }

    /// The scaler after a request of the given kind.
    pub open spec fn with_request(self, kind: RequestKind, protocol: ProtocolFamily) -> Scaler {
        let s = Scaler { last_protocol: protocol, total_request_count: counted(self.total_request_count), ..self };
        match kind {
            RequestKind::Reused => Scaler {
                reused_count: counted(s.reused_count),
                reused_rtt_samples: counted(s.reused_rtt_samples),
                ..s
            },
            RequestKind::Fresh => s,
        }
    }

    /// A slow first request of a connection that was just added is to be held
    /// against the handshake, not against the growth.
    pub open spec fn shields(self, kind: RequestKind, protocol: ProtocolFamily, was_growth_probe: bool) -> bool {
        kind == RequestKind::Fresh && was_growth_probe && self.last_action == ScalerAction::Grow
            && self.reused_rtt_samples >= growth_shield_samples(protocol)
    }

    /// Starts counting requests anew, once a minute is over.
    pub fn reset_reuse_window(&mut self)
        ensures
            *final(self) == (Scaler { reused_count: 0, total_request_count: 0, ..*old(self) }),
    {
        self.reused_count = 0;
        self.total_request_count = 0;
    }

    /// Takes note of how well connections are reused: below the lower mark
    /// the health is low, until it is above the upper one. The result is the
    /// new health where it changed.
    pub fn update_reuse_health(&mut self, below_lower: bool, above_upper: bool) -> (changed: Option<bool>)
        ensures
            changed == if !old(self).reuse_health_low && below_lower {
                Some(true)
            } else if old(self).reuse_health_low && above_upper {
                Some(false)
            } else {
                None
            },
            *final(self) == (Scaler {
                reuse_health_low: match changed {
                    Some(low) => low,
                    None => old(self).reuse_health_low,
                },
                ..*old(self)
            }),
    {
        if !self.reuse_health_low && below_lower {
            self.reuse_health_low = true;
            Some(true)
        } else if self.reuse_health_low && above_upper {
            self.reuse_health_low = false;
            Some(false)
        } else {
            None
        }
    }

    /// Counts a request. `adjusted_handshake_ms` is the handshake time that
    /// the growth is shielded for.
    pub fn record_request_classification(
        &mut self,
        kind: RequestKind,
        protocol: ProtocolFamily,
        was_growth_probe: bool,
        handshake_cost_ms: u64,
        adjusted_handshake_ms: u64,
        metrics: &mut SchedulerMetrics,
    )
        ensures
            *final(self) == ({
                let s = old(self).with_request(kind, protocol);
                if s.shields(kind, protocol, was_growth_probe) {
                    let beat = max_int(s.config.heartbeat_ms as int, 1);
                    let extra = max_int(
                        min_int(ceil_div(adjusted_handshake_ms as int, beat), u32::MAX as int),
                        1,
                    );
                    Scaler {
                        skip_growth_sample: true,
                        slow_start_remaining: min_int(s.slow_start_remaining + extra, u32::MAX as int) as u32,
                        ..s
                    }
                } else {
                    s
                }
            }),
            *final(metrics) == request_counted(*old(metrics), kind, protocol, handshake_cost_ms),
    {
        self.last_protocol = protocol;
        self.total_request_count = self.total_request_count.saturating_add(1);
        match kind {
            RequestKind::Reused => {
                self.reused_count = self.reused_count.saturating_add(1);
                self.reused_rtt_samples = self.reused_rtt_samples.saturating_add(1);
                SchedulerMetrics::add(&mut metrics.reused_requests, 1);
                match protocol {
                    ProtocolFamily::Http1 => SchedulerMetrics::add(&mut metrics.http1_reused_requests, 1),
                    ProtocolFamily::Http2 => SchedulerMetrics::add(&mut metrics.http2_reused_requests, 1),
                    _ => {},
                }
            },
            RequestKind::Fresh => {
                SchedulerMetrics::add(&mut metrics.fresh_requests, 1);
                SchedulerMetrics::add(&mut metrics.fresh_handshake_ms, handshake_cost_ms);
                match protocol {
                    ProtocolFamily::Http1 => {
                        SchedulerMetrics::add(&mut metrics.http1_fresh_requests, 1);
                        SchedulerMetrics::add(&mut metrics.http1_fresh_handshake_ms, handshake_cost_ms);
                    },
                    ProtocolFamily::Http2 => {
                        SchedulerMetrics::add(&mut metrics.http2_fresh_requests, 1);
                        SchedulerMetrics::add(&mut metrics.http2_fresh_handshake_ms, handshake_cost_ms);
                    },
                    _ => {},
                }
                if was_growth_probe && self.last_action == ScalerAction::Grow && self.reused_rtt_samples
                    >= protocol_growth_shield_min_samples(protocol) {
                    self.skip_growth_sample = true;
                    let beat: u64 = max_u64(self.config.heartbeat_ms, 1);
                    let beats: u64 = crate::units::div_ceil_u64(adjusted_handshake_ms, beat);
                    let extra: u32 = if beats < 1 {
                        1
                    } else if beats > u32::MAX as u64 {
                        u32::MAX
                    } else {
                        beats as u32
                    };
                    self.slow_start_remaining = self.slow_start_remaining.saturating_add(extra);
                }
            },
        }
    }
}

/// `m` after `n` workers were started where none was left.
pub open spec fn recoveries_counted(m: SchedulerMetrics, protocol: ProtocolFamily, n: int) -> SchedulerMetrics
    decreases n,
{
    if n <= 0 {
        m
    } else {
        scale_counted(recoveries_counted(m, protocol, n - 1), protocol, ScalerAction::Grow, false)
    }
}

/// The counters after `n` workers were started where none was left.
pub open spec fn recovery_counted(m: SchedulerMetrics, protocol: ProtocolFamily, n: int) -> SchedulerMetrics {
    let counted_each = recoveries_counted(m, protocol, n);
    SchedulerMetrics {
        max_active_connections_observed: max_int(counted_each.max_active_connections_observed as int, n) as u64,
        ..counted_each
    }
}

/// `n + k`, cut off at the largest `u64`.
pub open spec fn plus(n: u64, k: u64) -> u64 {
    saturated(n + k) as u64
}

/// The counters after a request.
pub open spec fn request_counted(
    m: SchedulerMetrics,
    kind: RequestKind,
    protocol: ProtocolFamily,
    handshake_ms: u64,
) -> SchedulerMetrics {
    match kind {
        RequestKind::Reused => {
            let r = SchedulerMetrics { reused_requests: counted(m.reused_requests), ..m };
            match protocol {
                ProtocolFamily::Http1 => SchedulerMetrics {
                    http1_reused_requests: counted(m.http1_reused_requests),
                    ..r
                },
                ProtocolFamily::Http2 => SchedulerMetrics {
                    http2_reused_requests: counted(m.http2_reused_requests),
                    ..r
                },
                _ => r,
            }
        },
        RequestKind::Fresh => {
            let f = SchedulerMetrics {
                fresh_requests: counted(m.fresh_requests),
                fresh_handshake_ms: plus(m.fresh_handshake_ms, handshake_ms),
                ..m
            };
            match protocol {
                ProtocolFamily::Http1 => SchedulerMetrics {
                    http1_fresh_requests: counted(m.http1_fresh_requests),
                    http1_fresh_handshake_ms: plus(m.http1_fresh_handshake_ms, handshake_ms),
                    ..f
                },
                ProtocolFamily::Http2 => SchedulerMetrics {
                    http2_fresh_requests: counted(m.http2_fresh_requests),
                    http2_fresh_handshake_ms: plus(m.http2_fresh_handshake_ms, handshake_ms),
                    ..f
                },
                _ => f,
            }
        },
    }
}

/// The next heartbeat, within half a second to three seconds.
pub fn clamp_heartbeat_ms(raw_ms: u64) -> (r: u64)
    ensures
        r == clamp_int(raw_ms as int, 500, 3000),
{
    if raw_ms < 500 {
        500
    } else if raw_ms > 3000 {
        3000
    } else {
        raw_ms
    }
}

/// What a worker has transferred by a heartbeat.
#[derive(Debug, Clone, Copy, PartialEq, Eq, Structural)]
pub struct WorkerSample {
    pub connection_id: u32,
    pub stop_requested: bool,
    pub transferred_bytes: u64,
    pub state: WorkerState,
}

/// What a worker had transferred by the heartbeat before, and during it.
#[derive(Debug, Clone, Copy, PartialEq, Eq, Structural)]
pub struct WorkerHistory {
    pub connection_id: u32,
    pub total: u64,
    pub delta: u64,
}

/// What `history` says of a worker: its total and its last advance, or
/// `now` and no advance where it says nothing.
pub open spec fn known(history: Seq<WorkerHistory>, connection_id: u32, now: u64) -> (u64, u64)
    decreases history.len(),
{
    if history.len() == 0 {
        (now, 0)
    } else if history.last().connection_id == connection_id {
        (history.last().total, history.last().delta)
    } else {
        known(history.drop_last(), connection_id, now)
    }
}

/// The advance of a worker since the heartbeat before.
pub open spec fn advance(history: Seq<WorkerHistory>, s: WorkerSample) -> u64 {
    max_int(s.transferred_bytes - known(history, s.connection_id, s.transferred_bytes).0, 0) as u64
}

/// The advances of a worker over the last two heartbeats.
pub open spec fn score(history: Seq<WorkerHistory>, s: WorkerSample) -> int {
    saturated(known(history, s.connection_id, s.transferred_bytes).1 + advance(history, s))
}

/// A worker that could be ended.
pub open spec fn droppable(s: WorkerSample) -> bool {
    !s.stop_requested && s.state == WorkerState::Downloading
}

/// What follows from looking at the workers at a heartbeat.
pub struct WorkerReview {
    /// The worker with the lowest score, if there is one to end.
    pub weakest: Option<u32>,
    /// The advances of the workers that advanced.
    pub advances: Vec<u64>,
    /// The history for the next heartbeat.
    pub history: Vec<WorkerHistory>,
}

/// The advances of those of the first `n` workers that are not ending and advanced.
pub open spec fn advances_of(history: Seq<WorkerHistory>, samples: Seq<WorkerSample>, n: int) -> Seq<u64>
    decreases n,
{
    if n <= 0 {
        Seq::empty()
    } else {
        let before = advances_of(history, samples, n - 1);
        let s = samples[n - 1];
        if !s.stop_requested && advance(history, s) > 0 {
            before.push(advance(history, s))
        } else {
            before
        }
    }
}

/// What is kept of those of the first `n` workers that are not ending.
pub open spec fn history_after(history: Seq<WorkerHistory>, samples: Seq<WorkerSample>, n: int) -> Seq<WorkerHistory>
    decreases n,
{
    if n <= 0 {
        Seq::empty()
    } else {
        let before = history_after(history, samples, n - 1);
        let s = samples[n - 1];
        if s.stop_requested {
            before
        } else {
            before.push(
                WorkerHistory {
                    connection_id: s.connection_id,
                    total: s.transferred_bytes,
                    delta: advance(history, s),
                },
            )
        }
    }
}

/// `i` is the first of the droppable workers with the lowest score.
pub open spec fn is_weakest(history: Seq<WorkerHistory>, samples: Seq<WorkerSample>, n: int, i: int) -> bool {
    &&& 0 <= i < n
    &&& droppable(samples[i])
    &&& forall|k: int| 0 <= k < i && droppable(#[trigger] samples[k]) ==> score(history, samples[i]) < score(
        history,
        samples[k],
    )
    &&& forall|k: int| i <= k < n && droppable(#[trigger] samples[k]) ==> score(history, samples[i]) <= score(
        history,
        samples[k],
    )
}

fn look_up(history: &Vec<WorkerHistory>, connection_id: u32, now: u64) -> (r: (u64, u64))
    ensures
        r == known(history@, connection_id, now),
{
    let mut i: usize = history.len();
    assert(history@.take(i as int) =~= history@);
    while i > 0
        invariant
            i <= history@.len(),
            known(history@, connection_id, now) == known(history@.take(i as int), connection_id, now),
        decreases i,
    {
        let h: WorkerHistory = history[i - 1];
        assert(history@.take(i as int).last() == h);
        assert(history@.take(i as int).drop_last() =~= history@.take(i - 1));
        if h.connection_id == connection_id {
            return (h.total, h.delta);
        }
        i = i - 1;
    }
    (now, 0)
}

/// `r` follows from looking at the workers.
pub open spec fn reviewed(history: Seq<WorkerHistory>, samples: Seq<WorkerSample>, r: WorkerReview) -> bool {
    &&& r.advances@ == advances_of(history, samples, samples.len() as int)
    &&& r.history@ == history_after(history, samples, samples.len() as int)
    &&& match r.weakest {
        Some(id) => exists|i: int| #[trigger]
            is_weakest(history, samples, samples.len() as int, i) && id == samples[i].connection_id,
        None => forall|i: int| 0 <= i < samples.len() ==> !droppable(#[trigger] samples[i]),
    }
}

/// Looks at the workers at a heartbeat: which of them is the weakest, and how
/// far each of them got. The workers have distinct connection numbers.
pub fn review_workers(history: &Vec<WorkerHistory>, samples: &Vec<WorkerSample>) -> (r: WorkerReview)
    ensures
        reviewed(history@, samples@, r),
{
    let mut next: Vec<WorkerHistory> = Vec::new();
    let mut advances: Vec<u64> = Vec::new();
    let mut weakest: Option<(usize, u64)> = None;
    let mut i: usize = 0;
    while i < samples.len()
        invariant
            i <= samples@.len(),
            advances@ == advances_of(history@, samples@, i as int),
            next@ == history_after(history@, samples@, i as int),
            match weakest {
                Some((w, best)) => is_weakest(history@, samples@, i as int, w as int) && best == score(
                    history@,
                    samples@[w as int],
                ),
                None => forall|k: int| 0 <= k < i ==> !droppable(#[trigger] samples@[k]),
            },
        decreases samples@.len() - i,
    {
        let s: WorkerSample = samples[i];
        if !s.stop_requested {
            let (prev_total, prev_delta) = look_up(history, s.connection_id, s.transferred_bytes);
            let delta: u64 = s.transferred_bytes.saturating_sub(prev_total);
            next.push(WorkerHistory { connection_id: s.connection_id, total: s.transferred_bytes, delta });
            let points: u64 = prev_delta.saturating_add(delta);
            if delta > 0 {
                advances.push(delta);
            }
            let downloading: bool = match s.state {
                WorkerState::Downloading => true,
                _ => false,
            };
            assert(downloading == droppable(s));
            assert(points == score(history@, s));
            if downloading {
                let lower: bool = match weakest {
                    Some((_, best)) => points < best,
                    None => true,
                };
                if lower {
                    weakest = Some((i, points));
                }
            }
        }
        i = i + 1;
    }
    WorkerReview {
        weakest: match weakest {
            Some((w, _)) => Some(samples[w].connection_id),
            None => None,
        },
        advances,
        history: next,
    }
}

/// What is to be done at a heartbeat.
#[derive(Debug, Clone, Copy, PartialEq, Eq, Structural)]
pub enum HeartbeatPlan {
    /// The slow start goes on.
    Wait,
    /// As many workers are to be started as there are connections for, at most.
    Recover(usize),
    /// The worker is to be ended.
    Drop(u32),
    /// A worker is to be started, if there is a connection for it.
    Add,
    Hold,
}

/// What is to be done after a decision: there is nothing to drop where no
/// worker is downloading.
pub open spec fn planned(d: ScaleDecision, weakest: Option<u32>) -> HeartbeatPlan {
    match d {
        ScaleDecision::Recover(n) => HeartbeatPlan::Recover(n),
        ScaleDecision::Drop => match weakest {
            Some(id) => HeartbeatPlan::Drop(id),
            None => HeartbeatPlan::Hold,
        },
        ScaleDecision::Add => HeartbeatPlan::Add,
        ScaleDecision::Hold => HeartbeatPlan::Hold,
    }
}

impl Scaler {
    /// A heartbeat: during the slow start nothing is done; after it the
    /// workers are looked at, and it is decided what to do.
    pub fn heartbeat(
        &mut self,
        signals: HeartbeatSignals,
        history: &Vec<WorkerHistory>,
        samples: &Vec<WorkerSample>,
    ) -> (r: (HeartbeatPlan, Option<WorkerReview>))
        ensures
            if old(self).slow_start_remaining > 0 {
                &&& r.0 == HeartbeatPlan::Wait
                &&& r.1 is None
                &&& *final(self) == (Scaler {
                    slow_start_remaining: (old(self).slow_start_remaining - 1) as u32,
                    ..*old(self)
                })
            } else {
                &&& r.1 matches Some(review) && reviewed(history@, samples@, review) && r.0 == planned(
                    old(self).decision(signals),
                    review.weakest,
                )
                &&& *final(self) == old(self).settled(signals)
            },
    {
        if self.take_slow_start() {
            return (HeartbeatPlan::Wait, None);
        }
        let review: WorkerReview = review_workers(history, samples);
        let plan: HeartbeatPlan = match self.decide(signals) {
            ScaleDecision::Recover(n) => HeartbeatPlan::Recover(n),
            ScaleDecision::Drop => match review.weakest {
                Some(id) => HeartbeatPlan::Drop(id),
                None => HeartbeatPlan::Hold,
            },
            ScaleDecision::Add => HeartbeatPlan::Add,
            ScaleDecision::Hold => HeartbeatPlan::Hold,
        };
        (plan, Some(review))
    }
}

/// A decision to add keeps within the largest number of connections, and a
/// decision to drop leaves the smallest.
pub proof fn law_decisions_keep_bounds(s: Scaler, signals: HeartbeatSignals)
    ensures
        s.decision(signals) == ScaleDecision::Add ==> s.n_active + 1 <= s.config.max_connections,
        s.decision(signals) == ScaleDecision::Drop ==> s.n_active - 1 >= s.config.min_connections,
        s.decision(signals) is Recover <==> s.n_active == 0,
{
}

} // verus!
