//! What holds of the engine's small decisions.

use vstd::prelude::*;
use vstd::utf8::{decode_utf8, valid_utf8};
use crate::engine::challenge::{classify_page, classify_response_body, ChallengeKind};
use crate::engine::helpers::{
    blend_resume_prior, classify_error_retry, classify_http_status_retry, compute_effective_connection_budget,
    compute_refill_interval_ms, compute_resume_prior_policy, effective_prefetch_limit_bytes, prefetch_handshake_ms,
    prefetch_trigger_bytes, target_write_buffer_bytes, ResumePriorKind, ResumePriorPolicy, RetryHint,
};
use crate::engine::ranges::ActiveRange;
use crate::engine::types::ProtocolFamily;
use crate::text::{contains, lower};

verus! {

/// Between two refills about 256 kilobytes pass at the global limit, as far as
/// 10 to 100 ms allow; a tighter limit is never refilled more often.
pub proof fn law_refills_are_of_a_size(limit: u64, r: u64, tighter: u64, s: u64)
    requires
        call_ensures(compute_refill_interval_ms, (limit,), r),
        call_ensures(compute_refill_interval_ms, (tighter,), s),
    ensures
        10 <= r <= 100,
        limit == 0 ==> r == 50,
        limit > 0 && r > 10 ==> r * limit <= 256000 * 1024,
        limit > 0 && r < 100 ==> 256000 * 1024 < (r + 1) * limit,
        0 < tighter <= limit ==> r <= s,
{
    if limit > 0 {
        let q = 262144000int / (limit as int);
        vstd::arithmetic::div_mod::lemma_fundamental_div_mod(262144000int, limit as int);
        vstd::arithmetic::div_mod::lemma_mod_bound(262144000int, limit as int);
        assert(limit * q <= 262144000 < limit * q + limit);
        assert(limit * (q + 1) == limit * q + limit) by (nonlinear_arith);
        if r > 10 {
            assert(r * limit <= limit * q) by (nonlinear_arith)
                requires
                    r <= q,
                    limit > 0,
            ;
        }
        if r < 100 {
            assert(limit * (q + 1) <= (r + 1) * limit) by (nonlinear_arith)
                requires
                    q <= r,
                    limit > 0,
            ;
        }
        if 0 < tighter <= limit {
            vstd::arithmetic::div_mod::lemma_div_is_ordered_by_denominator(
                262144000int,
                tighter as int,
                limit as int,
            );
        }
    }
}

/// With plenty of memory all connections may be open, below a gigabyte three
/// quarters, below half of one a half, below a quarter of one a quarter, but
/// two where two are configured.
pub proof fn law_little_memory_means_few_connections(configured: usize, available_mb: u64, r: usize)
    requires
        call_ensures(compute_effective_connection_budget, (configured, available_mb), r),
    ensures
        available_mb >= 1024 ==> r == configured,
        available_mb < 1024 && configured >= 2 ==> 2 <= r,
        available_mb < 1024 && configured <= 1 ==> r == 1,
        configured >= 1 ==> r <= configured,
        512 <= available_mb < 1024 && configured >= 3 && configured * 3 <= usize::MAX ==> 4 * r <= 3 * configured < 4
            * r + 4,
        256 <= available_mb < 512 && configured >= 4 ==> 2 * r <= configured < 2 * r + 2,
        available_mb < 256 && configured >= 8 ==> 4 * r <= configured < 4 * r + 4,
        available_mb < 256 && 2 <= configured <= 8 ==> r == 2,
{
}

/// Only a server that is asked too much loses a worker, only a range that it
/// does not have is given up, one that is busy is asked again at once, and one
/// that fails is waited for twice as long as others.
pub proof fn law_statuses_are_answered(status: u16, r: RetryHint)
    requires
        call_ensures(classify_http_status_retry, (status,), r),
    ensures
        r is ReduceWorkers <==> status == 429,
        r is ReduceWorkers ==> r == RetryHint::ReduceWorkers(2000),
        r == RetryHint::Immediate <==> status == 503,
        r == RetryHint::Abort <==> status == 416,
        r == RetryHint::Backoff(500) <==> 500 <= status <= 599 && status != 503,
        r == RetryHint::Backoff(250) <==> status != 429 && status != 416 && !(500 <= status <= 599),
{
}

/// A connection that cannot be made, or that breaks before anything arrived,
/// costs a worker; one that breaks or stalls after something arrived leaves
/// the rest of the range to be fetched. No error is the end.
pub proof fn law_errors_are_answered(reason: &str, made_progress: bool, r: RetryHint)
    requires
        call_ensures(classify_error_retry, (reason, made_progress), r),
    ensures
        ({
            let t = lower(reason@);
            let refused = contains(t, "tls"@) || contains(t, "ssl"@) || contains(t, "handshake"@);
            let broke = contains(t, "connection reset"@) || contains(t, "broken pipe"@);
            let stalled = contains(t, "timed out"@) || contains(t, "timeout"@);
            &&& r == RetryHint::ReduceWorkers(2000) <==> refused
            &&& r == RetryHint::ReduceWorkers(1000) <==> !refused && broke && !made_progress
            &&& r == RetryHint::ShrinkRange(250) <==> !refused && (broke || stalled) && made_progress
            &&& r == RetryHint::Backoff(750) <==> !refused && !broke && stalled && !made_progress
            &&& r == RetryHint::Backoff(250) <==> !refused && !broke && !stalled
        }),
{
}

/// What was learned is relied on less the older it is, and not at all after
/// five minutes.
pub proof fn law_memories_fade(
    saved: u64,
    now: u64,
    r: ResumePriorPolicy,
    later: u64,
    s: ResumePriorPolicy,
)
    requires
        call_ensures(compute_resume_prior_policy, (saved, now), r),
        call_ensures(compute_resume_prior_policy, (saved, later), s),
        now <= later,
    ensures
        s.weight_percent <= r.weight_percent <= 100,
        r.weight_percent == 100 <==> now <= saved + 60000,
        r.weight_percent == 0 <==> now > saved + 300000,
        r.weight_percent == 50 <==> saved + 60000 < now <= saved + 300000,
        r.kind == ResumePriorKind::Fresh <==> r.weight_percent == 100,
        r.kind == ResumePriorKind::Decayed <==> r.weight_percent == 50,
        r.kind == ResumePriorKind::Stale <==> r.weight_percent == 0,
{
}

/// A blend lies between what it is made of, the nearer to the earlier value the
/// more that weighs.
pub proof fn law_blends_lie_between(base: u64, prior: u64, weight: u64, r: u64, more: u64, s: u64)
    requires
        weight <= more <= 100,
        call_ensures(blend_resume_prior, (base, prior, weight), r),
        call_ensures(blend_resume_prior, (base, prior, more), s),
    ensures
        base <= prior ==> base <= r <= s <= prior,
        prior <= base ==> prior <= s <= r <= base,
        weight == 0 ==> r == base,
        weight == 50 ==> 2 * r <= base + prior < 2 * r + 2,
        weight == 100 ==> r == prior,
{
    let (b, p, w, v) = (base as int, prior as int, weight as int, more as int);
    let x = b * (100 - w) + p * w;
    let y = b * (100 - v) + p * v;
    assert(r == x / 100 && s == y / 100);
    assert(x == 100 * b + (p - b) * w) by (nonlinear_arith)
        requires
            x == b * (100 - w) + p * w,
    ;
    assert(y == 100 * b + (p - b) * v) by (nonlinear_arith)
        requires
            y == b * (100 - v) + p * v,
    ;
    if w == 50 {
        assert((p - b) * w == (p - b) * 50);
    }
    if b <= p {
        assert(0 <= (p - b) * w <= (p - b) * v <= (p - b) * 100) by (nonlinear_arith)
            requires
                0 <= w <= v <= 100,
                b <= p,
        ;
    }
    if p <= b {
        assert((p - b) * 100 <= (p - b) * v <= (p - b) * w <= 0) by (nonlinear_arith)
            requires
                0 <= w <= v <= 100,
                p <= b,
        ;
    }
}

/// The next range is asked for as soon as any of the three calls for it: what
/// arrives during a handshake, two megabytes, or the limit on borrowing.
pub proof fn law_prefetching_starts_in_time(handshake: u64, limit: u64, r: u64)
    requires
        call_ensures(prefetch_trigger_bytes, (handshake, limit), r),
    ensures
        r >= handshake,
        r >= limit,
        r >= 2 * 1024 * 1024,
        r == handshake || r == limit || r == 2 * 1024 * 1024,
{
}

/// A handshake is reckoned with for as long as was measured at least, and for
/// the longest with HTTP/1.
pub proof fn law_handshakes_are_reckoned_with(protocol: ProtocolFamily, rtt: u64, r: u64)
    requires
        call_ensures(prefetch_handshake_ms, (protocol, rtt), r),
    ensures
        r >= rtt,
        rtt >= 700 ==> r == rtt,
        rtt <= 200 && protocol == ProtocolFamily::Http3 ==> r == 200,
        rtt <= 250 && protocol == ProtocolFamily::Http2 ==> r == 250,
        rtt <= 700 && protocol != ProtocolFamily::Http2 && protocol != ProtocolFamily::Http3 ==> r == 700,
        rtt >= 200 && protocol == ProtocolFamily::Http3 ==> r == rtt,
        rtt >= 250 && protocol == ProtocolFamily::Http2 ==> r == rtt,
{
}

/// Faster connections never get a smaller write buffer; slow writes get a
/// larger one; the cap is kept.
pub proof fn law_write_buffers_follow_the_speed(
    speed: u64,
    latency_target: usize,
    cap: usize,
    r: usize,
    faster: u64,
    s: usize,
)
    requires
        call_ensures(target_write_buffer_bytes, (speed, latency_target, cap), r),
        call_ensures(target_write_buffer_bytes, (faster, latency_target, cap), s),
        speed <= faster,
    ensures
        r <= s,
        128 * 1024 <= r,
        r <= cap || r <= 512 * 1024,
        latency_target <= cap ==> r >= latency_target,
        latency_target <= 128 * 1024 && speed < 1024 * 1024 ==> r == 128 * 1024,
        latency_target <= 256 * 1024 && 1024 * 1024 <= speed < 3 * 1024 * 1024 ==> r == 256 * 1024,
        latency_target <= 512 * 1024 && 3 * 1024 * 1024 <= speed < 6 * 1024 * 1024 ==> r == 512 * 1024,
        cap >= 1024 * 1024 && latency_target <= 1024 * 1024 && speed >= 6 * 1024 * 1024 ==> r == 1024 * 1024,
        r > 1024 * 1024 ==> r <= latency_target,
{
}

/// What a page is told to be: nothing where it is no HTML; a challenge only
/// where it names one; the first that fits.
pub proof fn law_pages_are_told_apart(text: &str, r: Option<ChallengeKind>)
    requires
        call_ensures(classify_page, (text,), r),
    ensures
        ({
            let t = lower(text@);
            let html = contains(t, "<html"@) || contains(t, "<!doc"@);
            let cloudflare = contains(t, "cloudflare"@) && (contains(t, "challenge"@) || contains(
                t,
                "attention required"@,
            ) || contains(t, "cf-browser-verification"@));
            let captcha = contains(t, "challenge"@) && contains(t, "captcha"@);
            let check = contains(t, "just a moment..."@) || contains(t, "checking your browser"@) && contains(
                t,
                "ddo"@,
            );
            let sign_in = contains(t, "sign in"@) || contains(t, "log in"@) || contains(t, "authenticate"@) && (
            contains(t, "continue"@) || contains(t, "proceed"@));
            &&& r is Some <==> html
            &&& r == Some(ChallengeKind::CloudflareChallenge) <==> html && cloudflare
            &&& r == Some(ChallengeKind::CaptchaChallenge) <==> html && !cloudflare && captcha
            &&& r == Some(ChallengeKind::BrowserCheck) <==> html && !cloudflare && !captcha && check
            &&& r == Some(ChallengeKind::AuthInterstitial) <==> html && !cloudflare && !captcha && !check && sign_in
        }),
{
}

/// A body is told by the page at its front: the first 4096 bytes, if they are
/// text; a body of less than 64 bytes is not looked at.
pub proof fn law_bodies_are_told_by_their_front(
    body: &[u8],
    r: Option<ChallengeKind>,
    text: &str,
    page: Option<ChallengeKind>,
)
    requires
        call_ensures(classify_response_body, (body,), r),
        call_ensures(classify_page, (text,), page),
    ensures
        ({
            let n = if body@.len() < 4096 {
                body@.len() as int
            } else {
                4096
            };
            let front = body@.subrange(0, n);
            &&& body@.len() < 64 ==> r is None
            &&& !valid_utf8(front) ==> r is None
            &&& body@.len() >= 64 && valid_utf8(front) && text@ == decode_utf8(front) ==> r == page
        }),
{
    let n = if body@.len() < 4096 {
        body@.len() as int
    } else {
        4096
    };
    assert(body@.subrange(0, n) =~= body@.take(n));
}

/// No two kinds of page go by one name, and a sign-in page needs no browser.
pub proof fn law_pages_have_names(a: ChallengeKind, b: ChallengeKind, x: &str, y: &str, browser: bool)
    requires
        call_ensures(ChallengeKind::as_str, (a,), x),
        call_ensures(ChallengeKind::as_str, (b,), y),
        call_ensures(ChallengeKind::requires_browser_session, (a,), browser),
    ensures
        x@ == y@ ==> a == b,
        browser <==> a != ChallengeKind::AuthInterstitial && a != ChallengeKind::UnexpectedHtml,
        a == ChallengeKind::CloudflareChallenge ==> x@ == "cloudflare-challenge"@,
        a == ChallengeKind::UnexpectedHtml ==> x@ == "unexpected-html"@,
{
    reveal_strlit("cloudflare-challenge");
    reveal_strlit("captcha-challenge");
    reveal_strlit("browser-check");
    reveal_strlit("auth-interstitial");
    reveal_strlit("unexpected-html");
    assert("captcha-challenge"@[1] == 'a');
    assert("auth-interstitial"@[1] == 'u');
    assert("cloudflare-challenge"@.len() == 20);
    assert("captcha-challenge"@.len() == 17);
    assert("browser-check"@.len() == 13);
    assert("auth-interstitial"@.len() == 17);
    assert("unexpected-html"@.len() == 15);
}

/// A range gives the bytes that are left, none beyond its end.
pub proof fn law_what_is_left_of_a_range(range: &ActiveRange, r: u64)
    requires
        call_ensures(ActiveRange::remaining_bytes, (range,), r),
    ensures
        range.cursor <= range.end ==> range.cursor + r == range.end,
        range.cursor >= range.end ==> r == 0,
{
}

/// A speed is measured over a quarter of a second at least, and is the bytes
/// that arrived in it by the second; a sample that is too short goes on.
pub proof fn law_speeds_are_measured(range: &mut ActiveRange, cursor: u64, now: u64)
    requires
        call_ensures(ActiveRange::update_range_speed_sample, (range, cursor, now), ()),
        cursor < 0x20_0000_0000_0000,
    ensures
        ({
            let began = old(range).last_sample_at_ms;
            let from = old(range).last_sample_cursor;
            let speed = final(range).recent_speed_bps;
            &&& began == 0 || now < began + 250 || cursor <= from ==> speed == old(range).recent_speed_bps
            &&& began > 0 && (now < began + 250 || cursor <= from) ==> *final(range) == *old(range)
            &&& began > 0 && now >= began + 250 && cursor > from ==> {
                &&& speed * (now - began) <= (cursor - from) * 1000 < (speed + 1) * (now - began)
                &&& final(range).last_sample_at_ms == now
                &&& final(range).last_sample_cursor == cursor
            }
            &&& began == 0 ==> final(range).last_sample_at_ms == now && final(range).last_sample_cursor == cursor
            &&& final(range).cursor == old(range).cursor
            &&& final(range).end == old(range).end
            &&& final(range).byte_start == old(range).byte_start
            &&& final(range).status == old(range).status
            &&& final(range).assigned_to == old(range).assigned_to
        }),
{
    let began = old(range).last_sample_at_ms;
    let from = old(range).last_sample_cursor;
    if began > 0 && now >= began + 250 && cursor > from {
        let e = now - began;
        let a = (cursor - from) * 1000;
        let q = a / e;
        vstd::arithmetic::div_mod::lemma_fundamental_div_mod(a, e);
        vstd::arithmetic::div_mod::lemma_mod_bound(a, e);
        assert(q <= a && 0 <= q) by (nonlinear_arith)
            requires
                e * q <= a,
                a < e * q + e,
                e >= 250,
                a >= 0,
        ;
        assert(q as u64 == q);
        assert(q * e <= a < (q + 1) * e) by (nonlinear_arith)
            requires
                e * q <= a,
                a < e * q + e,
        ;
    }
}

/// A range that is taken is the taker's and at work; one that is given back is
/// nobody's and goes on where it was left.
pub proof fn law_ranges_change_hands(a: &mut ActiveRange, connection: u32, b: &mut ActiveRange, cursor: u64)
    requires
        call_ensures(ActiveRange::assign, (a, connection), ()),
        call_ensures(ActiveRange::relinquish_range, (b, cursor), ()),
    ensures
        final(a).assigned_to == connection,
        final(a).status == 1,
        final(a).cursor == old(a).cursor,
        final(a).end == old(a).end,
        final(a).byte_start == old(a).byte_start,
        final(a).id == old(a).id,
        final(b).assigned_to == 0xFFFF_FFFF,
        final(b).status == 0,
        final(b).cursor == cursor,
        final(b).end == old(b).end,
        final(b).byte_start == old(b).byte_start,
        final(b).id == old(b).id,
{
}

/// Near the end of a file less is asked for ahead of time; else what the limit
/// on borrowing and the measured floor call for.
pub proof fn law_prefetched_parts_shrink_at_the_end(downloaded: u64, total: u64, limit: u64, floor: u64, r: u64)
    requires
        call_ensures(effective_prefetch_limit_bytes, (downloaded, total, limit, floor), r),
    ensures
        r == 1024 * 1024 || (r >= limit && r >= floor && (r == limit || r == floor)),
        total > 0 && downloaded < 0x10_0000_0000_0000 && total < 0x10_0000_0000_0000 ==> {
            &&& downloaded * 100 >= total * 95 ==> r == 1024 * 1024
            &&& downloaded * 100 < total * 95 ==> r >= limit && r >= floor && (r == limit || r == floor)
        },
{
}

} // verus!
