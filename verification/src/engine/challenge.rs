//! Telling a page that stands in the way from the file that was asked for.

use vstd::prelude::*;
use vstd::slice::slice_subrange;
use vstd::utf8::{decode_utf8, valid_utf8};
use crate::text::{contains, lower, mentions, to_lower, utf8_text};
use crate::units::min_int;

verus! {

/// What a response holds in place of the file.
#[derive(Debug, Clone, Copy, PartialEq, Eq, Structural)]
pub enum ChallengeKind {
    CloudflareChallenge,
    CaptchaChallenge,
    BrowserCheck,
    AuthInterstitial,
    UnexpectedHtml,
}

impl ChallengeKind {
    pub open spec fn name(self) -> Seq<char> {
        match self {
            ChallengeKind::CloudflareChallenge => "cloudflare-challenge"@,
            ChallengeKind::CaptchaChallenge => "captcha-challenge"@,
            ChallengeKind::BrowserCheck => "browser-check"@,
            ChallengeKind::AuthInterstitial => "auth-interstitial"@,
            ChallengeKind::UnexpectedHtml => "unexpected-html"@,
        }
    }

    pub fn as_str(self) -> (r: &'static str)
        ensures
            r@ == self.name(),
    {
        match self {
            ChallengeKind::CloudflareChallenge => "cloudflare-challenge",
            ChallengeKind::CaptchaChallenge => "captcha-challenge",
            ChallengeKind::BrowserCheck => "browser-check",
            ChallengeKind::AuthInterstitial => "auth-interstitial",
            ChallengeKind::UnexpectedHtml => "unexpected-html",
        }
    }

    /// Only a browser gets past it.
    pub open spec fn needs_browser(self) -> bool {
        self == ChallengeKind::CloudflareChallenge || self == ChallengeKind::CaptchaChallenge || self
            == ChallengeKind::BrowserCheck
    }

    /// Whether only a browser is likely to get past it.
    pub fn requires_browser_session(self) -> (r: bool)
        ensures
            r == self.needs_browser(),
    {
        match self {
            ChallengeKind::CloudflareChallenge => true,
            ChallengeKind::CaptchaChallenge => true,
            ChallengeKind::BrowserCheck => true,
            ChallengeKind::AuthInterstitial => false,
            ChallengeKind::UnexpectedHtml => false,
        }
    }
}

/// What the page `t`, in lower case, is; nothing where it is no HTML.
pub open spec fn page_kind(t: Seq<char>) -> Option<ChallengeKind> {
    if !contains(t, "<html"@) && !contains(t, "<!doc"@) {
        None
    } else if contains(t, "cloudflare"@) && (contains(t, "challenge"@) || contains(t, "attention required"@)
        || contains(t, "cf-browser-verification"@)) {
        Some(ChallengeKind::CloudflareChallenge)
    } else if contains(t, "challenge"@) && contains(t, "captcha"@) {
        Some(ChallengeKind::CaptchaChallenge)
    } else if contains(t, "just a moment..."@) || (contains(t, "checking your browser"@) && contains(t, "ddo"@)) {
        Some(ChallengeKind::BrowserCheck)
    } else if contains(t, "sign in"@) || contains(t, "log in"@) || (contains(t, "authenticate"@) && (contains(
        t,
        "continue"@,
    ) || contains(t, "proceed"@))) {
        Some(ChallengeKind::AuthInterstitial)
    } else {
        Some(ChallengeKind::UnexpectedHtml)
    }
}

/// What the page `text` is.
pub fn classify_page(text: &str) -> (r: Option<ChallengeKind>)
    ensures
        r == page_kind(lower(text@)),
{
    let lowered: String = to_lower(text);
    let t: &str = lowered.as_str();
    if !mentions(t, "<html") && !mentions(t, "<!doc") {
        return None;
    }
    if mentions(t, "cloudflare") && (mentions(t, "challenge") || mentions(t, "attention required") || mentions(
        t,
        "cf-browser-verification",
    )) {
        return Some(ChallengeKind::CloudflareChallenge);
    }
    if mentions(t, "challenge") && mentions(t, "captcha") {
        return Some(ChallengeKind::CaptchaChallenge);
    }
    if mentions(t, "just a moment...") || (mentions(t, "checking your browser") && mentions(t, "ddo")) {
        return Some(ChallengeKind::BrowserCheck);
    }
    if mentions(t, "sign in") || mentions(t, "log in") || (mentions(t, "authenticate") && (mentions(t, "continue") || mentions(t, "proceed"))) {
        return Some(ChallengeKind::AuthInterstitial);
    }
    Some(ChallengeKind::UnexpectedHtml)
}

/// How many bytes at the front of a body are looked at.
pub const SAMPLE_BYTES: usize = 4096;

/// What a body is: nothing where it is shorter than 64 bytes or its front is
/// not text, else what the page at its front is.
pub open spec fn body_kind(body: Seq<u8>) -> Option<ChallengeKind> {
    let sample = body.take(min_int(body.len() as int, SAMPLE_BYTES as int));
    if body.len() < 64 || !valid_utf8(sample) {
        None
    } else {
        page_kind(lower(decode_utf8(sample)))
    }
}

/// Whether a response body is a page that stands in the way of the file.
pub fn classify_response_body(body_bytes: &[u8]) -> (r: Option<ChallengeKind>)
    ensures
        r == body_kind(body_bytes@),
{
    if body_bytes.len() < 64 {
        return None;
    }
    let sample: &[u8] = if body_bytes.len() >= SAMPLE_BYTES {
        slice_subrange(body_bytes, 0, SAMPLE_BYTES)
    } else {
        body_bytes
    };
    assert(sample@ =~= body_bytes@.take(min_int(body_bytes@.len() as int, SAMPLE_BYTES as int)));
    match utf8_text(sample) {
        Some(text) => classify_page(text.as_str()),
        None => None,
    }
}

} // verus!
