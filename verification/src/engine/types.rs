//! The types that a download is described with.

use vstd::prelude::*;
use crate::text::{lower, owned, same, to_lower, trim, trimmed};

verus! {

/// How a file is divided at first.
#[derive(Debug, Clone, Copy, PartialEq, Eq, Structural)]
pub enum ScheduleMode {
    Fib,
    FibAdaptive,
    Equal,
}

/// A mode that does not exist.
#[derive(Debug, Clone, PartialEq, Eq)]
pub struct UnsupportedMode {
    /// What kind of mode was asked for.
    pub what: String,
    /// What was asked for, trimmed and in lower case.
    pub input: String,
}

impl UnsupportedMode {
    /// What to tell the user.
    pub fn message(&self) -> (r: String)
        ensures
            r@ == "unsupported "@ + self.what@ + ": "@ + self.input@,
    {
        let mut r: String = owned("unsupported ");
        r.append(self.what.as_str());
        r.append(": ");
        r.append(self.input.as_str());
        r
    }
}

impl ScheduleMode {
    /// The mode that `key` names.
    pub open spec fn named(key: Seq<char>) -> Option<ScheduleMode> {
        if key == "fib"@ {
            Some(ScheduleMode::Fib)
        } else if key == "fib-adaptive"@ || key == "fib_adaptive"@ || key == "adaptive-fib"@ || key
            == "adaptive_fib"@ {
            Some(ScheduleMode::FibAdaptive)
        } else if key == "equal"@ {
            Some(ScheduleMode::Equal)
        } else {
            None
        }
    }

    pub open spec fn name(self) -> Seq<char> {
        match self {
            ScheduleMode::Fib => "fib"@,
            ScheduleMode::FibAdaptive => "fib-adaptive"@,
            ScheduleMode::Equal => "equal"@,
        }
    }

    /// Reads a mode; case and the white space around it do not matter.
    pub fn parse(input: &str) -> (r: Result<ScheduleMode, UnsupportedMode>)
        ensures
            match r {
                Ok(mode) => ScheduleMode::named(lower(trim(input@))) == Some(mode),
                Err(e) => ScheduleMode::named(lower(trim(input@))) is None && e.what@ == "schedule mode"@
                    && e.input@ == lower(trim(input@)),
            },
    {
        let t: String = trimmed(input);
        let key: String = to_lower(t.as_str());
        let k: &str = key.as_str();
        if same(k, "fib") {
            Ok(ScheduleMode::Fib)
        } else if same(k, "fib-adaptive") || same(k, "fib_adaptive") || same(k, "adaptive-fib") || same(
            k,
            "adaptive_fib",
        ) {
            Ok(ScheduleMode::FibAdaptive)
        } else if same(k, "equal") {
            Ok(ScheduleMode::Equal)
        } else {
            Err(UnsupportedMode { what: owned("schedule mode"), input: key })
        }
    }

    pub fn as_str(self) -> (r: &'static str)
        ensures
            r@ == self.name(),
    {
        match self {
            ScheduleMode::Fib => "fib",
            ScheduleMode::FibAdaptive => "fib-adaptive",
            ScheduleMode::Equal => "equal",
        }
    }
}

/// Which version of HTTP to speak.
#[derive(Debug, Clone, Copy, PartialEq, Eq, Structural)]
pub enum HttpMode {
    Auto,
    Http1,
    Http2,
    Http3,
}

impl HttpMode {
    /// The mode that `key` names.
    pub open spec fn named(key: Seq<char>) -> Option<HttpMode> {
        if key == "auto"@ {
            Some(HttpMode::Auto)
        } else if key == "http1"@ || key == "http/1.1"@ || key == "h1"@ {
            Some(HttpMode::Http1)
        } else if key == "http2"@ || key == "http/2"@ || key == "h2"@ {
            Some(HttpMode::Http2)
        } else if key == "http3"@ || key == "http/3"@ || key == "h3"@ || key == "quic"@ {
            Some(HttpMode::Http3)
        } else {
            None
        }
    }

    pub open spec fn name(self) -> Seq<char> {
        match self {
            HttpMode::Auto => "auto"@,
            HttpMode::Http1 => "http1"@,
            HttpMode::Http2 => "http2"@,
            HttpMode::Http3 => "http3"@,
        }
    }

    /// Reads a mode; case and the white space around it do not matter.
    pub fn parse(input: &str) -> (r: Result<HttpMode, UnsupportedMode>)
        ensures
            match r {
                Ok(mode) => HttpMode::named(lower(trim(input@))) == Some(mode),
                Err(e) => HttpMode::named(lower(trim(input@))) is None && e.what@ == "http mode"@ && e.input@
                    == lower(trim(input@)),
            },
    {
        let t: String = trimmed(input);
        let key: String = to_lower(t.as_str());
        let k: &str = key.as_str();
        if same(k, "auto") {
            Ok(HttpMode::Auto)
        } else if same(k, "http1") || same(k, "http/1.1") || same(k, "h1") {
            Ok(HttpMode::Http1)
        } else if same(k, "http2") || same(k, "http/2") || same(k, "h2") {
            Ok(HttpMode::Http2)
        } else if same(k, "http3") || same(k, "http/3") || same(k, "h3") || same(k, "quic") {
            Ok(HttpMode::Http3)
        } else {
            Err(UnsupportedMode { what: owned("http mode"), input: key })
        }
    }

    pub fn as_str(self) -> (r: &'static str)
        ensures
            r@ == self.name(),
    {
        match self {
            HttpMode::Auto => "auto",
            HttpMode::Http1 => "http1",
            HttpMode::Http2 => "http2",
            HttpMode::Http3 => "http3",
        }
    }
}

/// Reading the name of a mode gives the mode back.
pub proof fn law_mode_names_round_trip(schedule: ScheduleMode, http: HttpMode)
    ensures
        ScheduleMode::named(lower(trim(schedule.name()))) == Some(schedule),
        HttpMode::named(lower(trim(http.name()))) == Some(http),
{
    reveal_strlit("fib");
    reveal_strlit("fib-adaptive");
    reveal_strlit("equal");
    reveal_strlit("auto");
    reveal_strlit("http1");
    reveal_strlit("http2");
    reveal_strlit("http3");
    reveal_strlit("http/1.1");
    reveal_strlit("h1");
    reveal_strlit("http/2");
    reveal_strlit("h2");
    reveal_strlit("fib_adaptive");
    reveal_strlit("adaptive-fib");
    reveal_strlit("adaptive_fib");
    assert(lower(trim("fib"@)) =~= "fib"@);
    assert(lower(trim("fib-adaptive"@)) =~= "fib-adaptive"@);
    assert(lower(trim("equal"@)) =~= "equal"@);
    assert(lower(trim("auto"@)) =~= "auto"@);
    assert(lower(trim("http1"@)) =~= "http1"@);
    assert(lower(trim("http2"@)) =~= "http2"@);
    assert(lower(trim("http3"@)) =~= "http3"@);
    assert("fib-adaptive"@.len() != "fib"@.len());
    assert("equal"@.len() != "fib"@.len());
    assert("http1"@[4] != "http2"@[4]);
    assert("http3"@[4] != "http1"@[4]);
    assert("http3"@[4] != "http2"@[4]);
    assert("http1"@[0] != "auto"@[0]);
}

/// The protocol that a response was carried by.
#[derive(Debug, Clone, Copy, PartialEq, Eq, Structural)]
pub enum ProtocolFamily {
    Http1,
    Http2,
    Http3,
    Other,
}

impl Default for ProtocolFamily {
    fn default() -> (r: ProtocolFamily)
        ensures
            r == ProtocolFamily::Other,
    {
        ProtocolFamily::Other
    }
}

impl ProtocolFamily {
    pub open spec fn name(self) -> Seq<char> {
        match self {
            ProtocolFamily::Http1 => "http1"@,
            ProtocolFamily::Http2 => "http2"@,
            ProtocolFamily::Http3 => "http3"@,
            ProtocolFamily::Other => "other"@,
        }
    }

    pub fn as_str(self) -> (r: &'static str)
        ensures
            r@ == self.name(),
    {
        match self {
            ProtocolFamily::Http1 => "http1",
            ProtocolFamily::Http2 => "http2",
            ProtocolFamily::Http3 => "http3",
            ProtocolFamily::Other => "other",
        }
    }
}

/// What was asked for and what was negotiated.
#[derive(Debug, Clone, Copy, PartialEq, Eq, Structural)]
pub struct ProtocolInfo {
    pub requested: HttpMode,
    pub negotiated: ProtocolFamily,
}

impl ProtocolInfo {
    /// The short name of what was asked for.
    pub open spec fn requested_label(self) -> Seq<char> {
        match self.requested {
            HttpMode::Auto => "auto"@,
            HttpMode::Http1 => "h1"@,
            HttpMode::Http2 => "h2"@,
            HttpMode::Http3 => "h3"@,
        }
    }

    /// The short name of what was negotiated, where that is known and is not
    /// what was asked for.
    pub open spec fn negotiated_label(self) -> Option<Seq<char>> {
        match (self.requested, self.negotiated) {
            (_, ProtocolFamily::Other) => None,
            (HttpMode::Http1, ProtocolFamily::Http1) => None,
            (HttpMode::Http2, ProtocolFamily::Http2) => None,
            (HttpMode::Http3, ProtocolFamily::Http3) => None,
            (_, ProtocolFamily::Http1) => Some("h1"@),
            (_, ProtocolFamily::Http2) => Some("h2"@),
            (_, ProtocolFamily::Http3) => Some("h3"@),
        }
    }

    /// A short label such as "h1", or "auto→h2" where the two differ.
    pub fn display_label(&self) -> (r: String)
        ensures
            r@ == match self.negotiated_label() {
                Some(n) => self.requested_label() + "→"@ + n,
                None => self.requested_label(),
            },
    {
        let mut r: String = match self.requested {
            HttpMode::Auto => owned("auto"),
            HttpMode::Http1 => owned("h1"),
            HttpMode::Http2 => owned("h2"),
            HttpMode::Http3 => owned("h3"),
        };
        let negotiated: Option<&str> = match (self.requested, self.negotiated) {
            (_, ProtocolFamily::Other) => None,
            (HttpMode::Http1, ProtocolFamily::Http1) => None,
            (HttpMode::Http2, ProtocolFamily::Http2) => None,
            (HttpMode::Http3, ProtocolFamily::Http3) => None,
            (_, ProtocolFamily::Http1) => Some("h1"),
            (_, ProtocolFamily::Http2) => Some("h2"),
            (_, ProtocolFamily::Http3) => Some("h3"),
        };
        match negotiated {
            Some(n) => {
                r.append("→");
                r.append(n);
            },
            None => {},
        }
        r
    }
}

impl Default for ProtocolInfo {
    fn default() -> (r: ProtocolInfo)
        ensures
            r.requested == HttpMode::Auto,
            r.negotiated == ProtocolFamily::Other,
    {
        ProtocolInfo { requested: HttpMode::Auto, negotiated: ProtocolFamily::Other }
    }
}

/// Where a download stands.
#[derive(Debug, Clone, PartialEq, Eq)]
pub enum DownloadStatus {
    Queued,
    Downloading,
    Paused,
    Stopped,
    Canceled,
    Completed,
    Error(String),
}

/// What a worker is doing.
#[derive(Debug, Clone, Copy, PartialEq, Eq, Structural)]
pub enum WorkerState {
    Connecting,
    WaitingForWork,
    Downloading,
    Retrying,
    Paused,
    Stopped,
    Finished,
}

/// How a running task is to come to a halt.
#[derive(Debug, Clone, Copy, PartialEq, Eq, Structural)]
pub enum HaltMode {
    /// The task is not to halt.
    Running,
    /// No new work is handed out; workers stop where it is safe.
    Draining,
    /// The state stays in memory, for the task to be resumed.
    Hibernating,
    /// The state is written to disk, for the task to be resumed later.
    PersistToDisk,
}

/// What the scaler of a download keeps within.
#[derive(Debug, Clone, Copy, PartialEq, Eq, Structural)]
pub struct ScalerConfig {
    pub min_connections: usize,
    pub max_connections: usize,
    pub heartbeat_ms: u64,
}

impl Default for ScalerConfig {
    fn default() -> (r: ScalerConfig)
        ensures
            r == (ScalerConfig { min_connections: 1, max_connections: 16, heartbeat_ms: 2000 }),
    {
        ScalerConfig { min_connections: 1, max_connections: 16, heartbeat_ms: 2000 }
    }
}

/// What the scaler did last.
#[derive(Debug, Clone, Copy, PartialEq, Eq, Structural)]
pub enum ScalerAction {
    Grow,
    Shrink,
    Hold,
}

} // verus!
