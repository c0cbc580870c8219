//! What the command line asks for.

use vstd::prelude::*;
use crate::cookies::{
    after_char, before_char, cookie_of_line, cookie_views, has_char, split_once, CookieEntry, CookieView,
};
use crate::engine::types::{DownloadStatus, HttpMode, ScheduleMode};
use crate::numerals::{decimal, decimal_string};
use crate::request::{copy_text, empty_context, opt_context, ContextView, RequestContext};
use crate::service::{file_name_of_url, url_file_name, DownloadTask, TaskView};
use crate::storage::StorageConfig;
use crate::text::{owned, split, split_at_char, texts, trim, trimmed};
use crate::text_map::with_entry;
use crate::units::{clamp_int, max_int, max_usize};
use crate::web_url::{opt_text, opt_url, url_parts, UrlParts, UrlView};

verus! {

/// The arguments of the program.
#[derive(Debug)]
pub struct Cli {
    /// What to download.
    pub url: Vec<String>,
    /// Where to put it.
    pub dir: String,
    /// Connections that a download starts with.
    pub connections: Option<usize>,
    pub min_connections: Option<usize>,
    pub max_connections: Option<usize>,
    /// Downloads at a time.
    pub tasks: usize,
    /// Go through the motions without asking for any part of the file.
    pub dry_run: bool,
    pub dry_run_size_mb: Option<u64>,
    pub borrow_limit_mb: u64,
    pub schedule_mode: String,
    pub http_mode: String,
    /// Run without a user interface.
    pub headless: bool,
    /// Where logs and saved states go.
    pub log_root: Option<String>,
    pub max_total_connections: usize,
    /// In megabits per second; zero for no limit.
    pub bandwidth_limit: u64,
    /// In megabits per second; zero for no limit.
    pub per_download_limit: u64,
    pub runtime_threads: usize,
    /// Headers of the form `Name: value`.
    pub header: Vec<String>,
    pub referer: Option<String>,
    pub auth_bearer: Option<String>,
    pub cookie_file: Option<String>,
    pub no_pwrite: bool,
    pub no_splice: bool,
    pub no_io_uring: bool,
    pub no_direct_io: bool,
    pub no_origin_memory: bool,
}

impl Cli {
    /// Which ways of writing are wanted.
    pub fn storage_config(&self) -> (r: StorageConfig)
        ensures
            r == (StorageConfig {
                use_pwrite: !self.no_pwrite,
                use_splice: !self.no_splice,
                no_io_uring: self.no_io_uring,
                no_direct_io: self.no_direct_io,
            }),
    {
        StorageConfig {
            use_pwrite: !self.no_pwrite,
            use_splice: !self.no_splice,
            no_io_uring: self.no_io_uring,
            no_direct_io: self.no_direct_io,
        }
    }
}

/// The lower bound exceeds the upper one.
#[derive(Debug, Clone, Copy, PartialEq, Eq, Structural)]
pub struct InvalidBounds {
    pub min: usize,
    pub max: usize,
}

impl InvalidBounds {
    pub fn message(&self) -> (r: String)
        ensures
            r@ == "invalid connection settings: min_connections "@ + decimal(self.min as nat)
                + " exceeds max_connections "@ + decimal(self.max as nat),
    {
        let mut r: String = owned("invalid connection settings: min_connections ");
        let low: String = decimal_string(self.min as u64);
        let high: String = decimal_string(self.max as u64);
        r.append(low.as_str());
        r.append(" exceeds max_connections ");
        r.append(high.as_str());
        r
    }
}

/// `o`, or `d` where there is none, but at least one.
pub open spec fn at_least_one(o: Option<usize>, d: int) -> int {
    max_int(
        match o {
            Some(n) => n as int,
            None => d,
        },
        1,
    )
}

fn at_least(o: Option<usize>, d: usize) -> (r: usize)
    ensures
        r == at_least_one(o, d as int),
{
    match o {
        Some(n) => max_usize(n, 1),
        None => max_usize(d, 1),
    }
}

/// How many connections to start with, and the bounds to scale within. A
/// number without bounds is all three; else the defaults are 8, 1 and 16, and
/// the start is moved between the bounds.
pub fn resolve_connection_settings(cli: &Cli) -> (r: Result<(usize, usize, usize), InvalidBounds>)
    ensures
        ({
            let low = at_least_one(cli.min_connections, 1);
            let high = at_least_one(cli.max_connections, 16);
            if cli.connections is Some && cli.min_connections is None && cli.max_connections is None {
                let n = at_least_one(cli.connections, 8) as usize;
                r == Ok::<(usize, usize, usize), InvalidBounds>((n, n, n))
            } else if low > high {
                r == Err::<(usize, usize, usize), InvalidBounds>(InvalidBounds { min: low as usize, max: high as usize })
            } else {
                r == Ok::<(usize, usize, usize), InvalidBounds>(
                    (
                        clamp_int(at_least_one(cli.connections, 8), low, high) as usize,
                        low as usize,
                        high as usize,
                    ),
                )
            }
        }),
        r matches Ok((initial, low, high)) ==> 1 <= low <= initial <= high,
{
    if cli.connections.is_some() && cli.min_connections.is_none() && cli.max_connections.is_none() {
        let n: usize = at_least(cli.connections, 8);
        return Ok((n, n, n));
    }
    let initial: usize = at_least(cli.connections, 8);
    let low: usize = at_least(cli.min_connections, 1);
    let high: usize = at_least(cli.max_connections, 16);
    if low > high {
        return Err(InvalidBounds { min: low, max: high });
    }
    let start: usize = if initial < low {
        low
    } else if initial > high {
        high
    } else {
        initial
    };
    Ok((start, low, high))
}

/// The headers that the first `n` of `flags` set: each is a name and a value
/// on the two sides of a colon; what has no colon or no name is passed over.
pub open spec fn flag_headers(flags: Seq<Seq<char>>, n: int) -> Seq<(Seq<char>, Seq<char>)>
    decreases n,
{
    if n <= 0 {
        Seq::empty()
    } else {
        let before = flag_headers(flags, n - 1);
        let f = flags[n - 1];
        if has_char(f, ':') && trim(before_char(f, ':')).len() > 0 {
            with_entry(before, trim(before_char(f, ':')), trim(after_char(f, ':')))
        } else {
            before
        }
    }
}

/// The context that the arguments ask for; none where they ask for nothing.
pub open spec fn cli_context(
    flags: Seq<Seq<char>>,
    referer: Option<Seq<char>>,
    bearer: Option<Seq<char>>,
) -> Option<ContextView> {
    let headers = flag_headers(flags, flags.len() as int);
    if headers.len() == 0 && referer is None && bearer is None {
        None
    } else {
        Some(
            ContextView {
                headers,
                auth: match bearer {
                    Some(t) => Some("Bearer "@ + t),
                    None => None,
                },
                referer,
                user_agent: None,
                cookies: None,
            },
        )
    }
}

/// Whether a header flag has the form `Name: value`.
pub fn is_header_flag(flag: &str) -> (r: bool)
    ensures
        r == has_char(flag@, ':'),
{
    split_once(flag, ':').is_some()
}

pub fn build_request_context(cli: &Cli) -> (r: Option<RequestContext>)
    ensures
        opt_context(r) == cli_context(texts(cli.header@), opt_text(cli.referer), opt_text(cli.auth_bearer)),
{
    let mut ctx: RequestContext = RequestContext::new();
    let ghost flags = texts(cli.header@);
    let mut i: usize = 0;
    while i < cli.header.len()
        invariant
            i <= cli.header@.len(),
            flags == texts(cli.header@),
            ctx@ == (ContextView { headers: flag_headers(flags, i as int), ..empty_context() }),
        decreases cli.header@.len() - i,
    {
        assert(flags[i as int] == cli.header@[i as int]@);
        match split_once(cli.header[i].as_str(), ':') {
            Some((name, value)) => {
                let name: String = trimmed(name.as_str());
                let value: String = trimmed(value.as_str());
                if name.as_str().unicode_len() > 0 {
                    ctx = ctx.header(name.as_str(), value.as_str());
                }
            },
            None => {},
        }
        i = i + 1;
    }
    match &cli.referer {
        Some(url) => {
            ctx = ctx.referer(url.as_str());
        },
        None => {},
    }
    match &cli.auth_bearer {
        Some(token) => {
            let mut value: String = owned("Bearer ");
            value.append(token.as_str());
            ctx = ctx.auth(value.as_str());
        },
        None => {},
    }
    if ctx.headers.len() == 0 && ctx.auth.is_none() && ctx.referer.is_none() {
        return None;
    }
    Some(ctx)
}

/// The cookies of the first `n` lines, in order.
pub open spec fn cookies_of_lines(lines: Seq<Seq<char>>, n: int, default_domain: Seq<char>) -> Seq<CookieView>
    decreases n,
{
    if n <= 0 {
        Seq::empty()
    } else {
        let before = cookies_of_lines(lines, n - 1, default_domain);
        match cookie_of_line(trim(lines[n - 1]), default_domain) {
            Some(c) => before.push(c),
            None => before,
        }
    }
}

/// The host of the first URL, or nothing.
pub open spec fn first_host(parts: Option<UrlView>) -> Seq<char> {
    match parts {
        Some(u) => match u.host {
            Some(h) => h,
            None => Seq::empty(),
        },
        None => Seq::empty(),
    }
}

/// What a cookie file with the given contents makes of a context.
pub open spec fn context_with_cookies(
    ctx: Option<ContextView>,
    contents: Seq<char>,
    default_domain: Seq<char>,
) -> Option<ContextView> {
    let lines = split(contents, '\n');
    let cookies = cookies_of_lines(lines, lines.len() as int, default_domain);
    if cookies.len() == 0 {
        ctx
    } else {
        Some(
            ContextView {
                cookies: Some(cookies),
                ..match ctx {
                    Some(c) => c,
                    None => empty_context(),
                }
            },
        )
    }
}

/// The cookies of a cookie file.
pub fn read_cookie_file(contents: &str, default_domain: &str) -> (r: Vec<CookieEntry>)
    ensures
        cookie_views(r@) == cookies_of_lines(
            split(contents@, '\n'),
            split(contents@, '\n').len() as int,
            default_domain@,
        ),
{
    let lines: Vec<String> = split_at_char(contents, '\n');
    let ghost all = split(contents@, '\n');
    let mut r: Vec<CookieEntry> = Vec::new();
    let mut i: usize = 0;
    assert(cookie_views(r@) =~= Seq::empty());
    while i < lines.len()
        invariant
            i <= lines@.len(),
            all == texts(lines@),
            cookie_views(r@) == cookies_of_lines(all, i as int, default_domain@),
        decreases lines@.len() - i,
    {
        let line: String = trimmed(lines[i].as_str());
        assert(line@ == trim(all[i as int]));
        match CookieEntry::from_line(line.as_str(), default_domain) {
            Some(c) => {
                assert(cookie_views(r@.push(c)) =~= cookie_views(r@).push(c@));
                r.push(c);
            },
            None => {},
        }
        i = i + 1;
    }
    r
}

/// Puts the cookies of a cookie file into a context, given the parts of the
/// first URL, whose host cookies without a domain belong to. The second
/// result is how many there were.
pub fn add_file_cookies(ctx: Option<RequestContext>, contents: &str, first_url: &Option<UrlParts>) -> (r: (
    Option<RequestContext>,
    usize,
))
    ensures
        opt_context(r.0) == context_with_cookies(opt_context(ctx), contents@, first_host(opt_url(*first_url))),
        r.1 == cookies_of_lines(
            split(contents@, '\n'),
            split(contents@, '\n').len() as int,
            first_host(opt_url(*first_url)),
        ).len(),
{
    let domain: String = match first_url {
        Some(u) => match &u.host {
            Some(h) => owned(h.as_str()),
            None => String::new(),
        },
        None => String::new(),
    };
    assert(domain@ =~= first_host(opt_url(*first_url)));
    let cookies: Vec<CookieEntry> = read_cookie_file(contents, domain.as_str());
    let count: usize = cookies.len();
    assert(cookie_views(cookies@).len() == cookies@.len());
    if count == 0 {
        return (ctx, 0);
    }
    let base: RequestContext = match ctx {
        Some(c) => c,
        None => RequestContext::new(),
    };
    (Some(base.cookies(cookies)), count)
}

/// Puts the cookies of a cookie file into a context.
pub fn import_cookie_file(ctx: Option<RequestContext>, contents: &str, urls: &Vec<String>) -> (r: (
    Option<RequestContext>,
    usize,
))
    ensures
        ({
            let parts = if urls@.len() > 0 {
                url_parts(urls@[0]@)
            } else {
                None
            };
            let lines = split(contents@, '\n');
            &&& opt_context(r.0) == context_with_cookies(opt_context(ctx), contents@, first_host(parts))
            &&& r.1 == cookies_of_lines(lines, lines.len() as int, first_host(parts)).len()
        }),
{
    let first: Option<UrlParts> = if urls.len() > 0 {
        UrlParts::parse(urls[0].as_str())
    } else {
        None
    };
    add_file_cookies(ctx, contents, &first)
}

/// What every task of one run has in common.
#[derive(Debug)]
pub struct TaskDefaults {
    pub dir: String,
    pub connections: usize,
    pub min_connections: usize,
    pub max_connections: usize,
    pub per_download_bandwidth_limit_bps: u64,
    pub dry_run: bool,
    pub dry_run_size_mb: Option<u64>,
    pub borrow_limit_mb: u64,
    pub schedule_mode: ScheduleMode,
    pub http_mode: HttpMode,
    pub log_root: Option<String>,
    pub request_context: Option<RequestContext>,
}

impl TaskDefaults {
    /// The task for `url`.
    pub open spec fn task_view(&self, id: u128, url: Seq<char>, dir: Seq<char>) -> TaskView {
        TaskView {
            id,
            url,
            filename: url_file_name(url),
            dir,
            total_size: 0,
            downloaded_size: 0,
            connections: self.connections,
            status: DownloadStatus::Queued,
            dry_run: self.dry_run,
            dry_run_size_mb: self.dry_run_size_mb,
            borrow_limit_mb: self.borrow_limit_mb,
            min_connections: self.min_connections,
            max_connections: self.max_connections,
            per_download_bandwidth_limit_bps: self.per_download_bandwidth_limit_bps,
            schedule_mode: self.schedule_mode,
            http_mode: self.http_mode,
            log_root: opt_text(self.log_root),
            context: opt_context(self.request_context),
        }
    }

    pub fn task(&self, id: u128, url: &str, dir: &str) -> (r: DownloadTask)
        ensures
            r@ == self.task_view(id, url@, dir@),
    {
        DownloadTask {
            id,
            url: owned(url),
            filename: file_name_of_url(url),
            dir: owned(dir),
            total_size: 0,
            downloaded_size: 0,
            connections: self.connections,
            status: DownloadStatus::Queued,
            dry_run: self.dry_run,
            dry_run_size_mb: self.dry_run_size_mb,
            borrow_limit_mb: self.borrow_limit_mb,
            min_connections: self.min_connections,
            max_connections: self.max_connections,
            per_download_bandwidth_limit_bps: self.per_download_bandwidth_limit_bps,
            schedule_mode: self.schedule_mode,
            http_mode: self.http_mode,
            log_root: copy_text(&self.log_root),
            request_context: match &self.request_context {
                Some(c) => Some(c.clone()),
                None => None,
            },
        }
    }
}

/// How far a run without a user interface has come.
#[derive(Debug)]
pub struct HeadlessRun {
    pub expected: usize,
    pub finished: Vec<u128>,
    pub saw_error: bool,
}

/// A status after which a download goes on only if it is told to.
pub open spec fn is_settled(status: DownloadStatus) -> bool {
    status is Completed || status is Stopped || status is Paused || status is Error
}

impl HeadlessRun {
    /// The downloads that have settled, each once.
    pub open spec fn wf(&self) -> bool {
        self.finished@.no_duplicates()
    }

    pub fn new(expected: usize) -> (r: HeadlessRun)
        ensures
            r.wf(),
            r.expected == expected,
            r.finished@.len() == 0,
            !r.saw_error,
    {
        HeadlessRun { expected, finished: Vec::new(), saw_error: false }
    }

    /// Takes note of the status of a download; whether all have settled.
    pub fn note_status(&mut self, id: u128, status: &DownloadStatus) -> (done: bool)
        requires
            old(self).wf(),
        ensures
            final(self).wf(),
            final(self).expected == old(self).expected,
            final(self).saw_error == (old(self).saw_error || *status is Error),
            final(self).finished@ == if is_settled(*status) && !old(self).finished@.contains(id) {
                old(self).finished@.push(id)
            } else {
                old(self).finished@
            },
            done == (is_settled(*status) && final(self).finished@.len() == old(self).expected),
    {
        let (settled, failed) = match status {
            DownloadStatus::Completed => (true, false),
            DownloadStatus::Stopped => (true, false),
            DownloadStatus::Paused => (true, false),
            DownloadStatus::Error(_) => (true, true),
            _ => (false, false),
        };
        if failed {
            self.saw_error = true;
        }
        if !settled {
            return false;
        }
        let mut i: usize = 0;
        let mut seen: bool = false;
        while i < self.finished.len()
            invariant
                i <= self.finished@.len(),
                seen <==> exists|k: int| 0 <= k < i && self.finished@[k] == id,
            decreases self.finished@.len() - i,
        {
            if self.finished[i] == id {
                seen = true;
            }
            i = i + 1;
        }
        assert(seen == self.finished@.contains(id));
        if !seen {
            self.finished.push(id);
        }
        self.finished.len() == self.expected
    }
}

} // verus!
