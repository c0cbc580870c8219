//! What a caller asks for.

use vstd::prelude::*;
use crate::cookies::{cookie_views, copy_cookies, CookieEntry, CookieView};
use crate::engine::types::{HttpMode, ScheduleMode};
use crate::storage::StorageConfig;
use crate::text::owned;
use crate::text_map::{with_entry, TextMap};
use crate::web_url::opt_text;

verus! {

/// What goes with every request of a download.
#[derive(Debug)]
pub struct RequestContext {
    /// Custom headers.
    pub headers: TextMap,
    /// The authorization, such as `Bearer` and a token.
    pub auth: Option<String>,
    pub referer: Option<String>,
    pub user_agent: Option<String>,
    pub cookies: Option<Vec<CookieEntry>>,
}

/// What goes with every request, as text.
#[verifier::ext_equal]
pub struct ContextView {
    pub headers: Seq<(Seq<char>, Seq<char>)>,
    pub auth: Option<Seq<char>>,
    pub referer: Option<Seq<char>>,
    pub user_agent: Option<Seq<char>>,
    pub cookies: Option<Seq<CookieView>>,
}

/// The views of an optional list of cookies.
pub open spec fn opt_cookies(c: Option<Vec<CookieEntry>>) -> Option<Seq<CookieView>> {
    match c {
        Some(v) => Some(cookie_views(v@)),
        None => None,
    }
}

/// A context that adds nothing.
pub open spec fn empty_context() -> ContextView {
    ContextView { headers: Seq::empty(), auth: None, referer: None, user_agent: None, cookies: None }
}

/// A copy of an optional string.
pub fn copy_text(s: &Option<String>) -> (r: Option<String>)
    ensures
        opt_text(r) == opt_text(*s),
{
    match s {
        Some(t) => Some(owned(t.as_str())),
        None => None,
    }
}

impl RequestContext {
    pub open spec fn view(&self) -> ContextView {
        ContextView {
            headers: self.headers@,
            auth: opt_text(self.auth),
            referer: opt_text(self.referer),
            user_agent: opt_text(self.user_agent),
            cookies: opt_cookies(self.cookies),
        }
    }

    pub fn new() -> (r: RequestContext)
        ensures
            r@ == empty_context(),
    {
        RequestContext { headers: TextMap::new(), auth: None, referer: None, user_agent: None, cookies: None }
    }

    /// Adds a custom header.
    pub fn header(self, name: &str, value: &str) -> (r: RequestContext)
        ensures
            r@ == (ContextView { headers: with_entry(self@.headers, name@, value@), ..self@ }),
    {
        let mut r = self;
        r.headers.insert(owned(name), owned(value));
        r
    }

    /// Sets the authorization.
    pub fn auth(self, value: &str) -> (r: RequestContext)
        ensures
            r@ == (ContextView { auth: Some(value@), ..self@ }),
    {
        let mut r = self;
        r.auth = Some(owned(value));
        r
    }

    pub fn referer(self, url: &str) -> (r: RequestContext)
        ensures
            r@ == (ContextView { referer: Some(url@), ..self@ }),
    {
        let mut r = self;
        r.referer = Some(owned(url));
        r
    }

    pub fn user_agent(self, ua: &str) -> (r: RequestContext)
        ensures
            r@ == (ContextView { user_agent: Some(ua@), ..self@ }),
    {
        let mut r = self;
        r.user_agent = Some(owned(ua));
        r
    }

    /// Sets the cookies of the download.
    pub fn cookies(self, cookies: Vec<CookieEntry>) -> (r: RequestContext)
        ensures
            r@ == (ContextView { cookies: Some(cookie_views(cookies@)), ..self@ }),
    {
        let mut r = self;
        r.cookies = Some(cookies);
        r
    }
}

impl Default for RequestContext {
    fn default() -> (r: RequestContext)
        ensures
            r@ == empty_context(),
    {
        RequestContext::new()
    }
}

impl Clone for RequestContext {
    fn clone(&self) -> (r: RequestContext)
        ensures
            r@ == self@,
    {
        RequestContext {
            headers: self.headers.clone(),
            auth: copy_text(&self.auth),
            referer: copy_text(&self.referer),
            user_agent: copy_text(&self.user_agent),
            cookies: match &self.cookies {
                Some(v) => Some(copy_cookies(v)),
                None => None,
            },
        }
    }
}

/// What a browser session hands over.
#[derive(Debug)]
pub struct SessionContext {
    pub cookies: Vec<CookieEntry>,
    pub headers: TextMap,
    pub auth: Option<String>,
    pub referer: Option<String>,
    pub user_agent: Option<String>,
}

/// What a browser session hands over, as text.
#[verifier::ext_equal]
pub struct SessionView {
    pub cookies: Seq<CookieView>,
    pub headers: Seq<(Seq<char>, Seq<char>)>,
    pub auth: Option<Seq<char>>,
    pub referer: Option<Seq<char>>,
    pub user_agent: Option<Seq<char>>,
}

impl SessionContext {
    pub open spec fn view(&self) -> SessionView {
        SessionView {
            cookies: cookie_views(self.cookies@),
            headers: self.headers@,
            auth: opt_text(self.auth),
            referer: opt_text(self.referer),
            user_agent: opt_text(self.user_agent),
        }
    }

    pub fn new() -> (r: SessionContext)
        ensures
            r@ == (SessionView {
                cookies: Seq::empty(),
                headers: Seq::empty(),
                auth: None,
                referer: None,
                user_agent: None,
            }),
    {
        let r = SessionContext {
            cookies: Vec::new(),
            headers: TextMap::new(),
            auth: None,
            referer: None,
            user_agent: None,
        };
        assert(r@.cookies =~= Seq::empty());
        r
    }

    /// The context of the requests of a download in this session.
    pub fn to_request_context(&self) -> (r: RequestContext)
        ensures
            r@ == (ContextView {
                headers: self@.headers,
                auth: self@.auth,
                referer: self@.referer,
                user_agent: self@.user_agent,
                cookies: if self@.cookies.len() == 0 {
                    None
                } else {
                    Some(self@.cookies)
                },
            }),
    {
        assert(self@.cookies.len() == self.cookies@.len());
        RequestContext {
            headers: self.headers.clone(),
            auth: copy_text(&self.auth),
            referer: copy_text(&self.referer),
            user_agent: copy_text(&self.user_agent),
            cookies: if self.cookies.len() == 0 {
                None
            } else {
                Some(copy_cookies(&self.cookies))
            },
        }
    }

    /// Adds a cookie.
    pub fn cookie(self, entry: CookieEntry) -> (r: SessionContext)
        ensures
            r@ == (SessionView { cookies: self@.cookies.push(entry@), ..self@ }),
    {
        let mut r = self;
        let ghost before = r.cookies@;
        r.cookies.push(entry);
        assert(cookie_views(before.push(entry)) =~= cookie_views(before).push(entry@));
        r
    }

    /// Adds a custom header.
    pub fn header(self, name: &str, value: &str) -> (r: SessionContext)
        ensures
            r@ == (SessionView { headers: with_entry(self@.headers, name@, value@), ..self@ }),
    {
        let mut r = self;
        r.headers.insert(owned(name), owned(value));
        r
    }

    /// Sets the authorization.
    pub fn auth(self, value: &str) -> (r: SessionContext)
        ensures
            r@ == (SessionView { auth: Some(value@), ..self@ }),
    {
        let mut r = self;
        r.auth = Some(owned(value));
        r
    }

    pub fn referer(self, url: &str) -> (r: SessionContext)
        ensures
            r@ == (SessionView { referer: Some(url@), ..self@ }),
    {
        let mut r = self;
        r.referer = Some(owned(url));
        r
    }

    pub fn user_agent(self, ua: &str) -> (r: SessionContext)
        ensures
            r@ == (SessionView { user_agent: Some(ua@), ..self@ }),
    {
        let mut r = self;
        r.user_agent = Some(owned(ua));
        r
    }
}

impl Default for SessionContext {
    fn default() -> (r: SessionContext)
        ensures
            r@ == (SessionView {
                cookies: Seq::empty(),
                headers: Seq::empty(),
                auth: None,
                referer: None,
                user_agent: None,
            }),
    {
        SessionContext::new()
    }
}

/// How a service is set up.
#[derive(Debug, Clone, Copy, PartialEq, Eq, Structural)]
pub struct ServiceConfig {
    /// Connections that a download starts with.
    pub connections_per_download: usize,
    /// Downloads that run at a time.
    pub max_concurrent_tasks: usize,
    /// Connections of all downloads together.
    pub max_total_connections: usize,
    /// Bytes per second of all downloads together; zero for no limit.
    pub global_bandwidth_limit_bps: u64,
    /// Whether what is learned of servers is kept.
    pub enable_origin_memory: bool,
    pub storage_config: StorageConfig,
}

impl Default for ServiceConfig {
    fn default() -> (r: ServiceConfig)
        ensures
            r.connections_per_download == 8,
            r.max_concurrent_tasks == 3,
            r.max_total_connections == 32,
            r.global_bandwidth_limit_bps == 0,
            r.enable_origin_memory,
            r.storage_config == StorageConfig::standard(),
    {
        ServiceConfig {
            connections_per_download: 8,
            max_concurrent_tasks: 3,
            max_total_connections: 32,
            global_bandwidth_limit_bps: 0,
            enable_origin_memory: true,
            storage_config: StorageConfig::default(),
        }
    }
}

/// A download that is asked for.
#[derive(Debug)]
pub struct DownloadRequest {
    pub url: String,
    pub dir: String,
    pub filename: Option<String>,
    pub connections: Option<usize>,
    pub min_connections: Option<usize>,
    pub max_connections: Option<usize>,
    pub borrow_limit_mb: Option<u64>,
    pub per_download_bandwidth_limit_bps: Option<u64>,
    pub http_mode: Option<HttpMode>,
    pub schedule_mode: Option<ScheduleMode>,
    pub dry_run: bool,
    pub dry_run_size_mb: Option<u64>,
    pub request_context: Option<RequestContext>,
}

/// A download that is asked for, as text.
#[verifier::ext_equal]
pub struct RequestView {
    pub url: Seq<char>,
    pub dir: Seq<char>,
    pub filename: Option<Seq<char>>,
    pub connections: Option<usize>,
    pub min_connections: Option<usize>,
    pub max_connections: Option<usize>,
    pub borrow_limit_mb: Option<u64>,
    pub per_download_bandwidth_limit_bps: Option<u64>,
    pub http_mode: Option<HttpMode>,
    pub schedule_mode: Option<ScheduleMode>,
    pub dry_run: bool,
    pub dry_run_size_mb: Option<u64>,
    pub context: Option<ContextView>,
}

/// The view of an optional context.
pub open spec fn opt_context(c: Option<RequestContext>) -> Option<ContextView> {
    match c {
        Some(x) => Some(x@),
        None => None,
    }
}

/// `c`, or a context that adds nothing.
pub open spec fn context_or_empty(c: Option<ContextView>) -> ContextView {
    match c {
        Some(x) => x,
        None => empty_context(),
    }
}

fn context_or_new(c: Option<RequestContext>) -> (r: RequestContext)
    ensures
        r@ == context_or_empty(opt_context(c)),
{
    match c {
        Some(x) => x,
        None => RequestContext::new(),
    }
}

impl DownloadRequest {
    pub open spec fn view(&self) -> RequestView {
        RequestView {
            url: self.url@,
            dir: self.dir@,
            filename: opt_text(self.filename),
            connections: self.connections,
            min_connections: self.min_connections,
            max_connections: self.max_connections,
            borrow_limit_mb: self.borrow_limit_mb,
            per_download_bandwidth_limit_bps: self.per_download_bandwidth_limit_bps,
            http_mode: self.http_mode,
            schedule_mode: self.schedule_mode,
            dry_run: self.dry_run,
            dry_run_size_mb: self.dry_run_size_mb,
            context: opt_context(self.request_context),
        }
    }

    /// A request for `url`, with everything else left open.
    pub fn new(url: &str) -> (r: DownloadRequest)
        ensures
            r@ == (RequestView {
                url: url@,
                dir: "."@,
                filename: None,
                connections: None,
                min_connections: None,
                max_connections: None,
                borrow_limit_mb: None,
                per_download_bandwidth_limit_bps: None,
                http_mode: None,
                schedule_mode: None,
                dry_run: false,
                dry_run_size_mb: None,
                context: None,
            }),
    {
        DownloadRequest {
            url: owned(url),
            dir: owned("."),
            filename: None,
            connections: None,
            min_connections: None,
            max_connections: None,
            borrow_limit_mb: None,
            per_download_bandwidth_limit_bps: None,
            http_mode: None,
            schedule_mode: None,
            dry_run: false,
            dry_run_size_mb: None,
            request_context: None,
        }
    }

    /// Sets the directory.
    pub fn dir(self, dir: &str) -> (r: DownloadRequest)
        ensures
            r@ == (RequestView { dir: dir@, ..self@ }),
    {
        let mut r = self;
        r.dir = owned(dir);
        r
    }

    pub fn connections(self, n: usize) -> (r: DownloadRequest)
        ensures
            r@ == (RequestView { connections: Some(n), ..self@ }),
    {
        let mut r = self;
        r.connections = Some(n);
        r
    }

    pub fn filename(self, name: &str) -> (r: DownloadRequest)
        ensures
            r@ == (RequestView { filename: Some(name@), ..self@ }),
    {
        let mut r = self;
        r.filename = Some(owned(name));
        r
    }

    pub fn min_connections(self, n: usize) -> (r: DownloadRequest)
        ensures
            r@ == (RequestView { min_connections: Some(n), ..self@ }),
    {
        let mut r = self;
        r.min_connections = Some(n);
        r
    }

    pub fn max_connections(self, n: usize) -> (r: DownloadRequest)
        ensures
            r@ == (RequestView { max_connections: Some(n), ..self@ }),
    {
        let mut r = self;
        r.max_connections = Some(n);
        r
    }

    pub fn borrow_limit_mb(self, mb: u64) -> (r: DownloadRequest)
        ensures
            r@ == (RequestView { borrow_limit_mb: Some(mb), ..self@ }),
    {
        let mut r = self;
        r.borrow_limit_mb = Some(mb);
        r
    }

    pub fn per_download_bandwidth_limit_bps(self, bps: u64) -> (r: DownloadRequest)
        ensures
            r@ == (RequestView { per_download_bandwidth_limit_bps: Some(bps), ..self@ }),
    {
        let mut r = self;
        r.per_download_bandwidth_limit_bps = Some(bps);
        r
    }

    pub fn http_mode(self, mode: HttpMode) -> (r: DownloadRequest)
        ensures
            r@ == (RequestView { http_mode: Some(mode), ..self@ }),
    {
        let mut r = self;
        r.http_mode = Some(mode);
        r
    }

    pub fn schedule_mode(self, mode: ScheduleMode) -> (r: DownloadRequest)
        ensures
            r@ == (RequestView { schedule_mode: Some(mode), ..self@ }),
    {
        let mut r = self;
        r.schedule_mode = Some(mode);
        r
    }

    pub fn dry_run(self, dry: bool) -> (r: DownloadRequest)
        ensures
            r@ == (RequestView { dry_run: dry, ..self@ }),
    {
        let mut r = self;
        r.dry_run = dry;
        r
    }

    pub fn dry_run_size_mb(self, mb: u64) -> (r: DownloadRequest)
        ensures
            r@ == (RequestView { dry_run_size_mb: Some(mb), ..self@ }),
    {
        let mut r = self;
        r.dry_run_size_mb = Some(mb);
        r
    }

    pub fn context(self, ctx: RequestContext) -> (r: DownloadRequest)
        ensures
            r@ == (RequestView { context: Some(ctx@), ..self@ }),
    {
        let mut r = self;
        r.request_context = Some(ctx);
        r
    }

    /// Sets a bearer token as the authorization.
    pub fn bearer_token(self, token: &str) -> (r: DownloadRequest)
        ensures
            r@ == (RequestView {
                context: Some(ContextView { auth: Some("Bearer "@ + token@), ..context_or_empty(self@.context) }),
                ..self@
            }),
    {
        let mut r = self;
        let mut value: String = owned("Bearer ");
        value.append(token);
        r.request_context = Some(context_or_new(r.request_context).auth(value.as_str()));
        r
    }

    pub fn referer(self, url: &str) -> (r: DownloadRequest)
        ensures
            r@ == (RequestView {
                context: Some(ContextView { referer: Some(url@), ..context_or_empty(self@.context) }),
                ..self@
            }),
    {
        let mut r = self;
        r.request_context = Some(context_or_new(r.request_context).referer(url));
        r
    }

    /// Adds a custom header.
    pub fn header(self, name: &str, value: &str) -> (r: DownloadRequest)
        ensures
            r@ == (RequestView {
                context: Some(
                    ContextView {
                        headers: with_entry(context_or_empty(self@.context).headers, name@, value@),
                        ..context_or_empty(self@.context)
                    },
                ),
                ..self@
            }),
    {
        let mut r = self;
        r.request_context = Some(context_or_new(r.request_context).header(name, value));
        r
    }
}

} // verus!
