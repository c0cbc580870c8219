//! Turning requests into tasks, and events into updates.

use vstd::prelude::*;
use crate::cookies::{
    cookie_views, inserted, matching, no_duplicates, same_cookie, CookieEntry, CookieJar, CookieView,
};
use crate::engine::types::{DownloadStatus, HttpMode, ProtocolInfo, ScheduleMode, WorkerState};
use crate::request::{
    context_or_empty, opt_context, ContextView, DownloadRequest, RequestContext, RequestView,
};
use crate::text::{owned, split, split_at_char, texts};
use crate::web_url::{opt_text, opt_url, url_parts, UrlParts, UrlView};

verus! {

/// A download that the engine runs.
#[derive(Debug)]
pub struct DownloadTask {
    pub id: u128,
    pub url: String,
    pub filename: String,
    pub dir: String,
    pub total_size: u64,
    pub downloaded_size: u64,
    pub connections: usize,
    pub status: DownloadStatus,
    pub dry_run: bool,
    pub dry_run_size_mb: Option<u64>,
    pub borrow_limit_mb: u64,
    pub min_connections: usize,
    pub max_connections: usize,
    pub per_download_bandwidth_limit_bps: u64,
    pub schedule_mode: ScheduleMode,
    pub http_mode: HttpMode,
    pub log_root: Option<String>,
    pub request_context: Option<RequestContext>,
}

/// A download that the engine runs, as text.
#[verifier::ext_equal]
pub struct TaskView {
    pub id: u128,
    pub url: Seq<char>,
    pub filename: Seq<char>,
    pub dir: Seq<char>,
    pub total_size: u64,
    pub downloaded_size: u64,
    pub connections: usize,
    pub status: DownloadStatus,
    pub dry_run: bool,
    pub dry_run_size_mb: Option<u64>,
    pub borrow_limit_mb: u64,
    pub min_connections: usize,
    pub max_connections: usize,
    pub per_download_bandwidth_limit_bps: u64,
    pub schedule_mode: ScheduleMode,
    pub http_mode: HttpMode,
    pub log_root: Option<Seq<char>>,
    pub context: Option<ContextView>,
}

impl DownloadTask {
    pub open spec fn view(&self) -> TaskView {
        TaskView {
            id: self.id,
            url: self.url@,
            filename: self.filename@,
            dir: self.dir@,
            total_size: self.total_size,
            downloaded_size: self.downloaded_size,
            connections: self.connections,
            status: self.status,
            dry_run: self.dry_run,
            dry_run_size_mb: self.dry_run_size_mb,
            borrow_limit_mb: self.borrow_limit_mb,
            min_connections: self.min_connections,
            max_connections: self.max_connections,
            per_download_bandwidth_limit_bps: self.per_download_bandwidth_limit_bps,
            schedule_mode: self.schedule_mode,
            http_mode: self.http_mode,
            log_root: opt_text(self.log_root),
            context: opt_context(self.request_context),
        }
    }
}

/// `jar` with the first `n` of `cookies` in it.
pub open spec fn all_inserted(jar: Seq<CookieView>, cookies: Seq<CookieView>, n: int) -> Seq<CookieView>
    decreases n,
{
    if n <= 0 {
        jar
    } else {
        inserted(all_inserted(jar, cookies, n - 1), cookies[n - 1])
    }
}

/// Some cookie of `list` has the name, domain and path of `c`.
pub open spec fn shadowed(list: Seq<CookieView>, c: CookieView) -> bool {
    exists|i: int| 0 <= i < list.len() && same_cookie(#[trigger] list[i], c)
}

/// `own` and those of the first `n` of `extra` that it does not shadow.
pub open spec fn merged(own: Seq<CookieView>, extra: Seq<CookieView>, n: int) -> Seq<CookieView>
    decreases n,
{
    if n <= 0 {
        own
    } else {
        let before = merged(own, extra, n - 1);
        if shadowed(before, extra[n - 1]) {
            before
        } else {
            before.push(extra[n - 1])
        }
    }
}

/// The name of the file that `url` leads to: what follows the last slash.
pub open spec fn url_file_name(url: Seq<char>) -> Seq<char> {
    split(url, '/').last()
}

/// The cookies that a context brings along.
pub open spec fn own_cookies(c: Option<ContextView>) -> Seq<CookieView> {
    match c {
        Some(x) => match x.cookies {
            Some(v) => v,
            None => Seq::empty(),
        },
        None => Seq::empty(),
    }
}

/// The jar after a request has brought its cookies along.
pub open spec fn jar_after(jar: Seq<CookieView>, request: RequestView) -> Seq<CookieView> {
    let own = own_cookies(request.context);
    all_inserted(jar, own, own.len() as int)
}

/// The context of a task: that of the request, and the cookies of `jar` that
/// go to its URL and are not shadowed.
pub open spec fn task_context(
    context: Option<ContextView>,
    jar: Seq<CookieView>,
    parts: Option<UrlView>,
) -> Option<ContextView> {
    match parts {
        Some(u) => {
            let extra = matching(jar, u);
            if extra.len() > 0 {
                Some(
                    ContextView {
                        cookies: Some(merged(own_cookies(context), extra, extra.len() as int)),
                        ..context_or_empty(context)
                    },
                )
            } else {
                context
            }
        },
        None => context,
    }
}

pub open spec fn or_else<T>(o: Option<T>, d: T) -> T {
    match o {
        Some(x) => x,
        None => d,
    }
}

/// The task for a request whose URL has the given parts.
pub open spec fn task_for(
    r: RequestView,
    id: u128,
    default_connections: usize,
    jar: Seq<CookieView>,
    parts: Option<UrlView>,
) -> TaskView {
    TaskView {
        id,
        url: r.url,
        filename: or_else(r.filename, url_file_name(r.url)),
        dir: r.dir,
        total_size: 0,
        downloaded_size: 0,
        connections: or_else(r.connections, default_connections),
        status: DownloadStatus::Queued,
        dry_run: r.dry_run,
        dry_run_size_mb: r.dry_run_size_mb,
        borrow_limit_mb: or_else(r.borrow_limit_mb, 2),
        min_connections: or_else(r.min_connections, 1),
        max_connections: or_else(r.max_connections, 16),
        per_download_bandwidth_limit_bps: or_else(r.per_download_bandwidth_limit_bps, 0),
        schedule_mode: or_else(r.schedule_mode, ScheduleMode::Equal),
        http_mode: or_else(r.http_mode, HttpMode::Auto),
        log_root: None,
        context: task_context(r.context, jar_after(jar, r), parts),
    }
}

/// The name of the file that `url` leads to.
pub fn file_name_of_url(url: &str) -> (r: String)
    ensures
        r@ == url_file_name(url@),
{
    let parts: Vec<String> = split_at_char(url, '/');
    proof {
        lemma_split_nonempty(url@, '/');
        assert(texts(parts@).last() == parts@[parts@.len() - 1]@);
    }
    owned(parts[parts.len() - 1].as_str())
}

proof fn lemma_split_nonempty(s: Seq<char>, c: char)
    ensures
        split(s, c).len() > 0,
    decreases s.len(),
{
}

/// Whether some cookie of `list` has the name, domain and path of `c`.
fn is_shadowed(list: &Vec<CookieEntry>, c: &CookieEntry) -> (r: bool)
    ensures
        r == shadowed(cookie_views(list@), c@),
{
    let ghost now = cookie_views(list@);
    let mut k: usize = 0;
    while k < list.len()
        invariant
            now == cookie_views(list@),
            k <= list@.len(),
            forall|j: int| 0 <= j < k ==> !same_cookie(#[trigger] now[j], c@),
        decreases list@.len() - k,
    {
        if list[k].replaces(c) {
            assert(same_cookie(now[k as int], c@));
            return true;
        }
        k = k + 1;
    }
    false
}

/// Adds the cookies of `extra` that `own` does not shadow.
pub fn merge_cookies(own: Vec<CookieEntry>, extra: Vec<CookieEntry>) -> (r: Vec<CookieEntry>)
    ensures
        cookie_views(r@) == merged(cookie_views(own@), cookie_views(extra@), extra@.len() as int),
{
    let mut r: Vec<CookieEntry> = own;
    let ghost a = cookie_views(own@);
    let ghost b = cookie_views(extra@);
    let mut i: usize = 0;
    while i < extra.len()
        invariant
            i <= extra@.len(),
            b == cookie_views(extra@),
            cookie_views(r@) == merged(a, b, i as int),
        decreases extra@.len() - i,
    {
        let ghost now = cookie_views(r@);
        let found: bool = is_shadowed(&r, &extra[i]);
        assert(b[i as int] == extra@[i as int]@);
        assert(found == shadowed(now, b[i as int]));
        if !found {
            let c: CookieEntry = extra[i].clone();
            assert(cookie_views(r@.push(c)) =~= now.push(c@));
            r.push(c);
        }
        i = i + 1;
    }
    r
}

/// The task for a request, given the parts of its URL. The request's cookies
/// are put into `jar`.
pub fn build_task(
    request: DownloadRequest,
    id: u128,
    default_connections: usize,
    jar: &mut CookieJar,
    parts: &Option<UrlParts>,
) -> (task: DownloadTask)
    ensures
        task@ == task_for(
            request@,
            id,
            default_connections,
            old(jar)@,
            opt_url(*parts),
        ),
        final(jar)@ == jar_after(old(jar)@, request@),
        old(jar).wf() ==> final(jar).wf(),
{
    let ghost asked = request@;
    let filename: String = match request.filename {
        Some(name) => name,
        None => file_name_of_url(request.url.as_str()),
    };
    match &request.request_context {
        Some(ctx) => match &ctx.cookies {
            Some(cookies) => {
                let ghost own = cookie_views(cookies@);
                let mut i: usize = 0;
                while i < cookies.len()
                    invariant
                        i <= cookies@.len(),
                        own == cookie_views(cookies@),
                        jar@ == all_inserted(old(jar)@, own, i as int),
                        old(jar).wf() ==> jar.wf(),
                    decreases cookies@.len() - i,
                {
                    assert(own[i as int] == cookies@[i as int]@);
                    jar.insert(cookies[i].clone());
                    i = i + 1;
                }
            },
            None => {},
        },
        None => {},
    }
    assert(jar@ == jar_after(old(jar)@, asked));
    let ghost parts_view = opt_url(*parts);
    let context: Option<RequestContext> = match parts {
        Some(u) => {
            let extra: Vec<CookieEntry> = jar.match_url(u);
            assert(extra@.len() == cookie_views(extra@).len());
            if extra.len() > 0 {
                let mut ctx: RequestContext = match request.request_context {
                    Some(c) => c,
                    None => RequestContext::new(),
                };
                let own: Vec<CookieEntry> = match ctx.cookies {
                    Some(v) => v,
                    None => Vec::new(),
                };
                assert(cookie_views(own@) =~= own_cookies(asked.context));
                ctx.cookies = Some(merge_cookies(own, extra));
                Some(ctx)
            } else {
                request.request_context
            }
        },
        None => request.request_context,
    };
    assert(opt_context(context) == task_context(asked.context, jar@, parts_view));
    DownloadTask {
        id,
        url: request.url,
        filename,
        dir: request.dir,
        total_size: 0,
        downloaded_size: 0,
        connections: match request.connections {
            Some(n) => n,
            None => default_connections,
        },
        status: DownloadStatus::Queued,
        dry_run: request.dry_run,
        dry_run_size_mb: request.dry_run_size_mb,
        borrow_limit_mb: match request.borrow_limit_mb {
            Some(n) => n,
            None => 2,
        },
        min_connections: match request.min_connections {
            Some(n) => n,
            None => 1,
        },
        max_connections: match request.max_connections {
            Some(n) => n,
            None => 16,
        },
        per_download_bandwidth_limit_bps: match request.per_download_bandwidth_limit_bps {
            Some(n) => n,
            None => 0,
        },
        schedule_mode: match request.schedule_mode {
            Some(m) => m,
            None => ScheduleMode::Equal,
        },
        http_mode: match request.http_mode {
            Some(m) => m,
            None => HttpMode::Auto,
        },
        log_root: None,
        request_context: context,
    }
}

/// The task for a request. The request's cookies are put into `jar`, and the
/// cookies of `jar` that go to the URL are sent along.
pub fn add_download(request: DownloadRequest, id: u128, default_connections: usize, jar: &mut CookieJar) -> (task:
    DownloadTask)
    ensures
        task@ == task_for(request@, id, default_connections, old(jar)@, url_parts(request@.url)),
        final(jar)@ == jar_after(old(jar)@, request@),
        old(jar).wf() ==> final(jar).wf(),
{
    let parts: Option<UrlParts> = UrlParts::parse(request.url.as_str());
    build_task(request, id, default_connections, jar, &parts)
}

proof fn lemma_merged_keeps(own: Seq<CookieView>, extra: Seq<CookieView>, n: int)
    requires
        0 <= n <= extra.len(),
    ensures
        own.len() <= merged(own, extra, n).len(),
        forall|i: int| 0 <= i < own.len() ==> #[trigger] merged(own, extra, n)[i] == own[i],
    decreases n,
{
    if n > 0 {
        lemma_merged_keeps(own, extra, n - 1);
    }
}

/// The cookies of a request come first and unchanged, and no cookie of the
/// jar stands beside one of them with the same name, domain and path.
pub proof fn law_request_cookies_win(own: Seq<CookieView>, extra: Seq<CookieView>, n: int)
    requires
        0 <= n <= extra.len(),
    ensures
        own.len() <= merged(own, extra, n).len(),
        forall|i: int| 0 <= i < own.len() ==> #[trigger] merged(own, extra, n)[i] == own[i],
        no_duplicates(own) ==> no_duplicates(merged(own, extra, n)),
        forall|i: int| 0 <= i < n ==> shadowed(merged(own, extra, n), #[trigger] extra[i]),
    decreases n,
{
    lemma_merged_keeps(own, extra, n);
    if n > 0 {
        law_request_cookies_win(own, extra, n - 1);
        let before = merged(own, extra, n - 1);
        let after = merged(own, extra, n);
        let c = extra[n - 1];
        assert forall|i: int| 0 <= i < n implies shadowed(after, #[trigger] extra[i]) by {
            if i < n - 1 {
                assert(shadowed(before, extra[i]));
                let k = choose|k: int| 0 <= k < before.len() && same_cookie(#[trigger] before[k], extra[i]);
                assert(after[k] == before[k]);
                assert(same_cookie(after[k], extra[i]));
            } else if !shadowed(before, c) {
                assert(after[after.len() - 1] == c);
                assert(same_cookie(after[after.len() - 1], c));
            }
        }
        if no_duplicates(own) && !shadowed(before, c) {
            assert forall|i: int, j: int| 0 <= i < j < after.len() implies !same_cookie(
                #[trigger] after[i],
                #[trigger] after[j],
            ) by {
                if j < before.len() {
                    assert(!same_cookie(before[i], before[j]));
                } else {
                    assert(!same_cookie(before[i], c));
                }
            }
        }
    }
}

/// What a worker is doing, for display. The speed is the bit pattern of a
/// binary64 number.
#[derive(Debug, Clone, PartialEq, Eq)]
pub struct WorkerSnapshot {
    pub connection_id: u32,
    pub state: WorkerState,
    pub transferred_bytes: u64,
    pub speed_bits: u64,
    pub range_start: Option<u64>,
    pub range_end: Option<u64>,
    pub range_cursor: Option<u64>,
    pub detail: Option<String>,
}

/// What the engine reports of a task.
#[derive(Debug, Clone, PartialEq, Eq)]
pub enum EngineEvent {
    Progress { id: u128, downloaded: u64, speed_bits: u64 },
    StatusChanged { id: u128, status: DownloadStatus },
    TotalSize { id: u128, size: u64 },
    Workers { id: u128, workers: Vec<WorkerSnapshot> },
    Protocol { id: u128, info: ProtocolInfo },
}

/// What the holder of a download is told.
#[derive(Debug, Clone, PartialEq, Eq)]
pub enum DownloadUpdate {
    Progress { downloaded_bytes: u64, speed_bits: u64 },
    TotalSize(u64),
    Workers(Vec<WorkerSnapshot>),
    Protocol(ProtocolInfo),
    StatusChanged(DownloadStatus),
}

impl EngineEvent {
    /// The task that the event is about.
    pub open spec fn task_id(self) -> u128 {
        match self {
            EngineEvent::Progress { id, .. } => id,
            EngineEvent::StatusChanged { id, .. } => id,
            EngineEvent::TotalSize { id, .. } => id,
            EngineEvent::Workers { id, .. } => id,
            EngineEvent::Protocol { id, .. } => id,
        }
    }

    /// Nothing follows the event: the task is complete or has failed.
    pub open spec fn is_last(self) -> bool {
        match self {
            EngineEvent::StatusChanged { status, .. } => status is Completed || status is Error,
            _ => false,
        }
    }

    pub open spec fn update(self) -> DownloadUpdate {
        match self {
            EngineEvent::Progress { downloaded, speed_bits, .. } => DownloadUpdate::Progress {
                downloaded_bytes: downloaded,
                speed_bits,
            },
            EngineEvent::StatusChanged { status, .. } => DownloadUpdate::StatusChanged(status),
            EngineEvent::TotalSize { size, .. } => DownloadUpdate::TotalSize(size),
            EngineEvent::Workers { workers, .. } => DownloadUpdate::Workers(workers),
            EngineEvent::Protocol { info, .. } => DownloadUpdate::Protocol(info),
        }
    }
}

/// The downloads whose holders are listening.
#[derive(Debug)]
pub struct Listeners {
    pub ids: Vec<u128>,
}

impl Listeners {
    pub open spec fn view(&self) -> Set<u128> {
        self.ids@.to_set()
    }

    pub fn new() -> (r: Listeners)
        ensures
            r@ == Set::<u128>::empty(),
    {
        let r = Listeners { ids: Vec::new() };
        assert(r@ =~= Set::<u128>::empty());
        r
    }

    pub fn contains(&self, id: u128) -> (r: bool)
        ensures
            r == self@.contains(id),
    {
        let mut i: usize = 0;
        while i < self.ids.len()
            invariant
                i <= self.ids@.len(),
                forall|k: int| 0 <= k < i ==> #[trigger] self.ids@[k] != id,
            decreases self.ids@.len() - i,
        {
            if self.ids[i] == id {
                assert(self.ids@.contains(id));
                return true;
            }
            i = i + 1;
        }
        assert(!self.ids@.contains(id));
        false
    }

    pub fn add(&mut self, id: u128)
        ensures
            final(self)@ == old(self)@.insert(id),
    {
        let ghost before = self.ids@;
        self.ids.push(id);
        assert(self@ =~= old(self)@.insert(id)) by {
            assert forall|x: u128| #[trigger] self@.contains(x) == old(self)@.insert(id).contains(x) by {
                if before.contains(x) {
                    let k = choose|k: int| 0 <= k < before.len() && before[k] == x;
                    assert(self.ids@[k] == x);
                }
                assert(self.ids@[before.len() as int] == id);
            }
        }
    }

    pub fn drop_listener(&mut self, id: u128)
        ensures
            final(self)@ == old(self)@.remove(id),
    {
        let mut kept: Vec<u128> = Vec::new();
        let mut i: usize = 0;
        while i < self.ids.len()
            invariant
                i <= self.ids@.len(),
                self.ids@ == old(self).ids@,
                forall|x: u128| #[trigger] kept@.contains(x) <==> x != id && self.ids@.take(i as int).contains(x),
            decreases self.ids@.len() - i,
        {
            let x: u128 = self.ids[i];
            let ghost before = kept@;
            if x != id {
                kept.push(x);
            }
            proof {
                assert forall|y: u128| #[trigger] kept@.contains(y) <==> y != id && self.ids@.take(
                    i + 1,
                ).contains(y) by {
                    assert(self.ids@.take(i + 1) =~= self.ids@.take(i as int).push(x));
                    lemma_push_contains(self.ids@.take(i as int), x, y);
                    lemma_push_contains(before, x, y);
                    assert(before.contains(y) <==> y != id && self.ids@.take(i as int).contains(y));
                }
            }
            i = i + 1;
        }
        assert(self.ids@.take(self.ids@.len() as int) =~= self.ids@);
        self.ids = kept;
        assert(self@ =~= old(self)@.remove(id)) by {
            assert forall|x: u128| #[trigger] self@.contains(x) == old(self)@.remove(id).contains(x) by {
                assert(kept@.contains(x) <==> x != id && old(self).ids@.contains(x));
            }
        }
    }

    /// What to do with an event: the task it is about, the update to send to
    /// its holder, if there is one listening, and whether that is the last.
    pub fn route(&mut self, event: EngineEvent) -> (r: (u128, Option<DownloadUpdate>, bool))
        ensures
            r.0 == event.task_id(),
            r.1 == if old(self)@.contains(event.task_id()) {
                Some(event.update())
            } else {
                None
            },
            r.2 == event.is_last(),
            final(self)@ == if event.is_last() {
                old(self)@.remove(event.task_id())
            } else {
                old(self)@
            },
    {
        let (id, last, update) = match event {
            EngineEvent::Progress { id, downloaded, speed_bits } => (
                id,
                false,
                DownloadUpdate::Progress { downloaded_bytes: downloaded, speed_bits },
            ),
            EngineEvent::StatusChanged { id, status } => {
                let last: bool = match &status {
                    DownloadStatus::Completed => true,
                    DownloadStatus::Error(_) => true,
                    _ => false,
                };
                (id, last, DownloadUpdate::StatusChanged(status))
            },
            EngineEvent::TotalSize { id, size } => (id, false, DownloadUpdate::TotalSize(size)),
            EngineEvent::Workers { id, workers } => (id, false, DownloadUpdate::Workers(workers)),
            EngineEvent::Protocol { id, info } => (id, false, DownloadUpdate::Protocol(info)),
        };
        let heard: bool = self.contains(id);
        if last {
            self.drop_listener(id);
        }
        (
            id,
            if heard {
                Some(update)
            } else {
                None
            },
            last,
        )
    }
}

proof fn lemma_push_contains(s: Seq<u128>, x: u128, y: u128)
    ensures
        s.push(x).contains(y) <==> s.contains(y) || x == y,
{
    if s.contains(y) {
        let k = choose|k: int| 0 <= k < s.len() && s[k] == y;
        assert(s.push(x)[k] == y);
    }
    assert(s.push(x)[s.len() as int] == x);
    if s.push(x).contains(y) {
        let k = choose|k: int| 0 <= k < s.push(x).len() && s.push(x)[k] == y;
        if k < s.len() {
            assert(s[k] == y);
        }
    }
}

} // verus!
