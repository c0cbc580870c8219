//! What holds of the command line, of the user interface, and of how a file is
//! written.

use vstd::prelude::*;
use crate::cli::{
    add_file_cookies, build_request_context, flag_headers, is_header_flag, read_cookie_file,
    resolve_connection_settings, Cli, HeadlessRun, InvalidBounds, TaskDefaults,
};
use crate::cookies::{cookie_views, split_once, CookieEntry};
use crate::engine::types::{DownloadStatus, WorkerState};
use crate::request::RequestContext;
use crate::service::{file_name_of_url, DownloadTask, EngineEvent};
use crate::storage::{
    is_direct_write, linux_backends, plan_direct_write, splice_step, windows_backend, SpliceOutcome, SpliceStep,
    StorageBackendKind, StorageConfig, WritePlan,
};
use crate::text::{lemma_split_append, lemma_split_single, split, texts, trim};
use crate::tui::{
    pad_right, row_line, spaces, worker_state_word, FocusPane, InputMode, Key, TaskRow, TuiAction, TuiApp,
};
use crate::web_url::{opt_text, UrlParts};

verus! {

/// A write is divided at multiples of the alignment: the middle part is as
/// long as it can be, and nothing is left out.
pub proof fn law_writes_are_divided(offset: u64, len: usize, plan: WritePlan)
    requires
        offset + len <= u64::MAX,
        offset + 4096 <= u64::MAX,
        call_ensures(plan_direct_write, (offset, len), plan),
    ensures
        match plan {
            WritePlan::Direct { prefix_len, middle_offset, middle_len } => {
                &&& offset + prefix_len == middle_offset
                &&& middle_offset as int % 4096 == 0
                &&& middle_len as int % 4096 == 0
                &&& middle_len > 0
                &&& prefix_len < 4096
                &&& prefix_len + middle_len <= len < prefix_len + middle_len + 4096
            },
            WritePlan::Plain => len < 8192,
        },
{
}

/// A write goes to the disk directly only where all of it is aligned; direct
/// ways of writing ask for it.
pub proof fn law_direct_writes_are_aligned(
    offset: u64,
    address: u64,
    len: u64,
    direct: bool,
    kind: StorageBackendKind,
    alignment: Option<u64>,
)
    requires
        call_ensures(is_direct_write, (offset, address, len), direct),
        call_ensures(StorageBackendKind::direct_io_alignment, (kind,), alignment),
    ensures
        direct <==> offset as int % 4096 == 0 && address as int % 4096 == 0 && len as int % 4096 == 0,
        alignment is Some <==> kind == StorageBackendKind::LinuxIoUring || kind == StorageBackendKind::WindowsDirectIo,
        alignment is Some ==> alignment == Some(4096u64),
{
}

/// The fastest way that is wanted is tried first, and there is one that always
/// works at the end.
pub proof fn law_fast_ways_come_first(config: &StorageConfig, r: Vec<StorageBackendKind>, unbuffered: bool, w: StorageBackendKind)
    requires
        call_ensures(linux_backends, (config,), r),
        call_ensures(windows_backend, (config, unbuffered), w),
    ensures
        r@.len() > 0,
        r@.contains(StorageBackendKind::LinuxIoUring) <==> !config.no_io_uring,
        r@.contains(StorageBackendKind::LinuxSplice) <==> config.use_splice,
        !config.no_io_uring ==> r@[0] == StorageBackendKind::LinuxIoUring,
        r@[r@.len() - 1] == StorageBackendKind::LinuxPwrite <==> config.use_pwrite,
        r@[r@.len() - 1] == StorageBackendKind::LinuxTokio <==> !config.use_pwrite,
        r@.len() <= 3,
        w == StorageBackendKind::WindowsDirectIo <==> !config.no_direct_io && unbuffered,
        w == StorageBackendKind::WindowsPwrite <==> config.no_direct_io || !unbuffered,
{
    let a: int = if !config.no_io_uring {
        1
    } else {
        0
    };
    if config.use_splice {
        assert(r@[a] == StorageBackendKind::LinuxSplice);
    }
    if !config.no_io_uring {
        assert(r@[0] == StorageBackendKind::LinuxIoUring);
    }
}

/// Bytes are passed on one after the other, at most 64 kilobytes at a time,
/// until all are; what the system cannot pass on is written plainly from there.
pub proof fn law_bytes_are_passed_on(written: usize, len: usize, outcome: SpliceOutcome, r: (SpliceStep, usize))
    requires
        written <= len,
        outcome matches SpliceOutcome::Moved(n) ==> n <= len - written,
        call_ensures(splice_step, (written, len, outcome), r),
    ensures
        outcome matches SpliceOutcome::Moved(n) ==> r.1 == written + n,
        !(outcome is Moved) ==> r.1 == written,
        outcome is Unsupported ==> r.0 == (SpliceStep::WritePlainly { from: written }),
        outcome is Failed ==> r.0 == SpliceStep::Fail,
        outcome == SpliceOutcome::Moved(0) ==> r.0 == SpliceStep::Done,
        r.0 matches SpliceStep::Pass { from, to } ==> {
            &&& from == r.1
            &&& from < to <= len
            &&& to - from <= 65536
            &&& to < len ==> to - from == 65536
        },
        r.0 == SpliceStep::Done && outcome != SpliceOutcome::Moved(0) ==> r.1 == len,
        r.1 == len && !(outcome is Unsupported) && !(outcome is Failed) ==> r.0 == SpliceStep::Done,
{
}

/// The arguments say how many connections there are: a number alone is all
/// three, else it lies within the bounds, which are in order or refused.
pub proof fn law_connections_are_settled(cli: &Cli, r: Result<(usize, usize, usize), InvalidBounds>)
    requires
        call_ensures(resolve_connection_settings, (cli,), r),
    ensures
        ({
            let alone = cli.connections is Some && cli.min_connections is None && cli.max_connections is None;
            let n = match cli.connections {
                Some(c) => c as int,
                None => 8,
            };
            &&& r matches Ok((initial, low, high)) ==> 1 <= low <= initial <= high
            &&& alone && n >= 1 ==> r == Ok::<(usize, usize, usize), InvalidBounds>((n as usize, n as usize, n as usize))
            &&& !alone ==> (r matches Ok((initial, low, high)) ==> {
                &&& (cli.min_connections matches Some(m) && m >= 1) ==> low == cli.min_connections->0
                &&& cli.min_connections is None ==> low == 1
                &&& (cli.max_connections matches Some(m) && m >= 1) ==> high == cli.max_connections->0
                &&& cli.max_connections is None ==> high == 16
                &&& low <= n <= high ==> initial == n
                &&& n > high ==> initial == high
                &&& n < low ==> initial == low
            })
            &&& r matches Err(e) ==> !alone && e.min > e.max
            &&& (cli.min_connections matches Some(m) && (cli.max_connections matches Some(x) && m > x && x >= 1))
                ==> r is Err
        }),
{
}

/// What is turned off is off.
pub proof fn law_ways_can_be_turned_off(cli: &Cli, r: StorageConfig)
    requires
        call_ensures(Cli::storage_config, (cli,), r),
    ensures
        r.use_pwrite <==> !cli.no_pwrite,
        r.use_splice <==> !cli.no_splice,
        r.no_io_uring <==> cli.no_io_uring,
        r.no_direct_io <==> cli.no_direct_io,
{
}

/// Arguments that say nothing of a request leave it without a context; a
/// referer and a token are passed on.
pub proof fn law_arguments_make_a_context(cli: &Cli, r: Option<RequestContext>, flag: &str, is: bool, pair: Option<(String, String)>)
    requires
        call_ensures(build_request_context, (cli,), r),
        call_ensures(is_header_flag, (flag,), is),
        call_ensures(split_once, (flag, ':'), pair),
    ensures
        cli.header@.len() == 0 && cli.referer is None && cli.auth_bearer is None ==> r is None,
        cli.referer is Some || cli.auth_bearer is Some ==> r is Some,
        r matches Some(c) ==> {
            &&& opt_text(c.referer) == opt_text(cli.referer)
            &&& cli.auth_bearer matches Some(t) ==> opt_text(c.auth) == Some("Bearer "@ + t@)
            &&& cli.auth_bearer is None ==> c.auth is None
            &&& c.cookies is None
            &&& c.user_agent is None
            &&& c.headers@.len() <= cli.header@.len()
        },
        is <==> pair is Some,
{
    let flags = texts(cli.header@);
    assert(flags.len() == cli.header@.len());
    lemma_flags(flags, flags.len() as int);
    if let Some(c) = r {
        assert(c@.referer == opt_text(c.referer));
        assert(c@.auth == opt_text(c.auth));
        assert(c@.user_agent == opt_text(c.user_agent));
        assert(c@.headers == c.headers@);
    }
}

proof fn lemma_flags(flags: Seq<Seq<char>>, n: int)
    requires
        n >= 0,
    ensures
        flag_headers(flags, n).len() <= n,
    decreases n,
{
    if n > 0 {
        lemma_flags(flags, n - 1);
    }
}

/// A cookie file holds the cookies of its lines, in order.
pub proof fn law_cookie_files_are_read(
    contents: &str,
    more: &str,
    line: Seq<char>,
    text: &str,
    domain: &str,
    a: Vec<CookieEntry>,
    b: Vec<CookieEntry>,
    c: Option<CookieEntry>,
)
    requires
        more@ == contents@ + seq!['\n'] + line,
        forall|k: int| 0 <= k < line.len() ==> #[trigger] line[k] != '\n',
        text@ == trim(line),
        call_ensures(read_cookie_file, (contents, domain), a),
        call_ensures(read_cookie_file, (more, domain), b),
        call_ensures(CookieEntry::from_line, (text, domain), c),
    ensures
        c is None ==> cookie_views(b@) == cookie_views(a@),
        c matches Some(x) ==> cookie_views(b@) == cookie_views(a@).push(x@),
{
    let p = split(contents@, '\n');
    let q = split(more@, '\n');
    lemma_split_append(contents@, '\n', line);
    lemma_split_single(line, '\n');
    assert(q =~= p.push(line));
    lemma_prefix(p, q, p.len() as int, domain@);
    assert(q[q.len() - 1] == line);
}

/// A file of one line holds the cookie of the line, if it has one.
pub proof fn law_one_line_holds_one_cookie(
    line: &str,
    text: &str,
    domain: &str,
    a: Vec<CookieEntry>,
    c: Option<CookieEntry>,
)
    requires
        forall|k: int| 0 <= k < line@.len() ==> #[trigger] line@[k] != '\n',
        text@ == trim(line@),
        call_ensures(read_cookie_file, (line, domain), a),
        call_ensures(CookieEntry::from_line, (text, domain), c),
    ensures
        c is None ==> a@.len() == 0,
        c matches Some(x) ==> a@.len() == 1 && a@[0]@ == x@,
{
    let q = split(line@, '\n');
    lemma_split_single(line@, '\n');
    assert(q =~= seq![line@]);
    assert(q[0] == line@);
    assert(crate::cli::cookies_of_lines(q, 0, domain@).len() == 0);
    assert(cookie_views(a@).len() == a@.len());
    if c is Some {
        assert(cookie_views(a@)[0] == a@[0]@);
    }
}

proof fn lemma_prefix(p: Seq<Seq<char>>, q: Seq<Seq<char>>, n: int, domain: Seq<char>)
    requires
        0 <= n <= p.len() <= q.len(),
        forall|i: int| 0 <= i < p.len() ==> p[i] == q[i],
    ensures
        crate::cli::cookies_of_lines(p, n, domain) == crate::cli::cookies_of_lines(q, n, domain),
    decreases n,
{
    if n > 0 {
        lemma_prefix(p, q, n - 1, domain);
    }
}

/// The cookies of a file are put in a context for the host of the first URL;
/// where there are none the context stays as it is.
pub proof fn law_file_cookies_are_added(
    ctx: Option<RequestContext>,
    contents: &str,
    url: &Option<UrlParts>,
    r: (Option<RequestContext>, usize),
    domain: &str,
    cookies: Vec<CookieEntry>,
)
    requires
        call_ensures(add_file_cookies, (ctx, contents, url), r),
        (url matches Some(u) && u.host is Some) && domain@ == ((url->0).host->0)@,
        call_ensures(read_cookie_file, (contents, domain), cookies),
    ensures
        r.1 == cookies@.len(),
        r.1 > 0 ==> (r.0 matches Some(c) && (c.cookies matches Some(v) && cookie_views(v@) == cookie_views(cookies@))),
        r.1 == 0 && ctx is None ==> r.0 is None,
        r.1 > 0 && ctx is Some ==> opt_text((r.0->0).auth) == opt_text((ctx->0).auth) && opt_text((r.0->0).referer)
            == opt_text((ctx->0).referer) && (r.0->0).headers@ == (ctx->0).headers@,
{
    assert(cookie_views(cookies@).len() == cookies@.len());
    if r.1 > 0 {
        let c = r.0->0;
        assert(c@.cookies == crate::request::opt_cookies(c.cookies));
        assert(c@.auth == opt_text(c.auth));
        assert(c@.headers == c.headers@);
    }
}

/// Every task of a run is set as the run is, and named by its URL.
pub proof fn law_tasks_of_a_run_are_alike(d: &TaskDefaults, id: u128, url: &str, dir: &str, r: DownloadTask, name: String)
    requires
        call_ensures(TaskDefaults::task, (d, id, url, dir), r),
        call_ensures(file_name_of_url, (url,), name),
    ensures
        r.id == id && r.url@ == url@ && r.dir@ == dir@ && r.filename@ == name@,
        r.total_size == 0 && r.downloaded_size == 0 && r.status == DownloadStatus::Queued,
        r.connections == d.connections && r.min_connections == d.min_connections && r.max_connections
            == d.max_connections,
        r.per_download_bandwidth_limit_bps == d.per_download_bandwidth_limit_bps && r.borrow_limit_mb
            == d.borrow_limit_mb,
        r.dry_run == d.dry_run && r.dry_run_size_mb == d.dry_run_size_mb,
        r.schedule_mode == d.schedule_mode && r.http_mode == d.http_mode,
        opt_text(r.log_root) == opt_text(d.log_root),
{
    let t = r@;
    assert(t.url == r.url@);
}

/// A run is over once every download has settled, each counted once; one
/// failure is remembered.
pub proof fn law_runs_end_when_all_have_settled(h: &mut HeadlessRun, id: u128, status: &DownloadStatus, done: bool)
    requires
        old(h).wf(),
        call_ensures(HeadlessRun::note_status, (h, id, status), done),
    ensures
        ({
            let settled = *status is Completed || *status is Stopped || *status is Paused || *status is Error;
            &&& settled ==> final(h).finished@.contains(id)
            &&& !settled ==> final(h).finished@ == old(h).finished@ && !done
            &&& old(h).finished@.contains(id) ==> final(h).finished@ == old(h).finished@
            &&& settled && !old(h).finished@.contains(id) ==> final(h).finished@.len() == old(h).finished@.len() + 1
            &&& settled ==> (done <==> final(h).finished@.len() == final(h).expected)
            &&& final(h).expected == old(h).expected
            &&& *status is Error ==> final(h).saw_error
            &&& old(h).saw_error ==> final(h).saw_error
            &&& final(h).saw_error && !old(h).saw_error ==> *status is Error
        }),
{
    let f = final(h).finished@;
    if !old(h).finished@.contains(id) && f == old(h).finished@.push(id) {
        assert(f[f.len() - 1] == id);
    }
}

/// The arrows move through the list and round its ends, or through the
/// details; tab changes between the two.
pub proof fn law_arrows_move(t: &mut TuiApp, key: Key, action: TuiAction)
    requires
        old(t).wf(),
        old(t).input_mode == InputMode::Normal,
        call_ensures(TuiApp::handle_key, (t, key), action),
    ensures
        ({
            let n = old(t).tasks@.len();
            let list = old(t).focus_pane == FocusPane::TaskList;
            &&& key == Key::Down && list && (old(t).selected matches Some(i) && i + 1 < n) ==> final(t).selected == Some(
                (old(t).selected->0 + 1) as usize,
            )
            &&& key == Key::Down && list && (old(t).selected matches Some(i) && i + 1 == n) ==> final(t).selected == Some(
                0usize,
            )
            &&& key == Key::Up && list && (old(t).selected matches Some(i) && i > 0) ==> final(t).selected == Some(
                (old(t).selected->0 - 1) as usize,
            )
            &&& key == Key::Up && list && (old(t).selected == Some(0usize)) && n > 0 ==> final(t).selected == Some(
                (n - 1) as usize,
            )
            &&& (key == Key::Up || key == Key::Down) && list && n > 0 && old(t).selected is None ==> final(t).selected
                == Some(0usize)
            &&& key == Key::Down && !list && old(t).detail_scroll < usize::MAX ==> final(t).detail_scroll == old(t).detail_scroll + 1
            &&& key == Key::Up && !list && old(t).detail_scroll > 0 ==> final(t).detail_scroll == old(t).detail_scroll - 1
            &&& key == Key::Up && !list && old(t).detail_scroll == 0 ==> final(t).detail_scroll == 0
            &&& !list || !(key == Key::Up || key == Key::Down) ==> final(t).selected == old(t).selected
            &&& key == Key::Tab ==> final(t).focus_pane != old(t).focus_pane
            &&& key != Key::Tab ==> final(t).focus_pane == old(t).focus_pane
            &&& key == Key::Char('d') || key == Key::Char('D') ==> final(t).show_details == !old(t).show_details
            &&& key == Key::Char('n') || key == Key::Char('N') ==> final(t).input_mode == InputMode::UrlInput && final(t).url_buffer@.len() == 0
            &&& final(t).tasks == old(t).tasks
        }),
{
    assert(final(t)@.selected == final(t).selected);
    assert(final(t)@.input_mode == final(t).input_mode);
    assert(final(t)@.url == final(t).url_buffer@);
}

/// A key calls for what it stands for, of the download that is selected.
pub proof fn law_keys_call_for_actions(t: &mut TuiApp, key: Key, action: TuiAction)
    requires
        old(t).wf(),
        old(t).input_mode == InputMode::Normal,
        call_ensures(TuiApp::handle_key, (t, key), action),
    ensures
        action is Quit <==> key == Key::Char('q'),
        old(t).selected matches Some(i) ==> {
            let id = old(t).tasks@[i as int].id;
            &&& action == TuiAction::Stop(id) <==> key == Key::Char('s') || key == Key::Char('S') || key == Key::Char('p')
                || key == Key::Char('P')
            &&& action == TuiAction::Resume(id) <==> key == Key::Char('r') || key == Key::Char('R')
            &&& action == TuiAction::Cancel(id) <==> key == Key::Char('c') || key == Key::Char('C')
        },
        old(t).selected is None && key != Key::Char('q') ==> action is Nothing,
        !(action is Add),
{
}

/// What is typed is what is asked for: a URL, then a directory, the current one
/// where none is typed; escape gives up.
pub proof fn law_typing_adds_a_download(t: &mut TuiApp, key: Key, action: TuiAction)
    requires
        old(t).wf(),
        old(t).input_mode != InputMode::Normal,
        call_ensures(TuiApp::handle_key, (t, key), action),
    ensures
        ({
            let url = old(t).input_mode == InputMode::UrlInput;
            &&& key == Key::Esc ==> final(t).input_mode == InputMode::Normal && action is Nothing
            &&& key == Key::Enter && url ==> final(t).input_mode == InputMode::DirInput && action is Nothing && final(t).dir_buffer@.len() == 0 && final(t).url_buffer@ == old(t).url_buffer@
            &&& key == Key::Enter && !url ==> final(t).input_mode == InputMode::Normal && (action matches TuiAction::Add {
                url: u,
                dir,
            } && u@ == old(t).url_buffer@ && (old(t).dir_buffer@.len() > 0 ==> dir@ == old(t).dir_buffer@) && (old(t).dir_buffer@.len() == 0 ==> dir@ == "."@))
            &&& key is Char && url ==> final(t).url_buffer@ == old(t).url_buffer@.push(key->Char_0) && final(t).dir_buffer@ == old(t).dir_buffer@
            &&& key is Char && !url ==> final(t).dir_buffer@ == old(t).dir_buffer@.push(key->Char_0) && final(t).url_buffer@ == old(t).url_buffer@
            &&& key == Key::Backspace && url && old(t).url_buffer@.len() > 0 ==> final(t).url_buffer@ == old(t).url_buffer@.take(old(t).url_buffer@.len() - 1)
            &&& key == Key::Backspace && !url && old(t).dir_buffer@.len() > 0 ==> final(t).dir_buffer@ == old(t).dir_buffer@.take(old(t).dir_buffer@.len() - 1)
            &&& key != Key::Enter ==> action is Nothing
            &&& final(t).selected == old(t).selected
            &&& final(t).tasks == old(t).tasks
        }),
{
    assert(final(t)@.url == final(t).url_buffer@);
    assert(final(t)@.dir == final(t).dir_buffer@);
    assert(final(t)@.selected == final(t).selected);
    assert(final(t)@.input_mode == final(t).input_mode);
    let u = old(t).url_buffer@;
    let d = old(t).dir_buffer@;
    if u.len() > 0 {
        assert(u.drop_last() =~= u.take(u.len() - 1));
    }
    if d.len() > 0 {
        assert(d.drop_last() =~= d.take(d.len() - 1));
    }
}

/// An event changes the first row of its download, and only what it tells of.
pub proof fn law_events_reach_their_row(t: &mut TuiApp, event: EngineEvent, id: u128, i: int)
    requires
        old(t).wf(),
        call_ensures(TuiApp::handle_engine_event, (t, event), ()),
        id == match event {
            EngineEvent::Progress { id, .. } => id,
            EngineEvent::StatusChanged { id, .. } => id,
            EngineEvent::TotalSize { id, .. } => id,
            EngineEvent::Workers { id, .. } => id,
            EngineEvent::Protocol { id, .. } => id,
        },
        0 <= i < old(t).tasks@.len(),
        old(t).tasks@[i].id == id,
        forall|k: int| 0 <= k < i ==> (#[trigger] old(t).tasks@[k]).id != id,
    ensures
        final(t).tasks@.len() == old(t).tasks@.len(),
        forall|k: int| 0 <= k < old(t).tasks@.len() && k != i ==> #[trigger] final(t).tasks@[k] == old(t).tasks@[k],
        ({
            let a = old(t).tasks@[i];
            let b = final(t).tasks@[i];
            &&& b.id == a.id
            &&& b.filename == a.filename
            &&& event matches EngineEvent::Progress { downloaded, speed_bits, .. } ==> b.downloaded_size == downloaded
                && b.speed_bits == speed_bits && b.total_size == a.total_size
            &&& event matches EngineEvent::StatusChanged { status, .. } ==> b.status == status && b.downloaded_size
                == a.downloaded_size
            &&& !(event is StatusChanged) ==> b.status == a.status
            &&& event matches EngineEvent::TotalSize { size, .. } ==> b.total_size == size && b.downloaded_size
                == a.downloaded_size
            &&& event matches EngineEvent::Workers { workers, .. } ==> b.workers == Some(workers)
            &&& event matches EngineEvent::Protocol { info, .. } ==> b.protocol == Some(info)
        }),
{
    assert(crate::tui::is_row(old(t).tasks@, event.task_id(), i));
}

/// The first download that is added is selected; others come behind.
pub proof fn law_the_first_download_is_selected(t: &mut TuiApp, row: TaskRow, fresh: TuiApp)
    requires
        old(t).wf(),
        call_ensures(TuiApp::add_task, (t, row), ()),
        call_ensures(TuiApp::new, (), fresh),
    ensures
        final(t).tasks@.len() == old(t).tasks@.len() + 1,
        final(t).tasks@[old(t).tasks@.len() as int] == row,
        old(t).tasks@.len() == 0 ==> final(t).selected == Some(0usize),
        old(t).tasks@.len() > 0 ==> final(t).selected == old(t).selected,
        final(t).input_mode == old(t).input_mode,
        fresh.tasks@.len() == 0,
        fresh.selected is None,
        fresh.input_mode == InputMode::Normal,
        fresh.focus_pane == FocusPane::TaskList,
        !fresh.show_details,
        fresh.detail_scroll == 0,
        fresh.url_buffer@.len() == 0,
        fresh.dir_buffer@.len() == 0,
{
    assert(final(t)@.selected == final(t).selected);
    assert(final(t)@.input_mode == final(t).input_mode);
    assert(fresh@.selected == fresh.selected);
    assert(fresh@.input_mode == fresh.input_mode);
}

proof fn lemma_spaces(n: int)
    ensures
        spaces(n).len() == if n > 0 { n } else { 0 },
        forall|k: int| 0 <= k < spaces(n).len() ==> #[trigger] spaces(n)[k] == ' ',
    decreases n,
{
    if n > 0 {
        lemma_spaces(n - 1);
    }
}

/// Text is filled up with spaces to a width, and never cut; a row tells its
/// name, its status, whether it is real, and how it is carried.
pub proof fn law_rows_are_filled_up(
    s: &str,
    width: usize,
    r: String,
    k: int,
    name: &str,
    status: &str,
    dry: bool,
    protocol: &str,
    workers: usize,
    speed: &str,
    row: String,
    name_column: String,
    status_column: String,
)
    requires
        call_ensures(pad_right, (s, width), r),
        s@.len() <= k < r@.len(),
        call_ensures(row_line, (name, status, dry, protocol, workers, speed), row),
        call_ensures(pad_right, (name, 20usize), name_column),
        call_ensures(pad_right, (status, 12usize), status_column),
    ensures
        s@.len() <= width ==> r@.len() == width,
        r@.len() >= s@.len(),
        r@.take(s@.len() as int) == s@,
        r@[k] == ' ',
        row@.take(name_column@.len() as int) == name_column@,
        row@.skip(name_column@.len() as int + 3).take(status_column@.len() as int) == status_column@,
{
    lemma_spaces(width - s@.len());
    assert(r@.take(s@.len() as int) =~= s@);
    reveal_strlit(" | ");
    assert(" | "@.len() == 3);
    assert(row@.take(name_column@.len() as int) =~= name_column@);
    assert(row@.skip(name_column@.len() as int + 3).take(status_column@.len() as int) =~= status_column@);
}

/// A worker's state is told in a word.
pub proof fn law_states_have_words(state: WorkerState, r: &str)
    requires
        call_ensures(worker_state_word, (state,), r),
    ensures
        state == WorkerState::Connecting ==> r@ == "connecting"@,
        state == WorkerState::WaitingForWork ==> r@ == "waiting"@,
        state == WorkerState::Downloading ==> r@ == "downloading"@,
        state == WorkerState::Retrying ==> r@ == "retrying"@,
        state == WorkerState::Paused ==> r@ == "paused"@,
        state == WorkerState::Stopped ==> r@ == "stopped"@,
        state == WorkerState::Finished ==> r@ == "finished"@,
{
}

} // verus!
