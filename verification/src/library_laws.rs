//! What holds of jars of cookies, of requests and listeners, and of the words
//! of the interface.

use vstd::prelude::*;
use crate::cli::{add_file_cookies, import_cookie_file, InvalidBounds};
use crate::engine::types::ProtocolInfo;
use crate::cookies::{cookie_line, cookie_views, file_head, lines_imported, CookieEntry, CookieJar, CookieView};
use crate::numerals::decimal;
use crate::quic::{server_name, server_name_from};
use crate::request::{opt_context, DownloadRequest, RequestContext, SessionContext};
use crate::service::{add_download, all_inserted, build_task, merge_cookies, DownloadTask, Listeners};
use crate::text::{
    byte_width, chars_of, find_from, join, lemma_split_append, lemma_split_single, lines_text, split, stands_at,
    string_between, text_bytes, trim,
};
use crate::tui::{
    is_order, line_text, list_name, padded, protocol_label, render_worker_details, state_word, FocusPane, InputMode,
    TuiApp, WorkerLine,
};
use crate::web_url::{
    extract_origin, extract_origin_from, opt_text, opt_url, origin_key, origin_key_from, url_parts, UrlParts,
};

verus! {

/// A plain cookie holds for all of its host, over any connection, and until
/// the end of the session. One cookie replaces another of the same name, host
/// and path.
pub proof fn law_cookies_are_made(
    name: &str,
    value: &str,
    domain: &str,
    c: CookieEntry,
    a: &CookieEntry,
    b: &CookieEntry,
    r: bool,
)
    requires
        call_ensures(CookieEntry::new, (name, value, domain), c),
        call_ensures(CookieEntry::replaces, (a, b), r),
    ensures
        c.name@ == name@ && c.value@ == value@ && c.domain@ == domain@,
        c.path@ == seq!['/'] && !c.secure && c.expires is None,
        r <==> a.name@ == b.name@ && a.domain@ == b.domain@ && a.path@ == b.path@,
{
    assert(c@.name == c.name@ && c@.value == c.value@ && c@.domain == c.domain@ && c@.path == c.path@);
    assert(c@.expires == opt_text(c.expires));
    assert(c@.secure == c.secure);
    assert(a@.name == a.name@ && a@.domain == a.domain@ && a@.path == a.path@);
    assert(b@.name == b.name@ && b@.domain == b.domain@ && b@.path == b.path@);
}

proof fn lemma_imported(jar: Seq<CookieView>, p: Seq<Seq<char>>, q: Seq<Seq<char>>, n: int, domain: Seq<char>)
    requires
        0 <= n <= p.len() <= q.len(),
        forall|i: int| 0 <= i < p.len() ==> p[i] == q[i],
    ensures
        lines_imported(jar, p, n, domain) == lines_imported(jar, q, n, domain),
    decreases n,
{
    if n > 0 {
        lemma_imported(jar, p, q, n - 1, domain);
    }
}

/// A jar takes in the cookies of lines, one after the other.
pub proof fn law_jars_take_in_lines(
    a: &mut CookieJar,
    b: &mut CookieJar,
    d: &mut CookieJar,
    contents: &str,
    more: &str,
    line: Seq<char>,
    text: &str,
    domain: &str,
    c: Option<CookieEntry>,
)
    requires
        *old(a) == *old(b),
        *old(d) == *final(a),
        more@ == contents@ + seq!['\n'] + line,
        forall|k: int| 0 <= k < line.len() ==> #[trigger] line[k] != '\n',
        text@ == trim(line),
        call_ensures(CookieJar::import_lines, (a, contents, domain), ()),
        call_ensures(CookieJar::import_lines, (b, more, domain), ()),
        call_ensures(CookieEntry::from_line, (text, domain), c),
        c matches Some(x) ==> call_ensures(CookieJar::insert, (d, x), ()),
    ensures
        c is None ==> final(b)@ == final(a)@,
        c is Some ==> final(b)@ == final(d)@,
{
    let p = split(contents@, '\n');
    let q = split(more@, '\n');
    lemma_split_append(contents@, '\n', line);
    lemma_split_single(line, '\n');
    assert(q =~= p.push(line));
    lemma_imported(old(a)@, p, q, p.len() as int, domain@);
    assert(q[q.len() - 1] == line);
}

/// One line takes in the cookie that it holds.
pub proof fn law_one_line_is_one_cookie(
    a: &mut CookieJar,
    d: &mut CookieJar,
    line: &str,
    text: &str,
    domain: &str,
    c: Option<CookieEntry>,
)
    requires
        *old(a) == *old(d),
        forall|k: int| 0 <= k < line@.len() ==> #[trigger] line@[k] != '\n',
        text@ == trim(line@),
        call_ensures(CookieJar::import_lines, (a, line, domain), ()),
        call_ensures(CookieEntry::from_line, (text, domain), c),
        c matches Some(x) ==> call_ensures(CookieJar::insert, (d, x), ()),
    ensures
        c is None ==> final(a)@ == old(a)@,
        c is Some ==> final(a)@ == final(d)@,
{
    lemma_split_single(line@, '\n');
    let q = split(line@, '\n');
    assert(q =~= seq![line@]);
    assert(lines_imported(old(a)@, q, 0, domain@) == old(a)@);
    assert(q[0] == line@);
}

proof fn lemma_lines(a: Seq<Seq<char>>, last: Seq<char>)
    ensures
        lines_text(a.push(last)) == lines_text(a) + (last + seq!['\n']),
{
    assert(a.push(last).drop_last() =~= a);
    assert(a.push(last).last() == last);
    assert(lines_text(a.push(last)) =~= lines_text(a) + (last + seq!['\n']));
}

/// A jar is written out under its heading, a line for each cookie.
pub proof fn law_jars_are_written_out(a: &CookieJar, b: &CookieJar, c: &CookieEntry, x: String, y: String, line: String)
    requires
        b@ == a@.push(c@),
        call_ensures(CookieJar::export_netscape, (a,), x),
        call_ensures(CookieJar::export_netscape, (b,), y),
        call_ensures(CookieEntry::to_cookie_line, (c,), line),
    ensures
        y@ == x@ + (line@ + seq!['\n']),
        a@.len() == 0 ==> x@ == "# Netscape HTTP Cookie File"@ + seq!['\n'] + ("# https://curl.se/rfc/cookie_spec.html"@
            + seq!['\n']) + ("# This file was generated by tur-rs"@ + seq!['\n']),
{
    let f = |c: CookieView| cookie_line(c);
    let head = file_head();
    assert(b@.map_values(f) =~= a@.map_values(f).push(cookie_line(c@)));
    assert(head + b@.map_values(f) =~= (head + a@.map_values(f)).push(cookie_line(c@)));
    lemma_lines(head + a@.map_values(f), cookie_line(c@));
    if a@.len() == 0 {
        assert(head + a@.map_values(f) =~= head);
        let l0 = "# Netscape HTTP Cookie File"@;
        let l1 = "# https://curl.se/rfc/cookie_spec.html"@;
        let l2 = "# This file was generated by tur-rs"@;
        let none = Seq::<Seq<char>>::empty();
        assert(head =~= none.push(l0).push(l1).push(l2));
        lemma_lines(none, l0);
        lemma_lines(none.push(l0), l1);
        lemma_lines(none.push(l0).push(l1), l2);
        assert(lines_text(none) =~= Seq::<char>::empty());
        assert(lines_text(none.push(l0)) =~= l0 + seq!['\n']);
    }
}

proof fn lemma_inserted(jar: Seq<CookieView>, p: Seq<CookieView>, q: Seq<CookieView>, n: int)
    requires
        0 <= n <= p.len() <= q.len(),
        forall|i: int| 0 <= i < p.len() ==> p[i] == q[i],
    ensures
        all_inserted(jar, p, n) == all_inserted(jar, q, n),
    decreases n,
{
    if n > 0 {
        lemma_inserted(jar, p, q, n - 1);
    }
}

/// The cookies of a request are put into the jar, one after the other.
pub proof fn law_jars_keep_the_cookies_of_requests(
    a: &mut CookieJar,
    b: &mut CookieJar,
    d: &mut CookieJar,
    p: DownloadRequest,
    q: DownloadRequest,
    id: u128,
    n: usize,
    parts: &Option<UrlParts>,
    s: DownloadTask,
    t: DownloadTask,
    last: CookieEntry,
    own: Vec<CookieEntry>,
    more: Vec<CookieEntry>,
)
    requires
        *old(a) == *old(b),
        *old(d) == *final(a),
        p.request_context matches Some(c) && c.cookies == Some(own),
        q.request_context matches Some(c) && c.cookies == Some(more),
        more@ == own@.push(last),
        call_ensures(build_task, (p, id, n, a, parts), s),
        call_ensures(build_task, (q, id, n, b, parts), t),
        call_ensures(CookieJar::insert, (d, last), ()),
    ensures
        final(b)@ == final(d)@,
        own@.len() == 0 ==> final(a)@ == old(a)@,
{
    let x = cookie_views(own@);
    let y = cookie_views(more@);
    assert(y =~= x.push(last@));
    lemma_inserted(old(a)@, x, y, x.len() as int);
    assert(y[y.len() - 1] == last@);
    assert(p@.context->0.cookies == Some(x));
    assert(q@.context->0.cookies == Some(y));
}

/// A task goes with the cookies of its request, and with those of the jar for
/// its URL that the request does not have itself. It is the same task whether
/// the parts of the URL are given or found.
pub proof fn law_tasks_go_with_their_cookies(
    jar: &mut CookieJar,
    again: &mut CookieJar,
    q: DownloadRequest,
    id: u128,
    n: usize,
    parts: &Option<UrlParts>,
    t: DownloadTask,
    u: &UrlParts,
    extra: Vec<CookieEntry>,
    own: Vec<CookieEntry>,
    all: Vec<CookieEntry>,
    s: DownloadTask,
)
    requires
        *old(jar) == *old(again),
        *parts == Some(*u),
        q.request_context matches Some(c) && c.cookies == Some(own),
        call_ensures(build_task, (q, id, n, jar, parts), t),
        call_ensures(CookieJar::match_url, (&*final(jar), u), extra),
        call_ensures(merge_cookies, (own, extra), all),
        call_ensures(add_download, (q, id, n, again), s),
    ensures
        t.request_context matches Some(c) && c.cookies matches Some(v) && cookie_views(v@) == cookie_views(all@),
        opt_url(*parts) == url_parts(q.url@) ==> s@ == t@ && final(again)@ == final(jar)@,
{
    let x = cookie_views(own@);
    assert(q@.context->0.cookies == Some(x));
    assert(q@.url == q.url@);
    assert(cookie_views(extra@).len() == extra@.len());
    assert(t@.context == match t.request_context {
        Some(c) => Some(c@),
        None => None,
    });
}

/// Who listens is heard of until dropped; no other listener is touched.
pub proof fn law_listeners_come_and_go(
    a: &mut Listeners,
    b: &mut Listeners,
    new: Listeners,
    id: u128,
    other: u128,
    nobody: bool,
    listens: bool,
    before: bool,
    after: bool,
    gone: bool,
    still: bool,
)
    requires
        call_ensures(Listeners::new, (), new),
        call_ensures(Listeners::contains, (&new, other), nobody),
        call_ensures(Listeners::add, (a, id), ()),
        call_ensures(Listeners::contains, (&*final(a), id), listens),
        call_ensures(Listeners::contains, (&*old(a), other), before),
        call_ensures(Listeners::contains, (&*final(a), other), after),
        *old(b) == *final(a),
        call_ensures(Listeners::drop_listener, (b, id), ()),
        call_ensures(Listeners::contains, (&*final(b), id), gone),
        call_ensures(Listeners::contains, (&*final(b), other), still),
        other != id,
    ensures
        !nobody,
        listens,
        after == before,
        !gone,
        still == before,
{
}

/// A request begins with its URL and nothing else; a header or a context that
/// is set is set, and leaves the rest as it was.
pub proof fn law_requests_begin_bare(
    url: &str,
    r: DownloadRequest,
    q: DownloadRequest,
    name: &str,
    value: &str,
    h: DownloadRequest,
    ctx: RequestContext,
    c: DownloadRequest,
    bare: RequestContext,
    given: RequestContext,
    set: RequestContext,
)
    requires
        call_ensures(DownloadRequest::new, (url,), r),
        call_ensures(DownloadRequest::header, (q, name, value), h),
        call_ensures(DownloadRequest::context, (q, ctx), c),
        call_ensures(RequestContext::new, (), bare),
        given == (match q.request_context {
            Some(x) => x,
            None => bare,
        }),
        call_ensures(RequestContext::header, (given, name, value), set),
    ensures
        r.url@ == url@ && r.dir@ == "."@ && r.filename is None,
        r.connections is None && r.min_connections is None && r.max_connections is None,
        r.borrow_limit_mb is None && r.per_download_bandwidth_limit_bps is None && r.http_mode is None,
        r.schedule_mode is None && !r.dry_run && r.dry_run_size_mb is None && r.request_context is None,
        bare.headers@.len() == 0 && bare.auth is None && bare.referer is None && bare.user_agent is None
            && bare.cookies is None,
        h.url@ == q.url@ && h.connections == q.connections,
        h.request_context matches Some(x) && x@ == set@,
        set@.auth == given@.auth && set@.referer == given@.referer && set@.user_agent == given@.user_agent
            && set@.cookies == given@.cookies,
        c.request_context matches Some(x) && x@ == ctx@,
        c.url@ == q.url@ && c.dir@ == q.dir@,
{
    assert(r@.url == r.url@ && r@.dir == r.dir@ && r@.filename == opt_text(r.filename));
    assert(r@.connections == r.connections && r@.dry_run == r.dry_run);
    assert(r@.context == match r.request_context {
        Some(x) => Some(x@),
        None => None,
    });
    assert(bare@.headers == bare.headers@);
    assert(bare@.auth == opt_text(bare.auth));
    assert(bare@.cookies == match bare.cookies {
        Some(v) => Some(cookie_views(v@)),
        None => None,
    });
    assert(h@.context == match h.request_context {
        Some(x) => Some(x@),
        None => None,
    });
    assert(q@.context == match q.request_context {
        Some(x) => Some(x@),
        None => None,
    });
    assert(c@.context == match c.request_context {
        Some(x) => Some(x@),
        None => None,
    });
    assert(h@.url == h.url@ && q@.url == q.url@ && c@.url == c.url@);
    assert(c@.dir == c.dir@ && q@.dir == q.dir@);
}

/// What is set of a session is set, and nothing else.
pub proof fn law_sessions_hold_what_is_set(
    q: SessionContext,
    new: SessionContext,
    text: &str,
    name: &str,
    cookie: CookieEntry,
    a: SessionContext,
    b: SessionContext,
    c: SessionContext,
    d: SessionContext,
    e: SessionContext,
    ctx: RequestContext,
    cookies: Vec<CookieEntry>,
    f: RequestContext,
)
    requires
        call_ensures(SessionContext::new, (), new),
        call_ensures(SessionContext::auth, (q, text), a),
        call_ensures(SessionContext::referer, (q, text), b),
        call_ensures(SessionContext::user_agent, (q, text), c),
        call_ensures(SessionContext::cookie, (q, cookie), d),
        call_ensures(SessionContext::header, (q, name, text), e),
        call_ensures(RequestContext::cookies, (ctx, cookies), f),
    ensures
        new.cookies@.len() == 0 && new.headers@.len() == 0 && new.auth is None && new.referer is None
            && new.user_agent is None,
        opt_text(a.auth) == Some(text@) && opt_text(a.referer) == opt_text(q.referer) && opt_text(a.user_agent)
            == opt_text(q.user_agent) && a.headers@ == q.headers@ && cookie_views(a.cookies@) == cookie_views(q.cookies@),
        opt_text(b.referer) == Some(text@) && opt_text(b.auth) == opt_text(q.auth) && opt_text(b.user_agent)
            == opt_text(q.user_agent) && b.headers@ == q.headers@ && cookie_views(b.cookies@) == cookie_views(q.cookies@),
        opt_text(c.user_agent) == Some(text@) && opt_text(c.auth) == opt_text(q.auth) && opt_text(c.referer)
            == opt_text(q.referer) && c.headers@ == q.headers@ && cookie_views(c.cookies@) == cookie_views(q.cookies@),
        cookie_views(d.cookies@) == cookie_views(q.cookies@).push(cookie@) && opt_text(d.auth) == opt_text(q.auth)
            && d.headers@ == q.headers@,
        opt_text(e.auth) == opt_text(q.auth) && opt_text(e.referer) == opt_text(q.referer) && cookie_views(e.cookies@)
            == cookie_views(q.cookies@) && e.headers@.len() >= q.headers@.len(),
        exists|i: int| 0 <= i < e.headers@.len() && #[trigger] e.headers@[i] == (name@, text@),
        f.cookies matches Some(v) && cookie_views(v@) == cookie_views(cookies@),
        f.headers@ == ctx.headers@ && opt_text(f.auth) == opt_text(ctx.auth),
{
    assert(cookie_views(new.cookies@).len() == new.cookies@.len());
    assert(new@.headers == new.headers@ && new@.auth == opt_text(new.auth));
    assert(q@.headers == q.headers@ && q@.auth == opt_text(q.auth) && q@.cookies == cookie_views(q.cookies@));
    assert(a@.headers == a.headers@ && a@.auth == opt_text(a.auth) && a@.cookies == cookie_views(a.cookies@));
    assert(b@.headers == b.headers@ && b@.auth == opt_text(b.auth) && b@.cookies == cookie_views(b.cookies@));
    assert(c@.headers == c.headers@ && c@.auth == opt_text(c.auth) && c@.cookies == cookie_views(c.cookies@));
    assert(d@.headers == d.headers@ && d@.auth == opt_text(d.auth) && d@.cookies == cookie_views(d.cookies@));
    assert(e@.headers == e.headers@ && e@.auth == opt_text(e.auth) && e@.cookies == cookie_views(e.cookies@));
    crate::text_map::law_last_value_wins(q.headers@, name@, text@);
    let i = choose|i: int| crate::text_map::is_named(e.headers@, name@, i) && e.headers@[i].1 == text@;
    assert(e.headers@[i] == (name@, text@));
    assert(f@.cookies == match f.cookies {
        Some(v) => Some(cookie_views(v@)),
        None => None,
    });
    assert(f@.headers == f.headers@ && ctx@.headers == ctx.headers@);
    assert(f@.auth == opt_text(f.auth) && ctx@.auth == opt_text(ctx.auth));
}

/// A text is its characters; a part of it is those between two places; a
/// pattern stands where its characters stand, and is found where it first does.
pub proof fn law_patterns_are_found(
    s: &Vec<char>,
    p: &Vec<char>,
    from: usize,
    at: bool,
    found: Option<usize>,
    to: usize,
    part: String,
    k: int,
    i: int,
)
    requires
        call_ensures(stands_at, (s, p, from), at),
        call_ensures(find_from, (s, p, from), found),
        from <= to <= s@.len() ==> call_ensures(string_between, (s, from, to), part),
        0 <= i < p@.len(),
        from <= k,
    ensures
        at ==> from + p@.len() <= s@.len() && s@[from + i] == p@[i],
        !at && from + p@.len() <= s@.len() ==> exists|j: int| 0 <= j < p@.len() && s@[from + j] != #[trigger] p@[j],
        found matches Some(f) ==> from <= f && f + p@.len() <= s@.len() && s@[f + i] == p@[i],
        (k + p@.len() <= s@.len() && s@.subrange(k, k + p@.len()) == p@) ==> (found matches Some(f) && f <= k),
        from <= to <= s@.len() ==> part@.len() == to - from && part@ == s@.subrange(from as int, to as int),
{
    let n = p@.len() as int;
    if from + n <= s@.len() {
        let sub = s@.subrange(from as int, from + n);
        if at {
            assert(sub[i] == p@[i]);
        } else if forall|j: int| 0 <= j < n ==> s@[from + j] == #[trigger] p@[j] {
            assert(sub =~= p@);
        }
    }
    if let Some(f) = found {
        assert(s@.subrange(f as int, f + n)[i] == p@[i]);
    }
    if k + n <= s@.len() && s@.subrange(k, k + n) == p@ {
        assert(crate::text::occurs_at(s@, p@, k));
    }
}

/// A character takes one byte below 128, two below 2048, three below 65536,
/// and else four.
pub proof fn law_characters_take_bytes(c: char, r: usize, s: &str, v: Vec<char>)
    requires
        call_ensures(byte_width, (c,), r),
        call_ensures(chars_of, (s,), v),
    ensures
        c as u32 <= 0x7f ==> r == 1,
        0x7f < c as u32 <= 0x7ff ==> r == 2,
        0x7ff < c as u32 <= 0xffff ==> r == 3,
        0xffff < c as u32 ==> r == 4,
        v@ == s@,
{
}

/// What is found of a URL is what is found of its parts.
pub proof fn law_urls_are_taken_apart(
    url: &str,
    parts: &Option<UrlParts>,
    parsed: Option<UrlParts>,
    a: String,
    b: String,
    c: String,
    d: String,
    origin: &str,
    e: String,
    f: String,
)
    requires
        call_ensures(UrlParts::parse, (url,), parsed),
        opt_url(*parts) == opt_url(parsed),
        call_ensures(origin_key, (url,), a),
        call_ensures(origin_key_from, (url, parts), b),
        call_ensures(extract_origin, (url,), c),
        call_ensures(extract_origin_from, (parts,), d),
        call_ensures(server_name, (url, origin), e),
        call_ensures(server_name_from, (parts, origin), f),
    ensures
        a@ == b@,
        c@ == d@,
        e@ == f@,
{
}

/// The cookies of a file are for the host of the first URL that was given.
pub proof fn law_file_cookies_are_for_the_first_url(
    ctx: Option<RequestContext>,
    contents: &str,
    urls: &Vec<String>,
    first: &Option<UrlParts>,
    r: (Option<RequestContext>, usize),
    s: (Option<RequestContext>, usize),
)
    requires
        call_ensures(import_cookie_file, (ctx, contents, urls), r),
        call_ensures(add_file_cookies, (ctx, contents, first), s),
        urls@.len() == 0 ==> first is None,
        urls@.len() > 0 ==> opt_url(*first) == url_parts(urls@[0]@),
    ensures
        opt_context(r.0) == opt_context(s.0),
        r.1 == s.1,
{
}

/// A long name is cut at seventeen bytes and ends in dots; any other is shown
/// as it is.
pub proof fn law_long_names_are_cut(name: &str, r: String, cut: int)
    requires
        0 <= cut <= name@.len(),
        text_bytes(name@.take(cut)) == 17,
        call_ensures(list_name, (name,), r),
    ensures
        text_bytes(name@) > 20 ==> r@ == name@.take(cut) + "..."@,
        text_bytes(name@) <= 20 ==> r@ == name@,
{
}

/// The words of the interface.
pub proof fn law_panes_have_words(
    t: &TuiApp,
    help: String,
    title: &'static str,
    workers: &Option<Vec<WorkerLine>>,
    details: String,
    protocol: &Option<ProtocolInfo>,
    label: String,
    shown: String,
    bounds: &InvalidBounds,
    message: String,
)
    requires
        call_ensures(TuiApp::help_text, (t,), help),
        call_ensures(TuiApp::detail_title, (t,), title),
        call_ensures(TuiApp::detail_text, (t, workers), details),
        call_ensures(protocol_label, (protocol,), label),
        protocol matches Some(p) ==> call_ensures(ProtocolInfo::display_label, (&p,), shown),
        call_ensures(InvalidBounds::message, (bounds,), message),
    ensures
        t.input_mode == InputMode::UrlInput ==> help@ == "Enter URL: "@ + t.url_buffer@ + "_"@,
        t.input_mode == InputMode::DirInput ==> help@ == "Enter Dir (empty for current): "@ + t.dir_buffer@ + "_"@,
        t.input_mode == InputMode::Normal ==> help@
            == "[q]uit [n]ew [d]etails [tab] focus [p]ause [r]esume [c]ancel/stop ↑↓ move/scroll"@,
        t.focus_pane == FocusPane::Details ==> title@ == "Connections [focused]"@,
        t.focus_pane == FocusPane::TaskList ==> title@ == "Connections"@,
        !t.show_details ==> details@ == "Worker details hidden. Press [d] to expand."@,
        t.show_details && t.selected is None ==> details@ == "No task selected"@,
        t.show_details && t.selected is Some && workers is None ==> details@ == "No worker diagnostics yet."@,
        (t.show_details && t.selected is Some) ==> (workers matches Some(w) ==> w@.len() == 0 ==> details@
            == "No active worker snapshots."@),
        protocol is None ==> label@ == "auto"@,
        protocol is Some ==> label@ == shown@,
        message@ == "invalid connection settings: min_connections "@ + decimal(bounds.min as nat)
            + " exceeds max_connections "@ + decimal(bounds.max as nat),
{
}

proof fn lemma_rising(lines: Seq<WorkerLine>, order: Seq<int>, i: int, j: int)
    requires
        is_order(lines, order),
        forall|i: int, j: int|
            0 <= i < j < lines.len() ==> (#[trigger] lines[i]).connection_id < (#[trigger] lines[j]).connection_id,
        0 <= i < j < order.len(),
    ensures
        order[i] < order[j],
{
    let a = order[i];
    let b = order[j];
    if b < a {
        assert(lines[b].connection_id < lines[a].connection_id);
    }
}

proof fn lemma_at_least(lines: Seq<WorkerLine>, order: Seq<int>, i: int)
    requires
        is_order(lines, order),
        forall|i: int, j: int|
            0 <= i < j < lines.len() ==> (#[trigger] lines[i]).connection_id < (#[trigger] lines[j]).connection_id,
        0 <= i < order.len(),
    ensures
        i <= order[i],
    decreases i,
{
    if i > 0 {
        lemma_at_least(lines, order, i - 1);
        lemma_rising(lines, order, i - 1, i);
    } else {
        assert(0 <= order[0]);
    }
}

proof fn lemma_at_most(lines: Seq<WorkerLine>, order: Seq<int>, i: int)
    requires
        is_order(lines, order),
        forall|i: int, j: int|
            0 <= i < j < lines.len() ==> (#[trigger] lines[i]).connection_id < (#[trigger] lines[j]).connection_id,
        0 <= i < order.len(),
    ensures
        order[i] <= i,
    decreases order.len() - i,
{
    if i < order.len() - 1 {
        lemma_at_most(lines, order, i + 1);
        lemma_rising(lines, order, i, i + 1);
    } else {
        assert(order[i] < lines.len());
    }
}

/// Workers are listed by their number, a line for each under the heading.
pub proof fn law_workers_are_listed(workers: &Option<Vec<WorkerLine>>, lines: Vec<WorkerLine>, r: String)
    requires
        *workers == Some(lines),
        lines@.len() > 0,
        forall|i: int, j: int|
            0 <= i < j < lines@.len() ==> (#[trigger] lines@[i]).connection_id < (#[trigger] lines@[j]).connection_id,
        call_ensures(render_worker_details, (workers,), r),
    ensures
        r@ == join(
            seq!["id  state            speed       bytes      range"@] + lines@.map_values(|w: WorkerLine| line_text(w)),
            "\n"@,
        ),
{
    let order = choose|order: Seq<int>| #[trigger]
        is_order(lines@, order) && r@ == crate::tui::details_text(lines@, order);
    assert forall|i: int| 0 <= i < order.len() implies #[trigger] order[i] == i by {
        lemma_at_least(lines@, order, i);
        lemma_at_most(lines@, order, i);
    }
    assert(order.map_values(|i: int| line_text(lines@[i])) =~= lines@.map_values(|w: WorkerLine| line_text(w)));
}

/// Two workers are listed by their number, whichever comes first.
pub proof fn law_two_workers_change_places(
    workers: &Option<Vec<WorkerLine>>,
    swapped: &Option<Vec<WorkerLine>>,
    a: Vec<WorkerLine>,
    b: Vec<WorkerLine>,
    x: String,
    y: String,
)
    requires
        *workers == Some(a),
        *swapped == Some(b),
        a@.len() == 2,
        a@[0].connection_id < a@[1].connection_id,
        b@ == seq![a@[1], a@[0]],
        call_ensures(render_worker_details, (workers,), x),
        call_ensures(render_worker_details, (swapped,), y),
    ensures
        x@ == y@,
{
    law_workers_are_listed(workers, a, x);
    let order = choose|order: Seq<int>| #[trigger]
        is_order(b@, order) && y@ == crate::tui::details_text(b@, order);
    assert(order[0] == 1 && order[1] == 0);
    assert(order.map_values(|i: int| line_text(b@[i])) =~= a@.map_values(|w: WorkerLine| line_text(w)));
}

/// The line of a worker: its number, its state, its speed, its bytes and its
/// range in megabytes, and what else is told of it.
pub proof fn law_worker_lines_are_written(w: WorkerLine)
    ensures
        ({
            let base = padded(decimal(w.connection_id as nat), 3) + " "@ + padded(state_word(w.state), 15) + " "@
                + padded(w.speed@, 10) + " "@ + padded(w.bytes@, 10) + " "@ + (match w.range {
                Some((a, b, c)) => decimal((a / 1048576) as nat) + ".."@ + decimal((b / 1048576) as nat) + " / "@
                    + decimal((c / 1048576) as nat),
                None => "-"@,
            });
            &&& (w.detail matches Some(d) && d@.len() > 0) ==> line_text(w) == base + " ("@ + w.detail->0@ + ")"@
            &&& !(w.detail matches Some(d) && d@.len() > 0) ==> line_text(w) == base
        }),
{
}

} // verus!
