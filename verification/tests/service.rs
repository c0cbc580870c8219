use tur_rs::cookies::{split_once, CookieEntry, CookieJar};
use tur_rs::engine::types::{
    DownloadStatus, HttpMode, ProtocolFamily, ProtocolInfo, ScheduleMode,
};
use tur_rs::headers::{build_request_headers, parse_alt_svc_value};
use tur_rs::lru::LruTable;
use tur_rs::quic::split_origin;
use tur_rs::request::{DownloadRequest, RequestContext, ServiceConfig, SessionContext};
use tur_rs::service::{add_download, file_name_of_url, DownloadUpdate, EngineEvent, Listeners};
use tur_rs::storage::{
    is_direct_write, linux_backends, plan_direct_write, splice_step, windows_backend, SpliceOutcome, SpliceStep,
    StorageBackendKind, StorageConfig, WritePlan,
};
use tur_rs::web_url::UrlParts;

#[test]
fn cookies_are_read_from_headers() {
    let url = UrlParts::parse("https://example.com/a/b").unwrap();
    let c = CookieEntry::from_set_cookie("sid=42; Path=/a; Domain=.example.com; Secure; Expires=soon", &url).unwrap();
    assert_eq!((c.name.as_str(), c.value.as_str()), ("sid", "42"));
    assert_eq!(c.path, "/a");
    assert!(c.secure);
    assert_eq!(c.expires, Some("soon".to_string()));
    assert_eq!(c.to_request_value(), "sid=42");
    assert!(CookieEntry::from_set_cookie("nothing", &url).is_none());
}

#[test]
fn cookies_go_only_where_they_belong() {
    let mut c = CookieEntry::new("a", "1", "example.com");
    let site = |u: &str| UrlParts::parse(u).unwrap();
    assert!(c.goes_to_url(&site("https://example.com/")));
    assert!(c.goes_to_url(&site("https://www.example.com/")));
    assert!(!c.goes_to_url(&site("https://badexample.com/")));
    c.secure = true;
    assert!(!c.goes_to_url(&site("http://example.com/")));
    c.path = "/x".to_string();
    assert!(!c.goes_to_url(&site("https://example.com/y")));
    assert!(c.goes_to_url(&site("https://example.com/x/1")));
}

#[test]
fn a_newer_cookie_replaces_an_older_one() {
    let mut jar = CookieJar::new();
    jar.insert(CookieEntry::new("a", "1", "example.com"));
    jar.insert(CookieEntry::new("a", "2", "example.com"));
    jar.insert(CookieEntry::new("a", "3", "other.com"));
    assert_eq!(jar.len(), 2);
    assert!(!jar.is_empty());
    let url = UrlParts::parse("https://example.com/").unwrap();
    assert_eq!(jar.header_value_for_url(&url), Some("a=2".to_string()));
}

#[test]
fn a_cookie_file_reads_back() {
    let mut jar = CookieJar::new();
    jar.insert(CookieEntry::new("a", "1", "example.com"));
    let mut secure = CookieEntry::new("b", "x y", "example.com");
    secure.secure = true;
    secure.path = "/p".to_string();
    jar.insert(secure);
    let text = jar.export_netscape();
    let mut again = CookieJar::new();
    again.import_lines(&text, "default.example");
    assert_eq!(again.export_netscape(), text);
    assert_eq!(again.len(), 2);
    assert_eq!(again.cookies[1].value, "x y");
    assert!(again.cookies[1].secure);
}

#[test]
fn plain_lines_belong_to_the_default_domain() {
    let mut jar = CookieJar::new();
    jar.import_lines("# a comment\n\nsid=42\n", "default.example");
    assert_eq!(jar.len(), 1);
    assert_eq!(jar.cookies[0].domain, "default.example");
    assert_eq!(split_once("a=b=c", '='), Some(("a".to_string(), "b=c".to_string())));
    assert_eq!(split_once("abc", '='), None);
}

#[test]
fn downloads_get_names_and_defaults() {
    assert_eq!(file_name_of_url("https://example.com/a/archive.bin?x=1"), "archive.bin?x=1");
    let mut jar = CookieJar::new();
    let t = add_download(DownloadRequest::new("https://example.com/a/archive.bin"), 7, 6, &mut jar);
    assert_eq!((t.id, t.connections, t.filename.as_str()), (7, 6, "archive.bin"));
    assert_eq!(t.status, DownloadStatus::Queued);
    let t = add_download(
        DownloadRequest::new("https://example.com/a")
            .connections(3)
            .filename("n")
            .dir("/d")
            .http_mode(HttpMode::Http1)
            .schedule_mode(ScheduleMode::Equal)
            .dry_run(true)
            .dry_run_size_mb(5),
        8,
        6,
        &mut jar,
    );
    assert_eq!((t.connections, t.filename.as_str(), t.dir.as_str()), (3, "n", "/d"));
    assert_eq!((t.http_mode, t.schedule_mode), (HttpMode::Http1, ScheduleMode::Equal));
    assert_eq!((t.dry_run, t.dry_run_size_mb), (true, Some(5)));
}

#[test]
fn cookies_of_the_service_go_along() {
    let mut jar = CookieJar::new();
    jar.insert(CookieEntry::new("session", "abc", "example.com"));
    let mut ctx = RequestContext::new();
    ctx.cookies = Some(vec![CookieEntry::new("session", "own", "example.com")]);
    let t = add_download(DownloadRequest::new("https://example.com/a").context(ctx), 1, 2, &mut jar);
    let cookies = t.request_context.unwrap().cookies.unwrap();
    assert_eq!(cookies.len(), 1);
    assert_eq!(cookies[0].value, "own");
    // The cookies of a request stay with the service.
    let t = add_download(DownloadRequest::new("https://example.com/a"), 1, 2, &mut jar);
    assert_eq!(t.request_context.unwrap().cookies.unwrap()[0].value, "own");
    let t = add_download(DownloadRequest::new("https://other.com/a"), 1, 2, &mut jar);
    assert!(t.request_context.is_none());
}

#[test]
fn sessions_become_request_contexts() {
    let ctx = SessionContext::new()
        .cookie(CookieEntry::new("a", "1", "e.com"))
        .header("X-A", "1")
        .auth("Bearer t")
        .referer("https://r/")
        .user_agent("ua")
        .to_request_context();
    assert_eq!(ctx.auth, Some("Bearer t".to_string()));
    assert_eq!(ctx.referer, Some("https://r/".to_string()));
    assert_eq!(ctx.user_agent, Some("ua".to_string()));
    assert_eq!(ctx.headers.len(), 1);
    assert_eq!(ctx.cookies.unwrap().len(), 1);
    let c = ServiceConfig::default();
    assert!(c.max_total_connections > 0);
}

#[test]
fn request_headers_are_built() {
    let ctx = RequestContext::new()
        .header("X-A", "1")
        .header("X-A", "2")
        .header("bad name", "3")
        .auth("Bearer t")
        .referer("https://r/")
        .user_agent("ua")
        .cookies(vec![CookieEntry::new("a", "1", "e.com"), CookieEntry::new("b", "2", "e.com")]);
    let h = build_request_headers(&ctx).unwrap();
    assert_eq!(h.get("x-a").unwrap(), "2");
    assert_eq!(h.get("authorization").unwrap(), "Bearer t");
    assert_eq!(h.get("referer").unwrap(), "https://r/");
    assert_eq!(h.get("user-agent").unwrap(), "ua");
    assert_eq!(h.get("cookie").unwrap(), "a=1; b=2");
    assert_eq!(h.len(), 5);
    assert!(build_request_headers(&RequestContext::new()).is_none());
}

#[test]
fn alternative_services_are_read() {
    assert_eq!(parse_alt_svc_value("h2=\":1\", h3=\":4433\"; ma=1"), Some(4433));
    assert_eq!(parse_alt_svc_value("h3=\":99999\""), None);
    assert_eq!(parse_alt_svc_value(""), None);
    assert_eq!(split_origin("https://example.com:8443"), ("example.com".to_string(), 8443));
    assert_eq!(split_origin("example.com"), ("example.com".to_string(), 443));
    assert_eq!(split_origin("example.com:x"), ("example.com".to_string(), 443));
}

#[test]
fn updates_go_to_their_listeners() {
    let mut l = Listeners::new();
    l.add(1);
    assert!(l.contains(1));
    let (id, update, _) = l.route(EngineEvent::TotalSize { id: 1, size: 9 });
    assert_eq!((id, update), (1, Some(DownloadUpdate::TotalSize(9))));
    let (_, update, _) = l.route(EngineEvent::TotalSize { id: 2, size: 9 });
    assert_eq!(update, None);
    let (_, update, _) = l.route(EngineEvent::StatusChanged { id: 1, status: DownloadStatus::Completed });
    assert_eq!(update, Some(DownloadUpdate::StatusChanged(DownloadStatus::Completed)));
    assert!(!l.contains(1));
    l.add(3);
    l.drop_listener(3);
    assert!(!l.contains(3));
}

#[test]
fn modes_have_names() {
    for m in [HttpMode::Auto, HttpMode::Http1, HttpMode::Http2, HttpMode::Http3] {
        assert_eq!(HttpMode::parse(m.as_str()), Ok(m));
    }
    for m in [ScheduleMode::Fib, ScheduleMode::FibAdaptive, ScheduleMode::Equal] {
        assert_eq!(ScheduleMode::parse(m.as_str()), Ok(m));
    }
    let e = HttpMode::parse("spdy").unwrap_err();
    assert!(e.message().contains("spdy"));
    assert!(ScheduleMode::parse("").is_err());
    let p = ProtocolInfo { requested: HttpMode::Auto, negotiated: ProtocolFamily::Http2 };
    assert_eq!(p.display_label(), "auto\u{2192}h2");
}

#[test]
fn the_least_recently_used_entry_goes() {
    let mut t: LruTable<u64> = LruTable::new();
    for (i, k) in ["a", "b", "c"].iter().enumerate() {
        let tick = t.next_tick();
        t.put(k.to_string(), i as u64, tick);
    }
    let tick = t.next_tick();
    t.put("a".to_string(), 9, tick);
    t.prune_lru(2);
    assert_eq!((t.peek("a"), t.peek("b"), t.peek("c")), (Some(9), None, Some(2)));
    assert_eq!(t.len(), 2);
}

#[test]
fn backends_are_tried_in_order() {
    let all = StorageConfig { use_pwrite: true, use_splice: true, no_io_uring: false, no_direct_io: false };
    assert_eq!(
        linux_backends(&all),
        vec![StorageBackendKind::LinuxIoUring, StorageBackendKind::LinuxSplice, StorageBackendKind::LinuxPwrite]
    );
    let none = StorageConfig { use_pwrite: false, use_splice: false, no_io_uring: true, no_direct_io: true };
    assert_eq!(linux_backends(&none), vec![StorageBackendKind::LinuxTokio]);
    assert_eq!(windows_backend(&all, true), StorageBackendKind::WindowsDirectIo);
    assert_eq!(StorageBackendKind::WindowsDirectIo.direct_io_alignment(), Some(4096));
    assert_eq!(StorageBackendKind::LinuxTokio.direct_io_alignment(), None);
}

#[test]
fn direct_writes_are_aligned() {
    assert!(is_direct_write(4096, 8192, 4096));
    assert!(!is_direct_write(4096, 8192, 100));
    assert_eq!(plan_direct_write(0, 100), WritePlan::Plain);
    assert_eq!(
        plan_direct_write(100, 10_000),
        WritePlan::Direct { prefix_len: 3996, middle_offset: 4096, middle_len: 4096 }
    );
}

#[test]
fn splices_go_on_where_they_were() {
    assert_eq!(splice_step(0, 0, SpliceOutcome::Start).0, SpliceStep::Done);
    assert_eq!(splice_step(0, 100_000, SpliceOutcome::Start), (SpliceStep::Pass { from: 0, to: 65_536 }, 0));
    assert_eq!(
        splice_step(0, 100_000, SpliceOutcome::Moved(65_536)),
        (SpliceStep::Pass { from: 65_536, to: 100_000 }, 65_536)
    );
    assert_eq!(splice_step(65_536, 100_000, SpliceOutcome::Moved(34_464)).0, SpliceStep::Done);
    assert_eq!(splice_step(10, 100_000, SpliceOutcome::Unsupported).0, SpliceStep::WritePlainly { from: 10 });
    assert_eq!(splice_step(10, 100_000, SpliceOutcome::Failed).0, SpliceStep::Fail);
}

#[test]
fn a_bearer_token_is_an_authorization() {
    let request = DownloadRequest::new("https://example.com/a.bin").bearer_token("abc");
    assert_eq!(request.request_context.unwrap().auth.as_deref(), Some("Bearer abc"));
}
