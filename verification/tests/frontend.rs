use tur_rs::cli::{
    build_request_context, import_cookie_file, is_header_flag, resolve_connection_settings, Cli, HeadlessRun,
    InvalidBounds, TaskDefaults,
};
use tur_rs::engine::types::{DownloadStatus, HttpMode, ProtocolFamily, ProtocolInfo, ScheduleMode, WorkerState};
use tur_rs::numerals::{decimal_string, hex_string, parse_up_to, signed_decimal_string};
use tur_rs::service::EngineEvent;
use tur_rs::storage::StorageConfig;
use tur_rs::text::{
    is_white_space, joined, last_char_index, lines_string, mentions, replace_all, split_at_char, to_lower, trimmed,
};
use tur_rs::text_map::TextMap;
use tur_rs::tui::{
    list_name, pad_right, protocol_label, render_worker_details, FocusPane, InputMode, Key, TaskRow, TuiAction,
    TuiApp, WorkerLine,
};

fn cli() -> Cli {
    Cli {
        url: vec!["https://example.com/a".to_string()],
        dir: ".".to_string(),
        connections: None,
        min_connections: None,
        max_connections: None,
        tasks: 3,
        dry_run: false,
        dry_run_size_mb: None,
        borrow_limit_mb: 2,
        schedule_mode: "fib".to_string(),
        http_mode: "auto".to_string(),
        headless: true,
        log_root: None,
        max_total_connections: 64,
        bandwidth_limit: 0,
        per_download_limit: 0,
        runtime_threads: 0,
        header: Vec::new(),
        referer: None,
        auth_bearer: None,
        cookie_file: None,
        no_pwrite: false,
        no_splice: false,
        no_io_uring: false,
        no_direct_io: false,
        no_origin_memory: false,
    }
}

fn row(id: u128) -> TaskRow {
    TaskRow {
        id,
        filename: format!("file{id}"),
        dry_run: false,
        total_size: 0,
        downloaded_size: 0,
        status: DownloadStatus::Queued,
        speed_bits: 0,
        protocol: None,
        workers: None,
    }
}

#[test]
fn connection_settings_are_resolved() {
    let mut c = cli();
    assert_eq!(resolve_connection_settings(&c), Ok((8, 1, 16)));
    c.connections = Some(5);
    assert_eq!(resolve_connection_settings(&c), Ok((5, 5, 5)));
    c.connections = Some(0);
    assert_eq!(resolve_connection_settings(&c), Ok((1, 1, 1)));
    c.connections = Some(30);
    c.min_connections = Some(2);
    assert_eq!(resolve_connection_settings(&c), Ok((16, 2, 16)));
    c.min_connections = Some(20);
    let e = resolve_connection_settings(&c).unwrap_err();
    assert_eq!(e, InvalidBounds { min: 20, max: 16 });
    assert_eq!(e.message(), "invalid connection settings: min_connections 20 exceeds max_connections 16");
}

#[test]
fn flags_become_a_request_context() {
    let mut c = cli();
    assert!(build_request_context(&c).is_none());
    c.header = vec!["X-A: 1".to_string(), "nonsense".to_string(), "x-b:2".to_string()];
    c.auth_bearer = Some("t".to_string());
    let ctx = build_request_context(&c).unwrap();
    assert_eq!(ctx.headers.len(), 2);
    assert_eq!(ctx.headers.entries[0], ("X-A".to_string(), "1".to_string()));
    assert_eq!(ctx.auth, Some("Bearer t".to_string()));
    assert!(is_header_flag("a:b"));
    assert!(!is_header_flag("ab"));
    c.no_splice = true;
    assert_eq!(
        c.storage_config(),
        StorageConfig { use_pwrite: true, use_splice: false, no_io_uring: false, no_direct_io: false }
    );
}

#[test]
fn cookie_files_are_imported() {
    let urls = vec!["https://example.com/a".to_string()];
    let (ctx, n) = import_cookie_file(None, "# file\nsid=42\n", &urls);
    assert_eq!(n, 1);
    let cookies = ctx.unwrap().cookies.unwrap();
    assert_eq!((cookies[0].name.as_str(), cookies[0].domain.as_str()), ("sid", "example.com"));
    let (ctx, n) = import_cookie_file(None, "\n", &urls);
    assert!(ctx.is_none());
    assert_eq!(n, 0);
}

#[test]
fn a_headless_run_ends_with_its_tasks() {
    let mut r = HeadlessRun::new(2);
    assert!(!r.note_status(1, &DownloadStatus::Downloading));
    assert!(!r.note_status(1, &DownloadStatus::Completed));
    assert!(!r.note_status(1, &DownloadStatus::Completed));
    assert!(r.note_status(2, &DownloadStatus::Error("x".to_string())));
    assert!(r.saw_error);
}

#[test]
fn tasks_take_over_the_defaults() {
    let d = TaskDefaults {
        dir: "/d".to_string(),
        connections: 4,
        min_connections: 1,
        max_connections: 8,
        per_download_bandwidth_limit_bps: 9,
        dry_run: true,
        dry_run_size_mb: Some(3),
        borrow_limit_mb: 2,
        schedule_mode: ScheduleMode::Equal,
        http_mode: HttpMode::Http2,
        log_root: None,
        request_context: None,
    };
    let t = d.task(5, "https://example.com/x.bin", "/e");
    assert_eq!((t.id, t.filename.as_str(), t.dir.as_str()), (5, "x.bin", "/e"));
    assert_eq!((t.connections, t.max_connections, t.http_mode), (4, 8, HttpMode::Http2));
}

#[test]
fn the_list_is_a_ring() {
    let mut app = TuiApp::new();
    app.next();
    assert_eq!(app.selected, None);
    for i in 0..3 {
        app.add_task(row(i));
    }
    let before = app.selected;
    app.next();
    app.prev();
    assert_eq!(app.selected.or(Some(0)), before.or(Some(0)));
    app.selected = Some(2);
    app.next();
    assert_eq!(app.selected, Some(0));
    app.prev();
    assert_eq!(app.selected, Some(2));
}

#[test]
fn keys_have_their_meanings() {
    let mut app = TuiApp::new();
    app.add_task(row(4));
    app.selected = Some(0);
    assert_eq!(app.handle_key(Key::Char('s')), TuiAction::Stop(4));
    assert_eq!(app.handle_key(Key::Char('r')), TuiAction::Resume(4));
    assert_eq!(app.handle_key(Key::Char('c')), TuiAction::Cancel(4));
    assert_eq!(app.handle_key(Key::Tab), TuiAction::Nothing);
    assert_eq!(app.focus_pane, FocusPane::Details);
    assert_eq!(app.handle_key(Key::Char('n')), TuiAction::Nothing);
    assert_eq!(app.input_mode, InputMode::UrlInput);
    for c in "https://x/y".chars() {
        let _ = app.handle_key(Key::Char(c));
    }
    let _ = app.handle_key(Key::Enter);
    assert_eq!(app.input_mode, InputMode::DirInput);
    let _ = app.handle_key(Key::Char('d'));
    let _ = app.handle_key(Key::Char('e'));
    let _ = app.handle_key(Key::Backspace);
    let action = app.handle_key(Key::Enter);
    assert_eq!(action, TuiAction::Add { url: "https://x/y".to_string(), dir: "d".to_string() });
    assert_eq!(app.handle_key(Key::Char('q')), TuiAction::Quit);
}

#[test]
fn events_reach_their_rows() {
    let mut app = TuiApp::new();
    app.add_task(row(1));
    app.add_task(row(2));
    app.handle_engine_event(EngineEvent::TotalSize { id: 2, size: 50 });
    app.handle_engine_event(EngineEvent::Progress { id: 2, downloaded: 20, speed_bits: 7 });
    app.handle_engine_event(EngineEvent::StatusChanged { id: 1, status: DownloadStatus::Paused });
    app.handle_engine_event(EngineEvent::TotalSize { id: 9, size: 50 });
    assert_eq!((app.tasks[1].total_size, app.tasks[1].downloaded_size, app.tasks[1].speed_bits), (50, 20, 7));
    assert_eq!(app.tasks[0].status, DownloadStatus::Paused);
    assert_eq!(app.tasks[0].total_size, 0);
}

#[test]
fn rows_are_shown() {
    assert_eq!(list_name("short").trim_end(), "short");
    assert_eq!(pad_right("ab", 4), "ab  ");
    assert_eq!(pad_right("abcdef", 4), "abcdef");
    let p = Some(ProtocolInfo { requested: HttpMode::Auto, negotiated: ProtocolFamily::Http1 });
    assert_ne!(protocol_label(&p), protocol_label(&None));
    let lines = render_worker_details(&Some(vec![WorkerLine {
        connection_id: 3,
        state: WorkerState::Downloading,
        speed: "1.0".to_string(),
        bytes: "2.0".to_string(),
        range: Some((0, 10, 5)),
        detail: None,
    }]));
    assert!(lines.contains('3'));
}

#[test]
fn texts_behave_like_those_of_the_standard_library() {
    for n in 0..0x11_0000u32 {
        if let Some(c) = char::from_u32(n) {
            assert_eq!(is_white_space(c), c.is_whitespace());
        }
    }
    let s = "  A,b,,\u{e9}C  ";
    assert_eq!(trimmed(s), s.trim());
    assert_eq!(to_lower(s), s.to_ascii_lowercase());
    assert_eq!(split_at_char(s, ','), s.split(',').collect::<Vec<_>>());
    assert_eq!(split_at_char("", ','), vec![""]);
    let parts = vec!["a".to_string(), "".to_string(), "b".to_string()];
    assert_eq!(joined(&parts, "; "), parts.join("; "));
    assert_eq!(lines_string(&parts), "a\n\nb\n");
    assert!(mentions("abcabd", "abd"));
    assert!(mentions("abc", ""));
    assert_eq!(replace_all("a.json/b.json.json", ".json", ".mpd"), "a.json/b.json.json".replace(".json", ".mpd"));
    assert_eq!(replace_all("aaaa", "aa", "a"), "aaaa".replace("aa", "a"));
    assert_eq!(last_char_index(&"a/b/c".chars().collect(), '/'), Some(3));
}

#[test]
fn numerals_behave_like_those_of_the_standard_library() {
    for n in [0, 9, 10, 12345, u64::MAX] {
        assert_eq!(decimal_string(n), n.to_string());
        assert_eq!(parse_up_to(&n.to_string(), u64::MAX), Some(n));
    }
    for n in [0, -1, i64::MIN, i64::MAX] {
        assert_eq!(signed_decimal_string(n), n.to_string());
    }
    for s in ["", "+", "+7", "-7", "007", "12a", "65535", "65536", " 1"] {
        assert_eq!(parse_up_to(s, 65535), s.parse::<u16>().ok().map(|n| n as u64));
    }
    assert_eq!(hex_string(&vec![0, 15, 255]), "000fff");
}

#[test]
fn the_last_value_under_a_name_counts() {
    let mut m = TextMap::new();
    m.insert("a".to_string(), "1".to_string());
    m.insert("b".to_string(), "2".to_string());
    m.insert("a".to_string(), "3".to_string());
    assert_eq!(m.len(), 2);
    assert_eq!(m.entries[0], ("a".to_string(), "3".to_string()));
}

#[test]
fn the_details_pane_tells_what_is_selected() {
    let mut app = TuiApp::new();
    let hidden = "Worker details hidden. Press [d] to expand.";
    assert_eq!(app.detail_text(&None), hidden);
    app.show_details = true;
    assert_eq!(app.detail_text(&None), "No task selected");
    app.selected = Some(0);
    assert_eq!(app.detail_text(&None), "No worker diagnostics yet.");
    assert_eq!(app.detail_text(&Some(Vec::new())), "No active worker snapshots.");
}
