use tur_rs::spectur::actions::{format_logs_for_copy, format_metadata_for_copy, Choice};
use tur_rs::spectur::analyzer::{
    fetch_error, fetch_headers, parse_answer, parse_dash, parse_hls, plan_look, plan_look_from, read_answer,
    read_given, read_given_from, Answer, Fetch, FetchStep, GivenManifest, Location, LookPlan,
};
use tur_rs::spectur::dash::{classify_drm, manifest_metadata, parse_dash_content, read_manifest, DashProtection};
use tur_rs::spectur::downloads::{complete_headers, percent_text, MAX_LOG_LINES};
use tur_rs::spectur::durations::check_durations;
use tur_rs::spectur::hls::{parse_hls_content, playlist_metadata, read_playlist, HlsKey, HlsPlaylist, HlsSegment};
use tur_rs::spectur::json::parse_yt_formats;
use tur_rs::spectur::probe::{probe_args, probe_headers, probe_metadata, read_probe, untold_file};
use tur_rs::spectur::spawner::{
    build_args, candidate_name, clean_filename, output_parts, output_path, select_downloader, yt_download_args,
    yt_format_args, Downloader,
};
use tur_rs::spectur::types::{
    detect_format, path_dedup, AppState, DownloadStatus, DurationSource, KeyInfo, KeyPayload, Panel, ProbeState,
    StreamFormat, StreamMetadata, StreamPayload, YtFormat,
};
use tur_rs::spectur::urls::{extract_base_url, resolve_dash_url, resolve_segment_base};
use tur_rs::spectur::ws::WsMessage;
use tur_rs::text_map::TextMap;
use tur_rs::web_url::UrlParts;

fn map(entries: &[(&str, &str)]) -> TextMap {
    let mut m = TextMap::new();
    for (k, v) in entries {
        m.insert(k.to_string(), v.to_string());
    }
    m
}

fn request(page: &str, url: &str) -> StreamPayload {
    StreamPayload {
        request_id: "1".to_string(),
        url: url.to_string(),
        method: "GET".to_string(),
        request_headers: map(&[("Cookie", "a=1")]),
        response_headers: TextMap::new(),
        server_ip: String::new(),
        page_url: page.to_string(),
        page_title: String::new(),
        timestamp: 0,
        manifest_content: None,
    }
}

fn message() -> WsMessage {
    WsMessage {
        msg_type: None,
        request_id: None,
        url: None,
        method: None,
        request_headers: None,
        response_headers: None,
        server_ip: None,
        page_url: None,
        page_title: None,
        timestamp: None,
        manifest_content: None,
        key: None,
        href: None,
        streaming_data: None,
    }
}

fn metadata(keys: Vec<KeyInfo>) -> StreamMetadata {
    StreamMetadata {
        duration: DurationSource::Seconds(0),
        total_segments: 0,
        resolutions: Vec::new(),
        audio_tracks: Vec::new(),
        keys,
        drm: Vec::new(),
        segment_base_url: None,
        size_bytes: None,
    }
}

fn key_info(uri: &str) -> KeyInfo {
    KeyInfo {
        method: "AES128".to_string(),
        uri: Some(uri.to_string()),
        iv: None,
        keyformat: None,
        key_hex: None,
    }
}

fn key(page: &str, bytes: &[u8]) -> KeyPayload {
    KeyPayload {
        key: bytes.to_vec(),
        href: "https://k/".to_string(),
        page_url: page.to_string(),
        page_title: String::new(),
        timestamp: 0,
    }
}

const MASTER: &str = "#EXTM3U
#EXT-X-MEDIA:TYPE=AUDIO,GROUP-ID=\"a\",NAME=\"English\",URI=\"en.m3u8\"
#EXT-X-STREAM-INF:BANDWIDTH=800000,RESOLUTION=640x360,CODECS=\"avc1\",FRAME-RATE=29.97
low.m3u8
#EXT-X-STREAM-INF:BANDWIDTH=900000,RESOLUTION=640x360
low2.m3u8
#EXT-X-STREAM-INF:BANDWIDTH=2000000,RESOLUTION=1280x720
https://cdn.example/hi.m3u8
";

const MEDIA: &str = "#EXTM3U
#EXT-X-TARGETDURATION:10
#EXT-X-KEY:METHOD=AES-128,URI=\"key1\"
#EXTINF:9.5,
a.ts
#EXT-X-KEY:METHOD=AES-128,URI=\"key1\"
#EXTINF:0.5,
b.ts
#EXT-X-KEY:METHOD=AES-128,URI=\"key2\"
#EXTINF:2,
c.ts
#EXT-X-ENDLIST
";

const MPD: &str = "<?xml version=\"1.0\"?>
<MPD xmlns=\"urn:mpeg:dash:schema:mpd:2011\" mediaPresentationDuration=\"PT1M30.5S\" type=\"static\">
 <Period>
  <AdaptationSet contentType=\"video\" codecs=\"avc1\" mimeType=\"video/mp4\" frameRate=\"25\">
   <ContentProtection schemeIdUri=\"urn:uuid:EDEF8BA9-79D6-4ACE-A3C8-27DCD51D21ED\"/>
   <Representation id=\"v1\" bandwidth=\"100\" width=\"640\" height=\"360\"><BaseURL>v1/</BaseURL></Representation>
   <Representation id=\"v2\" bandwidth=\"200\" width=\"640\" height=\"360\"/>
   <Representation id=\"v3\" bandwidth=\"300\" width=\"1280\" height=\"720\" codecs=\"hev1\"/>
  </AdaptationSet>
  <AdaptationSet contentType=\"audio\">
   <ContentProtection schemeIdUri=\"urn:uuid:EDEF8BA9-79D6-4ACE-A3C8-27DCD51D21ED\"/>
   <ContentProtection schemeIdUri=\"urn:mpeg:dash:mp4protection:2011\" value=\"cenc\"/>
   <Representation id=\"a1\" bandwidth=\"10\"/>
  </AdaptationSet>
 </Period>
</MPD>";

#[test]
fn streams_are_told_apart_by_path_and_type() {
    let none = TextMap::new();
    assert_eq!(detect_format("https://x/a.M3U8?q", &none), StreamFormat::Hls);
    assert_eq!(detect_format("https://x/a.mpd", &none), StreamFormat::Dash);
    assert_eq!(detect_format("https://x/a.mp4", &none), StreamFormat::Mp4);
    assert_eq!(detect_format("https://x/a.ts", &none), StreamFormat::Ts);
    assert_eq!(detect_format("https://x/?f=a.mp4", &none), StreamFormat::Unknown);
    let t = |v: &str| map(&[("Content-Type", v)]);
    assert_eq!(detect_format("https://x/a", &t("application/vnd.apple.mpegURL")), StreamFormat::Hls);
    assert_eq!(detect_format("https://x/a", &t("application/dash+xml")), StreamFormat::Dash);
    assert_eq!(detect_format("https://x/a", &t("video/mp4")), StreamFormat::Mp4);
    assert_eq!(detect_format("https://x/a", &t("video/mp2t")), StreamFormat::Ts);
    assert_eq!(detect_format("no url", &t("text/plain")), StreamFormat::Unknown);
}

#[test]
fn urls_of_one_stream_have_a_key_in_common() {
    assert_eq!(path_dedup("https://x.example/a/b.ts?1"), "x.example|/a/");
    assert_eq!(path_dedup("https://x.example/a/c.ts"), path_dedup("https://x.example/a/b.ts?1"));
    assert_eq!(path_dedup("no url"), "no url");
}

#[test]
fn a_request_that_comes_again_is_known() {
    let mut app = AppState::new();
    assert_eq!(app.add_stream(request("https://p/", "https://x/a/one.m3u8")), (0, 1, false));
    assert_eq!(app.add_stream(request("https://p/", "https://x/a/one.m3u8")), (0, 1, true));
    // Another playlist from the same place is the same stream.
    assert_eq!(app.add_stream(request("https://p/", "https://x/a/two.m3u8")), (0, 1, true));
    assert_eq!(app.tabs[0].streams[0].url, "https://x/a/two.m3u8");
    // Files are told apart.
    assert_eq!(app.add_stream(request("https://p/", "https://x/a/one.mp4")), (0, 2, false));
    assert_eq!(app.add_stream(request("https://p/", "https://x/a/two.mp4")), (0, 3, false));
    assert_eq!(app.add_stream(request("https://q/", "https://x/a/one.m3u8")), (1, 4, false));
    assert_eq!(app.tabs[1].page_title, "Unknown Page");
    let mut again = request("https://p/", "https://x/a/one.m3u8");
    again.manifest_content = Some("#EXTM3U".to_string());
    assert_eq!(app.add_stream(again), (0, 1, false));
    app.set_stream_probe_done(1, metadata(Vec::new()), StreamFormat::Hls);
    let mut again = request("https://p/", "https://x/a/one.m3u8");
    again.manifest_content = Some("#EXTM3U".to_string());
    assert_eq!(app.add_stream(again), (0, 1, true));
}

#[test]
fn pieces_are_hidden() {
    let mut app = AppState::new();
    app.add_stream(request("https://p/", "https://x/a/one.m3u8"));
    app.add_stream(request("https://p/", "https://x/b/SEG-1.bin"));
    app.add_stream(request("https://p/", "https://x/c/a.ts"));
    assert_eq!(app.tabs[0].filtered_streams().len(), 1);
    assert_eq!(app.selected_stream().unwrap().stream_id, 1);
    app.next_stream();
    assert_eq!(app.selected_stream_index, 0);
    app.toggle_noise();
    assert_eq!(app.tabs[0].filtered_streams().len(), 3);
    assert_eq!(app.tui_logs.last().unwrap(), "Noise: showing segments");
    app.next_stream();
    assert_eq!(app.selected_stream().unwrap().stream_id, 2);
    app.prev_stream();
    app.prev_stream();
    assert_eq!(app.selected_stream().unwrap().stream_id, 3);
}

#[test]
fn tabs_are_a_ring() {
    let mut app = AppState::new();
    app.next_tab();
    app.prev_tab();
    assert_eq!(app.selected_tab_index, 0);
    app.add_stream(request("https://p/", "https://x/a/one.m3u8"));
    app.add_stream(request("https://q/", "https://x/a/one.m3u8"));
    app.next_tab();
    assert_eq!(app.selected_tab_index, 1);
    app.next_tab();
    assert_eq!(app.selected_tab_index, 0);
    app.prev_tab();
    assert_eq!(app.selected_tab_index, 1);
}

#[test]
fn messages_are_dispatched() {
    let mut app = AppState::new();
    let mut m = message();
    assert!(app.handle_message(&m).is_none());
    m.url = Some("https://x/a.mpd".to_string());
    assert!(m.is_stream_payload());
    assert!(app.handle_message(&m).is_none());
    m.request_id = Some("7".to_string());
    let look = app.handle_message(&m).unwrap();
    assert_eq!((look.stream_id, look.url.as_str()), (1, "https://x/a.mpd"));
    assert!(app.handle_message(&m).is_none());

    let mut k = message();
    k.msg_type = Some("keyIntercepted".to_string());
    assert!(app.handle_message(&k).is_none());
    assert!(app.intercepted_keys.is_empty());
    k.key = Some(vec![1, 0xab]);
    k.href = Some("https://k/".to_string());
    assert!(app.handle_message(&k).is_none());
    assert_eq!(app.tui_logs.last().unwrap(), "AES-128 key intercepted: 01ab from https://k/");
}

#[test]
fn videos_bring_their_formats() {
    let data: serde_json::Value = serde_json::from_str(
        "{\"formats\":[{\"itag\":18,\"mimeType\":\"video/mp4\",\"width\":640,\"height\":360,\"qualityLabel\":\"360p\",
          \"contentLength\":\"99\"}],
          \"adaptiveFormats\":[{\"itag\":140,\"mime_type\":\"audio/mp4\",\"audioChannels\":2,\"fps\":1.5},
          {\"quality\":\"hd\"}]}",
    )
    .unwrap();
    let formats = parse_yt_formats(&data);
    assert_eq!(formats.len(), 3);
    assert_eq!(formats[0].resolution_label(), "640x360 (360p)");
    assert_eq!(formats[0].short_label(), "360p");
    assert_eq!(formats[0].content_length, Some("99".to_string()));
    assert!(formats[0].is_video());
    assert!(formats[1].is_audio_only());
    assert_eq!((formats[1].audio_channels, formats[1].fps), (Some(2), None));
    assert_eq!(formats[1].resolution_label(), "Audio (itag 140)");
    assert_eq!(formats[1].short_label(), "Audio");
    assert_eq!((formats[2].itag, formats[2].mime_type.as_str()), (0, "unknown"));
    assert_eq!(formats[2].resolution_label(), "hd");

    let mut app = AppState::new();
    let mut m = message();
    m.msg_type = Some("youtubeFormats".to_string());
    m.page_url = Some("https://youtube.com/watch".to_string());
    m.streaming_data = Some(data);
    assert!(app.handle_message(&m).is_none());
    assert!(app.handle_message(&m).is_none());
    assert_eq!(app.tabs.len(), 1);
    assert_eq!(app.tabs[0].yt_formats.len(), 3);
    assert_eq!(app.tabs[0].streams.len(), 1);
    assert_eq!(app.tabs[0].streams[0].format, StreamFormat::Youtube);
    assert_eq!(app.tui_logs.last().unwrap(), "YouTube formats parsed for YouTube Video");
    let source = app.download_source("https://youtube.com/watch", &Some("360p".to_string()));
    assert!(source.is_video);
    assert_eq!(source.itag, Some(18));
    assert_eq!(app.download_source("https://youtube.com/watch", &Some("4k".to_string())).itag, None);
}

#[test]
fn keys_find_their_streams() {
    let mut app = AppState::new();
    app.add_stream(request("https://p/", "https://x/a/one.m3u8"));
    app.take_key(key("https://p/", &[1]));
    app.finish_look(1, Ok((metadata(vec![key_info("k1"), key_info("k2")]), StreamFormat::Hls)));
    match &app.tabs[0].streams[0].probe_state {
        ProbeState::Done(m) => {
            assert_eq!(m.keys[0].key_hex, Some("01".to_string()));
            assert_eq!(m.keys[1].key_hex, Some("01".to_string()));
        }
        _ => panic!("the stream was looked at"),
    }
    app.take_key(key("https://p/", &[2]));
    app.take_key(key("https://q/", &[3]));
    match &app.tabs[0].streams[0].probe_state {
        ProbeState::Done(m) => {
            assert_eq!(m.keys[0].key_hex, Some("01".to_string()));
            assert_eq!(m.keys[1].key_hex, Some("02".to_string()));
        }
        _ => panic!("the stream was looked at"),
    }
    assert!(app.tui_logs.contains(&"Associated key 02 with stream https://x/a/one.m3u8".to_string()));
}

#[test]
fn a_look_in_vain_is_noted() {
    let mut app = AppState::new();
    app.add_stream(request("https://p/", "https://x/a/one.m3u8"));
    app.finish_look(1, Err("boom".to_string()));
    assert_eq!(app.tui_logs, vec!["Analyzer error for stream 1: boom".to_string()]);
    assert!(matches!(&app.tabs[0].streams[0].probe_state, ProbeState::Failed(e) if e == "boom"));
}

#[test]
fn master_playlists_list_each_size_once() {
    let m = parse_hls_content(MASTER, "https://x.example/p/").unwrap();
    let labels: Vec<&str> = m.resolutions.iter().map(|r| r.label.as_str()).collect();
    assert_eq!(labels, vec!["640x360", "1280x720"]);
    assert_eq!(m.resolutions[0].url, Some("https://x.example/p/low.m3u8".to_string()));
    assert_eq!(m.resolutions[0].bandwidth, 800_000);
    assert_eq!(m.resolutions[0].codecs, Some("avc1".to_string()));
    assert_eq!(m.resolutions[0].frame_rate, Some("29.970".to_string()));
    assert_eq!(m.resolutions[1].url, Some("https://cdn.example/hi.m3u8".to_string()));
    assert_eq!(m.audio_tracks, vec!["English".to_string()]);
    assert_eq!(m.total_segments, 0);
    assert!(matches!(m.duration, DurationSource::Seconds(0)));
}

#[test]
fn media_playlists_list_each_key_once() {
    let m = parse_hls_content(MEDIA, "https://x.example/p/").unwrap();
    assert_eq!(m.total_segments, 3);
    let uris: Vec<String> = m.keys.iter().map(|k| k.uri.clone().unwrap()).collect();
    assert_eq!(uris, vec!["https://x.example/p/key1".to_string(), "https://x.example/p/key2".to_string()]);
    assert_eq!(m.keys[0].method, "AES128");
    match m.duration {
        DurationSource::Segments(bits) => {
            let sum: f32 = bits.iter().map(|b| f32::from_bits(*b)).sum();
            assert_eq!(sum, 12.0);
        }
        _ => panic!("the durations of the segments are known"),
    }
    let e = parse_hls_content("nothing", "https://x.example/").unwrap_err();
    assert!(e.starts_with("m3u8 parse error: "));
    assert!(matches!(read_playlist(MASTER), Ok(HlsPlaylist::Master { .. })));
}

#[test]
fn a_key_that_was_used_adds_nothing() {
    let segment = |uri: &str| HlsSegment {
        duration_bits: 0,
        key: Some(HlsKey { method: "AES128".to_string(), uri: Some(uri.to_string()), iv: None, keyformat: None }),
    };
    let p = HlsPlaylist::Media {
        segments: vec![segment("https://k/1"), segment("https://k/2"), segment("https://k/1")],
    };
    let m = playlist_metadata(&p, "https://x/");
    assert_eq!(m.keys.len(), 2);
    assert_eq!(m.keys[1].uri, Some("https://k/2".to_string()));
}

#[test]
fn manifests_are_read() {
    let m = parse_dash_content(MPD, "https://x.example/p/").unwrap();
    assert!(matches!(m.duration, DurationSource::Seconds(90)));
    let labels: Vec<&str> = m.resolutions.iter().map(|r| r.label.as_str()).collect();
    assert_eq!(labels, vec!["640x360", "1280x720"]);
    assert_eq!(m.resolutions[0].url, Some("https://x.example/p/v1/".to_string()));
    assert_eq!(m.resolutions[0].codecs, Some("avc1".to_string()));
    assert_eq!(m.resolutions[1].codecs, Some("hev1".to_string()));
    assert_eq!(m.resolutions[1].frame_rate, Some("25".to_string()));
    assert_eq!(m.resolutions[1].mime_type, Some("video/mp4".to_string()));
    assert_eq!(m.audio_tracks, vec!["a1".to_string()]);
    let systems: Vec<&str> = m.drm.iter().map(|d| d.system.as_str()).collect();
    assert_eq!(systems, vec!["Widevine", "CENC"]);
    let e = parse_dash_content("no xml <", "https://x/").unwrap_err();
    assert!(e.starts_with("MPD parse error: "));
}

#[test]
fn segments_of_a_manifest_are_counted() {
    let body = "<MPD><Period><AdaptationSet><Representation id=\"1\">
      <SegmentTemplate><SegmentTimeline><S d=\"1\"/><S d=\"2\"/></SegmentTimeline></SegmentTemplate>
      </Representation><Representation id=\"2\"><SegmentList><SegmentURL media=\"a\"/></SegmentList></Representation>
      </AdaptationSet></Period></MPD>";
    let manifest = read_manifest(body).unwrap();
    assert_eq!(manifest.periods[0].adaptations[0].representations[0].timeline, Some(2));
    assert_eq!(manifest_metadata(&manifest, "https://x/").total_segments, 3);
}

#[test]
fn protection_systems_have_names() {
    let p = |uri: &str, value: Option<&str>| DashProtection {
        scheme_id_uri: uri.to_string(),
        value: value.map(|v| v.to_string()),
        pssh: Vec::new(),
        default_kid: None,
        laurl: None,
        clearkey_laurl: None,
    };
    assert_eq!(classify_drm(&p("urn:uuid:9A04F079-9840-4286-AB92-E65BE0885F95", None)), "PlayReady");
    assert_eq!(classify_drm(&p("urn:uuid:94ce86fb-07ff-4f43-adb8-93d2fa968ca2", None)), "FairPlay");
    assert_eq!(classify_drm(&p("urn:uuid:1077efec-c0b2-4d02-ace3-3c1e52e2fb4b", None)), "ClearKey");
    assert_eq!(classify_drm(&p("x", Some("WideVine stuff"))), "Widevine");
    assert_eq!(classify_drm(&p("x", Some("PlayReady"))), "PlayReady");
    assert_eq!(classify_drm(&p("x", Some("cenc"))), "CENC");
    assert_eq!(classify_drm(&p("x", None)), "Unknown");
}

#[test]
fn overlong_durations_are_noticed() {
    assert!(check_durations(MPD));
    assert!(check_durations("t=\"1580000000000\" id=\"99999999999999999999\""));
    let fits = |value: &str| check_durations(&format!("<MPD minBufferTime = {}/>", value));
    assert!(!fits("\"P999999999999Y\""));
    assert!(!fits("'-P999999999999Y'"));
    assert!(!fits("\"PT999999999999999&#57;&#x48;\""));
    assert!(fits("\"PT000000000000000000000001H\""));
    assert!(fits("\"PT18446744073709551615S\""));
    // A number that is itself too large is refused by the reader of manifests.
    assert!(fits("\"PT18446744073709551616S\""));
    assert!(fits("\"P999999999999YT18446744073709551616.5S\""));
    assert!(!fits("\"PT18446744073709551615.5S\" minimumUpdatePeriod='PT1M18446744073709551615S'"));
    assert!(!fits("\"P1DT18446744073709551000S\""));
    assert!(fits("\"PT99999999999H\" &# nothing"));
    assert!(fits("P999999999999Y"));
    assert!(!check_durations("<MPD><p:Period id=\"1\"x:start=\n'P999999999999Y'/></MPD>"));
    assert!(!check_durations("<MPD><Metrics><Range duration='P999999999999Y'/></Metrics></MPD>"));
    assert!(!check_durations("<MPD><a><b/><BaseURL timeShiftBufferDepth='P999999999999Y'/></a></MPD>"));
    assert!(check_durations("<MPD><Period restart='P999999999999Y'/></MPD>"));
}

#[test]
fn what_is_no_reference_hides_no_duration() {
    assert!(!check_durations("<!--&#--><MPD minBufferTime=\"P999999999999Y\"/><!--;-->"));
    assert!(!check_durations("<MPD minBufferTime=\"P9&#x39;9999999999Y\"/>"));
    assert!(!check_durations("<MPD><@minBufferTime>P1Y</@minBufferTime></MPD>"));
    let found = parse_dash_content("<!--&#--><MPD minBufferTime=\"P999999999999Y\"/><!--;-->", "https://x/");
    assert_eq!(found.unwrap_err(), "MPD parse error: duration out of bounds");
}

#[test]
fn long_numbers_that_are_no_durations_are_read() {
    let body = "<MPD><BaseURL>1700000000000000000.mp4</BaseURL></MPD>";
    assert!(check_durations(body));
    assert!(parse_dash_content(body, "https://x/").is_ok());
    assert!(matches!(read_given(body, "https://x/a.mpd"), GivenManifest::Tells(_, _)));
    for body in [
        "<MPD><!-- <MPD minBufferTime=\"P999999999999Y\"> --></MPD>",
        "<!-- minBufferTime='P999999999999Y' --><MPD/>",
        "<MPD><BaseURL><![CDATA[<MPD minBufferTime='P999999999999Y'>]]></BaseURL></MPD>",
        "<?x minBufferTime='P999999999999Y'?><MPD></MPD>",
        "<MPD><Other start='P999999999999Y'><Period start='P999999999999Y'/></Other></MPD>",
        "<MPD profiles='a minBufferTime=\"P999999999999Y\"'/>",
        "<MPD/><MPD minBufferTime='P999999999999Y'/>",
    ] {
        assert!(check_durations(body), "{}", body);
        assert!(parse_dash_content(body, "https://x/").is_ok(), "{}", body);
    }
    let refused = parse_dash_content("<MPD minBufferTime='PT18446744073709551616S'/>", "https://x/").unwrap_err();
    assert!(refused.starts_with("MPD parse error: Parsing("), "{}", refused);
    let playlist = "#EXTM3U\n#EXTINF:4,\nx start='P999999999999Y'.ts\n#EXT-X-ENDLIST\n";
    assert!(parse_answer(Answer::Unclear, "https://x/a", playlist).is_ok());
    assert!(parse_answer(Answer::Dash, "https://x/a", "<MPD minBufferTime='P999999999999Y'/>").is_err());
}

#[test]
fn urls_are_resolved() {
    assert_eq!(resolve_segment_base("https://x/a/", "b.ts"), Some("https://x/a/b.ts".to_string()));
    assert_eq!(resolve_segment_base("nowhere", "http://y/b.ts"), Some("http://y/b.ts".to_string()));
    assert_eq!(resolve_segment_base("nowhere", "b.ts"), None);
    assert_eq!(extract_base_url("https://x/a/b.mpd?q=1"), "https://x/a/");
    assert_eq!(extract_base_url("nowhere"), "nowhere");
    let some = |s: &str| Some(s.to_string());
    assert_eq!(
        resolve_dash_url("https://x/a/m.mpd", &some("b/"), &None, &some("c/"), &some("d.mp4")),
        "https://x/a/b/c/d.mp4"
    );
    assert_eq!(resolve_dash_url("https://x/a/", &some("https://y/"), &None, &None, &None), "https://y/");
}

#[test]
fn manifests_that_come_along_are_read() {
    let text = format!("\u{feff}junk {MASTER}");
    match read_given(&text, "https://x/p/") {
        GivenManifest::Tells(m, f) => {
            assert_eq!(f, StreamFormat::Hls);
            assert_eq!(m.resolutions.len(), 2);
        }
        _ => panic!("the playlist starts after the junk"),
    }
    assert!(matches!(read_given(MPD, "https://x/p/"), GivenManifest::Tells(_, StreamFormat::Dash)));
    assert!(matches!(read_given("hello", "https://x/"), GivenManifest::Silent));
    // The upper case of this letter is one byte longer than the letter.
    let shifted = format!("{}#EXTM3U\u{e9}", "\u{149}".repeat(8));
    assert!(matches!(read_given(&shifted, "https://x/"), GivenManifest::Unreadable));
    let shifted = format!("{}#EXTM3U\u{e9}", "\u{149}".repeat(2));
    assert!(matches!(read_given(&shifted, "https://x/"), GivenManifest::Silent));
    let endless = "<MPD minBufferTime=\"P999999999999Y\"></MPD>";
    assert!(matches!(read_given(endless, "https://x/"), GivenManifest::Silent));
    let named = "<MPD profiles=\"P999999999999Y\"></MPD>";
    assert!(matches!(read_given(named, "https://x/"), GivenManifest::Tells(_, StreamFormat::Dash)));
    assert!(read_given_from("#EXTM3U\n", "#EXTM3U\n", "https://x/").is_some());
}

#[test]
fn looks_are_planned() {
    assert!(matches!(plan_look("https://x/a.m3u8?x"), LookPlan::Hls(u) if u == "https://x/a.m3u8?x"));
    assert!(matches!(plan_look("https://x/a.MPD"), LookPlan::Dash(u) if u == "https://x/a.MPD"));
    assert!(matches!(plan_look("https://x/v/master.json"), LookPlan::Dash(u)
        if u == "https://x/v/master.mpd?query_string_ranges=1"));
    assert!(matches!(plan_look("https://x/playlist.json?a=b"), LookPlan::Dash(u)
        if u == "https://x/playlist.mpd?a=b&query_string_ranges=1"));
    assert!(matches!(plan_look("https://x/a.mp4"), LookPlan::File));
    assert!(matches!(plan_look("https://x/a"), LookPlan::Ask));
    assert!(matches!(plan_look("nowhere"), LookPlan::Ask));
    assert!(matches!(plan_look_from("u", &None), LookPlan::Ask));
}

#[test]
fn redirects_are_followed_ten_times() {
    let mut f = Fetch::new("https://x/a/");
    for i in 1..=10 {
        assert!(matches!(f.step(302, &Location::Text("b/".to_string())), FetchStep::Follow));
        assert_eq!(f.followed, i);
    }
    let step = f.step(302, &Location::Text("b/".to_string()));
    assert_eq!(fetch_error(&step, "302 Found"), Some("too many redirects".to_string()));
    let mut f = Fetch::new("https://x/a/");
    assert!(matches!(f.step(200, &Location::Absent), FetchStep::Body));
    assert!(matches!(f.step(302, &Location::Unreadable), FetchStep::BadLocation));
    assert!(matches!(f.step(302, &Location::Text("http://[".to_string())), FetchStep::BadLocation));
    let step = f.step(404, &Location::Absent);
    assert_eq!(fetch_error(&step, "404 Not Found"), Some("HTTP error status: 404 Not Found".to_string()));
    assert!(matches!(f.step(304, &Location::Absent), FetchStep::BadStatus));
}

#[test]
fn headers_are_filtered() {
    let h = map(&[("Host", "x"), ("Cookie", "a"), ("bad name", "b"), ("X-A", "c\n"), ("Range", "r"), ("Accept-Encoding", "z")]);
    let sent = fetch_headers(&h);
    assert_eq!(sent.entries, vec![("Cookie".to_string(), "a".to_string()), ("Range".to_string(), "r".to_string())]);
    assert_eq!(probe_headers(&map(&[("Host", "x"), ("Cookie", "a"), ("range", "r"), ("B", "c")])), "Cookie: a\r\nB: c\r\n");
    let args = probe_args("u", "");
    assert_eq!(args.len(), 7);
    assert_eq!(args[6], "u");
    let args = probe_args("u", "h");
    assert_eq!(&args[6..], &["-headers".to_string(), "h".to_string(), "u".to_string()]);
}

#[test]
fn servers_are_asked() {
    assert_eq!(read_answer("Application/X-MPEGURL"), Answer::Hls);
    assert_eq!(read_answer("application/dash+xml"), Answer::Dash);
    assert_eq!(read_answer("video/webm"), Answer::File);
    assert_eq!(read_answer("audio/aac"), Answer::File);
    assert_eq!(read_answer("text/plain"), Answer::Unclear);
    assert!(matches!(parse_answer(Answer::Unclear, "https://x/a/b", MEDIA), Ok((_, StreamFormat::Hls))));
    assert!(matches!(parse_answer(Answer::Unclear, "https://x/a/b", MPD), Ok((_, StreamFormat::Dash))));
    let e = parse_answer(Answer::Unclear, "https://x/a/b", "no xml <").unwrap_err();
    assert_eq!(e, "unknown format or unsupported media");
    assert!(parse_answer(Answer::Hls, "https://x/a/b", MPD).is_err());
    assert!(parse_answer(Answer::Dash, "https://x/a/b", MEDIA).is_err());
    assert_eq!(parse_hls("https://x/a/b.m3u8", MEDIA).unwrap().segment_base_url, Some("https://x/a/".to_string()));
    assert_eq!(parse_dash("https://x/a/b.mpd", MPD).unwrap().segment_base_url, Some("https://x/a/".to_string()));
}

#[test]
fn files_are_looked_at() {
    let report = b"{\"format\":{\"duration\":\"12.5\",\"size\":\"1000\",\"bit_rate\":\"800\"},\"streams\":[
        {\"codec_type\":\"video\",\"width\":640,\"height\":360,\"codec_name\":\"h264\",\"r_frame_rate\":\"30/1\"},
        {\"codec_type\":\"video\",\"width\":0,\"height\":360},
        {\"codec_type\":\"audio\",\"codec_name\":\"aac\"},{\"codec_type\":\"audio\"}]}";
    let p = read_probe(&report.to_vec()).unwrap();
    assert_eq!(p.streams.len(), 4);
    assert_eq!(p.streams[0].frame_rate, "30/1");
    let rates = vec!["30".to_string(), String::new(), String::new(), String::new()];
    let m = probe_metadata(&p, &rates, "https://x/a.mp4");
    assert_eq!(m.resolutions.len(), 1);
    assert_eq!((m.resolutions[0].label.as_str(), m.resolutions[0].bandwidth), ("640x360", 800));
    assert_eq!(m.resolutions[0].frame_rate, Some("30".to_string()));
    assert_eq!(m.audio_tracks, vec!["Audio Track (aac)".to_string(), "Audio Track (unknown)".to_string()]);
    assert_eq!(m.size_bytes, Some(1000));
    assert!(matches!(m.duration, DurationSource::Text(t) if t == "12.5"));
    assert!(read_probe(&b"no json".to_vec()).is_none());
    let m = untold_file("https://x/a.mp4");
    assert_eq!(m.resolutions[0].label, "Unknown Resolution");
    assert_eq!(m.total_segments, 1);
}

#[test]
fn names_are_cleaned() {
    assert_eq!(clean_filename("a.mp4", StreamFormat::Hls), "a.mp4");
    assert_eq!(clean_filename("a.html", StreamFormat::Mp4), "a.mp4");
    assert_eq!(clean_filename("a.m3u8", StreamFormat::Hls), "a.m3u8");
    assert_eq!(clean_filename("a", StreamFormat::Ts), "a.ts");
    assert_eq!(
        output_parts("https://x/v/clip.v1.html?q=/1?2", StreamFormat::Mp4, false).0,
        "1"
    );
    assert_eq!(
        output_parts("https://x/v/clip.m3u8?q=1", StreamFormat::Hls, true),
        ("clip_test".to_string(), ".m3u8".to_string())
    );
    assert_eq!(candidate_name("a", ".mp4", 0), "a.mp4");
    assert_eq!(candidate_name("a", ".mp4", 2), "a(2).mp4");
    assert_eq!(output_path("a.mp4"), "/tmp/spectur-downloads/a.mp4");
}

#[test]
fn programs_get_their_arguments() {
    assert_eq!(select_downloader("u", StreamFormat::Dash), Downloader::StreamTool);
    assert_eq!(select_downloader("https://x/A.M3U8", StreamFormat::Unknown), Downloader::StreamTool);
    assert_eq!(select_downloader("u", StreamFormat::Mp4).binary(), "aria2c");
    let h = map(&[("cookie", "c"), ("Host", "h"), ("A", "b")]);
    let mut k = key_info("u");
    k.key_hex = Some("01".to_string());
    let args = build_args(Downloader::StreamTool, "U", "f.x.mp4", &Some("1x1".to_string()), &h, &vec![k], true);
    let expected = [
        "-H", "Cookie: c", "-H", "A: b", "U", "--save-dir", "/tmp/spectur-downloads", "--save-name", "f.x", "--tmp-dir",
        "/tmp/spectur-downloads/tmp-f.x", "--auto-select", "--check-segments-count=false", "--custom-range", "0-5", "-sv",
        "res=1x1", "--key", "01",
    ];
    assert_eq!(args, expected);
    let args = build_args(Downloader::FileTool, "U", "f.mp4", &None, &h, &Vec::new(), false);
    let expected = [
        "--header=cookie: c", "--header=A: b", "U", "-d", "/tmp/spectur-downloads", "-o", "f.mp4", "--continue=true", "-x16",
        "-s16",
    ];
    assert_eq!(args, expected);
    assert_eq!(
        yt_format_args("U", 18, true),
        ["U", "-o", "/tmp/spectur-downloads/%(title)s_test.%(ext)s", "-f", "18", "--download-sections", "*0:00-0:10"]
    );
    assert_eq!(
        yt_download_args("U", "f.mp4", None, false),
        ["U", "-o", "/tmp/spectur-downloads/%(title)s.%(ext)s", "-f", "bestvideo+bestaudio/best"]
    );
}

#[test]
fn headers_are_completed() {
    let page = "https://p.example:8080/x";
    let parts = UrlParts::parse(page);
    let h = complete_headers(map(&[("USER-AGENT", "me")]), &Some(page.to_string()), &parts);
    assert_eq!(h.len(), 3);
    assert_eq!(h.entries[1], ("Referer".to_string(), page.to_string()));
    assert_eq!(h.entries[2], ("Origin".to_string(), "https://p.example".to_string()));
    let h = complete_headers(TextMap::new(), &None, &None);
    assert_eq!(h.len(), 1);
    assert!(h.entries[0].1.starts_with("Mozilla/5.0"));
}

#[test]
fn percentages_are_found() {
    assert_eq!(percent_text("[#1 10MiB/20MiB(50.5%) CN:16]"), Some("50.5".to_string()));
    assert_eq!(percent_text("1.2.3 then 7% of 100%"), Some("7".to_string()));
    assert_eq!(percent_text("a.%"), Some(".".to_string()));
    assert_eq!(percent_text("100 %"), None);
}

#[test]
fn downloads_are_followed() {
    let mut app = AppState::new();
    let id = app.start_download("https://x/a", "/tmp/a", true);
    assert_eq!(id, 0);
    assert_eq!(app.tui_logs[0], "Starting test download: https://x/a");
    for i in 0..(MAX_LOG_LINES + 5) {
        app.note_line(id, format!("line {i}"), if i == 3 { Some(40) } else { None });
    }
    assert_eq!(app.downloads[0].log_lines.len(), MAX_LOG_LINES);
    assert_eq!(app.downloads[0].log_lines[0], "line 5");
    assert_eq!(app.downloads[0].progress, 40);
    app.finish_download(id, Ok(()));
    assert!(matches!(app.downloads[0].status, DownloadStatus::Finished));
    assert_eq!(app.downloads[0].progress, 100);
    assert_eq!(app.tui_logs[1], "Download complete: /tmp/a");
    app.finish_download(9, Ok(()));
    assert_eq!(app.tui_logs.len(), 2);
    let format = YtFormat {
        itag: 18,
        mime_type: "video/mp4".to_string(),
        bitrate: None,
        width: Some(1),
        height: Some(2),
        fps: None,
        quality_label: None,
        content_length: None,
        approx_duration_ms: None,
        audio_channels: None,
        audio_sample_rate: None,
    };
    let id = app.start_yt_download("https://y/", &format, false);
    assert_eq!(app.tui_logs[2], "Starting YT download: 1x2 (itag 18)");
    app.finish_yt_download(id, Err("x".to_string()));
    assert_eq!(app.tui_logs[3], "YT download failed: x");
    assert!(matches!(&app.downloads[id].status, DownloadStatus::Failed(e) if e == "x"));
}

#[test]
fn the_selection_decides() {
    let mut app = AppState::new();
    assert!(matches!(app.choice(false), Choice::Nothing));
    app.add_stream(request("https://p/", "https://x/a/one.m3u8"));
    assert!(matches!(app.choice(true), Choice::Nothing));
    assert!(matches!(app.choice(false), Choice::Look { stream_id: 1, .. }));
    let m = parse_hls_content(MASTER, "https://x/").unwrap();
    app.finish_look(1, Ok((m, StreamFormat::Hls)));
    assert!(matches!(app.choice(true), Choice::Download { resolution: Some(r), .. } if r == "640x360"));
    app.next_resolution();
    assert!(matches!(app.choice(true), Choice::Download { resolution: Some(r), .. } if r == "1280x720"));
    app.prev_resolution();
    assert_eq!(app.selected_resolution_index, 0);
    app.prev_resolution();
    assert_eq!(app.selected_resolution_index, 1);
    let source = app.download_source("https://x/a/one.m3u8", &None);
    assert_eq!(source.format, StreamFormat::Hls);
    assert_eq!(source.headers.len(), 4);
    let source = app.download_source("https://nowhere/", &None);
    assert_eq!(source.format, StreamFormat::Unknown);
}

#[test]
fn selections_are_copied() {
    let mut app = AppState::new();
    app.add_stream(request("https://p/", "https://x/a/one.m3u8"));
    assert_eq!(app.text_to_copy("0"), None);
    app.focused_panel = Panel::Metadata;
    let m = parse_hls_content(MASTER, "https://x/").unwrap();
    app.finish_look(1, Ok((m, StreamFormat::Hls)));
    let text = app.text_to_copy("0").unwrap();
    assert_eq!(
        text,
        "URL: https://x/a/one.m3u8\nMethod: GET\nFormat: Hls\nServer IP: \nHeaders:\n  Cookie: a=1\nProbe State: Done\n  \
         Duration: 0s\n  Total Segments: 0\n  Resolutions:\n => 640x360 (bandwidth: 800000)\n    1280x720 (bandwidth: \
         2000000)\n  Audio Tracks:\n    English\n"
    );
    assert_eq!(format_metadata_for_copy(&app.tabs[0].streams[0], "0", 0), text);
    app.focused_panel = Panel::Downloads;
    app.note_copy(Ok(()));
    app.note_copy(Err("x".to_string()));
    assert_eq!(
        app.text_to_copy("0").unwrap(),
        "Copied selection to system clipboard successfully!\nFailed to copy to clipboard: x"
    );
    assert_eq!(format_logs_for_copy(&Vec::new()), "");
}
