//! What the keys of the interface do.

use vstd::prelude::*;
use crate::numerals::{decimal, decimal_string};
use crate::request::copy_text;
use crate::spectur::types::{
    AppState, CapturedStream, DrmInfo, DrmView, KeyInfo, KeyView, MetadataView, Panel, ProbeState, ResolutionInfo,
    ResolutionView, SelectionView, StreamFormat, StreamMetadata, TabSession,
};
use crate::text::{join, joined, owned, texts};
use crate::text_map::TextMap;
use crate::web_url::opt_text;

verus! {

/// What is to be done with what is selected.
#[derive(Debug)]
pub enum Choice {
    Nothing,
    /// A format of a video is downloaded: the page and the number of the format.
    Video { page_url: String, format: usize },
    /// A stream is downloaded, in one of its resolutions.
    Download { url: String, resolution: Option<String> },
    /// A stream is looked at again.
    Look { stream_id: u64, url: String, headers: TextMap, manifest_content: Option<String> },
}

/// The formats of the selected page count.
pub open spec fn formats_count(app: AppState) -> bool {
    app.tabs@.len() > 0 && app.tabs@[app.selected_tab_index as int].yt_formats@.len() > 0 && app.focused_panel
        == Panel::Metadata
}

/// `c` is what is to be done with what is selected.
pub open spec fn is_choice(app: AppState, is_test: bool, c: Choice) -> bool {
    if formats_count(app) {
        let tab = app.tabs@[app.selected_tab_index as int];
        if app.selected_yt_format_index < tab.yt_formats@.len() {
            c matches Choice::Video { page_url, format } && page_url@ == tab.page_url@ && format
                == app.selected_yt_format_index
        } else {
            c is Nothing
        }
    } else {
        match app.selected() {
            Some((t, j)) => {
                let s = app.tabs@[t].streams@[j];
                match s.probe_state {
                    ProbeState::Done(meta) => c matches Choice::Download { url, resolution } && url@ == s.url@
                        && opt_text(resolution) == if app.selected_resolution_index < meta.resolutions@.len() {
                        Some(meta.resolutions@[app.selected_resolution_index as int].label@)
                    } else {
                        None
                    },
                    _ => if is_test {
                        c is Nothing
                    } else {
                        c matches Choice::Look { stream_id, url, headers, manifest_content } && stream_id
                            == s.stream_id && url@ == s.url@ && headers@ == s.request_headers@ && opt_text(
                            manifest_content,
                        ) == opt_text(s.manifest_content)
                    },
                }
            },
            None => c is Nothing,
        }
    }
}

/// The text of the notes.
pub fn format_logs_for_copy(logs: &Vec<String>) -> (r: String)
    ensures
        r@ == join(texts(logs@), "\n"@),
{
    joined(logs, "\n")
}

/// The name of a kind of streams.
pub open spec fn format_name(f: StreamFormat) -> Seq<char> {
    match f {
        StreamFormat::Hls => "Hls"@,
        StreamFormat::Dash => "Dash"@,
        StreamFormat::Mp4 => "Mp4"@,
        StreamFormat::Ts => "Ts"@,
        StreamFormat::Youtube => "Youtube"@,
        StreamFormat::Unknown => "Unknown"@,
    }
}

fn name_of_format(f: StreamFormat) -> (r: &'static str)
    ensures
        r@ == format_name(f),
{
    match f {
        StreamFormat::Hls => "Hls",
        StreamFormat::Dash => "Dash",
        StreamFormat::Mp4 => "Mp4",
        StreamFormat::Ts => "Ts",
        StreamFormat::Youtube => "Youtube",
        StreamFormat::Unknown => "Unknown",
    }
}

/// A labelled line.
pub open spec fn line(label: Seq<char>, value: Seq<char>) -> Seq<char> {
    label + value + "\n"@
}

/// A labelled line for a value that may be missing.
pub open spec fn opt_line(label: Seq<char>, value: Option<Seq<char>>) -> Seq<char> {
    match value {
        Some(v) => line(label, v),
        None => Seq::empty(),
    }
}

/// The lines of the first `n` headers.
pub open spec fn header_text(headers: Seq<(Seq<char>, Seq<char>)>, n: int) -> Seq<char>
    decreases n,
{
    if n <= 0 {
        Seq::empty()
    } else {
        header_text(headers, n - 1) + line("  "@ + headers[n - 1].0 + ": "@, headers[n - 1].1)
    }
}

/// The lines of the first `n` resolutions; the selected one is marked.
pub open spec fn resolution_text(rows: Seq<ResolutionView>, selected: int, n: int) -> Seq<char>
    decreases n,
{
    if n <= 0 {
        Seq::empty()
    } else {
        let mark = if n - 1 == selected {
            " => "@
        } else {
            "    "@
        };
        resolution_text(rows, selected, n - 1) + line(
            mark + rows[n - 1].label + " (bandwidth: "@,
            decimal(rows[n - 1].bandwidth as nat) + ")"@,
        )
    }
}

/// The lines of the first `n` sound tracks.
pub open spec fn track_text(tracks: Seq<Seq<char>>, n: int) -> Seq<char>
    decreases n,
{
    if n <= 0 {
        Seq::empty()
    } else {
        track_text(tracks, n - 1) + line("    "@, tracks[n - 1])
    }
}

/// The lines of a key.
pub open spec fn key_text(k: KeyView) -> Seq<char> {
    line("    Method: "@, k.method) + opt_line("    Key URI: "@, k.uri) + opt_line("    IV: "@, k.iv) + opt_line(
        "    Key Format: "@,
        k.keyformat,
    ) + opt_line("    Key Hex: "@, k.key_hex)
}

/// The lines of the first `n` keys.
pub open spec fn keys_text(keys: Seq<KeyView>, n: int) -> Seq<char>
    decreases n,
{
    if n <= 0 {
        Seq::empty()
    } else {
        keys_text(keys, n - 1) + key_text(keys[n - 1])
    }
}

/// The lines of a protection.
pub open spec fn drm_text(d: DrmView) -> Seq<char> {
    line("    System: "@, d.system) + line("    Scheme: "@, d.scheme_id_uri) + opt_line("    KID: "@, d.default_kid)
        + opt_line("    License: "@, d.license_url)
}

/// The lines of the first `n` protections.
pub open spec fn drms_text(drm: Seq<DrmView>, n: int) -> Seq<char>
    decreases n,
{
    if n <= 0 {
        Seq::empty()
    } else {
        drms_text(drm, n - 1) + drm_text(drm[n - 1])
    }
}

/// The lines of what is known of a stream.
pub open spec fn metadata_text(m: MetadataView, duration: Seq<char>, selected: int) -> Seq<char> {
    line("  Duration: "@, duration + "s"@) + (match m.size_bytes {
        Some(n) => line("  File Size: "@, decimal(n as nat) + " bytes"@),
        None => Seq::empty(),
    }) + line("  Total Segments: "@, decimal(m.total_segments as nat)) + "  Resolutions:\n"@ + resolution_text(
        m.resolutions,
        selected,
        m.resolutions.len() as int,
    ) + "  Audio Tracks:\n"@ + track_text(m.audio_tracks, m.audio_tracks.len() as int) + (if m.keys.len() > 0 {
        "  Encryption Keys:\n"@ + keys_text(m.keys, m.keys.len() as int)
    } else {
        Seq::empty()
    }) + (if m.drm.len() > 0 {
        "  DRM Protection:\n"@ + drms_text(m.drm, m.drm.len() as int)
    } else {
        Seq::empty()
    })
}

/// The text on a stream. `duration` is its duration in seconds.
pub open spec fn stream_text(s: CapturedStream, duration: Seq<char>, selected: int) -> Seq<char> {
    line("URL: "@, s.url@) + line("Method: "@, s.method@) + line("Format: "@, format_name(s.format)) + line(
        "Server IP: "@,
        s.server_ip@,
    ) + "Headers:\n"@ + header_text(s.request_headers@, s.request_headers@.len() as int) + "Probe State: "@ + (
    match s.probe_state {
        ProbeState::Probing => "Probing...\n"@,
        ProbeState::Failed(e) => line("Failed: "@, e@),
        ProbeState::Done(meta) => "Done\n"@ + metadata_text(meta@, duration, selected),
    })
}

fn add_line(s: &mut String, label: &str, value: &str)
    ensures
        final(s)@ == old(s)@ + line(label@, value@),
{
    let ghost before = s@;
    s.append(label);
    s.append(value);
    s.append("\n");
    assert(s@ =~= before + line(label@, value@));
}

fn add_opt_line(s: &mut String, label: &str, value: &Option<String>)
    ensures
        final(s)@ == old(s)@ + opt_line(label@, opt_text(*value)),
{
    match value {
        Some(v) => {
            add_line(s, label, v.as_str());
        },
        None => {
            assert(s@ + Seq::<char>::empty() =~= s@);
        },
    }
}

fn text_of_headers(headers: &TextMap) -> (s: String)
    ensures
        s@ == header_text(headers@, headers@.len() as int),
{
    let mut s: String = String::new();
    assert(s@ =~= Seq::empty());
    let mut i: usize = 0;
    while i < headers.entries.len()
        invariant
            i <= headers.entries@.len(),
            s@ == header_text(headers@, i as int),
        decreases headers.entries@.len() - i,
    {
        assert(headers@[i as int] == (headers.entries@[i as int].0@, headers.entries@[i as int].1@));
        let mut label: String = owned("  ");
        label.append(headers.entries[i].0.as_str());
        label.append(": ");
        add_line(&mut s, label.as_str(), headers.entries[i].1.as_str());
        i = i + 1;
    }
    s
}

fn text_of_resolutions(meta: &StreamMetadata, selected: usize) -> (s: String)
    ensures
        s@ == resolution_text(meta@.resolutions, selected as int, meta@.resolutions.len() as int),
{
    let ghost rows = meta@.resolutions;
    let mut s: String = String::new();
    assert(s@ =~= Seq::empty());
    let mut i: usize = 0;
    while i < meta.resolutions.len()
        invariant
            i <= meta.resolutions@.len(),
            rows == meta@.resolutions,
            s@ == resolution_text(rows, selected as int, i as int),
        decreases meta.resolutions@.len() - i,
    {
        let r: &ResolutionInfo = &meta.resolutions[i];
        assert(rows[i as int] == r@);
        let mut label: String = if i == selected {
            owned(" => ")
        } else {
            owned("    ")
        };
        label.append(r.label.as_str());
        label.append(" (bandwidth: ");
        let mut value: String = decimal_string(r.bandwidth);
        value.append(")");
        add_line(&mut s, label.as_str(), value.as_str());
        i = i + 1;
    }
    s
}

fn text_of_tracks(tracks: &Vec<String>) -> (s: String)
    ensures
        s@ == track_text(texts(tracks@), tracks@.len() as int),
{
    let mut s: String = String::new();
    assert(s@ =~= Seq::empty());
    let mut i: usize = 0;
    while i < tracks.len()
        invariant
            i <= tracks@.len(),
            s@ == track_text(texts(tracks@), i as int),
        decreases tracks@.len() - i,
    {
        assert(texts(tracks@)[i as int] == tracks@[i as int]@);
        add_line(&mut s, "    ", tracks[i].as_str());
        i = i + 1;
    }
    s
}

fn text_of_keys(meta: &StreamMetadata) -> (s: String)
    ensures
        s@ == keys_text(meta@.keys, meta@.keys.len() as int),
{
    let ghost keys = meta@.keys;
    let mut s: String = String::new();
    assert(s@ =~= Seq::empty());
    let mut i: usize = 0;
    while i < meta.keys.len()
        invariant
            i <= meta.keys@.len(),
            keys == meta@.keys,
            s@ == keys_text(keys, i as int),
        decreases meta.keys@.len() - i,
    {
        let k: &KeyInfo = &meta.keys[i];
        assert(keys[i as int] == k@);
        let ghost before = s@;
        add_line(&mut s, "    Method: ", k.method.as_str());
        add_opt_line(&mut s, "    Key URI: ", &k.uri);
        add_opt_line(&mut s, "    IV: ", &k.iv);
        add_opt_line(&mut s, "    Key Format: ", &k.keyformat);
        add_opt_line(&mut s, "    Key Hex: ", &k.key_hex);
        assert(s@ =~= before + key_text(k@));
        i = i + 1;
    }
    s
}

fn text_of_drm(meta: &StreamMetadata) -> (s: String)
    ensures
        s@ == drms_text(meta@.drm, meta@.drm.len() as int),
{
    let ghost drm = meta@.drm;
    let mut s: String = String::new();
    assert(s@ =~= Seq::empty());
    let mut i: usize = 0;
    while i < meta.drm.len()
        invariant
            i <= meta.drm@.len(),
            drm == meta@.drm,
            s@ == drms_text(drm, i as int),
        decreases meta.drm@.len() - i,
    {
        let d: &DrmInfo = &meta.drm[i];
        assert(drm[i as int] == d@);
        let ghost before = s@;
        add_line(&mut s, "    System: ", d.system.as_str());
        add_line(&mut s, "    Scheme: ", d.scheme_id_uri.as_str());
        add_opt_line(&mut s, "    KID: ", &d.default_kid);
        add_opt_line(&mut s, "    License: ", &d.license_url);
        assert(s@ =~= before + drm_text(d@));
        i = i + 1;
    }
    s
}

fn text_of_metadata(meta: &StreamMetadata, duration: &str, selected: usize) -> (s: String)
    ensures
        s@ == metadata_text(meta@, duration@, selected as int),
{
    let mut s: String = String::new();
    let mut seconds: String = owned(duration);
    seconds.append("s");
    add_line(&mut s, "  Duration: ", seconds.as_str());
    match meta.size_bytes {
        Some(n) => {
            let mut size: String = decimal_string(n);
            size.append(" bytes");
            add_line(&mut s, "  File Size: ", size.as_str());
        },
        None => {},
    }
    let count: String = decimal_string(meta.total_segments as u64);
    add_line(&mut s, "  Total Segments: ", count.as_str());
    s.append("  Resolutions:\n");
    let rows: String = text_of_resolutions(meta, selected);
    s.append(rows.as_str());
    s.append("  Audio Tracks:\n");
    let tracks: String = text_of_tracks(&meta.audio_tracks);
    s.append(tracks.as_str());
    if meta.keys.len() > 0 {
        s.append("  Encryption Keys:\n");
        let keys: String = text_of_keys(meta);
        s.append(keys.as_str());
    }
    if meta.drm.len() > 0 {
        s.append("  DRM Protection:\n");
        let drm: String = text_of_drm(meta);
        s.append(drm.as_str());
    }
    assert(s@ =~= metadata_text(meta@, duration@, selected as int));
    s
}

/// The text on a stream. `duration` is its duration in seconds, where it is known.
pub fn format_metadata_for_copy(stream: &CapturedStream, duration: &str, selected_resolution_index: usize) -> (s: String)
    ensures
        s@ == stream_text(*stream, duration@, selected_resolution_index as int),
{
    let mut s: String = String::new();
    add_line(&mut s, "URL: ", stream.url.as_str());
    add_line(&mut s, "Method: ", stream.method.as_str());
    add_line(&mut s, "Format: ", name_of_format(stream.format));
    add_line(&mut s, "Server IP: ", stream.server_ip.as_str());
    s.append("Headers:\n");
    let headers: String = text_of_headers(&stream.request_headers);
    s.append(headers.as_str());
    s.append("Probe State: ");
    match &stream.probe_state {
        ProbeState::Probing => {
            s.append("Probing...\n");
        },
        ProbeState::Failed(e) => {
            add_line(&mut s, "Failed: ", e.as_str());
        },
        ProbeState::Done(meta) => {
            s.append("Done\n");
            let text: String = text_of_metadata(meta, duration, selected_resolution_index);
            s.append(text.as_str());
        },
    }
    assert(s@ =~= stream_text(*stream, duration@, selected_resolution_index as int));
    s
}

/// The text that is copied, given the duration of the selected stream.
pub open spec fn copied(app: AppState, duration: Seq<char>) -> Option<Seq<char>> {
    match app.focused_panel {
        Panel::Metadata => match app.selected() {
            Some((t, j)) => Some(
                stream_text(app.tabs@[t].streams@[j], duration, app.selected_resolution_index as int),
            ),
            None => None,
        },
        Panel::Downloads => if app.selected_download_index < app.downloads@.len() {
            Some(join(texts(app.downloads@[app.selected_download_index as int].log_lines@), "\n"@))
        } else {
            Some(join(texts(app.tui_logs@), "\n"@))
        },
        Panel::Streams => None,
    }
}

impl AppState {
    /// What is to be done with what is selected. A test download looks at nothing.
    pub fn choice(&self, is_test: bool) -> (r: Choice)
        requires
            self.wf(),
        ensures
            is_choice(*self, is_test, r),
    {
        if self.tabs.len() > 0 && self.tabs[self.selected_tab_index].yt_formats.len() > 0 && self.focused_panel
            == Panel::Metadata {
            let tab: &TabSession = &self.tabs[self.selected_tab_index];
            return if self.selected_yt_format_index < tab.yt_formats.len() {
                Choice::Video { page_url: owned(tab.page_url.as_str()), format: self.selected_yt_format_index }
            } else {
                Choice::Nothing
            };
        }
        match self.selected_stream() {
            Some(s) => match &s.probe_state {
                ProbeState::Done(meta) => Choice::Download {
                    url: owned(s.url.as_str()),
                    resolution: if self.selected_resolution_index < meta.resolutions.len() {
                        Some(owned(meta.resolutions[self.selected_resolution_index].label.as_str()))
                    } else {
                        None
                    },
                },
                _ => if is_test {
                    Choice::Nothing
                } else {
                    Choice::Look {
                        stream_id: s.stream_id,
                        url: owned(s.url.as_str()),
                        headers: s.request_headers.clone(),
                        manifest_content: copy_text(&s.manifest_content),
                    }
                },
            },
            None => Choice::Nothing,
        }
    }

    /// The text that is copied: what is known of the selected stream, or the
    /// lines of the selected download. `duration` is the duration of the
    /// selected stream in seconds.
    pub fn text_to_copy(&self, duration: &str) -> (r: Option<String>)
        requires
            self.wf(),
        ensures
            opt_text(r) == copied(*self, duration@),
    {
        match self.focused_panel {
            Panel::Metadata => match self.selected_stream() {
                Some(s) => Some(format_metadata_for_copy(s, duration, self.selected_resolution_index)),
                None => None,
            },
            Panel::Downloads => if self.selected_download_index < self.downloads.len() {
                Some(format_logs_for_copy(&self.downloads[self.selected_download_index].log_lines))
            } else {
                Some(format_logs_for_copy(&self.tui_logs))
            },
            Panel::Streams => None,
        }
    }

    /// Notes how a copy to the clipboard went.
    pub fn note_copy(&mut self, result: Result<(), String>)
        ensures
            texts(final(self).tui_logs@) == texts(old(self).tui_logs@).push(
                match result {
                    Ok(_) => "Copied selection to system clipboard successfully!"@,
                    Err(e) => "Failed to copy to clipboard: "@ + e@,
                },
            ),
            final(self).selection() == old(self).selection(),
            final(self).next_stream_id == old(self).next_stream_id,
            final(self).tabs == old(self).tabs,
            final(self).downloads == old(self).downloads,
            final(self).intercepted_keys == old(self).intercepted_keys,
    {
        let note: String = match &result {
            Ok(_) => owned("Copied selection to system clipboard successfully!"),
            Err(e) => {
                let mut t: String = owned("Failed to copy to clipboard: ");
                t.append(e.as_str());
                t
            },
        };
        let ghost added = note@;
        self.tui_logs.push(note);
        assert(texts(self.tui_logs@) =~= texts(old(self).tui_logs@).push(added));
    }

    /// Shows the pieces of streams of the selected page, or hides them.
    pub fn toggle_noise(&mut self)
        requires
            old(self).wf(),
        ensures
            final(self).wf(),
            final(self).next_stream_id == old(self).next_stream_id,
            final(self).downloads == old(self).downloads,
            final(self).intercepted_keys == old(self).intercepted_keys,
            if old(self).tabs@.len() > 0 {
                let t = old(self).selected_tab_index as int;
                &&& final(self).tabs@ == old(self).tabs@.update(
                    t,
                    TabSession { show_noise: !old(self).tabs@[t].show_noise, ..old(self).tabs@[t] },
                )
                &&& final(self).selection() == (SelectionView { stream: 0, resolution: 0, ..old(self).selection() })
                &&& texts(final(self).tui_logs@) == texts(old(self).tui_logs@).push(
                    if old(self).tabs@[t].show_noise {
                        "Noise: hiding segments"@
                    } else {
                        "Noise: showing segments"@
                    },
                )
            } else {
                *final(self) == *old(self)
            },
    {
        let t: usize = self.selected_tab_index;
        if t < self.tabs.len() {
            let show: bool = !self.tabs[t].show_noise;
            self.tabs[t].show_noise = show;
            self.selected_stream_index = 0;
            self.selected_resolution_index = 0;
            let note: String = if show {
                owned("Noise: showing segments")
            } else {
                owned("Noise: hiding segments")
            };
            let ghost added = note@;
            self.tui_logs.push(note);
            assert(self.tabs@ =~= old(self).tabs@.update(
                t as int,
                TabSession { show_noise: !old(self).tabs@[t as int].show_noise, ..old(self).tabs@[t as int] },
            ));
            assert(texts(self.tui_logs@) =~= texts(old(self).tui_logs@).push(added));
        }
    }
}

} // verus!
