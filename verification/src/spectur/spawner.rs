//! How streams are downloaded: by which program, with which arguments, and
//! what becomes of it.

use vstd::prelude::*;
use crate::numerals::{decimal, decimal_string, signed_decimal, signed_decimal_string};
use crate::spectur::types::{KeyInfo, StreamFormat};
use crate::text::{
    char_index, chars_of, contains, ends, ends_with, index_of_char, last_char_index, last_index_of, lower_unicode,
    mentions, owned, same, string_between, texts, unicode_lower,
};
use crate::text_map::TextMap;
use crate::web_url::opt_text;

verus! {

/// Where downloads are kept.
pub open spec fn download_dir() -> Seq<char> {
    "/tmp/spectur-downloads"@
}

/// The name of a medium.
pub open spec fn names_medium(s: Seq<char>) -> bool {
    ||| ends_with(s, ".mp4"@)
    ||| ends_with(s, ".mkv"@)
    ||| ends_with(s, ".webm"@)
    ||| ends_with(s, ".ts"@)
    ||| ends_with(s, ".mov"@)
    ||| ends_with(s, ".avi"@)
    ||| ends_with(s, ".mp3"@)
    ||| ends_with(s, ".m4a"@)
    ||| ends_with(s, ".aac"@)
}

/// The name of a page, a script or a text.
pub open spec fn names_page(s: Seq<char>) -> bool {
    ||| ends_with(s, ".html"@)
    ||| ends_with(s, ".htm"@)
    ||| ends_with(s, ".js"@)
    ||| ends_with(s, ".css"@)
    ||| ends_with(s, ".txt"@)
}

/// The name before its last dot, if it has one.
pub open spec fn before_dot(s: Seq<char>) -> Seq<char> {
    if last_index_of(s, '.') >= 0 {
        s.take(last_index_of(s, '.'))
    } else {
        s
    }
}

/// The name under which a stream is kept.
pub open spec fn clean_name(s: Seq<char>, format: StreamFormat) -> Seq<char> {
    if names_medium(s) {
        s
    } else {
        let name = if names_page(s) {
            before_dot(s)
        } else {
            s
        };
        match format {
            StreamFormat::Hls | StreamFormat::Dash => name,
            StreamFormat::Ts => name + ".ts"@,
            _ => name + ".mp4"@,
        }
    }
}

fn is_medium(s: &str) -> (r: bool)
    ensures
        r == names_medium(s@),
{
    ends(s, ".mp4") || ends(s, ".mkv") || ends(s, ".webm") || ends(s, ".ts") || ends(s, ".mov") || ends(s, ".avi")
        || ends(s, ".mp3") || ends(s, ".m4a") || ends(s, ".aac")
}

fn is_page(s: &str) -> (r: bool)
    ensures
        r == names_page(s@),
{
    ends(s, ".html") || ends(s, ".htm") || ends(s, ".js") || ends(s, ".css") || ends(s, ".txt")
}

/// The name under which a stream of the given kind is kept.
pub fn clean_filename(filename: &str, format: StreamFormat) -> (r: String)
    ensures
        r@ == clean_name(filename@, format),
{
    if is_medium(filename) {
        return owned(filename);
    }
    let mut name: String = owned(filename);
    if is_page(filename) {
        let v: Vec<char> = chars_of(filename);
        match last_char_index(&v, '.') {
            Some(i) => {
                name = string_between(&v, 0, i);
                assert(name@ =~= filename@.take(i as int));
            },
            None => {},
        }
    }
    match format {
        StreamFormat::Hls | StreamFormat::Dash => {},
        StreamFormat::Ts => {
            name.append(".ts");
        },
        _ => {
            name.append(".mp4");
        },
    }
    name
}

/// The name at the end of a URL, without its query.
pub open spec fn name_in_url(url: Seq<char>) -> Seq<char> {
    let last = url.skip(last_index_of(url, '/') + 1);
    last.take(index_of_char(last, '?'))
}

/// The name at the end of a URL, without its query.
pub fn url_name(url: &str) -> (r: String)
    ensures
        r@ == name_in_url(url@),
{
    let v: Vec<char> = chars_of(url);
    let n: usize = v.len();
    let from: usize = match last_char_index(&v, '/') {
        Some(i) => i + 1,
        None => 0,
    };
    let last: String = string_between(&v, from, n);
    assert(last@ =~= url@.skip(last_index_of(url@, '/') + 1));
    let w: Vec<char> = chars_of(last.as_str());
    let q: usize = char_index(&w, '?');
    let r: String = string_between(&w, 0, q);
    assert(r@ =~= last@.take(q as int));
    r
}

/// The two parts of a file name: before its last dot, and from there.
pub open spec fn name_parts(url: Seq<char>, format: StreamFormat, is_test: bool) -> (Seq<char>, Seq<char>) {
    let name = clean_name(name_in_url(url), format);
    let i = last_index_of(name, '.');
    let (base, ext) = if i >= 0 {
        (name.take(i), name.skip(i))
    } else {
        (name, Seq::empty())
    };
    if is_test {
        (base + "_test"@, ext)
    } else {
        (base, ext)
    }
}

/// The two parts of the file name of a download.
pub fn output_parts(url: &str, format: StreamFormat, is_test: bool) -> (r: (String, String))
    ensures
        (r.0@, r.1@) == name_parts(url@, format, is_test),
{
    let filename: String = url_name(url);
    let name: String = clean_filename(filename.as_str(), format);
    let v: Vec<char> = chars_of(name.as_str());
    let n: usize = v.len();
    let cut: usize = match last_char_index(&v, '.') {
        Some(i) => i,
        None => n,
    };
    let mut base: String = string_between(&v, 0, cut);
    let ext: String = string_between(&v, cut, n);
    proof {
        let i = last_index_of(name@, '.');
        if i >= 0 {
            assert(base@ =~= name@.take(i));
            assert(ext@ =~= name@.skip(i));
        } else {
            assert(base@ =~= name@);
            assert(ext@ =~= Seq::empty());
        }
    }
    if is_test {
        base.append("_test");
    }
    (base, ext)
}

/// The `n`th name that is tried for a download.
pub open spec fn nth_name(base: Seq<char>, ext: Seq<char>, n: nat) -> Seq<char> {
    if n == 0 {
        base + ext
    } else {
        base + "("@ + decimal(n) + ")"@ + ext
    }
}

/// The `n`th name that is tried for a download: the plain one, then numbered ones.
pub fn candidate_name(base: &str, ext: &str, n: u64) -> (r: String)
    ensures
        r@ == nth_name(base@, ext@, n as nat),
{
    let mut r: String = owned(base);
    if n > 0 {
        let number: String = decimal_string(n);
        r.append("(");
        r.append(number.as_str());
        r.append(")");
    }
    r.append(ext);
    r
}

/// The path of a download with the given file name.
pub fn output_path(name: &str) -> (r: String)
    ensures
        r@ == download_dir() + "/"@ + name@,
{
    let mut r: String = owned("/tmp/spectur-downloads");
    r.append("/");
    r.append(name);
    r
}

/// The folder of the path with the given file name. A name that is empty or a
/// dot stands for the folder of downloads itself.
pub open spec fn folder_of(name: Seq<char>) -> Seq<char> {
    if name.len() == 0 || name == "."@ {
        "/tmp"@
    } else {
        download_dir()
    }
}

/// The last part of the path with the given file name, if it has one.
pub open spec fn file_of(name: Seq<char>) -> Option<Seq<char>> {
    if name.len() == 0 || name == "."@ {
        Some("spectur-downloads"@)
    } else if name == ".."@ {
        None
    } else {
        Some(name)
    }
}

/// A file name without its extension.
pub open spec fn stem_of(file: Seq<char>) -> Seq<char> {
    if last_index_of(file, '.') > 0 {
        file.take(last_index_of(file, '.'))
    } else {
        file
    }
}

fn output_folder(name: &str) -> (r: String)
    ensures
        r@ == folder_of(name@),
{
    if name.unicode_len() == 0 || same(name, ".") {
        owned("/tmp")
    } else {
        owned("/tmp/spectur-downloads")
    }
}

fn output_file(name: &str) -> (r: Option<String>)
    ensures
        opt_text(r) == file_of(name@),
{
    if name.unicode_len() == 0 || same(name, ".") {
        Some(owned("spectur-downloads"))
    } else if same(name, "..") {
        None
    } else {
        Some(owned(name))
    }
}

fn file_stem(file: &str) -> (r: String)
    ensures
        r@ == stem_of(file@),
{
    let v: Vec<char> = chars_of(file);
    match last_char_index(&v, '.') {
        Some(i) => if i > 0 {
            let r: String = string_between(&v, 0, i);
            assert(r@ =~= file@.take(i as int));
            r
        } else {
            owned(file)
        },
        None => owned(file),
    }
}

/// A program that downloads.
#[derive(Debug, Clone, Copy, PartialEq, Eq, Structural)]
pub enum Downloader {
    /// For playlists and manifests.
    StreamTool,
    /// For files.
    FileTool,
}

impl Downloader {
    pub open spec fn name(&self) -> Seq<char> {
        match *self {
            Downloader::StreamTool => "N_m3u8DL-RE"@,
            Downloader::FileTool => "aria2c"@,
        }
    }

    /// The name of the program.
    pub fn binary(&self) -> (r: &'static str)
        ensures
            r@ == self.name(),
    {
        match self {
            Downloader::StreamTool => "N_m3u8DL-RE",
            Downloader::FileTool => "aria2c",
        }
    }
}

/// The program for a stream of the given kind, whose URL is `lowered` in lower case.
pub open spec fn tool_for(format: StreamFormat, lowered: Seq<char>) -> Downloader {
    match format {
        StreamFormat::Hls | StreamFormat::Dash => Downloader::StreamTool,
        StreamFormat::Mp4 | StreamFormat::Ts => Downloader::FileTool,
        _ => if contains(lowered, ".m3u8"@) || contains(lowered, ".mpd"@) {
            Downloader::StreamTool
        } else {
            Downloader::FileTool
        },
    }
}

/// The program for a stream.
pub fn select_downloader(url: &str, format: StreamFormat) -> (r: Downloader)
    ensures
        r == tool_for(format, unicode_lower(url@)),
{
    match format {
        StreamFormat::Hls | StreamFormat::Dash => Downloader::StreamTool,
        StreamFormat::Mp4 | StreamFormat::Ts => Downloader::FileTool,
        _ => {
            let lowered: String = lower_unicode(url);
            if mentions(lowered.as_str(), ".m3u8") || mentions(lowered.as_str(), ".mpd") {
                Downloader::StreamTool
            } else {
                Downloader::FileTool
            }
        },
    }
}

/// A header that goes with no download.
pub open spec fn is_dropped(name: Seq<char>) -> bool {
    let n = unicode_lower(name);
    n == "host"@ || n == "accept-encoding"@ || n == "content-length"@ || n == "connection"@
}

/// The arguments for one header.
pub open spec fn header_args(tool: Downloader, h: (Seq<char>, Seq<char>)) -> Seq<Seq<char>> {
    if is_dropped(h.0) {
        Seq::empty()
    } else {
        match tool {
            Downloader::StreamTool => if unicode_lower(h.0) == "cookie"@ {
                seq!["-H"@, "Cookie: "@ + h.1]
            } else {
                seq!["-H"@, h.0 + ": "@ + h.1]
            },
            Downloader::FileTool => seq!["--header="@ + h.0 + ": "@ + h.1],
        }
    }
}

/// The arguments for the first `n` headers.
pub open spec fn headers_args(tool: Downloader, headers: Seq<(Seq<char>, Seq<char>)>, n: int) -> Seq<Seq<char>>
    decreases n,
{
    if n <= 0 {
        Seq::empty()
    } else {
        headers_args(tool, headers, n - 1) + header_args(tool, headers[n - 1])
    }
}

/// The arguments for the first `n` keys.
pub open spec fn keys_args(keys: Seq<KeyInfo>, n: int) -> Seq<Seq<char>>
    decreases n,
{
    if n <= 0 {
        Seq::empty()
    } else {
        match opt_text(keys[n - 1].key_hex) {
            Some(h) => keys_args(keys, n - 1) + seq!["--key"@, h],
            None => keys_args(keys, n - 1),
        }
    }
}

/// The arguments of a program but for the headers.
pub open spec fn tool_args(
    tool: Downloader,
    url: Seq<char>,
    name: Seq<char>,
    resolution: Option<Seq<char>>,
    keys: Seq<KeyInfo>,
    is_test: bool,
) -> Seq<Seq<char>> {
    let folder = folder_of(name);
    match tool {
        Downloader::StreamTool => {
            let stem = match file_of(name) {
                Some(f) => stem_of(f),
                None => "download"@,
            };
            seq![
                url,
                "--save-dir"@,
                folder,
                "--save-name"@,
                stem,
                "--tmp-dir"@,
                folder + "/tmp-"@ + stem,
                "--auto-select"@,
                "--check-segments-count=false"@,
            ] + (if is_test {
                seq!["--custom-range"@, "0-5"@]
            } else {
                Seq::empty()
            }) + (match resolution {
                Some(res) => seq!["-sv"@, "res="@ + res],
                None => Seq::empty(),
            }) + keys_args(keys, keys.len() as int)
        },
        Downloader::FileTool => {
            let file = match file_of(name) {
                Some(f) => f,
                None => "download.mp4"@,
            };
            seq![url, "-d"@, folder, "-o"@, file, "--continue=true"@, "-x16"@, "-s16"@]
        },
    }
}

fn add_arg(args: &mut Vec<String>, arg: String)
    ensures
        texts(final(args)@) == texts(old(args)@).push(arg@),
{
    let ghost before = args@;
    args.push(arg);
    assert(texts(args@) =~= texts(before).push(arg@));
}

fn add_header_args(args: &mut Vec<String>, tool: Downloader, name: &str, value: &str)
    ensures
        texts(final(args)@) == texts(old(args)@) + header_args(tool, (name@, value@)),
{
    let ghost before = texts(args@);
    let lowered: String = lower_unicode(name);
    if same(lowered.as_str(), "host") || same(lowered.as_str(), "accept-encoding") || same(
        lowered.as_str(),
        "content-length",
    ) || same(lowered.as_str(), "connection") {
        assert(before + header_args(tool, (name@, value@)) =~= before);
        return ;
    }
    match tool {
        Downloader::StreamTool => {
            let mut text: String = if same(lowered.as_str(), "cookie") {
                owned("Cookie: ")
            } else {
                let mut t: String = owned(name);
                t.append(": ");
                t
            };
            text.append(value);
            add_arg(args, owned("-H"));
            add_arg(args, text);
        },
        Downloader::FileTool => {
            let mut text: String = owned("--header=");
            text.append(name);
            text.append(": ");
            text.append(value);
            add_arg(args, text);
        },
    }
    assert(texts(args@) =~= before + header_args(tool, (name@, value@)));
}

/// The arguments of a program that downloads `url` into the file `name`.
pub fn build_args(
    tool: Downloader,
    url: &str,
    name: &str,
    resolution: &Option<String>,
    headers: &TextMap,
    keys: &Vec<KeyInfo>,
    is_test: bool,
) -> (r: Vec<String>)
    ensures
        texts(r@) == headers_args(tool, headers@, headers@.len() as int) + tool_args(
            tool,
            url@,
            name@,
            opt_text(*resolution),
            keys@,
            is_test,
        ),
{
    let mut args: Vec<String> = Vec::new();
    assert(texts(args@) =~= Seq::empty());
    let mut i: usize = 0;
    while i < headers.entries.len()
        invariant
            i <= headers.entries@.len(),
            texts(args@) == headers_args(tool, headers@, i as int),
        decreases headers.entries@.len() - i,
    {
        assert(headers@[i as int] == (headers.entries@[i as int].0@, headers.entries@[i as int].1@));
        add_header_args(&mut args, tool, headers.entries[i].0.as_str(), headers.entries[i].1.as_str());
        i = i + 1;
    }
    let ghost front = texts(args@);
    let folder: String = output_folder(name);
    match tool {
        Downloader::StreamTool => {
            let stem: String = match output_file(name) {
                Some(f) => file_stem(f.as_str()),
                None => owned("download"),
            };
            let mut tmp: String = owned(folder.as_str());
            tmp.append("/tmp-");
            tmp.append(stem.as_str());
            let ghost fixed = seq![
                url@,
                "--save-dir"@,
                folder@,
                "--save-name"@,
                stem@,
                "--tmp-dir"@,
                tmp@,
                "--auto-select"@,
                "--check-segments-count=false"@,
            ];
            add_arg(&mut args, owned(url));
            add_arg(&mut args, owned("--save-dir"));
            add_arg(&mut args, folder);
            add_arg(&mut args, owned("--save-name"));
            add_arg(&mut args, stem);
            add_arg(&mut args, owned("--tmp-dir"));
            add_arg(&mut args, tmp);
            add_arg(&mut args, owned("--auto-select"));
            add_arg(&mut args, owned("--check-segments-count=false"));
            assert(texts(args@) =~= front + fixed);
            let ghost test = if is_test {
                seq!["--custom-range"@, "0-5"@]
            } else {
                Seq::empty()
            };
            if is_test {
                add_arg(&mut args, owned("--custom-range"));
                add_arg(&mut args, owned("0-5"));
            }
            assert(texts(args@) =~= front + (fixed + test));
            let ghost res = match opt_text(*resolution) {
                Some(t) => seq!["-sv"@, "res="@ + t],
                None => Seq::empty(),
            };
            match resolution {
                Some(t) => {
                    let mut text: String = owned("res=");
                    text.append(t.as_str());
                    add_arg(&mut args, owned("-sv"));
                    add_arg(&mut args, text);
                },
                None => {},
            }
            assert(texts(args@) =~= front + (fixed + test + res));
            let ghost middle = front + (fixed + test + res);
            let mut k: usize = 0;
            assert(middle + keys_args(keys@, 0) =~= middle);
            while k < keys.len()
                invariant
                    k <= keys@.len(),
                    texts(args@) == middle + keys_args(keys@, k as int),
                decreases keys@.len() - k,
            {
                match &keys[k].key_hex {
                    Some(h) => {
                        add_arg(&mut args, owned("--key"));
                        add_arg(&mut args, owned(h.as_str()));
                        assert(texts(args@) =~= middle + (keys_args(keys@, k as int) + seq!["--key"@, h@]));
                    },
                    None => {},
                }
                k = k + 1;
            }
            assert(texts(args@) =~= front + (fixed + test + res + keys_args(keys@, keys@.len() as int)));
        },
        Downloader::FileTool => {
            let file: String = match output_file(name) {
                Some(f) => f,
                None => owned("download.mp4"),
            };
            add_arg(&mut args, owned(url));
            add_arg(&mut args, owned("-d"));
            add_arg(&mut args, folder);
            add_arg(&mut args, owned("-o"));
            add_arg(&mut args, file);
            add_arg(&mut args, owned("--continue=true"));
            add_arg(&mut args, owned("-x16"));
            add_arg(&mut args, owned("-s16"));
            assert(texts(args@) =~= front + tool_args(
                tool,
                url@,
                name@,
                opt_text(*resolution),
                keys@,
                is_test,
            ));
        },
    }
    args
}

/// The arguments that end a download of a video.
pub open spec fn section_args(is_test: bool) -> Seq<Seq<char>> {
    if is_test {
        seq!["--download-sections"@, "*0:00-0:10"@]
    } else {
        Seq::empty()
    }
}

/// The arguments for a video: into which folder, and in which format.
pub open spec fn video_args(url: Seq<char>, folder: Seq<char>, format: Seq<char>, is_test: bool) -> Seq<Seq<char>> {
    seq![
        url,
        "-o"@,
        if is_test {
            folder + "/%(title)s_test.%(ext)s"@
        } else {
            folder + "/%(title)s.%(ext)s"@
        },
        "-f"@,
        format,
    ] + section_args(is_test)
}

fn yt_args(url: &str, folder: &str, format: String, is_test: bool) -> (r: Vec<String>)
    ensures
        texts(r@) == video_args(url@, folder@, format@, is_test),
{
    let mut target: String = owned(folder);
    if is_test {
        target.append("/%(title)s_test.%(ext)s");
    } else {
        target.append("/%(title)s.%(ext)s");
    }
    let ghost expected = video_args(url@, folder@, format@, is_test);
    let mut args: Vec<String> = Vec::new();
    assert(texts(args@) =~= Seq::empty());
    add_arg(&mut args, owned(url));
    add_arg(&mut args, owned("-o"));
    add_arg(&mut args, target);
    add_arg(&mut args, owned("-f"));
    add_arg(&mut args, format);
    if is_test {
        add_arg(&mut args, owned("--download-sections"));
        add_arg(&mut args, owned("*0:00-0:10"));
    }
    assert(texts(args@) =~= expected);
    args
}

/// The arguments for a format of a video.
pub fn yt_format_args(url: &str, itag: i64, is_test: bool) -> (r: Vec<String>)
    ensures
        texts(r@) == video_args(url@, download_dir(), signed_decimal(itag as int), is_test),
{
    yt_args(url, "/tmp/spectur-downloads", signed_decimal_string(itag), is_test)
}

/// The arguments for a video that is kept where the file `name` would be: in
/// the format with the given number, or else in the best.
pub fn yt_download_args(url: &str, name: &str, itag: Option<i64>, is_test: bool) -> (r: Vec<String>)
    ensures
        texts(r@) == video_args(
            url@,
            folder_of(name@),
            match itag {
                Some(n) => signed_decimal(n as int),
                None => "bestvideo+bestaudio/best"@,
            },
            is_test,
        ),
{
    let format: String = match itag {
        Some(n) => signed_decimal_string(n),
        None => owned("bestvideo+bestaudio/best"),
    };
    let folder: String = output_folder(name);
    yt_args(url, folder.as_str(), format, is_test)
}

} // verus!
