//! Cookies: what is kept, what is sent, and the cookie-file format.

use vstd::prelude::*;
use crate::text::{
    begins, chars_of, char_index, ends, ends_with, index_of_char, join, joined, lines_string, lines_text, lower, owned,
    same, split, split_at_char, starts_with, string_between, texts, to_lower, trim, trimmed,
};
use crate::web_url::{opt_text, UrlParts, UrlView};

verus! {

/// A cookie.
#[derive(Debug)]
pub struct CookieEntry {
    pub name: String,
    pub value: String,
    pub domain: String,
    pub path: String,
    pub secure: bool,
    pub expires: Option<String>,
}

/// A cookie, as text.
#[verifier::ext_equal]
pub struct CookieView {
    pub name: Seq<char>,
    pub value: Seq<char>,
    pub domain: Seq<char>,
    pub path: Seq<char>,
    pub secure: bool,
    pub expires: Option<Seq<char>>,
}

/// The text before the first `c` in `s`.
pub open spec fn before_char(s: Seq<char>, c: char) -> Seq<char> {
    s.take(index_of_char(s, c))
}

/// The text after the first `c` in `s`.
pub open spec fn after_char(s: Seq<char>, c: char) -> Seq<char> {
    s.skip(index_of_char(s, c) + 1)
}

/// There is a `c` in `s`.
pub open spec fn has_char(s: Seq<char>, c: char) -> bool {
    index_of_char(s, c) < s.len()
}

/// `s` without the dots at its front.
pub open spec fn strip_dots(s: Seq<char>) -> Seq<char>
    decreases s.len(),
{
    if s.len() > 0 && s[0] == '.' {
        strip_dots(s.skip(1))
    } else {
        s
    }
}

/// A plain cookie for `domain`: for every path, not bound to HTTPS.
pub open spec fn plain_cookie(name: Seq<char>, value: Seq<char>, domain: Seq<char>) -> CookieView {
    CookieView { name, value, domain, path: seq!['/'], secure: false, expires: None }
}

/// What the attributes `parts`, after the first `n`, leave of `c`.
pub open spec fn with_attributes(c: CookieView, parts: Seq<Seq<char>>, n: int) -> CookieView
    decreases n,
{
    if n <= 1 {
        c
    } else {
        with_attribute(with_attributes(c, parts, n - 1), trim(parts[n - 1]))
    }
}

/// What one attribute of a `Set-Cookie` header makes of `c`.
pub open spec fn with_attribute(c: CookieView, part: Seq<char>) -> CookieView {
    if has_char(part, '=') {
        let key = lower(trim(before_char(part, '=')));
        let value = trim(after_char(part, '='));
        if key == "domain"@ {
            CookieView { domain: strip_dots(value), ..c }
        } else if key == "path"@ {
            CookieView { path: value, ..c }
        } else if key == "expires"@ {
            CookieView { expires: Some(value), ..c }
        } else {
            c
        }
    } else if lower(part) == "secure"@ {
        CookieView { secure: true, ..c }
    } else {
        c
    }
}

/// The cookie that a `Set-Cookie` header from `host` sets; none where the
/// host is unknown or the first part has no equals sign.
pub open spec fn set_cookie(header: Seq<char>, host: Option<Seq<char>>) -> Option<CookieView> {
    let parts = split(header, ';');
    match host {
        Some(h) => if has_char(parts[0], '=') {
            Some(
                with_attributes(
                    plain_cookie(trim(before_char(parts[0], '=')), trim(after_char(parts[0], '=')), h),
                    parts,
                    parts.len() as int,
                ),
            )
        } else {
            None
        },
        None => None,
    }
}

/// The two cookies have the same name, domain and path.
pub open spec fn same_cookie(a: CookieView, b: CookieView) -> bool {
    a.name == b.name && a.domain == b.domain && a.path == b.path
}

/// `jar` with `c` in it, in place of the one that it replaces.
pub open spec fn inserted(jar: Seq<CookieView>, c: CookieView) -> Seq<CookieView> {
    jar.filter(|x: CookieView| !same_cookie(x, c)).push(c)
}

/// No two cookies have the same name, domain and path.
pub open spec fn no_duplicates(jar: Seq<CookieView>) -> bool {
    forall|i: int, j: int| 0 <= i < j < jar.len() ==> !same_cookie(#[trigger] jar[i], #[trigger] jar[j])
}

/// The text of a cookie in a request.
pub open spec fn request_value(c: CookieView) -> Seq<char> {
    c.name + "="@ + c.value
}

/// `c` goes to `u`: the host is the cookie's domain or below it, the path
/// begins with the cookie's, and a secure cookie goes to HTTPS only.
pub open spec fn goes_to(c: CookieView, u: UrlView) -> bool {
    let host = match u.host {
        Some(h) => h,
        None => Seq::empty(),
    };
    &&& host == c.domain || ends_with(host, seq!['.'] + c.domain)
    &&& starts_with(u.path, c.path)
    &&& !c.secure || u.scheme == "https"@
}

/// The cookies of `jar` that go to `u`, in order.
pub open spec fn matching(jar: Seq<CookieView>, u: UrlView) -> Seq<CookieView> {
    jar.filter(|c: CookieView| goes_to(c, u))
}

/// The cookie of one trimmed line of a cookie file: seven fields between tabs,
/// or a name and a value; none where the line is empty or a comment.
pub open spec fn cookie_of_line(line: Seq<char>, default_domain: Seq<char>) -> Option<CookieView> {
    let parts = split(line, '\t');
    if line.len() == 0 || line[0] == '#' || starts_with(line, "//"@) {
        None
    } else if parts.len() >= 7 {
        Some(
            CookieView {
                name: parts[5],
                value: parts[6],
                domain: strip_dots(parts[0]),
                path: parts[2],
                secure: parts[3] == "TRUE"@,
                expires: None,
            },
        )
    } else if has_char(line, '=') && trim(before_char(line, '=')).len() > 0 {
        Some(plain_cookie(trim(before_char(line, '=')), trim(after_char(line, '=')), default_domain))
    } else {
        None
    }
}

/// What one trimmed line of a cookie file adds to `jar`.
pub open spec fn line_imported(jar: Seq<CookieView>, line: Seq<char>, default_domain: Seq<char>) -> Seq<CookieView> {
    match cookie_of_line(line, default_domain) {
        Some(c) => inserted(jar, c),
        None => jar,
    }
}

/// What the first `n` lines add to `jar`.
pub open spec fn lines_imported(
    jar: Seq<CookieView>,
    lines: Seq<Seq<char>>,
    n: int,
    default_domain: Seq<char>,
) -> Seq<CookieView>
    decreases n,
{
    if n <= 0 {
        jar
    } else {
        line_imported(lines_imported(jar, lines, n - 1, default_domain), trim(lines[n - 1]), default_domain)
    }
}

/// The line of a cookie file for `c`, without its end.
pub open spec fn cookie_line(c: CookieView) -> Seq<char> {
    c.domain + "\tTRUE\t"@ + c.path + "\t"@ + (if c.secure {
        "TRUE"@
    } else {
        "FALSE"@
    }) + "\t"@ + (match c.expires {
        Some(e) => e,
        None => "0"@,
    }) + "\t"@ + c.name + "\t"@ + c.value
}

/// The comment at the head of a cookie file.
pub open spec fn file_head() -> Seq<Seq<char>> {
    seq![
        "# Netscape HTTP Cookie File"@,
        "# https://curl.se/rfc/cookie_spec.html"@,
        "# This file was generated by tur-rs"@,
    ]
}

/// The lines of a cookie file.
pub open spec fn file_lines(jar: Seq<CookieView>) -> Seq<Seq<char>> {
    file_head() + jar.map_values(|c: CookieView| cookie_line(c))
}

fn opt_string_copy(s: &Option<String>) -> (r: Option<String>)
    ensures
        opt_text(r) == opt_text(*s),
{
    match s {
        Some(t) => Some(owned(t.as_str())),
        None => None,
    }
}

/// Removes the dots at the front of `s`.
fn without_dots(s: &str) -> (r: String)
    ensures
        r@ == strip_dots(s@),
{
    let v: Vec<char> = chars_of(s);
    let mut i: usize = 0;
    assert(v@.skip(0) =~= v@);
    while i < v.len() && v[i] == '.'
        invariant
            i <= v@.len(),
            strip_dots(v@) == strip_dots(v@.skip(i as int)),
        decreases v@.len() - i,
    {
        assert(v@.skip(i as int).skip(1) =~= v@.skip(i + 1));
        i = i + 1;
    }
    let r = string_between(&v, i, v.len());
    assert(r@ =~= v@.skip(i as int));
    r
}

/// The two sides of the first `c` in `s`.
pub fn split_once(s: &str, c: char) -> (r: Option<(String, String)>)
    ensures
        match r {
            Some((a, b)) => has_char(s@, c) && a@ == before_char(s@, c) && b@ == after_char(s@, c),
            None => !has_char(s@, c),
        },
{
    let v: Vec<char> = chars_of(s);
    let i: usize = char_index(&v, c);
    if i < v.len() {
        let a = string_between(&v, 0, i);
        let b = string_between(&v, i + 1, v.len());
        assert(a@ =~= before_char(s@, c));
        assert(b@ =~= after_char(s@, c));
        Some((a, b))
    } else {
        None
    }
}

impl CookieEntry {
    pub open spec fn view(&self) -> CookieView {
        CookieView {
            name: self.name@,
            value: self.value@,
            domain: self.domain@,
            path: self.path@,
            secure: self.secure,
            expires: opt_text(self.expires),
        }
    }

    /// A cookie for every path of `domain`.
    pub fn new(name: &str, value: &str, domain: &str) -> (r: CookieEntry)
        ensures
            r@ == plain_cookie(name@, value@, domain@),
    {
        let mut path = String::new();
        path.push('/');
        let r = CookieEntry {
            name: owned(name),
            value: owned(value),
            domain: owned(domain),
            path,
            secure: false,
            expires: None,
        };
        assert(r@.path =~= seq!['/']);
        r
    }

    /// Reads a `Set-Cookie` header; the host of the request's URL is the
    /// domain where the header names none.
    pub fn from_set_cookie(header: &str, request_url: &UrlParts) -> (r: Option<CookieEntry>)
        ensures
            match r {
                Some(c) => set_cookie(header@, request_url@.host) == Some(c@),
                None => set_cookie(header@, request_url@.host) is None,
            },
    {
        let host: String = match &request_url.host {
            Some(h) => owned(h.as_str()),
            None => {
                return None;
            },
        };
        let parts: Vec<String> = split_at_char(header, ';');
        let ghost all = split(header@, ';');
        assert(all.len() == parts@.len());
        assert(parts@[0]@ == all[0]);
        let mut c: CookieEntry = match split_once(parts[0].as_str(), '=') {
            Some((name, value)) => {
                let name: String = trimmed(name.as_str());
                let value: String = trimmed(value.as_str());
                CookieEntry::new(name.as_str(), value.as_str(), host.as_str())
            },
            None => {
                return None;
            },
        };
        let ghost start = c@;
        let mut i: usize = 1;
        while i < parts.len()
            invariant
                1 <= i <= parts@.len(),
                all == texts(parts@),
                c@ == with_attributes(start, all, i as int),
            decreases parts@.len() - i,
        {
            let part: String = trimmed(parts[i].as_str());
            assert(part@ == trim(all[i as int]));
            match split_once(part.as_str(), '=') {
                Some((key, value)) => {
                    let key: String = trimmed(key.as_str());
                    let key: String = to_lower(key.as_str());
                    let value: String = trimmed(value.as_str());
                    if same(key.as_str(), "domain") {
                        c.domain = without_dots(value.as_str());
                    } else if same(key.as_str(), "path") {
                        c.path = value;
                    } else if same(key.as_str(), "expires") {
                        c.expires = Some(value);
                    }
                },
                None => {
                    let word: String = to_lower(part.as_str());
                    if same(word.as_str(), "secure") {
                        c.secure = true;
                    }
                },
            }
            i = i + 1;
        }
        Some(c)
    }

    /// The cookie as it is sent.
    pub fn to_request_value(&self) -> (r: String)
        ensures
            r@ == request_value(self@),
    {
        let mut r: String = owned(self.name.as_str());
        r.append("=");
        r.append(self.value.as_str());
        r
    }

    /// Reads one trimmed line of a cookie file.
    pub fn from_line(line: &str, default_domain: &str) -> (r: Option<CookieEntry>)
        ensures
            match r {
                Some(c) => cookie_of_line(line@, default_domain@) == Some(c@),
                None => cookie_of_line(line@, default_domain@) is None,
            },
    {
        let v: Vec<char> = chars_of(line);
        if v.len() == 0 || v[0] == '#' || begins(line, "//") {
            return None;
        }
        let parts: Vec<String> = split_at_char(line, '\t');
        let ghost all = split(line@, '\t');
        assert(parts@.len() == all.len());
        if parts.len() >= 7 {
            assert(parts@[0]@ == all[0] && parts@[2]@ == all[2] && parts@[3]@ == all[3] && parts@[5]@ == all[5]
                && parts@[6]@ == all[6]);
            return Some(
                CookieEntry {
                    name: owned(parts[5].as_str()),
                    value: owned(parts[6].as_str()),
                    domain: without_dots(parts[0].as_str()),
                    path: owned(parts[2].as_str()),
                    secure: same(parts[3].as_str(), "TRUE"),
                    expires: None,
                },
            );
        }
        match split_once(line, '=') {
            Some((name, value)) => {
                let name: String = trimmed(name.as_str());
                let value: String = trimmed(value.as_str());
                if name.as_str().unicode_len() > 0 {
                    Some(CookieEntry::new(name.as_str(), value.as_str(), default_domain))
                } else {
                    None
                }
            },
            None => None,
        }
    }

    /// The cookie as a line of a cookie file.
    pub fn to_cookie_line(&self) -> (r: String)
        ensures
            r@ == cookie_line(self@),
    {
        let mut out: String = owned(self.domain.as_str());
        out.append("\tTRUE\t");
        out.append(self.path.as_str());
        out.append("\t");
        if self.secure {
            out.append("TRUE");
        } else {
            out.append("FALSE");
        }
        out.append("\t");
        match &self.expires {
            Some(e) => out.append(e.as_str()),
            None => out.append("0"),
        }
        out.append("\t");
        out.append(self.name.as_str());
        out.append("\t");
        out.append(self.value.as_str());
        out
    }

    /// Whether the cookie goes to `url`.
    pub fn goes_to_url(&self, url: &UrlParts) -> (r: bool)
        ensures
            r == goes_to(self@, url@),
    {
        let host: &str = match &url.host {
            Some(h) => h.as_str(),
            None => "",
        };
        proof {
            reveal_strlit("");
            assert(url@.host is None ==> host@ =~= Seq::empty());
        }
        let mut below = String::new();
        below.push('.');
        below.append(self.domain.as_str());
        assert(below@ =~= seq!['.'] + self.domain@);
        let domain_match: bool = same(host, self.domain.as_str()) || ends(host, below.as_str());
        let path_match: bool = begins(url.path.as_str(), self.path.as_str());
        let secure_ok: bool = !self.secure || same(url.scheme.as_str(), "https");
        domain_match && path_match && secure_ok
    }

    /// Whether `other` has the same name, domain and path.
    pub fn replaces(&self, other: &CookieEntry) -> (r: bool)
        ensures
            r == same_cookie(self@, other@),
    {
        same(self.name.as_str(), other.name.as_str()) && same(self.domain.as_str(), other.domain.as_str()) && same(
            self.path.as_str(),
            other.path.as_str(),
        )
    }
}

impl Clone for CookieEntry {
    fn clone(&self) -> (r: CookieEntry)
        ensures
            r@ == self@,
    {
        CookieEntry {
            name: owned(self.name.as_str()),
            value: owned(self.value.as_str()),
            domain: owned(self.domain.as_str()),
            path: owned(self.path.as_str()),
            secure: self.secure,
            expires: opt_string_copy(&self.expires),
        }
    }
}

/// The views of a list of cookies.
pub open spec fn cookie_views(v: Seq<CookieEntry>) -> Seq<CookieView> {
    v.map_values(|c: CookieEntry| c@)
}

/// A copy of a list of cookies.
pub fn copy_cookies(v: &Vec<CookieEntry>) -> (r: Vec<CookieEntry>)
    ensures
        cookie_views(r@) == cookie_views(v@),
{
    let mut r: Vec<CookieEntry> = Vec::new();
    let mut i: usize = 0;
    while i < v.len()
        invariant
            i <= v@.len(),
            r@.len() == i,
            forall|k: int| 0 <= k < i ==> (#[trigger] r@[k])@ == v@[k]@,
        decreases v@.len() - i,
    {
        r.push(v[i].clone());
        i = i + 1;
    }
    assert(cookie_views(r@) =~= cookie_views(v@));
    r
}

/// The cookies as one `Cookie` header value.
pub open spec fn header_value(cookies: Seq<CookieView>) -> Seq<char> {
    join(cookies.map_values(|c: CookieView| request_value(c)), "; "@)
}

/// The cookies as one `Cookie` header value.
pub fn cookie_header(cookies: &Vec<CookieEntry>) -> (r: String)
    ensures
        r@ == header_value(cookie_views(cookies@)),
{
    let mut parts: Vec<String> = Vec::new();
    let mut i: usize = 0;
    while i < cookies.len()
        invariant
            i <= cookies@.len(),
            parts@.len() == i,
            forall|k: int| 0 <= k < i ==> (#[trigger] parts@[k])@ == request_value(cookies@[k]@),
        decreases cookies@.len() - i,
    {
        parts.push(cookies[i].to_request_value());
        i = i + 1;
    }
    assert(texts(parts@) =~= cookie_views(cookies@).map_values(|c: CookieView| request_value(c)));
    joined(&parts, "; ")
}

/// A store of cookies.
#[derive(Debug)]
pub struct CookieJar {
    pub cookies: Vec<CookieEntry>,
}

impl CookieJar {
    pub open spec fn view(&self) -> Seq<CookieView> {
        cookie_views(self.cookies@)
    }

    /// No two cookies have the same name, domain and path.
    pub open spec fn wf(&self) -> bool {
        no_duplicates(self@)
    }

    /// An empty jar.
    pub fn new() -> (r: CookieJar)
        ensures
            r@ == Seq::<CookieView>::empty(),
            r.wf(),
    {
        let r = CookieJar { cookies: Vec::new() };
        assert(r@ =~= Seq::<CookieView>::empty());
        r
    }

    /// Adds a cookie, in place of the one with the same name, domain and path.
    pub fn insert(&mut self, cookie: CookieEntry)
        ensures
            final(self)@ == inserted(old(self)@, cookie@),
            old(self).wf() ==> final(self).wf(),
    {
        let ghost jar = self@;
        let ghost keep = |x: CookieView| !same_cookie(x, cookie@);
        let mut kept: Vec<CookieEntry> = Vec::new();
        let mut i: usize = 0;
        assert(jar.take(0) =~= Seq::empty());
        assert(cookie_views(kept@) =~= Seq::<CookieView>::empty().filter(keep)) by {
            reveal(Seq::filter);
        }
        while i < self.cookies.len()
            invariant
                i <= self.cookies@.len(),
                jar == cookie_views(self.cookies@),
                self.cookies@ == old(self).cookies@,
                keep == (|x: CookieView| !same_cookie(x, cookie@)),
                cookie_views(kept@) == jar.take(i as int).filter(keep),
            decreases self.cookies@.len() - i,
        {
            proof {
                assert(jar.take(i + 1).drop_last() =~= jar.take(i as int));
                assert(jar.take(i + 1).last() == self.cookies@[i as int]@);
                reveal(Seq::filter);
            }
            if !self.cookies[i].replaces(&cookie) {
                let c: CookieEntry = self.cookies[i].clone();
                assert(cookie_views(kept@.push(c)) =~= cookie_views(kept@).push(c@));
                kept.push(c);
            }
            i = i + 1;
        }
        assert(jar.take(jar.len() as int) =~= jar);
        let ghost rest = cookie_views(kept@);
        assert(cookie_views(kept@.push(cookie)) =~= rest.push(cookie@));
        kept.push(cookie);
        self.cookies = kept;
        proof {
            if no_duplicates(jar) {
                lemma_inserted_no_duplicates(jar, cookie@);
            }
        }
    }

    /// The cookies that go to `url`.
    pub fn match_url(&self, url: &UrlParts) -> (r: Vec<CookieEntry>)
        ensures
            cookie_views(r@) == matching(self@, url@),
    {
        let ghost jar = self@;
        let ghost keep = |c: CookieView| goes_to(c, url@);
        let mut r: Vec<CookieEntry> = Vec::new();
        let mut i: usize = 0;
        assert(jar.take(0) =~= Seq::empty());
        assert(cookie_views(r@) =~= Seq::<CookieView>::empty().filter(keep)) by {
            reveal(Seq::filter);
        }
        while i < self.cookies.len()
            invariant
                i <= self.cookies@.len(),
                jar == cookie_views(self.cookies@),
                keep == (|c: CookieView| goes_to(c, url@)),
                cookie_views(r@) == jar.take(i as int).filter(keep),
            decreases self.cookies@.len() - i,
        {
            proof {
                assert(jar.take(i + 1).drop_last() =~= jar.take(i as int));
                assert(jar.take(i + 1).last() == self.cookies@[i as int]@);
                reveal(Seq::filter);
            }
            if self.cookies[i].goes_to_url(url) {
                let c: CookieEntry = self.cookies[i].clone();
                assert(cookie_views(r@.push(c)) =~= cookie_views(r@).push(c@));
                r.push(c);
            }
            i = i + 1;
        }
        assert(jar.take(jar.len() as int) =~= jar);
        r
    }

    /// The cookies that go to `url`, as one `Cookie` header value.
    pub fn header_value_for_url(&self, url: &UrlParts) -> (r: Option<String>)
        ensures
            match r {
                Some(s) => matching(self@, url@).len() > 0 && s@ == header_value(matching(self@, url@)),
                None => matching(self@, url@).len() == 0,
            },
    {
        let matched: Vec<CookieEntry> = self.match_url(url);
        assert(matched@.len() == cookie_views(matched@).len());
        if matched.len() == 0 {
            return None;
        }
        Some(cookie_header(&matched))
    }

    pub fn len(&self) -> (r: usize)
        ensures
            r == self@.len(),
    {
        self.cookies.len()
    }

    pub fn is_empty(&self) -> (r: bool)
        ensures
            r == (self@.len() == 0),
    {
        self.cookies.len() == 0
    }

    /// Reads a cookie file, or lines of the form `name=value`.
    pub fn import_lines(&mut self, lines: &str, default_domain: &str)
        ensures
            final(self)@ == lines_imported(
                old(self)@,
                split(lines@, '\n'),
                split(lines@, '\n').len() as int,
                default_domain@,
            ),
            old(self).wf() ==> final(self).wf(),
    {
        let parts: Vec<String> = split_at_char(lines, '\n');
        let ghost all = split(lines@, '\n');
        let mut i: usize = 0;
        while i < parts.len()
            invariant
                i <= parts@.len(),
                all == texts(parts@),
                self@ == lines_imported(old(self)@, all, i as int, default_domain@),
                old(self).wf() ==> self.wf(),
            decreases parts@.len() - i,
        {
            let line: String = trimmed(parts[i].as_str());
            assert(line@ == trim(all[i as int]));
            match CookieEntry::from_line(line.as_str(), default_domain) {
                Some(cookie) => self.insert(cookie),
                None => {},
            }
            i = i + 1;
        }
    }

    /// Writes the cookies as a cookie file.
    pub fn export_netscape(&self) -> (r: String)
        ensures
            r@ == lines_text(file_lines(self@)),
    {
        let mut lines: Vec<String> = Vec::new();
        lines.push(owned("# Netscape HTTP Cookie File"));
        lines.push(owned("# https://curl.se/rfc/cookie_spec.html"));
        lines.push(owned("# This file was generated by tur-rs"));
        let mut i: usize = 0;
        while i < self.cookies.len()
            invariant
                i <= self.cookies@.len(),
                lines@.len() == 3 + i,
                lines@[0]@ == file_head()[0],
                lines@[1]@ == file_head()[1],
                lines@[2]@ == file_head()[2],
                forall|k: int| 0 <= k < i ==> (#[trigger] lines@[k + 3])@ == cookie_line(self@[k]),
            decreases self.cookies@.len() - i,
        {
            lines.push(self.cookies[i].to_cookie_line());
            i = i + 1;
        }
        assert(texts(lines@) =~= file_lines(self@)) by {
            assert forall|k: int| 0 <= k < lines@.len() implies #[trigger] texts(lines@)[k] == file_lines(self@)[k] by {
                if k >= 3 {
                    assert(lines@[(k - 3) + 3]@ == cookie_line(self@[k - 3]));
                }
            }
        }
        lines_string(&lines)
    }
}

impl Default for CookieJar {
    fn default() -> (r: CookieJar)
        ensures
            r@ == Seq::<CookieView>::empty(),
    {
        CookieJar::new()
    }
}

proof fn lemma_filter_sound(jar: Seq<CookieView>, keep: spec_fn(CookieView) -> bool)
    ensures
        forall|i: int| 0 <= i < jar.filter(keep).len() ==> keep(#[trigger] jar.filter(keep)[i]),
        no_duplicates(jar) ==> no_duplicates(jar.filter(keep)),
        forall|i: int| 0 <= i < jar.filter(keep).len() ==> jar.contains(#[trigger] jar.filter(keep)[i]),
    decreases jar.len(),
{
    reveal(Seq::filter);
    if jar.len() > 0 {
        let rest = jar.drop_last();
        lemma_filter_sound(rest, keep);
        let f = jar.filter(keep);
        assert forall|i: int| 0 <= i < f.len() implies jar.contains(#[trigger] f[i]) by {
            if i < rest.filter(keep).len() {
                assert(rest.contains(rest.filter(keep)[i]));
                let k = choose|k: int| 0 <= k < rest.len() && rest[k] == f[i];
                assert(jar[k] == f[i]);
            } else {
                assert(jar[jar.len() - 1] == f[i]);
            }
        }
        if no_duplicates(jar) {
            assert forall|i: int, j: int| 0 <= i < j < rest.len() implies !same_cookie(
                #[trigger] rest[i],
                #[trigger] rest[j],
            ) by {
                assert(!same_cookie(jar[i], jar[j]));
            }
            assert forall|i: int, j: int| 0 <= i < j < f.len() implies !same_cookie(#[trigger] f[i], #[trigger] f[j]) by {
                if j < rest.filter(keep).len() {
                    assert(!same_cookie(rest.filter(keep)[i], rest.filter(keep)[j]));
                } else {
                    assert(rest.contains(rest.filter(keep)[i]));
                    let k = choose|k: int| 0 <= k < rest.len() && rest[k] == f[i];
                    assert(!same_cookie(jar[k], jar[jar.len() - 1]));
                }
            }
        }
    }
}

proof fn lemma_inserted_no_duplicates(jar: Seq<CookieView>, c: CookieView)
    requires
        no_duplicates(jar),
    ensures
        no_duplicates(inserted(jar, c)),
{
    let keep = |x: CookieView| !same_cookie(x, c);
    lemma_filter_sound(jar, keep);
    let f = jar.filter(keep);
    assert forall|i: int, j: int| 0 <= i < j < inserted(jar, c).len() implies !same_cookie(
        #[trigger] inserted(jar, c)[i],
        #[trigger] inserted(jar, c)[j],
    ) by {
        if j == f.len() {
            assert(keep(f[i]));
        } else {
            assert(!same_cookie(f[i], f[j]));
        }
    }
}

} // verus!
