//! What holds of the URLs, pictures, sounds and keys that manifests name.

use vstd::prelude::*;
use crate::numerals::decimal;
use crate::spectur::dash::{
    all_places, manifest_metadata, place_row, place_rows, places, places_in_period, places_in_set, DashManifest,
    DashView,
};
use crate::spectur::hls::{has_label, size_label};
use crate::spectur::types::{ResolutionView, StreamMetadata};
use crate::spectur::urls::{extract_base_url_from, resolve_dash_url, resolve_segment_base};
use crate::text::{contains, last_index_of, occurs_at};
use crate::web_url::{joined_url, opt_text, opt_url, url_parts, UrlParts, UrlView};

verus! {

/// A whole URL of the web.
pub open spec fn is_whole(s: Seq<char>) -> bool {
    ||| s.len() >= 7 && s.subrange(0, 7) == "http://"@
    ||| s.len() >= 8 && s.subrange(0, 8) == "https://"@
}

/// One comes from `from` to `to` by a base URL: to it where it is whole, else
/// to where the two join, and nowhere where they do not or there is none.
pub open spec fn leads(from: Seq<char>, by: Option<Seq<char>>, to: Seq<char>) -> bool {
    match by {
        None => to == from,
        Some(b) => if is_whole(b) {
            to == b
        } else {
            match joined_url(from, b) {
                Some(j) => to == j,
                None => to == from,
            }
        },
    }
}

/// A URL is that of a file, whose place the URLs in a manifest start from.
pub open spec fn is_file(url: Seq<char>) -> bool {
    ||| url.len() >= 4 && url.subrange(url.len() - 4, url.len() as int) == ".mpd"@
    ||| exists|i: int| 0 <= i < url.len() && #[trigger] url[i] == '?'
    ||| exists|i: int|
        0 <= i < url.len() && #[trigger] url[i] == '.' && forall|j: int| i < j < url.len() ==> url[j] != '/'
}

proof fn lemma_whole(s: Seq<char>)
    ensures
        crate::spectur::urls::is_absolute(s) == is_whole(s),
{
    reveal_strlit("http://");
    reveal_strlit("https://");
}

proof fn lemma_leads(from: Seq<char>, by: Option<Seq<char>>)
    ensures
        leads(from, by, crate::spectur::urls::stepped(from, by)),
{
    if by is Some {
        lemma_whole(by->0);
    }
}

proof fn lemma_last_index(s: Seq<char>, c: char)
    ensures
        -1 <= last_index_of(s, c) < s.len(),
        last_index_of(s, c) >= 0 ==> s[last_index_of(s, c)] == c,
        forall|j: int| last_index_of(s, c) < j < s.len() ==> s[j] != c,
    decreases s.len(),
{
    if s.len() > 0 && s.last() != c {
        lemma_last_index(s.drop_last(), c);
        assert forall|j: int| last_index_of(s, c) < j < s.len() implies s[j] != c by {
            if j < s.len() - 1 {
                assert(s[j] == s.drop_last()[j]);
            }
        }
    }
}

/// `place` is where the file at a URL is: all up to its last slash.
pub open spec fn is_place_of(url: Seq<char>, parts: Option<UrlView>, place: Seq<char>) -> bool {
    match parts {
        None => place == url,
        Some(u) => if exists|i: int| 0 <= i < u.text.len() && #[trigger] u.text[i] == '/' {
            &&& 0 < place.len() <= u.text.len()
            &&& place == u.text.subrange(0, place.len() as int)
            &&& place[place.len() - 1] == '/'
            &&& forall|j: int| place.len() <= j < u.text.len() ==> u.text[j] != '/'
        } else {
            place == url
        },
    }
}

proof fn lemma_place(url: Seq<char>, parts: Option<UrlView>)
    ensures
        is_place_of(url, parts, crate::spectur::urls::base_of(url, parts)),
{
    if parts is Some {
        let t = parts->0.text;
        lemma_last_index(t, '/');
        let i = last_index_of(t, '/');
        if i >= 0 {
            assert(t[i] == '/');
            assert(t.take(i + 1) =~= t.subrange(0, i + 1));
        }
    }
}

/// Where the URLs in the manifest at `url` start from.
pub open spec fn starts_from(url: Seq<char>, start: Seq<char>) -> bool {
    if is_file(url) {
        is_place_of(url, url_parts(url), start)
    } else {
        start == url
    }
}

proof fn lemma_start(url: Seq<char>)
    ensures
        starts_from(url, crate::spectur::urls::manifest_base(url)),
{
    reveal_strlit(".mpd");
    reveal_strlit("?");
    reveal_strlit(".");
    lemma_place(url, url_parts(url));
    lemma_last_index(url, '/');
    let k = last_index_of(url, '/') + 1;
    let rest = url.skip(k);
    assert(contains(url, "?"@) == exists|i: int| 0 <= i < url.len() && #[trigger] url[i] == '?') by {
        if contains(url, "?"@) {
            let i = choose|i: int| occurs_at(url, "?"@, i);
            assert(url.subrange(i, i + 1)[0] == '?');
            assert(url[i] == '?');
        }
        if exists|i: int| 0 <= i < url.len() && #[trigger] url[i] == '?' {
            let i = choose|i: int| 0 <= i < url.len() && #[trigger] url[i] == '?';
            assert(url.subrange(i, i + 1) =~= "?"@);
            assert(occurs_at(url, "?"@, i));
        }
    }
    assert(contains(rest, "."@) == exists|i: int|
        0 <= i < url.len() && #[trigger] url[i] == '.' && forall|j: int| i < j < url.len() ==> url[j] != '/') by {
        if contains(rest, "."@) {
            let i = choose|i: int| occurs_at(rest, "."@, i);
            assert(rest.subrange(i, i + 1)[0] == '.');
            assert(url[k + i] == '.');
        }
        if exists|i: int|
            0 <= i < url.len() && #[trigger] url[i] == '.' && forall|j: int| i < j < url.len() ==> url[j] != '/' {
            let i = choose|i: int|
                0 <= i < url.len() && #[trigger] url[i] == '.' && forall|j: int| i < j < url.len() ==> url[j] != '/';
            assert(i >= k) by {
                if i < k - 1 {
                    assert(url[k - 1] == '/');
                }
            }
            assert(rest.subrange(i - k, i - k + 1) =~= "."@);
            assert(occurs_at(rest, "."@, i - k));
        }
    }
}

/// The place of a file is all of its URL up to the last slash.
pub proof fn law_a_file_lies_in_its_place(url: &str, parts: &Option<UrlParts>, r: String)
    requires
        call_ensures(extract_base_url_from, (url, parts), r),
    ensures
        is_place_of(url@, opt_url(*parts), r@),
{
    lemma_place(url@, opt_url(*parts));
}

/// A whole URL stands for itself; any other for what it joins to.
pub proof fn law_whole_urls_stay(base: &str, uri: &str, r: Option<String>)
    requires
        call_ensures(resolve_segment_base, (base, uri), r),
    ensures
        is_whole(uri@) ==> opt_text(r) == Some(uri@),
        !is_whole(uri@) ==> opt_text(r) == joined_url(base@, uri@),
{
    lemma_whole(uri@);
}

/// A URL is reached from the manifest's own by base URLs, one after the other.
pub open spec fn is_reached(
    url: Seq<char>,
    mpd: Option<Seq<char>>,
    period: Option<Seq<char>>,
    set: Option<Seq<char>>,
    rep: Option<Seq<char>>,
    to: Seq<char>,
) -> bool {
    exists|start: Seq<char>, a: Seq<char>, b: Seq<char>, c: Seq<char>|
        {
            &&& starts_from(url, start)
            &&& #[trigger] leads(start, mpd, a)
            &&& #[trigger] leads(a, period, b)
            &&& #[trigger] leads(b, set, c)
            &&& leads(c, rep, to)
        }
}

proof fn lemma_reached(
    url: Seq<char>,
    mpd: Option<Seq<char>>,
    period: Option<Seq<char>>,
    set: Option<Seq<char>>,
    rep: Option<Seq<char>>,
)
    ensures
        is_reached(url, mpd, period, set, rep, crate::spectur::urls::dash_url(url, mpd, period, set, rep)),
{
    let start = crate::spectur::urls::manifest_base(url);
    lemma_start(url);
    lemma_leads(start, mpd);
    let a = crate::spectur::urls::stepped(start, mpd);
    lemma_leads(a, period);
    let b = crate::spectur::urls::stepped(a, period);
    lemma_leads(b, set);
    let c = crate::spectur::urls::stepped(b, set);
    lemma_leads(c, rep);
}

/// The URL of a representation is reached from the manifest's place by the
/// base URLs of the manifest, the period, the adaptation set and the
/// representation, in this order. A whole one makes those before it moot; a
/// whole one on the manifest and another on the representation join.
pub proof fn law_base_urls_lead_to_the_picture(
    url: &str,
    mpd: &Option<String>,
    period: &Option<String>,
    set: &Option<String>,
    rep: &Option<String>,
    r: String,
)
    requires
        call_ensures(resolve_dash_url, (url, mpd, period, set, rep), r),
    ensures
        is_reached(url@, opt_text(*mpd), opt_text(*period), opt_text(*set), opt_text(*rep), r@),
        (opt_text(*rep) matches Some(u) && is_whole(u)) ==> r@ == opt_text(*rep)->0,
        (opt_text(*mpd) matches Some(m) && is_whole(m)) && period is None && set is None && (opt_text(*rep) matches Some(
            u,
        ) && !is_whole(u) && joined_url(opt_text(*mpd)->0, u) is Some) ==> Some(r@) == joined_url(
            opt_text(*mpd)->0,
            opt_text(*rep)->0,
        ),
        (opt_text(*period) matches Some(m) && is_whole(m)) && set is None && rep is None ==> r@ == opt_text(*period)->0,
        (opt_text(*set) matches Some(m) && is_whole(m)) && rep is None ==> r@ == opt_text(*set)->0,
{
    lemma_reached(url@, opt_text(*mpd), opt_text(*period), opt_text(*set), opt_text(*rep));
    let start = crate::spectur::urls::manifest_base(url@);
    lemma_leads(start, opt_text(*mpd));
    let a = crate::spectur::urls::stepped(start, opt_text(*mpd));
    lemma_leads(a, opt_text(*period));
    let b = crate::spectur::urls::stepped(a, opt_text(*period));
    lemma_leads(b, opt_text(*set));
    let c = crate::spectur::urls::stepped(b, opt_text(*set));
    lemma_leads(c, opt_text(*rep));
}

/// The first of several base URLs.
pub open spec fn front(v: Seq<Seq<char>>) -> Option<Seq<char>> {
    if v.len() == 0 {
        None
    } else {
        Some(v[0])
    }
}

/// Representation `k` of set `a` of period `p`.
pub open spec fn is_in(v: DashView, p: int, a: int, k: int) -> bool {
    0 <= p < v.periods.len() && 0 <= a < v.periods[p].adaptations.len() && 0 <= k
        < v.periods[p].adaptations[a].representations.len()
}

/// One place comes before another.
pub open spec fn precedes(p: int, a: int, k: int, q: int, b: int, l: int) -> bool {
    p < q || p == q && (a < b || a == b && k < l)
}

/// A picture of the given size.
pub open spec fn shows(v: DashView, p: int, a: int, k: int, w: u64, h: u64) -> bool {
    let set = v.periods[p].adaptations[a];
    set.content_type == Some("video"@) && set.representations[k].width == Some(w) && set.representations[k].height
        == Some(h)
}

/// What is told of the picture at a place.
pub open spec fn tells(v: DashView, url: Seq<char>, p: int, a: int, k: int, row: ResolutionView) -> bool {
    let set = v.periods[p].adaptations[a];
    let rep = set.representations[k];
    &&& row.bandwidth == if rep.bandwidth is Some {
        rep.bandwidth->0
    } else {
        0
    }
    &&& row.codecs == if rep.codecs is Some {
        rep.codecs
    } else {
        set.codecs
    }
    &&& row.frame_rate == if rep.frame_rate is Some {
        rep.frame_rate
    } else {
        set.frame_rate
    }
    &&& row.mime_type == if rep.mime_type is Some {
        rep.mime_type
    } else {
        set.mime_type
    }
    &&& row.url matches Some(to) && is_reached(
        url,
        front(v.base_urls),
        front(v.periods[p].base_urls),
        front(set.base_urls),
        front(rep.base_urls),
        to,
    )
}

/// A size in words.
pub open spec fn is_sized(label: Seq<char>, w: u64, h: u64) -> bool {
    label == decimal(w as nat) + "x"@ + decimal(h as nat)
}

/// What is told in `row` is told of the first picture of its size.
pub open spec fn is_first_of_its_size(
    v: DashView,
    url: Seq<char>,
    p: int,
    a: int,
    k: int,
    w: u64,
    h: u64,
    row: ResolutionView,
) -> bool {
    &&& is_in(v, p, a, k)
    &&& shows(v, p, a, k, w, h)
    &&& is_sized(row.label, w, h)
    &&& tells(v, url, p, a, k, row)
    &&& forall|q: int, b: int, l: int|
        is_in(v, q, b, l) && precedes(q, b, l, p, a, k) ==> !#[trigger] shows(v, q, b, l, w, h)
}

proof fn lemma_set_places(p: int, a: int, n: int)
    ensures
        places_in_set(p, a, n).len() == if n > 0 { n } else { 0 },
        forall|i: int| 0 <= i < n ==> #[trigger] places_in_set(p, a, n)[i] == (p, a, i),
    decreases n,
{
    if n > 0 {
        lemma_set_places(p, a, n - 1);
    }
}

/// The places of a list stand in order.
pub open spec fn in_order(ts: Seq<(int, int, int)>) -> bool {
    forall|i: int, j: int|
        0 <= i < j < ts.len() ==> precedes(
            (#[trigger] ts[i]).0,
            ts[i].1,
            ts[i].2,
            (#[trigger] ts[j]).0,
            ts[j].1,
            ts[j].2,
        )
}

proof fn lemma_period_places(v: DashView, p: int, n: int)
    requires
        0 <= p < v.periods.len(),
        0 <= n <= v.periods[p].adaptations.len(),
    ensures
        in_order(places_in_period(v, p, n)),
        forall|i: int|
            0 <= i < places_in_period(v, p, n).len() ==> {
                let t = #[trigger] places_in_period(v, p, n)[i];
                t.0 == p && 0 <= t.1 < n && is_in(v, t.0, t.1, t.2)
            },
        forall|a: int, k: int|
            0 <= a < n && is_in(v, p, a, k) ==> places_in_period(v, p, n).contains(#[trigger] tuple(p, a, k)),
    decreases n,
{
    if n > 0 {
        lemma_period_places(v, p, n - 1);
        let before = places_in_period(v, p, n - 1);
        let m = v.periods[p].adaptations[n - 1].representations.len() as int;
        lemma_set_places(p, n - 1, m);
        let last = places_in_set(p, n - 1, m);
        let all = places_in_period(v, p, n);
        assert(all =~= before + last);
        assert forall|a: int, k: int| 0 <= a < n && is_in(v, p, a, k) implies all.contains(
            #[trigger] tuple(p, a, k),
        ) by {
            if a < n - 1 {
                assert(before.contains(tuple(p, a, k)));
                let i = choose|i: int| 0 <= i < before.len() && before[i] == tuple(p, a, k);
                assert(all[i] == tuple(p, a, k));
            } else {
                assert(last[k] == (p, a, k));
                assert(all[before.len() + k] == tuple(p, a, k));
            }
        }
    }
}

pub open spec fn tuple(p: int, a: int, k: int) -> (int, int, int) {
    (p, a, k)
}

proof fn lemma_places(v: DashView, n: int)
    requires
        0 <= n <= v.periods.len(),
    ensures
        in_order(places(v, n)),
        forall|i: int|
            0 <= i < places(v, n).len() ==> {
                let t = #[trigger] places(v, n)[i];
                0 <= t.0 < n && is_in(v, t.0, t.1, t.2)
            },
        forall|p: int, a: int, k: int|
            0 <= p < n && is_in(v, p, a, k) ==> places(v, n).contains(#[trigger] tuple(p, a, k)),
    decreases n,
{
    if n > 0 {
        lemma_places(v, n - 1);
        let m = v.periods[n - 1].adaptations.len() as int;
        lemma_period_places(v, n - 1, m);
        let before = places(v, n - 1);
        let last = places_in_period(v, n - 1, m);
        let all = places(v, n);
        assert(all =~= before + last);
        assert forall|p: int, a: int, k: int| 0 <= p < n && is_in(v, p, a, k) implies all.contains(
            #[trigger] tuple(p, a, k),
        ) by {
            if p < n - 1 {
                assert(before.contains(tuple(p, a, k)));
                let i = choose|i: int| 0 <= i < before.len() && before[i] == tuple(p, a, k);
                assert(all[i] == tuple(p, a, k));
            } else {
                assert(last.contains(tuple(p, a, k)));
                let i = choose|i: int| 0 <= i < last.len() && last[i] == tuple(p, a, k);
                assert(all[before.len() + i] == tuple(p, a, k));
            }
        }
    }
}

/// What the rows of some places say.
proof fn lemma_rows(v: DashView, base: Seq<char>, ts: Seq<(int, int, int)>)
    ensures
        forall|i: int|
            0 <= i < place_rows(v, base, ts).len() ==> {
                let row = #[trigger] place_rows(v, base, ts)[i];
                exists|j: int|
                    {
                        &&& 0 <= j < ts.len()
                        &&& place_row(v, base, #[trigger] ts[j]) == Some(row)
                        &&& forall|k: int|
                            0 <= k < j ==> (place_row(v, base, #[trigger] ts[k]) matches Some(r) ==> r.label
                                != row.label)
                    }
            },
        forall|j: int|
            0 <= j < ts.len() ==> (place_row(v, base, #[trigger] ts[j]) matches Some(r) ==> has_label(
                place_rows(v, base, ts),
                r.label,
            )),
    decreases ts.len(),
{
    if ts.len() > 0 {
        let front = ts.drop_last();
        lemma_rows(v, base, front);
        let before = place_rows(v, base, front);
        let rows = place_rows(v, base, ts);
        let n = ts.len() - 1;
        assert forall|i: int| 0 <= i < rows.len() implies {
            let row = #[trigger] rows[i];
            exists|j: int|
                {
                    &&& 0 <= j < ts.len()
                    &&& place_row(v, base, #[trigger] ts[j]) == Some(row)
                    &&& forall|k: int|
                        0 <= k < j ==> (place_row(v, base, #[trigger] ts[k]) matches Some(r) ==> r.label != row.label)
                }
        } by {
            let row = rows[i];
            if i < before.len() {
                assert(rows[i] == before[i]);
                let j = choose|j: int|
                    {
                        &&& 0 <= j < front.len()
                        &&& place_row(v, base, #[trigger] front[j]) == Some(row)
                        &&& forall|k: int|
                            0 <= k < j ==> (place_row(v, base, #[trigger] front[k]) matches Some(r) ==> r.label
                                != row.label)
                    };
                assert(ts[j] == front[j]);
                assert forall|k: int| 0 <= k < j implies (place_row(v, base, #[trigger] ts[k]) matches Some(r)
                    ==> r.label != row.label) by {
                    assert(ts[k] == front[k]);
                }
            } else {
                assert(place_row(v, base, ts[n]) == Some(row));
                assert forall|k: int| 0 <= k < n implies (place_row(v, base, #[trigger] ts[k]) matches Some(r)
                    ==> r.label != row.label) by {
                    assert(ts[k] == front[k]);
                }
            }
        }
        assert forall|j: int| 0 <= j < ts.len() implies (place_row(v, base, #[trigger] ts[j]) matches Some(r)
            ==> has_label(rows, r.label)) by {
            if let Some(r) = place_row(v, base, ts[j]) {
                if j < n {
                    assert(ts[j] == front[j]);
                    assert(has_label(before, r.label));
                    let i = choose|i: int| 0 <= i < before.len() && (#[trigger] before[i]).label == r.label;
                    assert(rows[i].label == r.label);
                } else if has_label(before, r.label) {
                    let i = choose|i: int| 0 <= i < before.len() && (#[trigger] before[i]).label == r.label;
                    assert(rows[i].label == r.label);
                } else {
                    assert(rows[before.len() as int].label == r.label);
                }
            }
        }
    }
}

/// A row is about the first picture of its size.
pub open spec fn is_about_the_first(v: DashView, url: Seq<char>, row: ResolutionView) -> bool {
    exists|p: int, a: int, k: int, w: u64, h: u64| #[trigger] is_first_of_its_size(v, url, p, a, k, w, h, row)
}

/// Every row is about the first picture of its size.
pub open spec fn rows_are_first(v: DashView, url: Seq<char>, rows: Seq<ResolutionView>) -> bool {
    forall|i: int| 0 <= i < rows.len() ==> is_about_the_first(v, url, #[trigger] rows[i])
}

/// Every picture has a row of its size.
pub open spec fn rows_are_complete(v: DashView, rows: Seq<ResolutionView>) -> bool {
    forall|p: int, a: int, k: int, w: u64, h: u64|
        is_in(v, p, a, k) && #[trigger] shows(v, p, a, k, w, h) ==> has_size(rows, w, h)
}

/// A row of some size.
pub open spec fn has_size(rows: Seq<ResolutionView>, w: u64, h: u64) -> bool {
    exists|i: int| 0 <= i < rows.len() && is_sized((#[trigger] rows[i]).label, w, h)
}

proof fn lemma_rows_are_first(v: DashView, base: Seq<char>)
    ensures
        rows_are_first(v, base, place_rows(v, base, all_places(v))),
{
    let ts = all_places(v);
    lemma_places(v, v.periods.len() as int);
    lemma_rows(v, base, ts);
    let rows = place_rows(v, base, ts);
    assert forall|i: int| 0 <= i < rows.len() implies is_about_the_first(v, base, #[trigger] rows[i]) by {
        let row = rows[i];
        let j = choose|j: int|
            {
                &&& 0 <= j < ts.len()
                &&& place_row(v, base, #[trigger] ts[j]) == Some(row)
                &&& forall|k: int|
                    0 <= k < j ==> (place_row(v, base, #[trigger] ts[k]) matches Some(o) ==> o.label != row.label)
            };
        let (p, a, k) = ts[j];
        let set = v.periods[p].adaptations[a];
        let rep = set.representations[k];
        let w = rep.width->0;
        let h = rep.height->0;
        lemma_reached(
            base,
            front(v.base_urls),
            front(v.periods[p].base_urls),
            front(set.base_urls),
            front(rep.base_urls),
        );
        assert(shows(v, p, a, k, w, h));
        assert(tells(v, base, p, a, k, row));
        assert forall|q: int, b: int, l: int|
            is_in(v, q, b, l) && precedes(q, b, l, p, a, k) implies !#[trigger] shows(v, q, b, l, w, h) by {
            assert(ts.contains(tuple(q, b, l)));
            let x = choose|x: int| 0 <= x < ts.len() && ts[x] == tuple(q, b, l);
            if x >= j {
                if x > j {
                    assert(precedes(ts[j].0, ts[j].1, ts[j].2, ts[x].0, ts[x].1, ts[x].2));
                }
                assert(false);
            }
            if shows(v, q, b, l, w, h) {
                assert(place_row(v, base, ts[x]) is Some);
                assert(place_row(v, base, ts[x])->0.label == row.label);
            }
        }
        assert(is_first_of_its_size(v, base, p, a, k, w, h, row));
    }
}

proof fn lemma_rows_are_complete(v: DashView, base: Seq<char>)
    ensures
        rows_are_complete(v, place_rows(v, base, all_places(v))),
{
    let ts = all_places(v);
    lemma_places(v, v.periods.len() as int);
    lemma_rows(v, base, ts);
    let rows = place_rows(v, base, ts);
    assert forall|p: int, a: int, k: int, w: u64, h: u64|
        is_in(v, p, a, k) && #[trigger] shows(v, p, a, k, w, h) implies has_size(rows, w, h) by {
        assert(ts.contains(tuple(p, a, k)));
        let x = choose|x: int| 0 <= x < ts.len() && ts[x] == tuple(p, a, k);
        let row = place_row(v, base, ts[x])->0;
        assert(has_label(rows, row.label));
        let i = choose|i: int| 0 <= i < rows.len() && (#[trigger] rows[i]).label == row.label;
        assert(rows[i].label == size_label(w, h));
    }
}

/// Every picture of a manifest is told of by its size, and what is told of a
/// size is told of the first picture that has it: what the representation
/// says of itself, else what its set says, and the URL that the base URLs of
/// the manifest, the period, the set and the representation lead to.
pub proof fn law_pictures_are_told_of(m: &DashManifest, url: &str, r: StreamMetadata)
    requires
        call_ensures(manifest_metadata, (m, url), r),
    ensures
        rows_are_first(m@, url@, r@.resolutions),
        rows_are_complete(m@, r@.resolutions),
{
    lemma_rows_are_first(m@, url@);
    lemma_rows_are_complete(m@, url@);
}

} // verus!
