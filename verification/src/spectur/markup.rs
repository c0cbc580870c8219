//! Where the tags of a manifest are, and their attributes.

use vstd::prelude::*;

verus! {

pub open spec fn is_quote(c: char) -> bool {
    c == '"' || c == '\''
}

pub open spec fn is_space(c: char) -> bool {
    c == ' ' || c == '\t' || c == '\n' || c == '\r'
}

/// What stands behind a `<`.
#[derive(Debug, Clone, Copy, PartialEq, Eq, Structural)]
pub enum Markup {
    Comment,
    CData,
    DocType,
    Instruction,
    EndTag,
    Tag,
    /// No markup.
    Broken,
}

/// The markup that the `<` at `j` opens.
pub open spec fn markup_at(t: Seq<char>, j: int) -> Markup {
    if j + 1 >= t.len() {
        Markup::Broken
    } else if t[j + 1] == '!' {
        if j + 2 >= t.len() {
            Markup::Broken
        } else if t[j + 2] == '-' {
            Markup::Comment
        } else if t[j + 2] == '[' {
            Markup::CData
        } else if t[j + 2] == 'D' || t[j + 2] == 'd' {
            Markup::DocType
        } else {
            Markup::Broken
        }
    } else if t[j + 1] == '?' {
        Markup::Instruction
    } else if t[j + 1] == '/' {
        Markup::EndTag
    } else {
        Markup::Tag
    }
}

/// Where the next `<` from `i` on is, or else the end.
pub open spec fn open_at(t: Seq<char>, i: int) -> int
    decreases t.len() - i,
{
    if i < 0 || i >= t.len() || t[i] == '<' {
        i
    } else {
        open_at(t, i + 1)
    }
}

/// The `>` at `k` closes a comment, a character section or an instruction that
/// the `<` at `j` opens.
pub open spec fn closes(t: Seq<char>, j: int, k: int, kind: Markup) -> bool {
    &&& t[k] == '>'
    &&& match kind {
        Markup::Comment => k - j > 5 && t[k - 1] == '-' && t[k - 2] == '-',
        Markup::CData => k - j > 2 && t[k - 1] == ']' && t[k - 2] == ']',
        Markup::Instruction => k - j > 1 && t[k - 1] == '?',
        _ => false,
    }
}

/// The first position from `k` on that closes it, or else the end.
pub open spec fn mark_close(t: Seq<char>, j: int, k: int, kind: Markup) -> int
    decreases t.len() - k,
{
    if k < 0 || k >= t.len() || closes(t, j, k, kind) {
        k
    } else {
        mark_close(t, j, k + 1, kind)
    }
}

/// The first `>` from `k` on that has no `<` of its own, or else the end.
pub open spec fn type_close(t: Seq<char>, k: int, open: int) -> int
    decreases t.len() - k,
{
    if k < 0 || k >= t.len() {
        k
    } else if t[k] == '<' {
        type_close(t, k + 1, open + 1)
    } else if t[k] == '>' {
        if open == 0 {
            k
        } else {
            type_close(t, k + 1, open - 1)
        }
    } else {
        type_close(t, k + 1, open)
    }
}

/// The first `>` from `k` on that stands outside quotes, or else the end.
/// `quote` is the quote that is open.
pub open spec fn tag_close(t: Seq<char>, k: int, quote: Option<char>) -> int
    decreases t.len() - k,
{
    if k < 0 || k >= t.len() {
        k
    } else {
        match quote {
            Some(q) => if t[k] == q {
                tag_close(t, k + 1, None)
            } else {
                tag_close(t, k + 1, quote)
            },
            None => if t[k] == '>' {
                k
            } else if is_quote(t[k]) {
                tag_close(t, k + 1, Some(t[k]))
            } else {
                tag_close(t, k + 1, None)
            },
        }
    }
}

/// Where the markup ends that the `<` at `j` opens; the end where it does not.
pub open spec fn markup_close(t: Seq<char>, j: int) -> int {
    let kind = markup_at(t, j);
    match kind {
        Markup::Broken => t.len() as int,
        Markup::DocType => type_close(t, j + 1, 0),
        Markup::EndTag | Markup::Tag => tag_close(t, j + 1, None),
        _ => mark_close(t, j, j + 1, kind),
    }
}

/// The first position from `p` on, before `end`, that is no space.
pub open spec fn skip_space(t: Seq<char>, p: int, end: int) -> int
    decreases end - p,
{
    if 0 <= p < end && end <= t.len() && is_space(t[p]) {
        skip_space(t, p + 1, end)
    } else {
        p
    }
}

/// The first position from `p` on, before `end`, that is a space, or an equals
/// sign where that ends a word too.
pub open spec fn word_end(t: Seq<char>, p: int, end: int, at_equals: bool) -> int
    decreases end - p,
{
    if 0 <= p < end && end <= t.len() && !is_space(t[p]) && !(at_equals && t[p] == '=') {
        word_end(t, p + 1, end, at_equals)
    } else {
        p
    }
}

/// The first position from `p` on, before `end`, that holds `c`.
pub open spec fn seek(t: Seq<char>, p: int, end: int, c: char) -> int
    decreases end - p,
{
    if 0 <= p < end && end <= t.len() && t[p] != c {
        seek(t, p + 1, end, c)
    } else {
        p
    }
}

/// Where the name from `a` to `b` begins without its prefix.
pub open spec fn local_start(t: Seq<char>, a: int, b: int) -> int {
    if seek(t, a, b, ':') < b {
        seek(t, a, b, ':') + 1
    } else {
        a
    }
}

/// An attribute: its name, without prefix, and its value.
#[derive(Debug, Clone, Copy, PartialEq, Eq, Structural)]
pub struct Attribute {
    pub name_start: usize,
    pub name_end: usize,
    pub value_start: usize,
    pub value_end: usize,
}

/// The attribute from `p` on of a tag that ends at `end`; none where there is
/// no further one, or no well-formed one.
pub open spec fn attribute_at(t: Seq<char>, p: int, end: int) -> Option<Attribute> {
    let s = skip_space(t, p, end);
    if s >= end {
        None
    } else {
        let e = word_end(t, s + 1, end, true);
        let q = skip_space(t, e, end);
        let v = skip_space(t, q + 1, end);
        if q >= end || t[q] != '=' || v >= end || !is_quote(t[v]) || seek(t, v + 1, end, t[v]) >= end {
            None
        } else {
            Some(
                Attribute {
                    name_start: local_start(t, s, e) as usize,
                    name_end: e as usize,
                    value_start: (v + 1) as usize,
                    value_end: seek(t, v + 1, end, t[v]) as usize,
                },
            )
        }
    }
}

/// A tag: its name without prefix, where its attributes begin, and where it
/// ends.
#[derive(Debug, Clone, Copy, PartialEq, Eq, Structural)]
pub struct TagParts {
    pub name_start: usize,
    pub name_end: usize,
    pub end: usize,
    /// Whether it closes itself.
    pub is_empty: bool,
}

/// The parts of the tag from the `<` at `j` to the `>` at `k`.
pub open spec fn tag_parts(t: Seq<char>, j: int, k: int) -> TagParts {
    let is_empty = k > j + 1 && t[k - 1] == '/';
    let end = if is_empty {
        k - 1
    } else {
        k
    };
    let name_end = word_end(t, j + 1, end, false);
    TagParts {
        name_start: local_start(t, j + 1, name_end) as usize,
        name_end: name_end as usize,
        end: end as usize,
        is_empty,
    }
}

pub fn find_open(t: &Vec<char>, i: usize) -> (r: usize)
    requires
        i <= t@.len(),
    ensures
        r == open_at(t@, i as int),
        i <= r <= t@.len(),
        r < t@.len() ==> t@[r as int] == '<',
{
    let mut r: usize = i;
    while r < t.len() && t[r] != '<'
        invariant
            i <= r <= t@.len(),
            open_at(t@, r as int) == open_at(t@, i as int),
        decreases t@.len() - r,
    {
        r = r + 1;
    }
    r
}

pub fn read_markup(t: &Vec<char>, j: usize) -> (r: Markup)
    requires
        j < t@.len(),
    ensures
        r == markup_at(t@, j as int),
{
    let left: usize = t.len() - j;
    if left < 2 {
        Markup::Broken
    } else if t[j + 1] == '!' {
        if left < 3 {
            Markup::Broken
        } else if t[j + 2] == '-' {
            Markup::Comment
        } else if t[j + 2] == '[' {
            Markup::CData
        } else if t[j + 2] == 'D' || t[j + 2] == 'd' {
            Markup::DocType
        } else {
            Markup::Broken
        }
    } else if t[j + 1] == '?' {
        Markup::Instruction
    } else if t[j + 1] == '/' {
        Markup::EndTag
    } else {
        Markup::Tag
    }
}

fn is_close(t: &Vec<char>, j: usize, k: usize, kind: Markup) -> (r: bool)
    requires
        j < k < t@.len(),
    ensures
        r == closes(t@, j as int, k as int, kind),
{
    t[k] == '>' && match kind {
        Markup::Comment => k - j > 5 && t[k - 1] == '-' && t[k - 2] == '-',
        Markup::CData => k - j > 2 && t[k - 1] == ']' && t[k - 2] == ']',
        Markup::Instruction => k - j > 1 && t[k - 1] == '?',
        _ => false,
    }
}

fn find_mark_close(t: &Vec<char>, j: usize, kind: Markup) -> (r: usize)
    requires
        j < t@.len(),
    ensures
        r == mark_close(t@, j as int, j + 1, kind),
        j < r <= t@.len(),
{
    let n: usize = t.len();
    let mut k: usize = j + 1;
    while k < n
        invariant
            n == t@.len(),
            j < k <= n,
            mark_close(t@, j as int, k as int, kind) == mark_close(t@, j as int, j + 1, kind),
        decreases t@.len() - k,
    {
        if is_close(t, j, k, kind) {
            return k;
        }
        k = k + 1;
    }
    k
}

fn find_type_close(t: &Vec<char>, j: usize) -> (r: usize)
    requires
        j < t@.len(),
    ensures
        r == type_close(t@, j + 1, 0),
        j < r <= t@.len(),
{
    let n: usize = t.len();
    let mut k: usize = j + 1;
    let mut open: usize = 0;
    while k < n
        invariant
            n == t@.len(),
            j < k <= n,
            open <= k,
            type_close(t@, k as int, open as int) == type_close(t@, j + 1, 0),
        decreases t@.len() - k,
    {
        if t[k] == '<' {
            open = open + 1;
        } else if t[k] == '>' {
            if open == 0 {
                return k;
            }
            open = open - 1;
        }
        k = k + 1;
    }
    k
}

fn find_tag_close(t: &Vec<char>, j: usize) -> (r: usize)
    requires
        j < t@.len(),
    ensures
        r == tag_close(t@, j + 1, None),
        j < r <= t@.len(),
{
    let n: usize = t.len();
    let mut k: usize = j + 1;
    let mut quote: Option<char> = None;
    while k < n
        invariant
            n == t@.len(),
            j < k <= n,
            tag_close(t@, k as int, quote) == tag_close(t@, j + 1, None),
        decreases t@.len() - k,
    {
        let c: char = t[k];
        match quote {
            Some(q) => {
                if c == q {
                    quote = None;
                }
            },
            None => {
                if c == '>' {
                    return k;
                }
                if c == '"' || c == '\'' {
                    quote = Some(c);
                }
            },
        }
        k = k + 1;
    }
    k
}

pub fn find_markup_close(t: &Vec<char>, j: usize) -> (r: usize)
    requires
        j < t@.len(),
    ensures
        r == markup_close(t@, j as int),
        j < r <= t@.len(),
{
    let kind: Markup = read_markup(t, j);
    match kind {
        Markup::Broken => t.len(),
        Markup::DocType => find_type_close(t, j),
        Markup::EndTag | Markup::Tag => find_tag_close(t, j),
        _ => find_mark_close(t, j, kind),
    }
}

fn after_space(t: &Vec<char>, p: usize, end: usize) -> (r: usize)
    requires
        p <= end <= t@.len(),
    ensures
        r == skip_space(t@, p as int, end as int),
        p <= r <= end,
{
    let mut r: usize = p;
    while r < end && (t[r] == ' ' || t[r] == '\t' || t[r] == '\n' || t[r] == '\r')
        invariant
            p <= r <= end <= t@.len(),
            skip_space(t@, r as int, end as int) == skip_space(t@, p as int, end as int),
        decreases end - r,
    {
        r = r + 1;
    }
    r
}

fn find_word_end(t: &Vec<char>, p: usize, end: usize, at_equals: bool) -> (r: usize)
    requires
        p <= end <= t@.len(),
    ensures
        r == word_end(t@, p as int, end as int, at_equals),
        p <= r <= end,
{
    let mut r: usize = p;
    while r < end && !(t[r] == ' ' || t[r] == '\t' || t[r] == '\n' || t[r] == '\r') && !(at_equals && t[r] == '=')
        invariant
            p <= r <= end <= t@.len(),
            word_end(t@, r as int, end as int, at_equals) == word_end(t@, p as int, end as int, at_equals),
        decreases end - r,
    {
        r = r + 1;
    }
    r
}

fn find(t: &Vec<char>, p: usize, end: usize, c: char) -> (r: usize)
    requires
        p <= end <= t@.len(),
    ensures
        r == seek(t@, p as int, end as int, c),
        p <= r <= end,
{
    let mut r: usize = p;
    while r < end && t[r] != c
        invariant
            p <= r <= end <= t@.len(),
            seek(t@, r as int, end as int, c) == seek(t@, p as int, end as int, c),
        decreases end - r,
    {
        r = r + 1;
    }
    r
}

fn find_local_start(t: &Vec<char>, a: usize, b: usize) -> (r: usize)
    requires
        a <= b <= t@.len(),
    ensures
        r == local_start(t@, a as int, b as int),
        a <= r <= b,
{
    let i: usize = find(t, a, b, ':');
    if i < b {
        i + 1
    } else {
        a
    }
}

/// Reads the attribute from `p` on of a tag that ends at `end`.
pub fn read_attribute(t: &Vec<char>, p: usize, end: usize) -> (r: Option<Attribute>)
    requires
        p <= end <= t@.len(),
    ensures
        r == attribute_at(t@, p as int, end as int),
        r matches Some(a) ==> a.name_start <= a.name_end <= end && p < a.value_start <= a.value_end < end,
{
    let s: usize = after_space(t, p, end);
    if s >= end {
        return None;
    }
    let e: usize = find_word_end(t, s + 1, end, true);
    let q: usize = after_space(t, e, end);
    if q >= end || t[q] != '=' {
        return None;
    }
    let v: usize = after_space(t, q + 1, end);
    if v >= end || (t[v] != '"' && t[v] != '\'') {
        return None;
    }
    let c: usize = find(t, v + 1, end, t[v]);
    if c >= end {
        return None;
    }
    Some(Attribute { name_start: find_local_start(t, s, e), name_end: e, value_start: v + 1, value_end: c })
}

/// Reads the parts of the tag from the `<` at `j` to the `>` at `k`.
pub fn read_tag(t: &Vec<char>, j: usize, k: usize) -> (r: TagParts)
    requires
        j < k < t@.len(),
    ensures
        r == tag_parts(t@, j as int, k as int),
        j < r.name_start <= r.name_end <= r.end <= k,
{
    let is_empty: bool = k > j + 1 && t[k - 1] == '/';
    let end: usize = if is_empty {
        k - 1
    } else {
        k
    };
    let name_end: usize = find_word_end(t, j + 1, end, false);
    TagParts { name_start: find_local_start(t, j + 1, name_end), name_end, end, is_empty }
}

} // verus!
