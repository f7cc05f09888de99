use vstd::prelude::*;

verus! {

/// One response header, as received.
#[derive(Debug, Clone)]
pub struct Header {
    pub name: String,
    pub value: String,
}

impl Header {
    pub open spec fn view(&self) -> (Seq<char>, Seq<char>) {
        (self.name@, self.value@)
    }
}

/// How a response body is drawn, by its media type.
#[derive(Debug, Clone, Copy, PartialEq, Eq)]
pub enum ContentTypeHint {
    Json,
    Html,
    /// Any other media type, a missing `Content-Type` or one that does not parse.
    Plain,
}

/// `a` and `b` are the same character but for ASCII case.
pub open spec fn same_char_ignoring_case(a: char, b: char) -> bool {
    ||| a == b
    ||| ('A' <= a <= 'Z' && b as u32 == a as u32 + 32)
    ||| ('A' <= b <= 'Z' && a as u32 == b as u32 + 32)
}

/// `a` and `b` are the same text but for ASCII case.
pub open spec fn same_ignoring_case(a: Seq<char>, b: Seq<char>) -> bool {
    &&& a.len() == b.len()
    &&& forall|i: int| 0 <= i < a.len() ==> same_char_ignoring_case(#[trigger] a[i], b[i])
}

pub open spec fn content_type_name() -> Seq<char> {
    "content-type"@
}

pub open spec fn json_media_type() -> Seq<char> {
    "application/json"@
}

pub open spec fn html_media_type() -> Seq<char> {
    "text/html"@
}

/// The value of the first header named `Content-Type`, in any case.
pub open spec fn content_type_of(headers: Seq<(Seq<char>, Seq<char>)>) -> Option<Seq<char>>
    decreases headers.len(),
{
    if headers.len() == 0 {
        None
    } else if same_ignoring_case(headers[0].0, content_type_name()) {
        Some(headers[0].1)
    } else {
        content_type_of(headers.drop_first())
    }
}

/// The hint for a media type (`None`: no media type could be read).
pub open spec fn hint_of(media: Option<Seq<char>>) -> ContentTypeHint {
    match media {
        Some(m) => if same_ignoring_case(m, json_media_type()) {
            ContentTypeHint::Json
        } else if same_ignoring_case(m, html_media_type()) {
            ContentTypeHint::Html
        } else {
            ContentTypeHint::Plain
        },
        None => ContentTypeHint::Plain,
    }
}

/// The media type (`type/subtype`, parameters left out) that the `mime` crate
/// reads from a `Content-Type` value; `None` where it does not parse.
pub uninterp spec fn media_type_of(value: Seq<char>) -> Option<Seq<char>>;

pub open spec fn headers_view(headers: Seq<Header>) -> Seq<(Seq<char>, Seq<char>)> {
    headers.map_values(|h: Header| h.view())
}

/// A space or a tab.
pub open spec fn is_blank(c: char) -> bool {
    c == ' ' || c == '\t'
}

/// The index of the first `;` of `v` at or after `i`, or its length.
pub open spec fn semicolon_from(v: Seq<char>, i: int) -> int
    decreases v.len() - i,
{
    if i >= v.len() {
        v.len() as int
    } else if v[i] == ';' {
        i
    } else {
        semicolon_from(v, i + 1)
    }
}

/// The index of the first character of `v` from `i` on, before `end`, that is
/// not blank; `end` if there is none.
pub open spec fn skip_blanks(v: Seq<char>, i: int, end: int) -> int
    decreases end - i,
{
    if i >= end {
        end
    } else if is_blank(v[i]) {
        skip_blanks(v, i + 1, end)
    } else {
        i
    }
}

/// `j`, moved back over the blanks that stand before it, down to `start`.
pub open spec fn drop_blanks_back(v: Seq<char>, start: int, j: int) -> int
    decreases j - start,
{
    if j <= start {
        start
    } else if is_blank(v[j - 1]) {
        drop_blanks_back(v, start, j - 1)
    } else {
        j
    }
}

/// The media-type part of a `Content-Type` value: what stands before its first
/// `;`, without the blanks around it.
pub open spec fn media_part(v: Seq<char>) -> Seq<char> {
    let end = semicolon_from(v, 0);
    let start = skip_blanks(v, 0, end);
    v.subrange(start, drop_blanks_back(v, start, end))
}

/// The hint that a header collection gives.
pub open spec fn classified(headers: Seq<(Seq<char>, Seq<char>)>) -> ContentTypeHint {
    match content_type_of(headers) {
        Some(v) => hint_of(media_type_of(media_part(v))),
        None => ContentTypeHint::Plain,
    }
}

/// Relies on `mime::Mime`'s `FromStr` and `essence_str`: the media type of a
/// `Content-Type` value, without its parameters; `None` where it does not parse.
#[verifier::external_body]
fn media_type(value: &str) -> (r: Option<String>)
    ensures
        match r {
            Some(m) => media_type_of(value@) == Some(m@),
            None => media_type_of(value@) is None,
        },
{
    value.parse::<mime::Mime>().ok().map(|m| m.essence_str().to_string())
}

fn is_blank_exec(c: char) -> (r: bool)
    ensures
        r == is_blank(c),
{
    c == ' ' || c == '\t'
}

/// The media-type part of a `Content-Type` value: parameters after the first
/// `;` are left out, and so are the blanks around what is left.
pub fn media_part_of(v: &str) -> (r: &str)
    ensures
        r@ == media_part(v@),
{
    let n = v.unicode_len();
    let mut end: usize = 0;
    while end < n && v.get_char(end) != ';'
        invariant
            n == v@.len(),
            end <= n,
            semicolon_from(v@, 0) == semicolon_from(v@, end as int),
        decreases n - end,
    {
        end = end + 1;
    }
    let mut start: usize = 0;
    while start < end && is_blank_exec(v.get_char(start))
        invariant
            n == v@.len(),
            end <= n,
            end == semicolon_from(v@, 0),
            start <= end,
            skip_blanks(v@, 0, end as int) == skip_blanks(v@, start as int, end as int),
        decreases end - start,
    {
        start = start + 1;
    }
    let mut stop: usize = end;
    while stop > start && is_blank_exec(v.get_char(stop - 1))
        invariant
            n == v@.len(),
            end <= n,
            end == semicolon_from(v@, 0),
            start == skip_blanks(v@, 0, end as int),
            start <= stop <= end,
            drop_blanks_back(v@, start as int, end as int) == drop_blanks_back(v@, start as int, stop as int),
        decreases stop - start,
    {
        stop = stop - 1;
    }
    v.substring_char(start, stop)
}

fn same_char_ignoring_case_exec(a: char, b: char) -> (r: bool)
    ensures
        r == same_char_ignoring_case(a, b),
{
    let x = a as u32;
    let y = b as u32;
    x == y || ('A' <= a && a <= 'Z' && y == x + 32) || ('A' <= b && b <= 'Z' && x == y + 32)
}

/// Compares two texts, ASCII letters matching in either case.
pub fn eq_ignoring_case(a: &str, b: &str) -> (r: bool)
    ensures
        r == same_ignoring_case(a@, b@),
{
    let n = a.unicode_len();
    if n != b.unicode_len() {
        return false;
    }
    let mut i: usize = 0;
    while i < n
        invariant
            n == a@.len(),
            n == b@.len(),
            i <= n,
            forall|k: int| 0 <= k < i ==> same_char_ignoring_case(#[trigger] a@[k], b@[k]),
        decreases n - i,
    {
        if !same_char_ignoring_case_exec(a.get_char(i), b.get_char(i)) {
            return false;
        }
        i = i + 1;
    }
    true
}

/// The hint for a media type as the `mime` crate reads it (`None`: none could
/// be read): JSON and HTML by their media types, in any case; anything else is
/// drawn plain.
pub fn classify_media_type(media: Option<&str>) -> (r: ContentTypeHint)
    ensures
        r == hint_of(
            match media {
                Some(m) => Some(m@),
                None => None,
            },
        ),
{
    match media {
        Some(m) => {
            if eq_ignoring_case(m, "application/json") {
                ContentTypeHint::Json
            } else if eq_ignoring_case(m, "text/html") {
                ContentTypeHint::Html
            } else {
                ContentTypeHint::Plain
            }
        },
        None => ContentTypeHint::Plain,
    }
}

/// Classifies a response by its first `Content-Type` header (name matched in
/// any case). A missing or unreadable value gives `Plain`; this never fails.
pub fn classify(headers: &Vec<Header>) -> (r: ContentTypeHint)
    ensures
        r == classified(headers_view(headers@)),
{
    let mut i: usize = 0;
    assert(headers_view(headers@).skip(0) =~= headers_view(headers@));
    while i < headers.len()
        invariant
            i <= headers.len(),
            content_type_of(headers_view(headers@)) == content_type_of(headers_view(headers@).skip(i as int)),
        decreases headers.len() - i,
    {
        let ghost rest = headers_view(headers@).skip(i as int);
        assert(rest[0] == headers[i as int].view());
        assert(rest.drop_first() =~= headers_view(headers@).skip(i + 1));
        if eq_ignoring_case(headers[i].name.as_str(), "content-type") {
            let media = media_type(media_part_of(headers[i].value.as_str()));
            return match media {
                Some(m) => classify_media_type(Some(m.as_str())),
                None => classify_media_type(None),
            };
        }
        i = i + 1;
    }
    assert(headers_view(headers@).skip(i as int).len() == 0);
    ContentTypeHint::Plain
}

} // verus!
