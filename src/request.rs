use vstd::prelude::*;

verus! {

/// The failures that this library reports to its caller.
#[derive(Debug, Clone, PartialEq, Eq)]
pub enum Error {
    /// A `key=value` token that holds no `=`.
    ArgumentParse { token: String },
    /// A URL that is not an absolute URL.
    UrlParse { url: String },
    /// A response body that is not valid UTF-8.
    BodyDecode,
}

/// One `key=value` member of a POST body.
#[derive(Debug, Clone)]
pub struct Body {
    pub key: String,
    pub value: String,
}

impl Body {
    pub open spec fn view(&self) -> (Seq<char>, Seq<char>) {
        (self.key@, self.value@)
    }
}

impl std::str::FromStr for Body {
    type Err = Error;

    /// The same as `parse_body`.
    fn from_str(s: &str) -> (r: Result<Body, Error>)
        ensures
            r is Ok <==> !no_eq(s@),
            r matches Ok(b) ==> splits_at_first_eq(s@, b.key@, b.value@),
            r matches Err(e) ==> (e matches Error::ArgumentParse { token }) && e->token@ == s@,
    {
        parse_body(s)
    }
}

/// `s` holds no `=`.
pub open spec fn no_eq(s: Seq<char>) -> bool {
    forall|i: int| 0 <= i < s.len() ==> s[i] != '='
}

/// `key` and `value` are what splitting `token` at its first `=` gives.
pub open spec fn splits_at_first_eq(token: Seq<char>, key: Seq<char>, value: Seq<char>) -> bool {
    &&& no_eq(key)
    &&& token == key + seq!['='] + value
}

/// Splits a `key=value` token at its first `=`: the key is what comes before
/// it, the value everything after it, further `=` included.
pub fn parse_body(s: &str) -> (r: Result<Body, Error>)
    ensures
        r is Ok <==> !no_eq(s@),
        r matches Ok(b) ==> splits_at_first_eq(s@, b.key@, b.value@),
        r matches Err(e) ==> (e matches Error::ArgumentParse { token }) && e->token@ == s@,
{
    let n = s.unicode_len();
    let mut i: usize = 0;
    while i < n
        invariant
            n == s@.len(),
            i <= n,
            no_eq(s@.subrange(0, i as int)),
        decreases n - i,
    {
        if s.get_char(i) == '=' {
            let key = s.substring_char(0, i);
            let value = s.substring_char(i + 1, n);
            assert(s@ =~= key@ + seq!['='] + value@);
            return Ok(Body { key: key.to_owned(), value: value.to_owned() });
        }
        assert(no_eq(s@.subrange(0, i + 1))) by {
            assert(forall|k: int| 0 <= k < i ==> s@.subrange(0, i + 1)[k] == s@.subrange(0, i as int)[k]);
        }
        i = i + 1;
    }
    assert(s@.subrange(0, n as int) =~= s@);
    Err(Error::ArgumentParse { token: s.to_owned() })
}

/// Whether the `url` crate (as re-exported by reqwest) parses `s` as an
/// absolute URL.
pub uninterp spec fn url_parses(s: Seq<char>) -> bool;

/// Relies on `reqwest::Url`'s `FromStr`: it accepts exactly the absolute URLs.
#[verifier::external_body]
fn is_absolute_url(s: &str) -> (r: bool)
    ensures
        r == url_parses(s@),
{
    s.parse::<reqwest::Url>().is_ok()
}

/// Checks that `s` is an absolute URL and hands it back unchanged.
pub fn parse_url(s: &str) -> (r: Result<String, Error>)
    ensures
        r is Ok <==> url_parses(s@),
        r matches Ok(u) ==> u@ == s@,
        r matches Err(e) ==> (e matches Error::UrlParse { url }) && e->url@ == s@,
{
    if is_absolute_url(s) {
        Ok(s.to_owned())
    } else {
        Err(Error::UrlParse { url: s.to_owned() })
    }
}

/// The HTTP methods that requests are sent with.
#[derive(Debug, Clone, Copy, PartialEq, Eq)]
pub enum Method {
    Get,
    Post,
}

/// A request to send: its method, its URL and, for a POST, the members of
/// its JSON body, keys unique.
#[derive(Debug, Clone)]
pub struct Request {
    pub method: Method,
    pub url: String,
    pub body: Option<Vec<Body>>,
}

pub open spec fn pairs_view(pairs: Seq<Body>) -> Seq<(Seq<char>, Seq<char>)> {
    pairs.map_values(|b: Body| b.view())
}

/// The mapping that the pairs give when each is written in turn, a later
/// value for a key replacing an earlier one.
pub open spec fn pairs_map(pairs: Seq<(Seq<char>, Seq<char>)>) -> Map<Seq<char>, Seq<char>>
    decreases pairs.len(),
{
    if pairs.len() == 0 {
        Map::empty()
    } else {
        pairs_map(pairs.drop_last()).insert(pairs.last().0, pairs.last().1)
    }
}

/// No key occurs twice.
pub open spec fn keys_unique(pairs: Seq<(Seq<char>, Seq<char>)>) -> bool {
    forall|i: int, j: int| 0 <= i < j < pairs.len() ==> pairs[i].0 != pairs[j].0
}

proof fn lemma_pairs_map_update(s: Seq<(Seq<char>, Seq<char>)>, j: int, v: Seq<char>)
    requires
        keys_unique(s),
        0 <= j < s.len(),
    ensures
        pairs_map(s.update(j, (s[j].0, v))) == pairs_map(s).insert(s[j].0, v),
    decreases s.len(),
{
    let t = s.update(j, (s[j].0, v));
    if j == s.len() - 1 {
        assert(t.drop_last() =~= s.drop_last());
        assert(pairs_map(t) =~= pairs_map(s).insert(s[j].0, v));
    } else {
        lemma_pairs_map_update(s.drop_last(), j, v);
        assert(t.drop_last() =~= s.drop_last().update(j, (s[j].0, v)));
        assert(s.last().0 != s[j].0);
        assert(pairs_map(t) =~= pairs_map(s).insert(s[j].0, v));
    }
}

/// Merges `key=value` pairs into a body with one member per key: a later value
/// for a key replaces an earlier one.
pub fn merge_pairs(pairs: &Vec<Body>) -> (r: Vec<Body>)
    ensures
        keys_unique(pairs_view(r@)),
        pairs_map(pairs_view(r@)) == pairs_map(pairs_view(pairs@)),
{
    let mut out: Vec<Body> = Vec::new();
    let mut i: usize = 0;
    while i < pairs.len()
        invariant
            i <= pairs.len(),
            keys_unique(pairs_view(out@)),
            pairs_map(pairs_view(out@)) == pairs_map(pairs_view(pairs@).take(i as int)),
        decreases pairs.len() - i,
    {
        let p = &pairs[i];
        let ghost prev = pairs_view(out@);
        proof {
            let t = pairs_view(pairs@).take(i + 1);
            assert(t.drop_last() =~= pairs_view(pairs@).take(i as int));
            assert(t.last() == p.view());
        }
        let mut j: usize = 0;
        while j < out.len() && !(out[j].key == p.key)
            invariant
                j <= out.len(),
                prev == pairs_view(out@),
                forall|k: int| 0 <= k < j ==> prev[k].0 != p.key@,
            decreases out.len() - j,
        {
            j = j + 1;
        }
        let found = j < out.len();
        let b = Body { key: p.key.clone(), value: p.value.clone() };
        if found {
            proof {
                lemma_pairs_map_update(prev, j as int, p.value@);
            }
            out.set(j, b);
            assert(pairs_view(out@) =~= prev.update(j as int, (prev[j as int].0, p.value@)));
            assert(forall|k: int| 0 <= k < prev.len() ==> #[trigger] pairs_view(out@)[k].0 == prev[k].0);
        } else {
            out.push(b);
            assert(pairs_view(out@).drop_last() =~= prev);
            assert(forall|k: int| 0 <= k < prev.len() ==> #[trigger] pairs_view(out@)[k] == prev[k]);
        }
        i = i + 1;
    }
    assert(pairs_view(pairs@).take(i as int) =~= pairs_view(pairs@));
    out
}

/// A GET request for `url`, without a body.
pub fn build_get(url: &str) -> (r: Request)
    ensures
        r.method == Method::Get,
        r.url@ == url@,
        r.body is None,
{
    Request { method: Method::Get, url: url.to_owned(), body: None }
}

/// A POST request for `url` whose JSON body has one member per key of
/// `pairs`, the last value given for a key winning.
pub fn build_post(url: &str, pairs: &Vec<Body>) -> (r: Request)
    ensures
        r.method == Method::Post,
        r.url@ == url@,
        r.body matches Some(b) && keys_unique(pairs_view(b@)) && pairs_map(pairs_view(b@))
            == pairs_map(pairs_view(pairs@)),
{
    Request { method: Method::Post, url: url.to_owned(), body: Some(merge_pairs(pairs)) }
}

} // verus!
