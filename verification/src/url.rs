use vstd::prelude::*;

use crate::text::{find_char, first_index_from, has_char, lemma_first_index_from, owned, slice, str_eq};

verus! {

broadcast use vstd::string::group_string_axioms;

/// A URL that passed validation: the part before `?`, and the query
/// parameters in the order they were given.
#[derive(Debug, PartialEq, Eq)]
pub struct UrlInfo {
    pub base: String,
    pub query_params: Vec<(String, String)>,
}

/// The URL of a request: validated, or kept as it was written.
#[derive(Debug, PartialEq, Eq)]
pub enum Url {
    Raw(String),
    ValidatedUrl(UrlInfo),
}

/// The model of a URL.
pub enum UrlModel {
    Raw(Seq<char>),
    Validated { base: Seq<char>, query: Seq<(Seq<char>, Seq<char>)> },
}

pub open spec fn pairs_of(v: Seq<(String, String)>) -> Seq<(Seq<char>, Seq<char>)> {
    Seq::new(v.len(), |i: int| (v[i].0@, v[i].1@))
}

impl View for Url {
    type V = UrlModel;

    open spec fn view(&self) -> UrlModel {
        match self {
            Url::Raw(s) => UrlModel::Raw(s@),
            Url::ValidatedUrl(info) => UrlModel::Validated {
                base: info.base@,
                query: pairs_of(info.query_params@),
            },
        }
    }
}

// ---------------------------------------------------------------------
// The grammar of a URL
// ---------------------------------------------------------------------
pub open spec fn is_host_char(c: char) -> bool {
    ('a' <= c && c <= 'z') || ('A' <= c && c <= 'Z') || ('0' <= c && c <= '9') || c == '.' || c
        == '-' || c == '_'
}

pub open spec fn is_digit(c: char) -> bool {
    '0' <= c && c <= '9'
}

pub open spec fn is_space(c: char) -> bool {
    c == ' ' || c == '\t' || c == '\n' || c == '\r'
}

pub open spec fn all_host_chars(s: Seq<char>) -> bool {
    forall|i: int| 0 <= i < s.len() ==> is_host_char(#[trigger] s[i])
}

pub open spec fn all_digits(s: Seq<char>) -> bool {
    forall|i: int| 0 <= i < s.len() ==> is_digit(#[trigger] s[i])
}

pub open spec fn no_space(s: Seq<char>) -> bool {
    forall|i: int| 0 <= i < s.len() ==> !is_space(#[trigger] s[i])
}

/// The length of a leading `http://` or `https://`, else 0.
pub open spec fn scheme_len(s: Seq<char>) -> int {
    if s.len() >= 7 && s.take(7) == "http://"@ {
        7
    } else if s.len() >= 8 && s.take(8) == "https://"@ {
        8
    } else {
        0
    }
}

/// A host of letters, digits, `.`, `-` and `_`, with an optional `:port`.
pub open spec fn valid_authority(a: Seq<char>) -> bool {
    match first_index_from(a, ':', 0) {
        None => a.len() > 0 && all_host_chars(a),
        Some(i) => i > 0 && all_host_chars(a.take(i)) && a.len() > i + 1 && all_digits(
            a.skip(i + 1),
        ),
    }
}

/// The end of the authority in the text after the scheme.
pub open spec fn authority_end(rest: Seq<char>) -> int {
    match first_index_from(rest, '/', 0) {
        Some(i) => i,
        None => rest.len() as int,
    }
}

/// Whether the part of a URL before `?` is valid: an optional scheme, an
/// authority, and a path without white space.
pub open spec fn valid_base(s: Seq<char>) -> bool {
    let rest = s.skip(scheme_len(s));
    let end = authority_end(rest);
    valid_authority(rest.take(end)) && no_space(rest.skip(end))
}

/// The pair that one `&`-separated segment of a query gives.
pub open spec fn segment_pair(seg: Seq<char>) -> Seq<(Seq<char>, Seq<char>)> {
    if seg.len() == 0 {
        Seq::empty()
    } else {
        match first_index_from(seg, '=', 0) {
            Some(j) => seq![(seg.take(j), seg.skip(j + 1))],
            None => seq![(seg, Seq::empty())],
        }
    }
}

/// The parameters of a query text: `&`-separated `key=value` segments,
/// empty segments skipped, a segment without `=` giving an empty value.
pub open spec fn query_pairs(q: Seq<char>) -> Seq<(Seq<char>, Seq<char>)>
    decreases q.len(),
{
    match first_index_from(q, '&', 0) {
        Some(i) => if 0 <= i < q.len() {
            segment_pair(q.take(i)) + query_pairs(q.skip(i + 1))
        } else {
            Seq::empty()
        },
        None => segment_pair(q),
    }
}

/// The base of a URL with its scheme: `http://` where none is written, so
/// that `url.com` and `http://url.com` name the same URL.
pub open spec fn with_scheme(base: Seq<char>) -> Seq<char> {
    if scheme_len(base) == 0 {
        "http://"@ + base
    } else {
        base
    }
}

/// What `Url::from_str` makes of a text.
pub open spec fn url_of(s: Seq<char>) -> UrlModel {
    let q = first_index_from(s, '?', 0);
    let base = match q {
        Some(i) => s.take(i),
        None => s,
    };
    if valid_base(base) {
        UrlModel::Validated {
            base: with_scheme(base),
            query: match q {
                Some(i) => query_pairs(s.skip(i + 1)),
                None => Seq::empty(),
            },
        }
    } else {
        UrlModel::Raw(s)
    }
}

// ---------------------------------------------------------------------
// Executable checks
// ---------------------------------------------------------------------
fn check_all_host_chars(s: &str, from: usize, to: usize) -> (r: bool)
    requires
        from <= to <= s@.len(),
    ensures
        r == all_host_chars(s@.subrange(from as int, to as int)),
{
    let mut i = from;
    while i < to
        invariant
            from <= i <= to,
            to <= s@.len(),
            forall|j: int| from <= j < i ==> is_host_char(#[trigger] s@[j]),
        decreases to - i,
    {
        let c = s.get_char(i);
        if !(('a' <= c && c <= 'z') || ('A' <= c && c <= 'Z') || ('0' <= c && c <= '9') || c
            == '.' || c == '-' || c == '_') {
            assert(s@.subrange(from as int, to as int)[i - from] == c);
            return false;
        }
        i = i + 1;
    }
    assert forall|j: int|
        0 <= j < to - from implies is_host_char(#[trigger] s@.subrange(from as int, to as int)[j]) by {
        assert(s@.subrange(from as int, to as int)[j] == s@[from + j]);
    }
    true
}

fn check_all_digits(s: &str, from: usize, to: usize) -> (r: bool)
    requires
        from <= to <= s@.len(),
    ensures
        r == all_digits(s@.subrange(from as int, to as int)),
{
    let mut i = from;
    while i < to
        invariant
            from <= i <= to,
            to <= s@.len(),
            forall|j: int| from <= j < i ==> is_digit(#[trigger] s@[j]),
        decreases to - i,
    {
        let c = s.get_char(i);
        if !('0' <= c && c <= '9') {
            assert(s@.subrange(from as int, to as int)[i - from] == c);
            return false;
        }
        i = i + 1;
    }
    assert forall|j: int|
        0 <= j < to - from implies is_digit(#[trigger] s@.subrange(from as int, to as int)[j]) by {
        assert(s@.subrange(from as int, to as int)[j] == s@[from + j]);
    }
    true
}

fn check_no_space(s: &str, from: usize, to: usize) -> (r: bool)
    requires
        from <= to <= s@.len(),
    ensures
        r == no_space(s@.subrange(from as int, to as int)),
{
    let mut i = from;
    while i < to
        invariant
            from <= i <= to,
            to <= s@.len(),
            forall|j: int| from <= j < i ==> !is_space(#[trigger] s@[j]),
        decreases to - i,
    {
        let c = s.get_char(i);
        if c == ' ' || c == '\t' || c == '\n' || c == '\r' {
            assert(s@.subrange(from as int, to as int)[i - from] == c);
            return false;
        }
        i = i + 1;
    }
    assert forall|j: int|
        0 <= j < to - from implies !is_space(#[trigger] s@.subrange(from as int, to as int)[j]) by {
        assert(s@.subrange(from as int, to as int)[j] == s@[from + j]);
    }
    true
}

fn exec_scheme_len(s: &str) -> (r: usize)
    ensures
        r == scheme_len(s@),
{
    let len = s.unicode_len();
    if len >= 7 && str_eq(s.substring_char(0, 7), "http://") {
        proof {
            assert(s@.subrange(0, 7) =~= s@.take(7));
        }
        7
    } else if len >= 8 && str_eq(s.substring_char(0, 8), "https://") {
        proof {
            assert(s@.subrange(0, 8) =~= s@.take(8));
            assert(s@.subrange(0, 7) =~= s@.take(7));
            if len >= 7 {
                assert(!(s@.take(7) == "http://"@));
            }
        }
        8
    } else {
        proof {
            assert(s@.subrange(0, 7) =~= s@.take(7));
            assert(s@.subrange(0, 8) =~= s@.take(8));
        }
        0
    }
}

/// Whether the part of a URL before `?` is valid.
pub fn is_valid_base(s: &str) -> (r: bool)
    ensures
        r == valid_base(s@),
{
    let len = s.unicode_len();
    let start = exec_scheme_len(s);
    let rest = s.substring_char(start, len);
    let rlen = rest.unicode_len();
    let end = match find_char(rest, '/', 0) {
        Some(i) => i,
        None => rlen,
    };
    proof {
        lemma_first_index_from(rest@, '/', 0);
        assert(rest@ == s@.skip(start as int));
        assert(end == authority_end(rest@));
    }
    let authority = rest.substring_char(0, end);
    proof {
        assert(authority@ =~= rest@.take(end as int));
    }
    let alen = authority.unicode_len();
    let ok_authority = match find_char(authority, ':', 0) {
        None => alen > 0 && check_all_host_chars(authority, 0, alen),
        Some(i) => {
            proof {
                lemma_first_index_from(authority@, ':', 0);
            }
            i > 0 && check_all_host_chars(authority, 0, i) && alen > i + 1 && check_all_digits(
                authority,
                i + 1,
                alen,
            )
        },
    };
    proof {
        assert(authority@.subrange(0, alen as int) =~= authority@);
        assert forall|i: int| 0 <= i <= alen implies #[trigger] authority@.subrange(0, i)
            =~= authority@.take(i) by {}
        assert forall|i: int| 0 <= i < alen implies #[trigger] authority@.subrange(i + 1, alen as int)
            =~= authority@.skip(i + 1) by {}
        assert(ok_authority == valid_authority(authority@));
    }
    if !ok_authority {
        return false;
    }
    let r = check_no_space(rest, end, rlen);
    proof {
        assert(rest@.subrange(end as int, rlen as int) =~= rest@.skip(end as int));
    }
    r
}

/// The pair of one query segment.
fn exec_segment_pair(seg: &str, out: &mut Vec<(String, String)>)
    ensures
        pairs_of(final(out)@) == pairs_of(old(out)@) + segment_pair(seg@),
{
    let len = seg.unicode_len();
    if len == 0 {
        assert(pairs_of(out@) =~= pairs_of(out@) + segment_pair(seg@));
        return ;
    }
    let ghost before = pairs_of(out@);
    match find_char(seg, '=', 0) {
        Some(j) => {
            proof {
                lemma_first_index_from(seg@, '=', 0);
            }
            let k = slice(seg, 0, j);
            let v = slice(seg, j + 1, len);
            proof {
                assert(k@ =~= seg@.take(j as int));
                assert(v@ =~= seg@.skip(j + 1));
            }
            out.push((k, v));
        },
        None => {
            let k = owned(seg);
            let v = String::new();
            out.push((k, v));
        },
    }
    assert(pairs_of(out@) =~= before + segment_pair(seg@));
}

/// The parameters of a query text.
pub fn parse_query(q: &str) -> (r: Vec<(String, String)>)
    ensures
        pairs_of(r@) == query_pairs(q@),
    decreases q@.len(),
{
    let len = q.unicode_len();
    match find_char(q, '&', 0) {
        Some(i) => {
            proof {
                lemma_first_index_from(q@, '&', 0);
            }
            let mut out: Vec<(String, String)> = Vec::new();
            let head = q.substring_char(0, i);
            exec_segment_pair(head, &mut out);
            let tail = q.substring_char(i + 1, len);
            let rest = parse_query(tail);
            let ghost a = pairs_of(out@);
            let ghost b = pairs_of(rest@);
            let mut j: usize = 0;
            while j < rest.len()
                invariant
                    j <= rest.len(),
                    b == pairs_of(rest@),
                    pairs_of(out@) == a + b.take(j as int),
                decreases rest.len() - j,
            {
                let kv = (rest[j].0.clone(), rest[j].1.clone());
                let ghost prev = pairs_of(out@);
                out.push(kv);
                assert(pairs_of(out@) =~= prev.push(b[j as int]));
                assert(b.take(j + 1) =~= b.take(j as int).push(b[j as int]));
                j = j + 1;
            }
            proof {
                assert(b.take(rest.len() as int) =~= b);
                assert(head@ =~= q@.take(i as int));
                assert(tail@ =~= q@.skip(i + 1));
                assert(pairs_of(Seq::<(String, String)>::empty()) =~= Seq::empty());
            }
            out
        },
        None => {
            let mut out: Vec<(String, String)> = Vec::new();
            proof {
                assert(pairs_of(out@) =~= Seq::empty());
            }
            exec_segment_pair(q, &mut out);
            proof {
                assert(Seq::<(Seq<char>, Seq<char>)>::empty() + segment_pair(q@) =~= segment_pair(
                    q@,
                ));
            }
            out
        },
    }
}

impl Url {
    /// Reads a URL: validated, with its query parameters, where the part
    /// before `?` is valid; else kept as written.
    pub fn from_str(s: &str) -> (r: Url)
        ensures
            r@ == url_of(s@),
    {
        let len = s.unicode_len();
        let q = find_char(s, '?', 0);
        proof {
            lemma_first_index_from(s@, '?', 0);
        }
        let base_end = match q {
            Some(i) => i,
            None => len,
        };
        let base = s.substring_char(0, base_end);
        proof {
            assert(base@ =~= match q {
                Some(i) => s@.take(i as int),
                None => s@,
            });
        }
        if is_valid_base(base) {
            let query_params = match q {
                Some(i) => {
                    let qs = s.substring_char(i + 1, len);
                    assert(qs@ =~= s@.skip(i + 1));
                    parse_query(qs)
                },
                None => {
                    let v: Vec<(String, String)> = Vec::new();
                    assert(pairs_of(v@) =~= Seq::empty());
                    v
                },
            };
            let full = if exec_scheme_len(base) == 0 {
                let mut b = owned("http://");
                b.append(base);
                b
            } else {
                owned(base)
            };
            Url::ValidatedUrl(UrlInfo { base: full, query_params })
        } else {
            Url::Raw(owned(s))
        }
    }
}

impl UrlInfo {
    /// A validated URL with no base and no query parameters.
    pub fn default() -> (r: UrlInfo)
        ensures
            r.base@ == Seq::<char>::empty(),
            r.query_params@.len() == 0,
    {
        UrlInfo { base: String::new(), query_params: Vec::new() }
    }
}

/// The text of query parameters: `key=value` pairs joined by `&`.
pub open spec fn query_text(q: Seq<(Seq<char>, Seq<char>)>) -> Seq<char>
    decreases q.len(),
{
    if q.len() == 0 {
        Seq::empty()
    } else if q.len() == 1 {
        q[0].0 + "="@ + q[0].1
    } else {
        query_text(q.drop_last()) + "&"@ + q.last().0 + "="@ + q.last().1
    }
}

/// The text a URL is shown with: a raw URL as written, a validated one as
/// its base followed by `?` and its query where it has parameters.
pub open spec fn url_text(u: UrlModel) -> Seq<char> {
    match u {
        UrlModel::Raw(s) => s,
        UrlModel::Validated { base, query } => if query.len() == 0 {
            base
        } else {
            base + "?"@ + query_text(query)
        },
    }
}

impl Url {
    /// The text the URL is shown with.
    pub fn to_text(&self) -> (r: String)
        ensures
            r@ == url_text(self@),
    {
        match self {
            Url::Raw(s) => s.clone(),
            Url::ValidatedUrl(info) => {
                let ghost q = pairs_of(info.query_params@);
                let mut out = info.base.clone();
                if info.query_params.len() == 0 {
                    return out;
                }
                out.append("?");
                let mut i: usize = 0;
                while i < info.query_params.len()
                    invariant
                        i <= info.query_params.len(),
                        q == pairs_of(info.query_params@),
                        q.len() > 0,
                        out@ == info.base@ + "?"@ + query_text(q.take(i as int)),
                    decreases info.query_params.len() - i,
                {
                    if i > 0 {
                        out.append("&");
                    }
                    out.append(info.query_params[i].0.as_str());
                    out.append("=");
                    out.append(info.query_params[i].1.as_str());
                    proof {
                        let t = q.take(i + 1);
                        assert(t.drop_last() =~= q.take(i as int));
                        assert(t.last() == q[i as int]);
                        if i == 0 {
                            assert(q.take(0) =~= Seq::<(Seq<char>, Seq<char>)>::empty());
                        }
                    }
                    i = i + 1;
                }
                assert(q.take(q.len() as int) =~= q);
                out
            },
        }
    }
}

/// Replaces a leading `:` with `localhost:`, so that `:8000/users` stands
/// for `localhost:8000/users`.
pub open spec fn localhost_alias(s: Seq<char>) -> Seq<char> {
    if s.len() > 0 && s[0] == ':' {
        "localhost"@ + s
    } else {
        s
    }
}

/// Expands the localhost alias of a URL.
pub fn expand_localhost_alias(s: &str) -> (r: String)
    ensures
        r@ == localhost_alias(s@),
{
    if s.unicode_len() > 0 && s.get_char(0) == ':' {
        let mut r = owned("localhost");
        r.append(s);
        r
    } else {
        owned(s)
    }
}

/// Law: `:port/...` and `localhost:port/...` name the same URL once the
/// alias is expanded.
pub proof fn lemma_localhost_alias(rest: Seq<char>)
    ensures
        localhost_alias(seq![':'] + rest) == "localhost:"@ + rest,
        localhost_alias("localhost:"@ + rest) == "localhost:"@ + rest,
{
    reveal_strlit("localhost");
    reveal_strlit("localhost:");
    assert("localhost"@ + (seq![':'] + rest) =~= "localhost:"@ + rest);
    assert(("localhost:"@ + rest)[0] == 'l');
}

/// Law: the query written after `?` is read as the parameters that the
/// URL without it would get, in order.
pub proof fn lemma_query_in_url(base: Seq<char>, q: Seq<char>)
    requires
        valid_base(base),
        !has_char(base, '?'),
    ensures
        url_of(base) == (UrlModel::Validated { base: with_scheme(base), query: Seq::empty() }),
        url_of(base + seq!['?'] + q) == (UrlModel::Validated {
            base: with_scheme(base),
            query: query_pairs(q),
        }),
{
    lemma_first_index_from(base, '?', 0);
    let s = base + seq!['?'] + q;
    lemma_first_index_from(s, '?', 0);
    assert(s[base.len() as int] == '?');
    assert forall|j: int| 0 <= j < base.len() implies s[j] != '?' by {
        assert(s[j] == base[j]);
    }
    assert(first_index_from(s, '?', 0) == Some(base.len() as int));
    assert(s.take(base.len() as int) =~= base);
    assert(s.skip(base.len() as int + 1) =~= q);
}

} // verus!
