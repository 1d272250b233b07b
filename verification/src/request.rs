use vstd::prelude::*;

use crate::json::{parse_json, Json, JsonValue, json_read};
use crate::methods::METHODS;
use crate::text::owned;
use crate::url::{pairs_of, url_of, Url, UrlInfo, UrlModel};

verus! {

broadcast use vstd::string::group_string_axioms;

/// The body of a request: JSON where the text is JSON, else the text itself.
#[derive(Debug, PartialEq, Eq)]
pub enum BodyPayload {
    Json(JsonValue),
    Raw(String),
}

/// The model of a body.
pub enum BodyModel {
    Json(Json),
    Raw(Seq<char>),
}

impl View for BodyPayload {
    type V = BodyModel;

    open spec fn view(&self) -> BodyModel {
        match self {
            BodyPayload::Json(v) => BodyModel::Json(v@),
            BodyPayload::Raw(s) => BodyModel::Raw(s@),
        }
    }
}

/// What `BodyPayload::from_str` makes of a text.
pub open spec fn body_of(s: Seq<char>) -> BodyModel {
    match json_read(s) {
        Some(j) => BodyModel::Json(j),
        None => BodyModel::Raw(s),
    }
}

impl BodyPayload {
    /// Reads a body: the JSON value of the text, or the text itself where it is not JSON.
    pub fn from_str(s: &str) -> (r: BodyPayload)
        ensures
            r@ == body_of(s@),
            s@.len() == 0 ==> r@ == BodyModel::Raw(Seq::empty()),
    {
        proof {
            if s@.len() == 0 {
                assert(s@ =~= Seq::<char>::empty());
            }
        }
        match parse_json(s) {
            Some(v) => BodyPayload::Json(v),
            None => BodyPayload::Raw(owned(s)),
        }
    }

    /// A copy of the body.
    pub fn duplicate(&self) -> (r: BodyPayload)
        ensures
            r@ == self@,
    {
        match self {
            BodyPayload::Json(v) => BodyPayload::Json(v.deep_clone()),
            BodyPayload::Raw(s) => BodyPayload::Raw(s.clone()),
        }
    }
}

impl Url {
    /// A copy of the URL.
    pub fn duplicate(&self) -> (r: Url)
        ensures
            r@ == self@,
    {
        match self {
            Url::Raw(s) => Url::Raw(s.clone()),
            Url::ValidatedUrl(info) => Url::ValidatedUrl(
                UrlInfo { base: info.base.clone(), query_params: copy_pairs(&info.query_params) },
            ),
        }
    }
}

/// A copy of a list of string pairs.
pub fn copy_pairs(v: &Vec<(String, String)>) -> (r: Vec<(String, String)>)
    ensures
        pairs_of(r@) == pairs_of(v@),
{
    let mut out: Vec<(String, String)> = Vec::new();
    let mut i: usize = 0;
    while i < v.len()
        invariant
            i <= v.len(),
            out.len() == i,
            forall|j: int| 0 <= j < i ==> (#[trigger] out[j]).0@ == v[j].0@ && out[j].1@ == v[j].1@,
        decreases v.len() - i,
    {
        out.push((v[i].0.clone(), v[i].1.clone()));
        i = i + 1;
    }
    assert(pairs_of(out@) =~= pairs_of(v@));
    out
}

// ---------------------------------------------------------------------
// Headers
// ---------------------------------------------------------------------
/// Binds a header name to a value: the first entry of that name gets the
/// value, or the entry is added at the end.
pub open spec fn header_insert(
    hs: Seq<(Seq<char>, Seq<char>)>,
    k: Seq<char>,
    v: Seq<char>,
) -> Seq<(Seq<char>, Seq<char>)>
    decreases hs.len(),
{
    if hs.len() == 0 {
        seq![(k, v)]
    } else if hs[0].0 == k {
        seq![(k, v)] + hs.drop_first()
    } else {
        seq![hs[0]] + header_insert(hs.drop_first(), k, v)
    }
}

/// The value of the first header of a name.
pub open spec fn header_get(hs: Seq<(Seq<char>, Seq<char>)>, k: Seq<char>) -> Option<Seq<char>>
    decreases hs.len(),
{
    if hs.len() == 0 {
        None
    } else if hs[0].0 == k {
        Some(hs[0].1)
    } else {
        header_get(hs.drop_first(), k)
    }
}

proof fn lemma_header_insert_split(
    hs: Seq<(Seq<char>, Seq<char>)>,
    k: Seq<char>,
    v: Seq<char>,
    i: int,
)
    requires
        0 <= i <= hs.len(),
        forall|j: int| 0 <= j < i ==> (#[trigger] hs[j]).0 != k,
    ensures
        header_insert(hs, k, v) == hs.take(i) + header_insert(hs.skip(i), k, v),
    decreases i,
{
    if i == 0 {
        assert(hs.skip(0) =~= hs);
        assert(hs.take(0) + header_insert(hs, k, v) =~= header_insert(hs, k, v));
    } else {
        let rest = hs.drop_first();
        assert forall|j: int| 0 <= j < i - 1 implies (#[trigger] rest[j]).0 != k by {
            assert(rest[j] == hs[j + 1]);
        }
        lemma_header_insert_split(rest, k, v, i - 1);
        assert(rest.skip(i - 1) =~= hs.skip(i));
        assert(hs.take(i) =~= seq![hs[0]] + rest.take(i - 1));
        assert(seq![hs[0]] + (rest.take(i - 1) + header_insert(hs.skip(i), k, v)) =~= hs.take(i)
            + header_insert(hs.skip(i), k, v));
    }
}

/// Law: after a header is bound, reading it gives the value bound, and every
/// other header reads as before.
pub proof fn lemma_header_insert_get(
    hs: Seq<(Seq<char>, Seq<char>)>,
    k: Seq<char>,
    v: Seq<char>,
    k2: Seq<char>,
)
    ensures
        header_get(header_insert(hs, k, v), k) == Some(v),
        k2 != k ==> header_get(header_insert(hs, k, v), k2) == header_get(hs, k2),
    decreases hs.len(),
{
    let r = header_insert(hs, k, v);
    if hs.len() == 0 {
        assert(r == seq![(k, v)]);
        assert(r.drop_first() =~= Seq::<(Seq<char>, Seq<char>)>::empty());
        assert(header_get(r.drop_first(), k2) is None);
    } else if hs[0].0 == k {
        assert(r == seq![(k, v)] + hs.drop_first());
        assert(r.drop_first() =~= hs.drop_first());
    } else {
        lemma_header_insert_get(hs.drop_first(), k, v, k2);
        assert(r == seq![hs[0]] + header_insert(hs.drop_first(), k, v));
        assert(r.drop_first() =~= header_insert(hs.drop_first(), k, v));
        assert(r[0] == hs[0]);
    }
}

/// Binds a header in a list of headers.
pub fn insert_header(hs: &mut Vec<(String, String)>, k: String, v: String)
    ensures
        pairs_of(final(hs)@) == header_insert(pairs_of(old(hs)@), k@, v@),
{
    let ghost hv = pairs_of(hs@);
    let mut i: usize = 0;
    while i < hs.len() && !(hs[i].0 == k)
        invariant
            i <= hs.len(),
            hv == pairs_of(hs@),
            forall|j: int| 0 <= j < i ==> (#[trigger] hv[j]).0 != k@,
        decreases hs.len() - i,
    {
        i = i + 1;
    }
    proof {
        lemma_header_insert_split(hv, k@, v@, i as int);
    }
    let ghost kv = k@;
    let ghost vv = v@;
    if i < hs.len() {
        hs.set(i, (k, v));
        proof {
            assert(hv.skip(i as int)[0].0 == kv);
            assert(hv.skip(i as int).drop_first() =~= hv.skip(i + 1));
            assert(pairs_of(hs@) =~= hv.take(i as int) + (seq![(kv, vv)] + hv.skip(i + 1)));
        }
    } else {
        hs.push((k, v));
        proof {
            assert(hv.skip(i as int) =~= Seq::<(Seq<char>, Seq<char>)>::empty());
            assert(pairs_of(hs@) =~= hv.take(i as int) + seq![(kv, vv)]);
        }
    }
}

/// The headers without any of a name.
pub open spec fn header_remove(hs: Seq<(Seq<char>, Seq<char>)>, k: Seq<char>) -> Seq<
    (Seq<char>, Seq<char>),
>
    decreases hs.len(),
{
    if hs.len() == 0 {
        Seq::empty()
    } else if hs[0].0 == k {
        header_remove(hs.drop_first(), k)
    } else {
        seq![hs[0]] + header_remove(hs.drop_first(), k)
    }
}

/// What a `name:value` item does to headers: an empty value removes the
/// header, any other value binds it.
pub open spec fn header_item_apply(
    hs: Seq<(Seq<char>, Seq<char>)>,
    k: Seq<char>,
    v: Seq<char>,
) -> Seq<(Seq<char>, Seq<char>)> {
    if v.len() == 0 {
        header_remove(hs, k)
    } else {
        header_insert(hs, k, v)
    }
}

proof fn lemma_header_remove_push(
    hs: Seq<(Seq<char>, Seq<char>)>,
    x: (Seq<char>, Seq<char>),
    k: Seq<char>,
)
    ensures
        header_remove(hs.push(x), k) == if x.0 == k {
            header_remove(hs, k)
        } else {
            header_remove(hs, k).push(x)
        },
    decreases hs.len(),
{
    let e = Seq::<(Seq<char>, Seq<char>)>::empty();
    if hs.len() == 0 {
        assert(hs.push(x).drop_first() =~= e);
        assert(header_remove(e, k) == e);
        assert(hs =~= e);
        assert(hs.push(x)[0] == x);
        assert(seq![x] + e =~= e.push(x));
    } else {
        assert(hs.push(x).drop_first() =~= hs.drop_first().push(x));
        assert(hs.push(x)[0] == hs[0]);
        lemma_header_remove_push(hs.drop_first(), x, k);
        if hs[0].0 != k {
            let r = header_remove(hs.drop_first(), k);
            assert(seq![hs[0]] + r.push(x) =~= (seq![hs[0]] + r).push(x));
        }
    }
}

/// Law: after a header is removed, reading it gives nothing, and every
/// other header reads as before.
pub proof fn lemma_header_remove_get(
    hs: Seq<(Seq<char>, Seq<char>)>,
    k: Seq<char>,
    k2: Seq<char>,
)
    ensures
        header_get(header_remove(hs, k), k) is None,
        k2 != k ==> header_get(header_remove(hs, k), k2) == header_get(hs, k2),
    decreases hs.len(),
{
    if hs.len() > 0 {
        lemma_header_remove_get(hs.drop_first(), k, k2);
        if hs[0].0 != k {
            let r = seq![hs[0]] + header_remove(hs.drop_first(), k);
            assert(r[0] == hs[0]);
            assert(r.drop_first() =~= header_remove(hs.drop_first(), k));
        }
    }
}

/// Whether a list of headers names a header.
pub open spec fn has_header(hs: Seq<(Seq<char>, Seq<char>)>, k: Seq<char>) -> bool {
    exists|i: int| 0 <= i < hs.len() && (#[trigger] hs[i]).0 == k
}

/// Whether no header name occurs twice in a list of headers.
pub open spec fn headers_unique(hs: Seq<(Seq<char>, Seq<char>)>) -> bool {
    forall|i: int, j: int| 0 <= i < j < hs.len() ==> (#[trigger] hs[i]).0 != (#[trigger] hs[j]).0
}

pub proof fn lemma_unique_cons(x: (Seq<char>, Seq<char>), rest: Seq<(Seq<char>, Seq<char>)>)
    ensures
        headers_unique(seq![x] + rest) <==> (headers_unique(rest) && !has_header(rest, x.0)),
{
    let s = seq![x] + rest;
    if headers_unique(s) {
        assert forall|i: int, j: int| 0 <= i < j < rest.len() implies (#[trigger] rest[i]).0
            != (#[trigger] rest[j]).0 by {
            assert(s[i + 1] == rest[i] && s[j + 1] == rest[j]);
        }
        if has_header(rest, x.0) {
            let i = choose|i: int| 0 <= i < rest.len() && (#[trigger] rest[i]).0 == x.0;
            assert(s[0] == x && s[i + 1] == rest[i]);
        }
    }
    if headers_unique(rest) && !has_header(rest, x.0) {
        assert forall|i: int, j: int| 0 <= i < j < s.len() implies (#[trigger] s[i]).0
            != (#[trigger] s[j]).0 by {
            if i == 0 {
                assert(s[j] == rest[j - 1]);
            } else {
                assert(s[i] == rest[i - 1] && s[j] == rest[j - 1]);
            }
        }
    }
}

/// Law: binding a header keeps the names of a list apart, and names what
/// the list named and the header bound.
pub proof fn lemma_header_insert_unique(
    hs: Seq<(Seq<char>, Seq<char>)>,
    k: Seq<char>,
    v: Seq<char>,
)
    ensures
        forall|x: Seq<char>| #[trigger]
            has_header(header_insert(hs, k, v), x) <==> (x == k || has_header(hs, x)),
        headers_unique(hs) ==> headers_unique(header_insert(hs, k, v)),
    decreases hs.len(),
{
    let r = header_insert(hs, k, v);
    if hs.len() == 0 {
        assert(r == seq![(k, v)]);
        assert forall|x: Seq<char>| has_header(r, x) <==> (x == k || has_header(hs, x)) by {
            if x == k {
                assert(r[0].0 == k);
            }
        }
        assert(r =~= seq![(k, v)] + Seq::<(Seq<char>, Seq<char>)>::empty());
        lemma_unique_cons((k, v), Seq::empty());
    } else {
        let rest = hs.drop_first();
        assert(hs =~= seq![hs[0]] + rest);
        lemma_unique_cons(hs[0], rest);
        assert forall|x: Seq<char>| has_header(hs, x) <==> (x == hs[0].0 || has_header(rest, x)) by {
            if has_header(hs, x) && x != hs[0].0 {
                let i = choose|i: int| 0 <= i < hs.len() && (#[trigger] hs[i]).0 == x;
                assert(rest[i - 1] == hs[i]);
            }
            if has_header(rest, x) {
                let i = choose|i: int| 0 <= i < rest.len() && (#[trigger] rest[i]).0 == x;
                assert(hs[i + 1] == rest[i]);
            }
            if x == hs[0].0 {
                assert(hs[0].0 == x);
            }
        }
        if hs[0].0 == k {
            assert(r == seq![(k, v)] + rest);
            lemma_unique_cons((k, v), rest);
            assert forall|x: Seq<char>| has_header(r, x) <==> (x == k || has_header(rest, x)) by {
                if has_header(r, x) && x != k {
                    let i = choose|i: int| 0 <= i < r.len() && (#[trigger] r[i]).0 == x;
                    assert(rest[i - 1] == r[i]);
                }
                if has_header(rest, x) {
                    let i = choose|i: int| 0 <= i < rest.len() && (#[trigger] rest[i]).0 == x;
                    assert(r[i + 1] == rest[i]);
                }
                if x == k {
                    assert(r[0].0 == k);
                }
            }
        } else {
            lemma_header_insert_unique(rest, k, v);
            let t = header_insert(rest, k, v);
            assert(r == seq![hs[0]] + t);
            lemma_unique_cons(hs[0], t);
            assert forall|x: Seq<char>| has_header(r, x) <==> (x == hs[0].0 || has_header(t, x)) by {
                if has_header(r, x) && x != hs[0].0 {
                    let i = choose|i: int| 0 <= i < r.len() && (#[trigger] r[i]).0 == x;
                    assert(t[i - 1] == r[i]);
                }
                if has_header(t, x) {
                    let i = choose|i: int| 0 <= i < t.len() && (#[trigger] t[i]).0 == x;
                    assert(r[i + 1] == t[i]);
                }
                if x == hs[0].0 {
                    assert(r[0].0 == x);
                }
            }
        }
    }
}

/// Law: removing a header keeps the names of a list apart, and names what
/// the list named but the header removed.
pub proof fn lemma_header_remove_unique(hs: Seq<(Seq<char>, Seq<char>)>, k: Seq<char>)
    ensures
        forall|x: Seq<char>| #[trigger]
            has_header(header_remove(hs, k), x) <==> (x != k && has_header(hs, x)),
        headers_unique(hs) ==> headers_unique(header_remove(hs, k)),
    decreases hs.len(),
{
    let r = header_remove(hs, k);
    if hs.len() == 0 {
        assert(r == Seq::<(Seq<char>, Seq<char>)>::empty());
    } else {
        let rest = hs.drop_first();
        lemma_header_remove_unique(rest, k);
        let t = header_remove(rest, k);
        assert(hs =~= seq![hs[0]] + rest);
        lemma_unique_cons(hs[0], rest);
        assert forall|x: Seq<char>| has_header(hs, x) <==> (x == hs[0].0 || has_header(rest, x)) by {
            if has_header(hs, x) && x != hs[0].0 {
                let i = choose|i: int| 0 <= i < hs.len() && (#[trigger] hs[i]).0 == x;
                assert(rest[i - 1] == hs[i]);
            }
            if has_header(rest, x) {
                let i = choose|i: int| 0 <= i < rest.len() && (#[trigger] rest[i]).0 == x;
                assert(hs[i + 1] == rest[i]);
            }
            if x == hs[0].0 {
                assert(hs[0].0 == x);
            }
        }
        if hs[0].0 != k {
            assert(r == seq![hs[0]] + t);
            lemma_unique_cons(hs[0], t);
            assert forall|x: Seq<char>| has_header(r, x) <==> (x == hs[0].0 || has_header(t, x)) by {
                if has_header(r, x) && x != hs[0].0 {
                    let i = choose|i: int| 0 <= i < r.len() && (#[trigger] r[i]).0 == x;
                    assert(t[i - 1] == r[i]);
                }
                if has_header(t, x) {
                    let i = choose|i: int| 0 <= i < t.len() && (#[trigger] t[i]).0 == x;
                    assert(r[i + 1] == t[i]);
                }
                if x == hs[0].0 {
                    assert(r[0].0 == x);
                }
            }
        }
    }
}

/// Law: a header item keeps the names of a list of headers apart.
pub proof fn lemma_header_item_unique(hs: Seq<(Seq<char>, Seq<char>)>, k: Seq<char>, v: Seq<char>)
    requires
        headers_unique(hs),
    ensures
        headers_unique(header_item_apply(hs, k, v)),
{
    lemma_header_insert_unique(hs, k, v);
    lemma_header_remove_unique(hs, k);
}

/// The headers that name/value pairs give: each name once, a later value
/// replacing an earlier one.
pub open spec fn headers_from_pairs(ps: Seq<(Seq<char>, Seq<char>)>) -> Seq<(Seq<char>, Seq<char>)>
    decreases ps.len(),
{
    if ps.len() == 0 {
        Seq::empty()
    } else {
        header_insert(headers_from_pairs(ps.drop_last()), ps.last().0, ps.last().1)
    }
}

/// Law: the headers that pairs give name each header once.
pub proof fn lemma_headers_from_pairs_unique(ps: Seq<(Seq<char>, Seq<char>)>)
    ensures
        headers_unique(headers_from_pairs(ps)),
    decreases ps.len(),
{
    if ps.len() > 0 {
        lemma_headers_from_pairs_unique(ps.drop_last());
        lemma_header_insert_unique(headers_from_pairs(ps.drop_last()), ps.last().0, ps.last().1);
    }
}

/// Removes every header of a name.
pub fn remove_header(hs: &mut Vec<(String, String)>, k: &String)
    ensures
        pairs_of(final(hs)@) == header_remove(pairs_of(old(hs)@), k@),
{
    let ghost hv = pairs_of(hs@);
    let mut out: Vec<(String, String)> = Vec::new();
    let mut i: usize = 0;
    assert(hv.take(0) =~= Seq::<(Seq<char>, Seq<char>)>::empty());
    assert(pairs_of(out@) =~= Seq::<(Seq<char>, Seq<char>)>::empty());
    while i < hs.len()
        invariant
            i <= hs.len(),
            hv == pairs_of(hs@),
            pairs_of(out@) == header_remove(hv.take(i as int), k@),
        decreases hs.len() - i,
    {
        proof {
            assert(hv.take(i + 1) =~= hv.take(i as int).push(hv[i as int]));
            lemma_header_remove_push(hv.take(i as int), hv[i as int], k@);
        }
        if !(hs[i].0 == *k) {
            let ghost before = pairs_of(out@);
            let pair = (hs[i].0.clone(), hs[i].1.clone());
            out.push(pair);
            assert(pairs_of(out@) =~= before.push(hv[i as int]));
        }
        i = i + 1;
    }
    assert(hv.take(hv.len() as int) =~= hv);
    *hs = out;
}

/// Applies a `name:value` item to headers.
pub fn apply_header_item(hs: &mut Vec<(String, String)>, k: String, v: String)
    ensures
        pairs_of(final(hs)@) == header_item_apply(pairs_of(old(hs)@), k@, v@),
{
    if v.as_str().unicode_len() == 0 {
        remove_header(hs, &k);
    } else {
        insert_header(hs, k, v);
    }
}

// ---------------------------------------------------------------------
// Request data
// ---------------------------------------------------------------------
/// The data of a request where every part may be missing.
#[derive(Debug, PartialEq, Eq)]
pub struct PartialRequestData {
    pub url: Option<Url>,
    pub method: Option<METHODS>,
    pub headers: Option<Vec<(String, String)>>,
    pub body: Option<BodyPayload>,
}

/// The data of a request.
#[derive(Debug, PartialEq, Eq)]
pub struct RequestData {
    pub url: Url,
    pub method: METHODS,
    pub headers: Vec<(String, String)>,
    pub body: BodyPayload,
}

/// The model of partial request data.
pub struct PartialModel {
    pub url: Option<UrlModel>,
    pub method: Option<METHODS>,
    pub headers: Option<Seq<(Seq<char>, Seq<char>)>>,
    pub body: Option<BodyModel>,
}

/// The model of request data.
pub struct RequestModel {
    pub url: UrlModel,
    pub method: METHODS,
    pub headers: Seq<(Seq<char>, Seq<char>)>,
    pub body: BodyModel,
}

/// Whether request data names each header at most once, where it has headers.
pub open spec fn partial_headers_unique(p: PartialModel) -> bool {
    match p.headers {
        Some(h) => headers_unique(h),
        None => true,
    }
}

pub open spec fn opt_url_view(u: Option<Url>) -> Option<UrlModel> {
    match u {
        Some(u) => Some(u@),
        None => None,
    }
}

pub open spec fn opt_headers_view(h: Option<Vec<(String, String)>>) -> Option<
    Seq<(Seq<char>, Seq<char>)>,
> {
    match h {
        Some(h) => Some(pairs_of(h@)),
        None => None,
    }
}

pub open spec fn opt_body_view(b: Option<BodyPayload>) -> Option<BodyModel> {
    match b {
        Some(b) => Some(b@),
        None => None,
    }
}

impl View for PartialRequestData {
    type V = PartialModel;

    open spec fn view(&self) -> PartialModel {
        PartialModel {
            url: opt_url_view(self.url),
            method: self.method,
            headers: opt_headers_view(self.headers),
            body: opt_body_view(self.body),
        }
    }
}

impl View for RequestData {
    type V = RequestModel;

    open spec fn view(&self) -> RequestModel {
        RequestModel {
            url: self.url@,
            method: self.method,
            headers: pairs_of(self.headers@),
            body: self.body@,
        }
    }
}

/// The request that partial data stands for, each missing part taking its
/// default: an empty raw URL, `GET`, no headers, an empty raw body.
pub open spec fn complete_request(p: PartialModel) -> RequestModel {
    RequestModel {
        url: match p.url {
            Some(u) => u,
            None => UrlModel::Raw(Seq::empty()),
        },
        method: match p.method {
            Some(m) => m,
            None => METHODS::GET,
        },
        headers: match p.headers {
            Some(h) => h,
            None => Seq::empty(),
        },
        body: match p.body {
            Some(b) => b,
            None => BodyModel::Raw(Seq::empty()),
        },
    }
}

impl PartialRequestData {
    /// Partial data with every part missing.
    pub fn default() -> (r: PartialRequestData)
        ensures
            r@.url is None,
            r@.method is None,
            r@.headers is None,
            r@.body is None,
    {
        PartialRequestData { url: None, method: None, headers: None, body: None }
    }

    /// The same data with the method set.
    pub fn with_method(self, method: METHODS) -> (r: PartialRequestData)
        ensures
            r@ == (PartialModel { method: Some(method), ..self@ }),
    {
        PartialRequestData { method: Some(method), ..self }
    }

    /// The same data with the URL read from `url`.
    pub fn with_url(self, url: &str) -> (r: PartialRequestData)
        ensures
            r@ == (PartialModel { url: Some(url_of(url@)), ..self@ }),
    {
        PartialRequestData { url: Some(Url::from_str(url)), ..self }
    }

    /// The same data with the body read from `body`.
    pub fn with_body(self, body: &str) -> (r: PartialRequestData)
        ensures
            r@ == (PartialModel { body: Some(body_of(body@)), ..self@ }),
    {
        PartialRequestData { body: Some(BodyPayload::from_str(body)), ..self }
    }

    /// A copy of the data.
    pub fn duplicate(&self) -> (r: PartialRequestData)
        ensures
            r@ == self@,
    {
        PartialRequestData {
            url: match &self.url {
                Some(u) => Some(u.duplicate()),
                None => None,
            },
            method: self.method,
            headers: match &self.headers {
                Some(h) => Some(copy_pairs(h)),
                None => None,
            },
            body: match &self.body {
                Some(b) => Some(b.duplicate()),
                None => None,
            },
        }
    }

    /// The request that the data stands for.
    pub fn to_request_data(self) -> (r: RequestData)
        ensures
            r@ == complete_request(self@),
    {
        let url = match self.url {
            Some(u) => u,
            None => Url::Raw(String::new()),
        };
        let method = match self.method {
            Some(m) => m,
            None => METHODS::GET,
        };
        let headers = match self.headers {
            Some(h) => h,
            None => {
                let v: Vec<(String, String)> = Vec::new();
                assert(pairs_of(v@) =~= Seq::empty());
                v
            },
        };
        let body = match self.body {
            Some(b) => b,
            None => BodyPayload::Raw(String::new()),
        };
        RequestData { url, method, headers, body }
    }
}

impl RequestData {
    /// A `GET` request with an empty raw URL, no headers and an empty raw body.
    pub fn default() -> (r: RequestData)
        ensures
            r@ == (RequestModel {
                url: UrlModel::Raw(Seq::empty()),
                method: METHODS::GET,
                headers: Seq::empty(),
                body: BodyModel::Raw(Seq::empty()),
            }),
    {
        PartialRequestData::default().to_request_data()
    }

    /// A copy of the request.
    pub fn duplicate(&self) -> (r: RequestData)
        ensures
            r@ == self@,
    {
        RequestData {
            url: self.url.duplicate(),
            method: self.method,
            headers: copy_pairs(&self.headers),
            body: self.body.duplicate(),
        }
    }

    /// The same request with the URL read from `url`.
    pub fn with_url(self, url: &str) -> (r: RequestData)
        ensures
            r@ == (RequestModel { url: url_of(url@), ..self@ }),
    {
        RequestData { url: Url::from_str(url), ..self }
    }

    /// The same request with another method.
    pub fn with_method(self, method: METHODS) -> (r: RequestData)
        ensures
            r@ == (RequestModel { method, ..self@ }),
    {
        RequestData { method, ..self }
    }

    /// The same request with the headers that name/value pairs give: each
    /// name once, a later value replacing an earlier one.
    pub fn with_headers(self, headers: Vec<(String, String)>) -> (r: RequestData)
        ensures
            r@ == (RequestModel { headers: headers_from_pairs(pairs_of(headers@)), ..self@ }),
            headers_unique(r@.headers),
    {
        let ghost ps = pairs_of(headers@);
        let mut hs: Vec<(String, String)> = Vec::new();
        let mut i: usize = 0;
        assert(ps.take(0) =~= Seq::<(Seq<char>, Seq<char>)>::empty());
        assert(pairs_of(hs@) =~= Seq::<(Seq<char>, Seq<char>)>::empty());
        while i < headers.len()
            invariant
                i <= headers.len(),
                ps == pairs_of(headers@),
                pairs_of(hs@) == headers_from_pairs(ps.take(i as int)),
            decreases headers.len() - i,
        {
            proof {
                assert(ps.take(i + 1).drop_last() =~= ps.take(i as int));
                assert(ps.take(i + 1).last() == ps[i as int]);
            }
            insert_header(&mut hs, headers[i].0.clone(), headers[i].1.clone());
            i = i + 1;
        }
        proof {
            assert(ps.take(headers.len() as int) =~= ps);
            lemma_headers_from_pairs_unique(ps);
        }
        RequestData { headers: hs, ..self }
    }

    /// The same request with the body read from `body`.
    pub fn with_body(self, body: &str) -> (r: RequestData)
        ensures
            r@ == (RequestModel { body: body_of(body@), ..self@ }),
    {
        RequestData { body: BodyPayload::from_str(body), ..self }
    }
}

} // verus!
