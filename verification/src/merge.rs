use vstd::prelude::*;

use crate::request::{
    header_insert, headers_unique, insert_header, lemma_header_insert_unique, BodyModel, BodyPayload, PartialModel, PartialRequestData,
    RequestData, RequestModel,
};
use crate::url::{pairs_of, Url, UrlInfo, UrlModel};
use crate::json::{
    entries_sorted, entries_view, lemma_obj_get_first, lemma_obj_insert, obj_has, lemma_object_view, obj_find, obj_get, obj_insert,
    obj_insert_exec, Json, JsonValue,
};

verus! {

/// A JSON value given on top of another: objects merge key by key, the
/// value on top winning where a key is in both and is not an object in
/// both; any other value on top replaces the one below.
pub open spec fn json_merge(a: Json, b: Json) -> Json
    decreases b, 1nat,
{
    match b {
        Json::Object(be) => match a {
            Json::Object(ae) => Json::Object(merge_entries(ae, be)),
            _ => b,
        },
        _ => b,
    }
}

/// The entries of an object with the entries `be` given on top, in order.
pub open spec fn merge_entries(ae: Seq<(Seq<char>, Json)>, be: Seq<(Seq<char>, Json)>) -> Seq<
    (Seq<char>, Json),
>
    decreases be, 0nat,
{
    if be.len() == 0 {
        ae
    } else {
        let acc = merge_entries(ae, be.drop_last());
        let k = be.last().0;
        let v = be.last().1;
        obj_insert(
            acc,
            k,
            match obj_get(acc, k) {
                Some(old) => json_merge(old, v),
                None => v,
            },
        )
    }
}

/// Gives a JSON value on top of another.
pub fn merge_json(a: JsonValue, b: &JsonValue) -> (r: JsonValue)
    ensures
        r@ == json_merge(a@, b@),
    decreases b,
{
    match b {
        JsonValue::Object(be) => match a {
            JsonValue::Object(ae) => {
                let ghost aev = entries_view(ae@);
                let ghost bev = entries_view(be@);
                proof {
                    lemma_object_view(ae);
                    lemma_object_view(*be);
                }
                let mut acc = ae;
                let mut i: usize = 0;
                proof {
                    assert(bev.take(0) =~= Seq::<(Seq<char>, Json)>::empty());
                }
                while i < be.len()
                    invariant
                        i <= be.len(),
                        *b == JsonValue::Object(*be),
                        bev == entries_view(be@),
                        entries_view(acc@) == merge_entries(aev, bev.take(i as int)),
                    decreases be.len() - i,
                {
                    let ghost accv = entries_view(acc@);
                    let key = &be[i].0;
                    let top = &be[i].1;
                    let value = match obj_find(&acc, key) {
                        Some(j) => {
                            proof {
                                assert forall|m: int| 0 <= m < j implies (#[trigger] accv[m]).0
                                    != accv[j as int].0 by {
                                    assert(accv[m].0 == acc[m].0@);
                                }
                                lemma_obj_get_first(accv, j as int);
                            }
                            proof {
                                let bb: JsonValue = *b;
                                let v: Vec<(String, JsonValue)> = *be;
                                assert(decreases_to!(bb => bb->Object_0));
                                assert(decreases_to!(v => v@));
                                assert(decreases_to!(v@ => v@[i as int]));
                                assert(decreases_to!(v@[i as int] => v@[i as int].1));
                                assert(*top == v@[i as int].1);
                            }
                            merge_json(acc[j].1.deep_clone(), top)
                        },
                        None => top.deep_clone(),
                    };
                    proof {
                        let t = bev.take(i + 1);
                        assert(t.drop_last() =~= bev.take(i as int));
                        assert(t.last() == bev[i as int]);
                        assert(bev[i as int] == (key@, top@));
                    }
                    obj_insert_exec(&mut acc, key.clone(), value);
                    i = i + 1;
                }
                proof {
                    assert(bev.take(be.len() as int) =~= bev);
                    lemma_object_view(acc);
                }
                JsonValue::Object(acc)
            },
            _ => b.deep_clone(),
        },
        _ => b.deep_clone(),
    }
}

/// A URL given on top of a saved one: a raw URL replaces it; a parsed one
/// keeps the saved base where it names none and adds its parameters after
/// the saved ones.
pub open spec fn url_merge(saved: UrlModel, input: Option<UrlModel>) -> UrlModel {
    match input {
        None => saved,
        Some(UrlModel::Raw(s)) => UrlModel::Raw(s),
        Some(UrlModel::Validated { base, query }) => match saved {
            UrlModel::Validated { base: sb, query: sq } => UrlModel::Validated {
                base: if base.len() == 0 {
                    sb
                } else {
                    base
                },
                query: sq + query,
            },
            UrlModel::Raw(_) => UrlModel::Validated { base, query },
        },
    }
}

/// Headers given on top of saved ones: each binds its name in turn.
pub open spec fn headers_merge(
    saved: Seq<(Seq<char>, Seq<char>)>,
    input: Seq<(Seq<char>, Seq<char>)>,
) -> Seq<(Seq<char>, Seq<char>)>
    decreases input.len(),
{
    if input.len() == 0 {
        saved
    } else {
        let hs = headers_merge(saved, input.drop_last());
        header_insert(hs, input.last().0, input.last().1)
    }
}

/// A body given on top of a saved one: JSON on JSON merges, any other body
/// replaces the saved one.
pub open spec fn body_merge(saved: BodyModel, input: Option<BodyModel>) -> BodyModel {
    match input {
        None => saved,
        Some(BodyModel::Json(b)) => match saved {
            BodyModel::Json(a) => BodyModel::Json(json_merge(a, b)),
            BodyModel::Raw(_) => BodyModel::Json(b),
        },
        Some(BodyModel::Raw(r)) => BodyModel::Raw(r),
    }
}

/// Law: headers given on top of saved ones keep the saved names apart.
pub proof fn lemma_headers_merge_unique(
    saved: Seq<(Seq<char>, Seq<char>)>,
    input: Seq<(Seq<char>, Seq<char>)>,
)
    requires
        headers_unique(saved),
    ensures
        headers_unique(headers_merge(saved, input)),
    decreases input.len(),
{
    if input.len() > 0 {
        lemma_headers_merge_unique(saved, input.drop_last());
        lemma_header_insert_unique(
            headers_merge(saved, input.drop_last()),
            input.last().0,
            input.last().1,
        );
    }
}

/// A saved request with request data given on top of it.
pub open spec fn request_merge(saved: RequestModel, input: PartialModel) -> RequestModel {
    RequestModel {
        url: url_merge(saved.url, input.url),
        method: match input.method {
            Some(m) => m,
            None => saved.method,
        },
        headers: match input.headers {
            Some(h) => headers_merge(saved.headers, h),
            None => saved.headers,
        },
        body: body_merge(saved.body, input.body),
    }
}

impl RequestData {
    /// The request with request data given on top of it.
    pub fn merge(self, input: PartialRequestData) -> (r: RequestData)
        ensures
            r@ == request_merge(self@, input@),
            headers_unique(self@.headers) ==> headers_unique(r@.headers),
    {
        proof {
            if headers_unique(self@.headers) {
                if let Some(h) = input@.headers {
                    lemma_headers_merge_unique(self@.headers, h);
                }
            }
        }
        let RequestData { url, method, headers, body } = self;
        let ghost saved_url = url@;
        let url = match input.url {
            None => url,
            Some(Url::Raw(s)) => Url::Raw(s),
            Some(Url::ValidatedUrl(info)) => match url {
                Url::ValidatedUrl(saved) => {
                    let UrlInfo { base: sb, query_params: sq } = saved;
                    let UrlInfo { base, query_params } = info;
                    let ghost sqv = pairs_of(sq@);
                    let ghost qv = pairs_of(query_params@);
                    let mut params = sq;
                    let mut extra = query_params;
                    params.append(&mut extra);
                    assert(pairs_of(params@) =~= sqv + qv);
                    let base = if base.as_str().unicode_len() == 0 {
                        sb
                    } else {
                        base
                    };
                    Url::ValidatedUrl(UrlInfo { base, query_params: params })
                },
                Url::Raw(_) => Url::ValidatedUrl(info),
            },
        };
        let method = match input.method {
            Some(m) => m,
            None => method,
        };
        let headers = match input.headers {
            None => headers,
            Some(extra) => {
                let ghost ev = pairs_of(extra@);
                let mut hs = headers;
                let ghost sv = pairs_of(hs@);
                let mut i: usize = 0;
                while i < extra.len()
                    invariant
                        i <= extra.len(),
                        ev == pairs_of(extra@),
                        pairs_of(hs@) == headers_merge(sv, ev.take(i as int)),
                    decreases extra.len() - i,
                {
                    proof {
                        assert(ev.take(i + 1).drop_last() =~= ev.take(i as int));
                        assert(ev.take(i + 1).last() == ev[i as int]);
                    }
                    insert_header(&mut hs, extra[i].0.clone(), extra[i].1.clone());
                    i = i + 1;
                }
                assert(ev.take(extra.len() as int) =~= ev);
                hs
            },
        };
        let body = match input.body {
            None => body,
            Some(BodyPayload::Json(b)) => match body {
                BodyPayload::Json(a) => BodyPayload::Json(merge_json(a, &b)),
                BodyPayload::Raw(_) => BodyPayload::Json(b),
            },
            Some(BodyPayload::Raw(r)) => BodyPayload::Raw(r),
        };
        RequestData { url, method, headers, body }
    }
}

/// Law: fields given on top of a saved object bind their values, on top of
/// the saved ones, and every saved field that is not given is kept.
pub proof fn lemma_merge_keeps_saved_fields(
    ae: Seq<(Seq<char>, Json)>,
    be: Seq<(Seq<char>, Json)>,
    k: Seq<char>,
)
    requires
        entries_sorted(ae),
    ensures
        entries_sorted(merge_entries(ae, be)),
        !obj_has(be, k) ==> obj_get(merge_entries(ae, be), k) == obj_get(ae, k),
        obj_has(ae, k) || obj_has(be, k) ==> obj_has(merge_entries(ae, be), k),
    decreases be.len(),
{
    if be.len() > 0 {
        let init = be.drop_last();
        lemma_merge_keeps_saved_fields(ae, init, k);
        let acc = merge_entries(ae, init);
        let kk = be.last().0;
        let v = match obj_get(acc, kk) {
            Some(old) => json_merge(old, be.last().1),
            None => be.last().1,
        };
        lemma_obj_insert(acc, kk, v);
        if !obj_has(be, k) {
            assert(kk != k) by {
                if kk == k {
                    assert(be[be.len() - 1].0 == k);
                }
            }
            assert(!obj_has(init, k)) by {
                if obj_has(init, k) {
                    let m = choose|m: int| 0 <= m < init.len() && (#[trigger] init[m]).0 == k;
                    assert(be[m].0 == k);
                }
            }
        }
        if obj_has(be, k) && !obj_has(init, k) {
            let m = choose|m: int| 0 <= m < be.len() && (#[trigger] be[m]).0 == k;
            if m < be.len() - 1 {
                assert(init[m].0 == k);
            }
        }
        if obj_has(init, k) {
            let m = choose|m: int| 0 <= m < init.len() && (#[trigger] init[m]).0 == k;
            assert(be[m].0 == k);
        }
    }
}

/// Law: running a saved request with no data on top sends it as saved.
pub proof fn lemma_merge_nothing(saved: RequestModel)
    ensures
        request_merge(saved, PartialModel { url: None, method: None, headers: None, body: None })
            == saved,
{
}

} // verus!
