use vstd::prelude::*;

use crate::json::{
    json_read, json_set_path, opt_json_view, parse_json, set_at_path, strings_view, Json,
    JsonValue,
};
use crate::request::{
    copy_pairs, header_item_apply, BodyModel, BodyPayload, PartialModel, PartialRequestData,
};
use crate::text::{find_char, first_index_from, has_char, lemma_first_index_from, owned, slice};
use crate::url::{pairs_of, Url, UrlInfo, UrlModel};

verus! {

broadcast use vstd::string::group_string_axioms;

// ---------------------------------------------------------------------
// The grammar of request items
// ---------------------------------------------------------------------
/// The kinds of request item: `key==value` adds a query parameter,
/// `key:=json` a body field of any JSON type but string, `key=value` a
/// string body field, `key:value` a header.
#[derive(Debug, Clone, Copy, PartialEq, Eq, Structural)]
pub enum ItemKind {
    QueryParam,
    NonStringBody,
    Body,
    Header,
}

/// The first index at or after `from` that holds `:` or `=`.
pub open spec fn first_sep_from(s: Seq<char>, from: int) -> Option<int>
    decreases s.len() - from,
{
    if from >= s.len() || from < 0 {
        None
    } else if s[from] == ':' || s[from] == '=' {
        Some(from)
    } else {
        first_sep_from(s, from + 1)
    }
}

pub proof fn lemma_first_sep_from(s: Seq<char>, from: int)
    requires
        0 <= from,
    ensures
        first_sep_from(s, from) matches Some(i) ==> from <= i < s.len() && (s[i] == ':' || s[i]
            == '=') && forall|j: int| from <= j < i ==> s[j] != ':' && s[j] != '=',
        first_sep_from(s, from) is None ==> forall|j: int|
            from <= j < s.len() ==> s[j] != ':' && s[j] != '=',
    decreases s.len() - from,
{
    if from < s.len() && s[from] != ':' && s[from] != '=' {
        lemma_first_sep_from(s, from + 1);
    }
}

/// A request item read by its first separator: the kind, the key before the
/// separator (never empty), the value after it.
pub open spec fn item_of(s: Seq<char>) -> Option<(ItemKind, Seq<char>, Seq<char>)> {
    match first_sep_from(s, 0) {
        None => None,
        Some(i) => if i <= 0 || i >= s.len() {
            None
        } else if s[i] == '=' && i + 1 < s.len() && s[i + 1] == '=' {
            Some((ItemKind::QueryParam, s.take(i), s.skip(i + 2)))
        } else if s[i] == ':' && i + 1 < s.len() && s[i + 1] == '=' {
            Some((ItemKind::NonStringBody, s.take(i), s.skip(i + 2)))
        } else if s[i] == '=' {
            Some((ItemKind::Body, s.take(i), s.skip(i + 1)))
        } else {
            Some((ItemKind::Header, s.take(i), s.skip(i + 1)))
        },
    }
}

/// The key of an item.
pub open spec fn item_key(s: Seq<char>) -> Seq<char> {
    match item_of(s) {
        Some(t) => t.1,
        None => Seq::empty(),
    }
}

/// The value of an item.
pub open spec fn item_value(s: Seq<char>) -> Seq<char> {
    match item_of(s) {
        Some(t) => t.2,
        None => Seq::empty(),
    }
}

/// Whether an item is of a kind.
pub open spec fn is_item_of_kind(s: Seq<char>, kind: ItemKind) -> bool {
    item_of(s) matches Some(t) && t.0 == kind
}

/// Reads a request item.
pub fn classify_item(s: &str) -> (r: Option<(ItemKind, String, String)>)
    ensures
        match r {
            Some(t) => item_of(s@) == Some((t.0, t.1@, t.2@)),
            None => item_of(s@) is None,
        },
{
    let len = s.unicode_len();
    let mut i: usize = 0;
    proof {
        lemma_first_sep_from(s@, 0);
    }
    while i < len && s.get_char(i) != ':' && s.get_char(i) != '='
        invariant
            len == s@.len(),
            i <= len,
            first_sep_from(s@, 0) == first_sep_from(s@, i as int),
        decreases len - i,
    {
        i = i + 1;
    }
    if i >= len || i == 0 {
        return None;
    }
    let c = s.get_char(i);
    let next_is_eq = i + 1 < len && s.get_char(i + 1) == '=';
    let key = slice(s, 0, i);
    assert(key@ =~= s@.take(i as int));
    if c == '=' && next_is_eq {
        let value = slice(s, i + 2, len);
        assert(value@ =~= s@.skip(i + 2));
        Some((ItemKind::QueryParam, key, value))
    } else if c == ':' && next_is_eq {
        let value = slice(s, i + 2, len);
        assert(value@ =~= s@.skip(i + 2));
        Some((ItemKind::NonStringBody, key, value))
    } else if c == '=' {
        let value = slice(s, i + 1, len);
        assert(value@ =~= s@.skip(i + 1));
        Some((ItemKind::Body, key, value))
    } else {
        let value = slice(s, i + 1, len);
        assert(value@ =~= s@.skip(i + 1));
        Some((ItemKind::Header, key, value))
    }
}

/// Whether an item sets a string body field (`key=value`).
pub fn is_body_item(s: &str) -> (r: bool)
    ensures
        r == is_item_of_kind(s@, ItemKind::Body),
{
    match classify_item(s) {
        Some(t) => t.0 == ItemKind::Body,
        None => false,
    }
}

/// Law: an item is of one kind at most, so at most one of the four item
/// parsers takes it and the order in which they are tried does not matter.
pub proof fn lemma_item_kinds_exclusive(s: Seq<char>, k1: ItemKind, k2: ItemKind)
    requires
        is_item_of_kind(s, k1),
        is_item_of_kind(s, k2),
    ensures
        k1 == k2,
{
}

// ---------------------------------------------------------------------
// Nested body keys
// ---------------------------------------------------------------------
/// The contents of a run of `[...]` groups, empty contents dropped, or
/// `None` where the text is not such a run.
pub open spec fn bracket_groups(r: Seq<char>) -> Option<Seq<Seq<char>>>
    decreases r.len(),
{
    if r.len() == 0 {
        Some(Seq::empty())
    } else if r[0] != '[' {
        None
    } else {
        match first_index_from(r, ']', 1) {
            None => None,
            Some(j) => if 1 <= j < r.len() {
                let content = r.subrange(1, j);
                if has_char(content, '[') {
                    None
                } else {
                    match bracket_groups(r.skip(j + 1)) {
                        Some(rest) => Some(
                            if content.len() == 0 {
                                rest
                            } else {
                                seq![content] + rest
                            },
                        ),
                        None => None,
                    }
                }
            } else {
                None
            },
        }
    }
}

/// The path of keys that a body key names: `user[address][city]` names
/// `user`, `address`, `city`; a key not of that form names itself.
pub open spec fn nested_keys(s: Seq<char>) -> Seq<Seq<char>> {
    match first_index_from(s, '[', 0) {
        None => seq![s],
        Some(i) => if 0 < i && !has_char(s.take(i), ']') {
            match bracket_groups(s.skip(i)) {
                Some(subs) => seq![s.take(i)] + subs,
                None => seq![s],
            }
        } else {
            seq![s]
        },
    }
}

fn exec_bracket_groups(r: &str) -> (res: Option<Vec<String>>)
    ensures
        match res {
            Some(v) => bracket_groups(r@) == Some(strings_view(v@)),
            None => bracket_groups(r@) is None,
        },
    decreases r@.len(),
{
    let len = r.unicode_len();
    if len == 0 {
        let v: Vec<String> = Vec::new();
        assert(strings_view(v@) =~= Seq::empty());
        return Some(v);
    }
    if r.get_char(0) != '[' {
        return None;
    }
    match find_char(r, ']', 1) {
        None => None,
        Some(j) => {
            proof {
                lemma_first_index_from(r@, ']', 1);
            }
            let content = r.substring_char(1, j);
            match find_char(content, '[', 0) {
                Some(_) => {
                    proof {
                        lemma_first_index_from(content@, '[', 0);
                    }
                    None
                },
                None => {
                    proof {
                        lemma_first_index_from(content@, '[', 0);
                    }
                    let tail = r.substring_char(j + 1, len);
                    assert(tail@ =~= r@.skip(j + 1));
                    match exec_bracket_groups(tail) {
                        None => None,
                        Some(rest) => {
                            if content.unicode_len() == 0 {
                                Some(rest)
                            } else {
                                let mut v: Vec<String> = Vec::new();
                                v.push(owned(content));
                                let mut k: usize = 0;
                                let ghost rv = strings_view(rest@);
                                while k < rest.len()
                                    invariant
                                        k <= rest.len(),
                                        rv == strings_view(rest@),
                                        strings_view(v@) == seq![content@] + rv.take(k as int),
                                    decreases rest.len() - k,
                                {
                                    let ghost prev = strings_view(v@);
                                    v.push(rest[k].clone());
                                    assert(strings_view(v@) =~= prev.push(rv[k as int]));
                                    assert(rv.take(k + 1) =~= rv.take(k as int).push(
                                        rv[k as int],
                                    ));
                                    k = k + 1;
                                }
                                assert(rv.take(rest.len() as int) =~= rv);
                                Some(v)
                            }
                        },
                    }
                },
            }
        },
    }
}

/// Splits a body key into the path of keys it names.
pub fn extract_nested_body_keys(s: &str) -> (r: Vec<String>)
    ensures
        strings_view(r@) == nested_keys(s@),
{
    let len = s.unicode_len();
    let mut whole: Vec<String> = Vec::new();
    whole.push(owned(s));
    assert(strings_view(whole@) =~= seq![s@]);
    match find_char(s, '[', 0) {
        None => whole,
        Some(i) => {
            proof {
                lemma_first_index_from(s@, '[', 0);
            }
            let root = s.substring_char(0, i);
            assert(root@ =~= s@.take(i as int));
            if i == 0 {
                return whole;
            }
            match find_char(root, ']', 0) {
                Some(_) => {
                    proof {
                        lemma_first_index_from(root@, ']', 0);
                    }
                    whole
                },
                None => {
                    proof {
                        lemma_first_index_from(root@, ']', 0);
                    }
                    let tail = s.substring_char(i, len);
                    assert(tail@ =~= s@.skip(i as int));
                    match exec_bracket_groups(tail) {
                        None => whole,
                        Some(subs) => {
                            let mut v: Vec<String> = Vec::new();
                            v.push(owned(root));
                            let ghost sv = strings_view(subs@);
                            let mut k: usize = 0;
                            while k < subs.len()
                                invariant
                                    k <= subs.len(),
                                    sv == strings_view(subs@),
                                    strings_view(v@) == seq![root@] + sv.take(k as int),
                                decreases subs.len() - k,
                            {
                                let ghost prev = strings_view(v@);
                                v.push(subs[k].clone());
                                assert(strings_view(v@) =~= prev.push(sv[k as int]));
                                assert(sv.take(k + 1) =~= sv.take(k as int).push(sv[k as int]));
                                k = k + 1;
                            }
                            assert(sv.take(subs.len() as int) =~= sv);
                            v
                        },
                    }
                },
            }
        },
    }
}

/// Law: a body key names a path of at least one key, which starts with the
/// key itself or with its part before the first `[`.
pub proof fn lemma_nested_keys_shape(s: Seq<char>)
    ensures
        nested_keys(s).len() >= 1,
        nested_keys(s)[0] == s || (first_index_from(s, '[', 0) matches Some(i) && nested_keys(
            s,
        )[0] == s.take(i)),
{
}

// ---------------------------------------------------------------------
// Non-string body values
// ---------------------------------------------------------------------
/// Whether a text is enclosed in single quotes.
pub open spec fn single_quoted(s: Seq<char>) -> bool {
    s.len() >= 2 && s[0] == '\'' && s[s.len() - 1] == '\''
}

/// The JSON value a `key:=value` item gives: the value read as JSON, a JSON
/// string being read once more as JSON text; failing that, the value inside
/// single quotes read as JSON. A value that ends as a JSON string gives none.
pub open spec fn non_string_value(s: Seq<char>) -> Option<Json> {
    let first = match json_read(s) {
        Some(Json::Str(inner)) => json_read(inner),
        other => other,
    };
    let second = match first {
        Some(v) => Some(v),
        None => if single_quoted(s) {
            json_read(s.subrange(1, s.len() - 1))
        } else {
            None
        },
    };
    match second {
        Some(Json::Str(_)) => None,
        other => other,
    }
}

/// Reads the value of a `key:=value` item.
pub fn parse_non_string_value_from_str_input(input_value: &str) -> (r: Option<JsonValue>)
    ensures
        opt_json_view(r) == non_string_value(input_value@),
        r matches Some(v) ==> crate::json::json_wf(v@),
{
    let first = match parse_json(input_value) {
        Some(JsonValue::Str(inner)) => parse_json(inner.as_str()),
        other => other,
    };
    let second = match first {
        Some(v) => Some(v),
        None => {
            let len = input_value.unicode_len();
            if len >= 2 && input_value.get_char(0) == '\'' && input_value.get_char(len - 1)
                == '\'' {
                parse_json(input_value.substring_char(1, len - 1))
            } else {
                None
            }
        },
    };
    match second {
        Some(JsonValue::Str(_)) => None,
        other => other,
    }
}

/// Law: a `key:=value` item never gives a JSON string.
pub proof fn lemma_non_string_value_is_not_string(s: Seq<char>)
    ensures
        !(non_string_value(s) matches Some(Json::Str(_))),
{
}

// ---------------------------------------------------------------------
// Building request data from items
// ---------------------------------------------------------------------
/// The errors of a request item that the library reads but cannot apply.
#[derive(Debug, Clone, Copy, PartialEq, Eq, Structural)]
pub enum ItemError {
    /// A `key:=value` item whose value is not a non-string JSON value.
    CouldNotParseBodyValue,
    /// A `key==value` item for a URL that was kept raw.
    CannotInsertQueryParam,
}

/// The JSON value a body starts from: the body where it is JSON, else an empty object.
pub open spec fn body_root(b: Option<BodyModel>) -> Json {
    match b {
        Some(BodyModel::Json(j)) => j,
        _ => Json::Object(Seq::empty()),
    }
}

/// Sets `value` at the path `path_keys` inside the body of the request, the
/// body starting from an empty object where it is not JSON.
pub fn build_partial_request_data_with(
    request: PartialRequestData,
    path_keys: Vec<String>,
    value: JsonValue,
) -> (r: PartialRequestData)
    ensures
        r@ == (PartialModel {
            body: Some(
                BodyModel::Json(json_set_path(body_root(request@.body), strings_view(path_keys@), value@)),
            ),
            ..request@
        }),
{
    let PartialRequestData { url, method, headers, body } = request;
    let root = match body {
        Some(BodyPayload::Json(v)) => v,
        _ => JsonValue::empty_object(),
    };
    assert(strings_view(path_keys@).skip(0) =~= strings_view(path_keys@));
    let new_root = set_at_path(root, &path_keys, 0, value);
    PartialRequestData { url, method, headers, body: Some(BodyPayload::Json(new_root)) }
}

/// The result of applying an item of the kind the parser takes.
pub type ParserResult = Result<PartialRequestData, ItemError>;

/// What a body item (`key=value`) makes of the request: the value, as a JSON
/// string, set at the path that the key names.
pub open spec fn body_item_result(p: PartialModel, key: Seq<char>, value: Seq<char>) -> PartialModel {
    PartialModel {
        body: Some(BodyModel::Json(json_set_path(body_root(p.body), nested_keys(key), Json::Str(value)))),
        ..p
    }
}

/// Applies a string body item (`key=value`), where the item is one.
pub fn body_value(s: &str, base_request: &PartialRequestData) -> (r: Option<ParserResult>)
    ensures
        r is Some <==> is_item_of_kind(s@, ItemKind::Body),
        r matches Some(res) ==> res matches Ok(req) && req@ == body_item_result(
            base_request@,
            item_key(s@),
            item_value(s@),
        ),
{
    match classify_item(s) {
        Some((ItemKind::Body, key, value)) => {
            let request = base_request.duplicate();
            let sub_keys = extract_nested_body_keys(key.as_str());
            let new_request = build_partial_request_data_with(
                request,
                sub_keys,
                JsonValue::Str(value),
            );
            Some(Ok(new_request))
        },
        _ => None,
    }
}

/// What a non-string body item (`key:=value`) makes of the request, where
/// its value reads as a non-string JSON value.
pub open spec fn non_string_item_result(p: PartialModel, key: Seq<char>, value: Json) -> PartialModel {
    PartialModel {
        body: Some(BodyModel::Json(json_set_path(body_root(p.body), nested_keys(key), value))),
        ..p
    }
}

/// Applies a non-string body item (`key:=value`), where the item is one; an
/// error where its value is not a non-string JSON value.
pub fn non_string_body_value(s: &str, base_request: &PartialRequestData) -> (r: Option<
    ParserResult,
>)
    ensures
        r is Some <==> is_item_of_kind(s@, ItemKind::NonStringBody),
        r matches Some(res) ==> match non_string_value(item_value(s@)) {
            Some(v) => res matches Ok(req) && req@ == non_string_item_result(
                base_request@,
                item_key(s@),
                v,
            ),
            None => res == Err::<PartialRequestData, ItemError>(ItemError::CouldNotParseBodyValue),
        },
{
    match classify_item(s) {
        Some((ItemKind::NonStringBody, key, value)) => {
            let request = base_request.duplicate();
            let sub_keys = extract_nested_body_keys(key.as_str());
            match parse_non_string_value_from_str_input(value.as_str()) {
                Some(v) => Some(Ok(build_partial_request_data_with(request, sub_keys, v))),
                None => Some(Err(ItemError::CouldNotParseBodyValue)),
            }
        },
        _ => None,
    }
}

/// What a header item (`key:value`) makes of the request: the header bound
/// to the value, or removed where the value is empty (`key:`).
pub open spec fn header_item_result(p: PartialModel, key: Seq<char>, value: Seq<char>) -> PartialModel {
    PartialModel {
        headers: Some(
            header_item_apply(
                match p.headers {
                    Some(h) => h,
                    None => Seq::empty(),
                },
                key,
                value,
            ),
        ),
        ..p
    }
}

/// Applies a header item (`key:value`), where the item is one.
pub fn header_value(s: &str, base_request: &PartialRequestData) -> (r: Option<ParserResult>)
    ensures
        r is Some <==> is_item_of_kind(s@, ItemKind::Header),
        r matches Some(res) ==> res matches Ok(req) && req@ == header_item_result(
            base_request@,
            item_key(s@),
            item_value(s@),
        ),
{
    match classify_item(s) {
        Some((ItemKind::Header, key, value)) => {
            let mut request = base_request.duplicate();
            let mut headers = match request.headers {
                Some(h) => h,
                None => {
                    let v: Vec<(String, String)> = Vec::new();
                    assert(pairs_of(v@) =~= Seq::empty());
                    v
                },
            };
            crate::request::apply_header_item(&mut headers, key, value);
            request.headers = Some(headers);
            Some(Ok(request))
        },
        _ => None,
    }
}

/// The URL after a query parameter is added: the parameter appended to a
/// validated URL, or a validated URL with no base holding only it.
pub open spec fn url_with_query_param(u: Option<UrlModel>, key: Seq<char>, value: Seq<char>) -> UrlModel {
    match u {
        Some(UrlModel::Validated { base, query }) => UrlModel::Validated {
            base,
            query: query.push((key, value)),
        },
        _ => UrlModel::Validated { base: Seq::empty(), query: seq![(key, value)] },
    }
}

/// Applies a query parameter item (`key==value`), where the item is one; an
/// error where the URL was kept raw.
pub fn query_param_value(s: &str, base_request: &PartialRequestData) -> (r: Option<ParserResult>)
    ensures
        r is Some <==> is_item_of_kind(s@, ItemKind::QueryParam),
        r matches Some(res) ==> if base_request@.url matches Some(UrlModel::Raw(_)) {
            res == Err::<PartialRequestData, ItemError>(ItemError::CannotInsertQueryParam)
        } else {
            res matches Ok(req) && req@ == (PartialModel {
                url: Some(
                    url_with_query_param(base_request@.url, item_key(s@), item_value(s@)),
                ),
                ..base_request@
            })
        },
{
    match classify_item(s) {
        Some((ItemKind::QueryParam, key, value)) => {
            if let Some(Url::Raw(_)) = &base_request.url {
                return Some(Err(ItemError::CannotInsertQueryParam));
            }
            let mut request = base_request.duplicate();
            let info = match request.url {
                Some(Url::ValidatedUrl(info)) => info,
                _ => {
                    let d = UrlInfo::default();
                    assert(pairs_of(d.query_params@) =~= Seq::empty());
                    d
                },
            };
            let UrlInfo { base, query_params } = info;
            let mut query_params = query_params;
            let ghost before = pairs_of(query_params@);
            let ghost kv = (key@, value@);
            query_params.push((key, value));
            assert(pairs_of(query_params@) =~= before.push(kv));
            request.url = Some(Url::ValidatedUrl(UrlInfo { base, query_params }));
            Some(Ok(request))
        },
        _ => None,
    }
}

} // verus!
