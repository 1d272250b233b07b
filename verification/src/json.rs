use std::collections::BTreeMap;

use serde_json::value::RawValue;
use vstd::prelude::*;

use crate::text::{owned, str_eq};

verus! {

/// A JSON value as the library holds it: numbers keep the canonical text
/// that serde_json prints for them, objects keep their entries sorted by key.
#[derive(Debug, PartialEq, Eq)]
pub enum JsonValue {
    Null,
    Bool(bool),
    Number(String),
    Str(String),
    Array(Vec<JsonValue>),
    Object(Vec<(String, JsonValue)>),
}

/// The mathematical model of a JSON value.
pub enum Json {
    Null,
    Bool(bool),
    Number(Seq<char>),
    Str(Seq<char>),
    Array(Seq<Json>),
    Object(Seq<(Seq<char>, Json)>),
}

pub open spec fn json_view(v: JsonValue) -> Json
    decreases v,
{
    match v {
        JsonValue::Null => Json::Null,
        JsonValue::Bool(b) => Json::Bool(b),
        JsonValue::Number(n) => Json::Number(n@),
        JsonValue::Str(s) => Json::Str(s@),
        JsonValue::Array(items) => Json::Array(
            Seq::new(
                items.len() as nat,
                |i: int|
                    if 0 <= i < items.len() {
                        json_view(items[i])
                    } else {
                        Json::Null
                    },
            ),
        ),
        JsonValue::Object(entries) => Json::Object(
            Seq::new(
                entries.len() as nat,
                |i: int|
                    if 0 <= i < entries.len() {
                        (entries[i].0@, json_view(entries[i].1))
                    } else {
                        (Seq::empty(), Json::Null)
                    },
            ),
        ),
    }
}

impl View for JsonValue {
    type V = Json;

    open spec fn view(&self) -> Json {
        json_view(*self)
    }
}

pub open spec fn opt_json_view(v: Option<JsonValue>) -> Option<Json> {
    match v {
        Some(j) => Some(j@),
        None => None,
    }
}

// ---------------------------------------------------------------------
// Ordering of keys
// ---------------------------------------------------------------------
/// Lexicographic order on character sequences (the order of `String` keys
/// in a `BTreeMap`).
pub open spec fn chars_lt(a: Seq<char>, b: Seq<char>) -> bool
    decreases a.len(),
{
    if a.len() == 0 {
        b.len() > 0
    } else if b.len() == 0 {
        false
    } else if a[0] != b[0] {
        a[0] < b[0]
    } else {
        chars_lt(a.drop_first(), b.drop_first())
    }
}

pub proof fn lemma_chars_lt_irreflexive(a: Seq<char>)
    ensures
        !chars_lt(a, a),
    decreases a.len(),
{
    if a.len() > 0 {
        lemma_chars_lt_irreflexive(a.drop_first());
    }
}

pub proof fn lemma_chars_lt_transitive(a: Seq<char>, b: Seq<char>, c: Seq<char>)
    requires
        chars_lt(a, b),
        chars_lt(b, c),
    ensures
        chars_lt(a, c),
    decreases a.len(),
{
    if a.len() > 0 && b.len() > 0 && c.len() > 0 {
        if a[0] == b[0] && b[0] == c[0] {
            lemma_chars_lt_transitive(a.drop_first(), b.drop_first(), c.drop_first());
        }
    }
}

pub proof fn lemma_chars_lt_total(a: Seq<char>, b: Seq<char>)
    requires
        a != b,
    ensures
        chars_lt(a, b) || chars_lt(b, a),
    decreases a.len(),
{
    if a.len() > 0 && b.len() > 0 && a[0] == b[0] {
        if a.drop_first() == b.drop_first() {
            assert(a =~= seq![a[0]] + a.drop_first());
            assert(b =~= seq![b[0]] + b.drop_first());
        }
        lemma_chars_lt_total(a.drop_first(), b.drop_first());
    } else if a.len() == 0 && b.len() == 0 {
        assert(a =~= b);
    }
}

pub proof fn lemma_chars_lt_asymmetric(a: Seq<char>, b: Seq<char>)
    requires
        chars_lt(a, b),
    ensures
        !chars_lt(b, a),
{
    if chars_lt(b, a) {
        lemma_chars_lt_transitive(a, b, a);
        lemma_chars_lt_irreflexive(a);
    }
}

/// Compares two strings in the order of `chars_lt`.
pub fn str_lt(a: &str, b: &str) -> (r: bool)
    ensures
        r == chars_lt(a@, b@),
{
    let la = a.unicode_len();
    let lb = b.unicode_len();
    let mut i: usize = 0;
    assert(a@.skip(0) =~= a@);
    assert(b@.skip(0) =~= b@);
    while i < la && i < lb
        invariant
            la == a@.len(),
            lb == b@.len(),
            i <= la,
            i <= lb,
            a@.subrange(0, i as int) == b@.subrange(0, i as int),
            chars_lt(a@, b@) == chars_lt(a@.skip(i as int), b@.skip(i as int)),
        decreases la - i,
    {
        let ca = a.get_char(i);
        let cb = b.get_char(i);
        assert(a@.skip(i as int)[0] == ca);
        assert(b@.skip(i as int)[0] == cb);
        if ca != cb {
            return ca < cb;
        }
        assert(a@.skip(i as int).drop_first() =~= a@.skip(i + 1));
        assert(b@.skip(i as int).drop_first() =~= b@.skip(i + 1));
        assert(a@.subrange(0, i + 1) =~= a@.subrange(0, i as int).push(ca));
        assert(b@.subrange(0, i + 1) =~= b@.subrange(0, i as int).push(cb));
        i = i + 1;
    }
    i == la && i < lb
}

// ---------------------------------------------------------------------
// Objects
// ---------------------------------------------------------------------
/// The keys of an object's entries are strictly increasing.
pub open spec fn entries_sorted(es: Seq<(Seq<char>, Json)>) -> bool {
    forall|i: int, j: int| 0 <= i < j < es.len() ==> chars_lt(#[trigger] es[i].0, #[trigger] es[j].0)
}

/// Whether an entry list holds the key.
pub open spec fn obj_has(es: Seq<(Seq<char>, Json)>, k: Seq<char>) -> bool {
    exists|i: int| 0 <= i < es.len() && (#[trigger] es[i]).0 == k
}

/// The first index at which an entry list holds the key, where it holds it.
#[verifier::opaque]
pub open spec fn obj_index(es: Seq<(Seq<char>, Json)>, k: Seq<char>) -> int {
    choose|i: int|
        0 <= i < es.len() && (#[trigger] es[i]).0 == k && forall|m: int|
            0 <= m < i ==> (#[trigger] es[m]).0 != k
}

/// An entry list that holds a key has a first index holding it.
pub proof fn lemma_obj_index(es: Seq<(Seq<char>, Json)>, k: Seq<char>)
    requires
        obj_has(es, k),
    ensures
        0 <= obj_index(es, k) < es.len(),
        es[obj_index(es, k)].0 == k,
        forall|m: int| 0 <= m < obj_index(es, k) ==> (#[trigger] es[m]).0 != k,
{
    let w = choose|i: int| 0 <= i < es.len() && (#[trigger] es[i]).0 == k;
    lemma_first_index_exists(es, k, w);
    reveal(obj_index);
}

proof fn lemma_first_index_exists(es: Seq<(Seq<char>, Json)>, k: Seq<char>, w: int)
    requires
        0 <= w < es.len(),
        es[w].0 == k,
    ensures
        exists|i: int|
            0 <= i < es.len() && (#[trigger] es[i]).0 == k && forall|m: int|
                0 <= m < i ==> (#[trigger] es[m]).0 != k,
    decreases w,
{
    if exists|m: int| 0 <= m < w && (#[trigger] es[m]).0 == k {
        let m = choose|m: int| 0 <= m < w && (#[trigger] es[m]).0 == k;
        lemma_first_index_exists(es, k, m);
    } else {
        assert(forall|m: int| 0 <= m < w ==> (#[trigger] es[m]).0 != k);
    }
}

/// The value bound at the first index holding the key.
pub proof fn lemma_obj_get_first(es: Seq<(Seq<char>, Json)>, j: int)
    requires
        0 <= j < es.len(),
        forall|m: int| 0 <= m < j ==> (#[trigger] es[m]).0 != es[j].0,
    ensures
        obj_get(es, es[j].0) == Some(es[j].1),
{
    let k = es[j].0;
    assert(obj_has(es, k));
    lemma_obj_index(es, k);
    let i = obj_index(es, k);
    if i < j {
        assert(es[i].0 != k);
    }
    if j < i {
        assert(es[j].0 != k);
    }
}

/// The value that an object's entries bind to a key.
pub open spec fn obj_get(es: Seq<(Seq<char>, Json)>, k: Seq<char>) -> Option<Json> {
    if obj_has(es, k) {
        Some(es[obj_index(es, k)].1)
    } else {
        None
    }
}

/// Binds `k` to `v` in a sorted entry list: replaces the entry of `k`
/// where there is one, else inserts it in key order.
pub open spec fn obj_insert(es: Seq<(Seq<char>, Json)>, k: Seq<char>, v: Json) -> Seq<
    (Seq<char>, Json),
>
    decreases es.len(),
{
    if es.len() == 0 {
        seq![(k, v)]
    } else if es[0].0 == k {
        seq![(k, v)] + es.drop_first()
    } else if chars_lt(k, es[0].0) {
        seq![(k, v)] + es
    } else {
        seq![es[0]] + obj_insert(es.drop_first(), k, v)
    }
}

pub proof fn lemma_obj_get_at(es: Seq<(Seq<char>, Json)>, j: int)
    requires
        entries_sorted(es),
        0 <= j < es.len(),
    ensures
        obj_get(es, es[j].0) == Some(es[j].1),
{
    let k = es[j].0;
    assert(obj_has(es, k));
    lemma_obj_index(es, k);
    let i = obj_index(es, k);
    assert(0 <= i < es.len() && es[i].0 == k);
    if i != j {
        if i < j {
            assert(chars_lt(es[i].0, es[j].0));
        } else {
            assert(chars_lt(es[j].0, es[i].0));
        }
        lemma_chars_lt_irreflexive(k);
        assert(false);
    }
    assert(obj_get(es, k) == Some(es[i].1));
}

/// What `obj_insert` leaves: a sorted list, the new binding, every other
/// binding unchanged.
pub proof fn lemma_obj_insert(es: Seq<(Seq<char>, Json)>, k: Seq<char>, v: Json)
    requires
        entries_sorted(es),
    ensures
        entries_sorted(obj_insert(es, k, v)),
        obj_get(obj_insert(es, k, v), k) == Some(v),
        forall|k2: Seq<char>| k2 != k ==> obj_get(obj_insert(es, k, v), k2) == obj_get(es, k2),
        forall|k2: Seq<char>|
            #![trigger obj_has(obj_insert(es, k, v), k2)]
            obj_has(obj_insert(es, k, v), k2) <==> (k2 == k || obj_has(es, k2)),
    decreases es.len(),
{
    let r = obj_insert(es, k, v);
    if es.len() == 0 {
        assert(r[0].0 == k);
        lemma_obj_get_at(r, 0);
        assert forall|k2: Seq<char>| k2 != k implies obj_get(r, k2) == obj_get(es, k2) by {
            assert(!obj_has(r, k2));
            assert(!obj_has(es, k2));
        }
        assert forall|k2: Seq<char>| obj_has(r, k2) <==> (k2 == k || obj_has(es, k2)) by {
            if k2 == k {
                assert(r[0].0 == k2);
            }
        }
    } else if es[0].0 == k {
        let rest = es.drop_first();
        assert forall|i: int, j: int| 0 <= i < j < r.len() implies chars_lt(
            #[trigger] r[i].0,
            #[trigger] r[j].0,
        ) by {
            assert(r[i].0 == es[i].0);
            assert(r[j].0 == es[j].0);
        }
        assert(r[0] == (k, v));
        lemma_obj_get_at(r, 0);
        assert forall|k2: Seq<char>| k2 != k implies obj_get(r, k2) == obj_get(es, k2) by {
            if obj_has(es, k2) {
                let j = choose|i: int| 0 <= i < es.len() && (#[trigger] es[i]).0 == k2;
                assert(j != 0);
                assert(r[j] == es[j]);
                lemma_obj_get_at(r, j);
                lemma_obj_get_at(es, j);
            } else {
                if obj_has(r, k2) {
                    let j = choose|i: int| 0 <= i < r.len() && (#[trigger] r[i]).0 == k2;
                    assert(j != 0);
                    assert(es[j] == r[j]);
                }
            }
        }
        assert forall|k2: Seq<char>| obj_has(r, k2) <==> (k2 == k || obj_has(es, k2)) by {
            if obj_has(r, k2) {
                let j = choose|i: int| 0 <= i < r.len() && (#[trigger] r[i]).0 == k2;
                if j != 0 {
                    assert(es[j] == r[j]);
                }
            }
            if k2 == k {
                assert(r[0].0 == k2);
            } else if obj_has(es, k2) {
                let j = choose|i: int| 0 <= i < es.len() && (#[trigger] es[i]).0 == k2;
                assert(r[j] == es[j]);
            }
        }
    } else if chars_lt(k, es[0].0) {
        assert forall|i: int, j: int| 0 <= i < j < r.len() implies chars_lt(
            #[trigger] r[i].0,
            #[trigger] r[j].0,
        ) by {
            if i == 0 {
                assert(r[j].0 == es[j - 1].0);
                if j - 1 > 0 {
                    assert(chars_lt(es[0].0, es[j - 1].0));
                    lemma_chars_lt_transitive(k, es[0].0, es[j - 1].0);
                }
            } else {
                assert(r[i].0 == es[i - 1].0);
                assert(r[j].0 == es[j - 1].0);
            }
        }
        lemma_obj_get_at(r, 0);
        assert forall|k2: Seq<char>| k2 != k implies obj_get(r, k2) == obj_get(es, k2) by {
            if obj_has(es, k2) {
                let j = choose|i: int| 0 <= i < es.len() && (#[trigger] es[i]).0 == k2;
                assert(r[j + 1] == es[j]);
                lemma_obj_get_at(r, j + 1);
                lemma_obj_get_at(es, j);
            } else {
                if obj_has(r, k2) {
                    let j = choose|i: int| 0 <= i < r.len() && (#[trigger] r[i]).0 == k2;
                    assert(j != 0);
                    assert(es[j - 1] == r[j]);
                }
            }
        }
        assert forall|k2: Seq<char>| obj_has(r, k2) <==> (k2 == k || obj_has(es, k2)) by {
            if obj_has(r, k2) {
                let j = choose|i: int| 0 <= i < r.len() && (#[trigger] r[i]).0 == k2;
                if j != 0 {
                    assert(es[j - 1] == r[j]);
                }
            }
            if k2 == k {
                assert(r[0].0 == k2);
            } else if obj_has(es, k2) {
                let j = choose|i: int| 0 <= i < es.len() && (#[trigger] es[i]).0 == k2;
                assert(r[j + 1] == es[j]);
            }
        }
    } else {
        let rest = es.drop_first();
        assert(entries_sorted(rest)) by {
            assert forall|i: int, j: int| 0 <= i < j < rest.len() implies chars_lt(
                #[trigger] rest[i].0,
                #[trigger] rest[j].0,
            ) by {
                assert(rest[i] == es[i + 1]);
                assert(rest[j] == es[j + 1]);
            }
        }
        lemma_obj_insert(rest, k, v);
        let r2 = obj_insert(rest, k, v);
        assert(r == seq![es[0]] + r2);
        lemma_chars_lt_total(k, es[0].0);
        // every key of r2 is above es[0].0
        assert forall|j: int| 0 <= j < r2.len() implies chars_lt(es[0].0, #[trigger] r2[j].0) by {
            let kj = r2[j].0;
            assert(obj_has(r2, kj));
            if kj != k {
                assert(obj_has(rest, kj));
                let m = choose|i: int| 0 <= i < rest.len() && (#[trigger] rest[i]).0 == kj;
                assert(rest[m] == es[m + 1]);
            }
        }
        assert forall|i: int, j: int| 0 <= i < j < r.len() implies chars_lt(
            #[trigger] r[i].0,
            #[trigger] r[j].0,
        ) by {
            if i == 0 {
                assert(r[j] == r2[j - 1]);
            } else {
                assert(r[i] == r2[i - 1]);
                assert(r[j] == r2[j - 1]);
            }
        }
        assert forall|k2: Seq<char>| #[trigger]
            obj_get(r, k2) == if k2 == k {
                Some(v)
            } else {
                obj_get(es, k2)
            } by {
            if k2 == es[0].0 {
                assert(r[0] == es[0]);
                lemma_obj_get_at(r, 0);
                lemma_obj_get_at(es, 0);
            } else {
                if obj_has(r2, k2) {
                    let j = choose|i: int| 0 <= i < r2.len() && (#[trigger] r2[i]).0 == k2;
                    assert(r[j + 1] == r2[j]);
                    lemma_obj_get_at(r, j + 1);
                    lemma_obj_get_at(r2, j);
                } else {
                    if obj_has(r, k2) {
                        let j = choose|i: int| 0 <= i < r.len() && (#[trigger] r[i]).0 == k2;
                        assert(j != 0);
                        assert(r2[j - 1] == r[j]);
                    }
                }
                if obj_has(rest, k2) {
                    let j = choose|i: int| 0 <= i < rest.len() && (#[trigger] rest[i]).0 == k2;
                    assert(es[j + 1] == rest[j]);
                    lemma_obj_get_at(es, j + 1);
                    lemma_obj_get_at(rest, j);
                } else {
                    if obj_has(es, k2) {
                        let j = choose|i: int| 0 <= i < es.len() && (#[trigger] es[i]).0 == k2;
                        assert(j != 0);
                        assert(rest[j - 1] == es[j]);
                    }
                }
            }
        }
        assert forall|k2: Seq<char>| obj_has(r, k2) <==> (k2 == k || obj_has(es, k2)) by {
            if obj_has(r, k2) {
                let j = choose|i: int| 0 <= i < r.len() && (#[trigger] r[i]).0 == k2;
                if j == 0 {
                    assert(es[0].0 == k2);
                } else {
                    assert(r2[j - 1] == r[j]);
                    assert(obj_has(r2, k2));
                    if k2 != k {
                        let m = choose|i: int| 0 <= i < rest.len() && (#[trigger] rest[i]).0 == k2;
                        assert(es[m + 1] == rest[m]);
                    }
                }
            }
            if k2 == k {
                assert(obj_has(r2, k2));
                let j = choose|i: int| 0 <= i < r2.len() && (#[trigger] r2[i]).0 == k2;
                assert(r[j + 1] == r2[j]);
            } else if obj_has(es, k2) {
                let j = choose|i: int| 0 <= i < es.len() && (#[trigger] es[i]).0 == k2;
                if j == 0 {
                    assert(r[0] == es[0]);
                } else {
                    assert(rest[j - 1] == es[j]);
                    assert(obj_has(rest, k2));
                    assert(obj_has(r2, k2));
                    let m = choose|i: int| 0 <= i < r2.len() && (#[trigger] r2[i]).0 == k2;
                    assert(r[m + 1] == r2[m]);
                }
            }
        }
    }
}

/// Every entry of `obj_insert(es, k, v)` is the new binding or an entry of `es`.
pub proof fn lemma_obj_insert_entries(es: Seq<(Seq<char>, Json)>, k: Seq<char>, v: Json)
    ensures
        forall|j: int|
            0 <= j < obj_insert(es, k, v).len() ==> #[trigger] obj_insert(es, k, v)[j] == (k, v)
                || es.contains(obj_insert(es, k, v)[j]),
    decreases es.len(),
{
    let r = obj_insert(es, k, v);
    if es.len() == 0 {
    } else if es[0].0 == k {
        assert forall|j: int| 0 <= j < r.len() implies #[trigger] r[j] == (k, v) || es.contains(
            r[j],
        ) by {
            if j > 0 {
                assert(r[j] == es[j]);
            }
        }
    } else if chars_lt(k, es[0].0) {
        assert forall|j: int| 0 <= j < r.len() implies #[trigger] r[j] == (k, v) || es.contains(
            r[j],
        ) by {
            if j > 0 {
                assert(r[j] == es[j - 1]);
            }
        }
    } else {
        let rest = es.drop_first();
        lemma_obj_insert_entries(rest, k, v);
        let r2 = obj_insert(rest, k, v);
        assert forall|j: int| 0 <= j < r.len() implies #[trigger] r[j] == (k, v) || es.contains(
            r[j],
        ) by {
            if j == 0 {
                assert(r[0] == es[0]);
            } else {
                assert(r[j] == r2[j - 1]);
                if r2[j - 1] != (k, v) {
                    let m = choose|m: int| 0 <= m < rest.len() && rest[m] == r2[j - 1];
                    assert(es[m + 1] == rest[m]);
                }
            }
        }
    }
}

/// Inserting after a prefix of smaller keys leaves that prefix in place.
pub proof fn lemma_obj_insert_split(es: Seq<(Seq<char>, Json)>, k: Seq<char>, v: Json, i: int)
    requires
        0 <= i <= es.len(),
        forall|j: int| 0 <= j < i ==> chars_lt(#[trigger] es[j].0, k),
    ensures
        obj_insert(es, k, v) == es.take(i) + obj_insert(es.skip(i), k, v),
    decreases i,
{
    if i == 0 {
        assert(es.take(0) + es.skip(0) =~= es);
        assert(es.skip(0) =~= es);
        assert(es.take(0) + obj_insert(es, k, v) =~= obj_insert(es, k, v));
    } else {
        assert(chars_lt(es[0].0, k));
        lemma_chars_lt_irreflexive(k);
        lemma_chars_lt_asymmetric(es[0].0, k);
        let rest = es.drop_first();
        assert forall|j: int| 0 <= j < i - 1 implies chars_lt(#[trigger] rest[j].0, k) by {
            assert(rest[j] == es[j + 1]);
        }
        lemma_obj_insert_split(rest, k, v, i - 1);
        assert(rest.skip(i - 1) =~= es.skip(i));
        assert(es.take(i) =~= seq![es[0]] + rest.take(i - 1));
        assert(obj_insert(es, k, v) == seq![es[0]] + obj_insert(rest, k, v));
        assert(seq![es[0]] + (rest.take(i - 1) + obj_insert(es.skip(i), k, v)) =~= es.take(i)
            + obj_insert(es.skip(i), k, v));
    }
}

// ---------------------------------------------------------------------
// Well-formedness, paths
// ---------------------------------------------------------------------
/// Every object inside the value keeps its entries strictly sorted by key.
pub open spec fn json_wf(j: Json) -> bool
    decreases j,
{
    match j {
        Json::Array(items) => forall|i: int| 0 <= i < items.len() ==> json_wf(#[trigger] items[i]),
        Json::Object(es) => entries_sorted(es) && forall|i: int|
            0 <= i < es.len() ==> json_wf(#[trigger] es[i].1),
        _ => true,
    }
}

/// The entries of an object, or none where the value is not an object.
pub open spec fn object_entries(j: Json) -> Seq<(Seq<char>, Json)> {
    match j {
        Json::Object(es) => es,
        _ => Seq::empty(),
    }
}

/// Sets `value` at the path `keys`: each key descends into an object,
/// the value met on the way being replaced by an empty object where it is
/// not one, and a missing entry being created as an empty object.
pub open spec fn json_set_path(node: Json, keys: Seq<Seq<char>>, value: Json) -> Json
    decreases keys.len(),
{
    if keys.len() == 0 {
        value
    } else {
        let es = object_entries(node);
        let child = match obj_get(es, keys[0]) {
            Some(c) => c,
            None => Json::Object(Seq::empty()),
        };
        Json::Object(obj_insert(es, keys[0], json_set_path(child, keys.drop_first(), value)))
    }
}

/// The value found by descending along `keys`.
pub open spec fn json_get_path(node: Json, keys: Seq<Seq<char>>) -> Option<Json>
    decreases keys.len(),
{
    if keys.len() == 0 {
        Some(node)
    } else {
        match node {
            Json::Object(es) => match obj_get(es, keys[0]) {
                Some(c) => json_get_path(c, keys.drop_first()),
                None => None,
            },
            _ => None,
        }
    }
}

pub proof fn lemma_obj_get_wf(es: Seq<(Seq<char>, Json)>, k: Seq<char>)
    requires
        json_wf(Json::Object(es)),
    ensures
        obj_get(es, k) matches Some(c) ==> json_wf(c),
{
    if obj_has(es, k) {
        lemma_obj_index(es, k);
        let i = obj_index(es, k);
        assert(json_wf(es[i].1));
    }
}

/// Setting a well-formed value in a well-formed value keeps it well-formed.
pub proof fn lemma_set_path_wf(node: Json, keys: Seq<Seq<char>>, value: Json)
    requires
        json_wf(node),
        json_wf(value),
    ensures
        json_wf(json_set_path(node, keys, value)),
    decreases keys.len(),
{
    if keys.len() > 0 {
        let es = object_entries(node);
        assert(json_wf(Json::Object(es)));
        let child = match obj_get(es, keys[0]) {
            Some(c) => c,
            None => Json::Object(Seq::empty()),
        };
        lemma_obj_get_wf(es, keys[0]);
        assert(json_wf(child));
        let nc = json_set_path(child, keys.drop_first(), value);
        lemma_set_path_wf(child, keys.drop_first(), value);
        lemma_obj_insert(es, keys[0], nc);
        lemma_obj_insert_entries(es, keys[0], nc);
        let r = obj_insert(es, keys[0], nc);
        assert forall|i: int| 0 <= i < r.len() implies json_wf(#[trigger] r[i].1) by {
            if r[i] != (keys[0], nc) {
                let m = choose|m: int| 0 <= m < es.len() && es[m] == r[i];
                assert(json_wf(es[m].1));
            }
        }
    }
}

/// Law: reading back the path that was just set gives the value that was set.
pub proof fn lemma_get_after_set(node: Json, keys: Seq<Seq<char>>, value: Json)
    requires
        json_wf(node),
    ensures
        json_get_path(json_set_path(node, keys, value), keys) == Some(value),
    decreases keys.len(),
{
    if keys.len() > 0 {
        let es = object_entries(node);
        let child = match obj_get(es, keys[0]) {
            Some(c) => c,
            None => Json::Object(Seq::empty()),
        };
        lemma_obj_get_wf(es, keys[0]);
        lemma_get_after_set(child, keys.drop_first(), value);
        lemma_obj_insert(es, keys[0], json_set_path(child, keys.drop_first(), value));
    }
}

/// Law: setting a path in an object leaves every other top-level entry as it was.
pub proof fn lemma_set_path_keeps_other_entries(
    node: Json,
    keys: Seq<Seq<char>>,
    value: Json,
    other: Seq<char>,
)
    requires
        json_wf(node),
        keys.len() > 0,
        other != keys[0],
    ensures
        obj_get(object_entries(json_set_path(node, keys, value)), other) == obj_get(
            object_entries(node),
            other,
        ),
{
    let es = object_entries(node);
    let child = match obj_get(es, keys[0]) {
        Some(c) => c,
        None => Json::Object(Seq::empty()),
    };
    lemma_obj_insert(es, keys[0], json_set_path(child, keys.drop_first(), value));
}

/// Law: setting a path keeps every other entry of each object met along the
/// path: where the value at the first `i` keys is an object, the value at
/// those keys after the set is an object that gives every key but the next
/// one of the path what it gave before.
pub proof fn lemma_set_path_keeps_siblings(
    node: Json,
    keys: Seq<Seq<char>>,
    value: Json,
    i: int,
    other: Seq<char>,
)
    requires
        json_wf(node),
        0 <= i < keys.len(),
        other != keys[i],
        json_get_path(node, keys.take(i)) matches Some(Json::Object(_)),
    ensures
        json_get_path(json_set_path(node, keys, value), keys.take(i)) matches Some(m) && obj_get(
            object_entries(m),
            other,
        ) == obj_get(object_entries(json_get_path(node, keys.take(i))->0), other),
    decreases i,
{
    if i == 0 {
        assert(keys.take(0) =~= Seq::<Seq<char>>::empty());
        lemma_set_path_keeps_other_entries(node, keys, value, other);
    } else {
        let es = object_entries(node);
        let k0 = keys[0];
        let rest = keys.drop_first();
        assert(keys.take(i)[0] == k0);
        assert(keys.take(i).drop_first() =~= rest.take(i - 1));
        let c = obj_get(es, k0)->0;
        assert(node is Object);
        assert(obj_get(es, k0) is Some);
        lemma_obj_get_wf(es, k0);
        assert(rest[i - 1] == keys[i]);
        lemma_set_path_keeps_siblings(c, rest, value, i - 1, other);
        lemma_obj_insert(es, k0, json_set_path(c, rest, value));
    }
}

// ---------------------------------------------------------------------
// Executable operations
// ---------------------------------------------------------------------
/// The model of an entry vector.
pub open spec fn entries_view(es: Seq<(String, JsonValue)>) -> Seq<(Seq<char>, Json)> {
    Seq::new(es.len(), |i: int| (es[i].0@, es[i].1@))
}

pub proof fn lemma_object_view(es: Vec<(String, JsonValue)>)
    ensures
        JsonValue::Object(es)@ == Json::Object(entries_view(es@)),
{
    let a = entries_view(es@);
    let b = Seq::new(
        es.len() as nat,
        |i: int|
            if 0 <= i < es.len() {
                (es[i].0@, json_view(es[i].1))
            } else {
                (Seq::empty(), Json::Null)
            },
    );
    let v = json_view(JsonValue::Object(es));
    let x = v->Object_0;
    assert(x.len() == a.len());
    assert forall|i: int| 0 <= i < a.len() implies a[i] == x[i] by {
        assert(es@[i] == es[i]);
    }
    assert(a =~= x);
}

pub proof fn lemma_array_view(items: Vec<JsonValue>)
    ensures
        JsonValue::Array(items)@ == Json::Array(Seq::new(items.len() as nat, |i: int| items[i]@)),
{
    let v = json_view(JsonValue::Array(items));
    let x = v->Array_0;
    assert(x =~= Seq::new(items.len() as nat, |i: int| items[i]@));
}

impl JsonValue {
    /// A copy of the value.
    pub fn deep_clone(&self) -> (r: JsonValue)
        ensures
            r@ == self@,
        decreases self,
    {
        match self {
            JsonValue::Null => JsonValue::Null,
            JsonValue::Bool(b) => JsonValue::Bool(*b),
            JsonValue::Number(n) => JsonValue::Number(n.clone()),
            JsonValue::Str(s) => JsonValue::Str(s.clone()),
            JsonValue::Array(items) => {
                let mut out: Vec<JsonValue> = Vec::new();
                let mut i: usize = 0;
                while i < items.len()
                    invariant
                        i <= items.len(),
                        out.len() == i,
                        *self == JsonValue::Array(*items),
                        forall|j: int| 0 <= j < i ==> (#[trigger] out[j])@ == items[j]@,
                    decreases items.len() - i,
                {
                    proof {
                        assert(decreases_to!(*items => items[i as int]));
                        assert(*self == JsonValue::Array(*items));
                        assert(decreases_to!(*self => (*self)->Array_0));
                        assert(decreases_to!(*self => items[i as int]));
                    }
                    let c = items[i].deep_clone();
                    out.push(c);
                    i = i + 1;
                }
                proof {
                    lemma_array_view(*items);
                    lemma_array_view(out);
                    assert(Seq::new(out.len() as nat, |j: int| out[j]@) =~= Seq::new(
                        items.len() as nat,
                        |j: int| items[j]@,
                    ));
                }
                JsonValue::Array(out)
            },
            JsonValue::Object(es) => {
                let mut out: Vec<(String, JsonValue)> = Vec::new();
                let mut i: usize = 0;
                while i < es.len()
                    invariant
                        i <= es.len(),
                        out.len() == i,
                        *self == JsonValue::Object(*es),
                        forall|j: int|
                            0 <= j < i ==> (#[trigger] out[j]).0@ == es[j].0@ && out[j].1@
                                == es[j].1@,
                    decreases es.len() - i,
                {
                    let k = es[i].0.clone();
                    proof {
                        assert(decreases_to!(*es => es[i as int]));
                        assert(decreases_to!(es[i as int] => es[i as int].1));
                        assert(*self == JsonValue::Object(*es));
                        assert(decreases_to!(*self => (*self)->Object_0));
                        assert(decreases_to!(*self => es[i as int].1));
                    }
                    let c = es[i].1.deep_clone();
                    out.push((k, c));
                    i = i + 1;
                }
                proof {
                    lemma_object_view(*es);
                    lemma_object_view(out);
                    assert(entries_view(out@) =~= entries_view(es@));
                }
                JsonValue::Object(out)
            },
        }
    }

    /// An empty JSON object.
    pub fn empty_object() -> (r: JsonValue)
        ensures
            r@ == Json::Object(Seq::empty()),
            json_wf(r@),
    {
        let es: Vec<(String, JsonValue)> = Vec::new();
        proof {
            lemma_object_view(es);
            assert(entries_view(es@) =~= Seq::empty());
        }
        JsonValue::Object(es)
    }
}

/// The position of a key in an entry vector.
pub fn obj_find(es: &Vec<(String, JsonValue)>, k: &String) -> (r: Option<usize>)
    ensures
        r matches Some(i) ==> i < es.len() && es[i as int].0@ == k@ && forall|m: int|
            0 <= m < i ==> (#[trigger] es[m]).0@ != k@,
        r is None ==> !obj_has(entries_view(es@), k@),
{
    let mut i: usize = 0;
    while i < es.len()
        invariant
            i <= es.len(),
            forall|j: int| 0 <= j < i ==> (#[trigger] es[j]).0@ != k@,
        decreases es.len() - i,
    {
        if es[i].0 == *k {
            return Some(i);
        }
        i = i + 1;
    }
    proof {
        let ev = entries_view(es@);
        if obj_has(ev, k@) {
            let m = choose|i: int| 0 <= i < ev.len() && (#[trigger] ev[i]).0 == k@;
            assert(es[m].0@ == k@);
        }
    }
    None
}

/// Binds `k` to `v` in a sorted entry vector, as `obj_insert` does.
pub fn obj_insert_exec(es: &mut Vec<(String, JsonValue)>, k: String, v: JsonValue)
    ensures
        entries_view(final(es)@) == obj_insert(entries_view(old(es)@), k@, v@),
{
    let ghost ev = entries_view(es@);
    let mut i: usize = 0;
    while i < es.len() && str_lt(es[i].0.as_str(), k.as_str())
        invariant
            i <= es.len(),
            ev == entries_view(es@),
            forall|j: int| 0 <= j < i ==> chars_lt(#[trigger] ev[j].0, k@),
        decreases es.len() - i,
    {
        i = i + 1;
    }
    proof {
        lemma_obj_insert_split(ev, k@, v@, i as int);
    }
    if i < es.len() && es[i].0 == k {
        let ghost kv = k@;
        let ghost vv = v@;
        es.set(i, (k, v));
        proof {
            assert(ev.skip(i as int)[0].0 == kv);
            assert(ev.skip(i as int).drop_first() =~= ev.skip(i + 1));
            assert(entries_view(es@) =~= ev.take(i as int) + (seq![(kv, vv)] + ev.skip(i + 1)));
        }
    } else {
        let ghost kv = k@;
        let ghost vv = v@;
        proof {
            if i < es.len() {
                lemma_chars_lt_total(k@, ev[i as int].0);
                assert(ev.skip(i as int)[0] == ev[i as int]);
            } else {
                assert(ev.skip(i as int) =~= Seq::<(Seq<char>, Json)>::empty());
            }
        }
        es.insert(i, (k, v));
        proof {
            assert(entries_view(es@) =~= ev.take(i as int) + (seq![(kv, vv)] + ev.skip(i as int)));
        }
    }
}

/// The model of a vector of strings.
pub open spec fn strings_view(v: Seq<String>) -> Seq<Seq<char>> {
    v.map_values(|s: String| s@)
}

/// Sets `value` at the path `keys[idx..]` inside `node`.
pub fn set_at_path(node: JsonValue, keys: &Vec<String>, idx: usize, value: JsonValue) -> (r:
    JsonValue)
    requires
        idx <= keys.len(),
    ensures
        r@ == json_set_path(node@, strings_view(keys@).skip(idx as int), value@),
        json_wf(node@) && json_wf(value@) ==> json_wf(r@),
    decreases keys.len() - idx,
{
    let ghost ks = strings_view(keys@).skip(idx as int);
    proof {
        if json_wf(node@) && json_wf(value@) {
            lemma_set_path_wf(node@, ks, value@);
        }
    }
    if idx == keys.len() {
        assert(ks.len() == 0);
        return value;
    }
    let ghost node_v = node@;
    let mut es: Vec<(String, JsonValue)> = match node {
        JsonValue::Object(es) => es,
        _ => Vec::new(),
    };
    proof {
        lemma_object_view(es);
        if node_v is Object {
            assert(entries_view(es@) == object_entries(node_v));
        } else {
            assert(entries_view(es@) =~= object_entries(node_v));
        }
    }
    let ghost ev = entries_view(es@);
    let key = &keys[idx];
    assert(ks[0] == key@);
    let child = match obj_find(&es, key) {
        Some(j) => {
            proof {
                assert forall|m: int| 0 <= m < j implies (#[trigger] ev[m]).0 != ev[j as int].0 by {
                    assert(ev[m].0 == es[m].0@);
                }
                lemma_obj_get_first(ev, j as int);
            }
            es[j].1.deep_clone()
        },
        None => JsonValue::empty_object(),
    };
    proof {
        assert(strings_view(keys@).skip(idx + 1) =~= ks.drop_first());
    }
    let new_child = set_at_path(child, keys, idx + 1, value);
    obj_insert_exec(&mut es, key.clone(), new_child);
    proof {
        lemma_object_view(es);
    }
    JsonValue::Object(es)
}

// ---------------------------------------------------------------------
// Reading JSON text: serde_json decodes, the library assembles the tree
// ---------------------------------------------------------------------
/// The white space JSON allows around a value.
pub open spec fn is_json_ws(c: char) -> bool {
    c == ' ' || c == '\t' || c == '\n' || c == '\r'
}

/// The index of the first character at or after `i` that is not white space.
pub open spec fn ws_end(s: Seq<char>, i: int) -> int
    decreases s.len() - i,
{
    if 0 <= i < s.len() && is_json_ws(s[i]) {
        ws_end(s, i + 1)
    } else {
        i
    }
}

/// The index after the last character before `j`, down to `lo`, that is not
/// white space.
pub open spec fn ws_start(s: Seq<char>, j: int, lo: int) -> int
    decreases j - lo,
{
    if lo < j && j <= s.len() && is_json_ws(s[j - 1]) {
        ws_start(s, j - 1, lo)
    } else {
        j
    }
}

/// The text without the white space around it.
pub open spec fn json_trimmed(s: Seq<char>) -> Seq<char> {
    let a = ws_end(s, 0);
    s.subrange(a, ws_start(s, s.len() as int, a))
}

/// Whether serde_json reads the text as `null`: `null` with only white
/// space around it.
pub open spec fn serde_null(text: Seq<char>) -> bool {
    json_trimmed(text) == "null"@
}

/// The boolean serde_json reads from the text: `true` or `false` with only
/// white space around it.
pub open spec fn serde_bool(text: Seq<char>) -> Option<bool> {
    if json_trimmed(text) == "true"@ {
        Some(true)
    } else if json_trimmed(text) == "false"@ {
        Some(false)
    } else {
        None
    }
}

/// The canonical text of the number serde_json reads from the text, if it is one.
pub uninterp spec fn serde_number(text: Seq<char>) -> Option<Seq<char>>;

/// The string serde_json reads from the text (escapes resolved), if it is one.
pub uninterp spec fn serde_string(text: Seq<char>) -> Option<Seq<char>>;

/// The texts of the items of the array that serde_json reads, if the text is one.
pub uninterp spec fn serde_array(text: Seq<char>) -> Option<Seq<Seq<char>>>;

/// The keys and the value texts of the object that serde_json reads, if the
/// text is one, in the key order of a `BTreeMap` (a repeated key keeps its last value).
pub uninterp spec fn serde_object(text: Seq<char>) -> Option<Seq<(Seq<char>, Seq<char>)>>;

pub open spec fn opt_strings_view(r: Option<Vec<String>>) -> Option<Seq<Seq<char>>> {
    match r {
        Some(v) => Some(strings_view(v@)),
        None => None,
    }
}

pub open spec fn pairs_view(v: Seq<(String, String)>) -> Seq<(Seq<char>, Seq<char>)> {
    v.map_values(|p: (String, String)| (p.0@, p.1@))
}

pub open spec fn opt_pairs_view(r: Option<Vec<(String, String)>>) -> Option<
    Seq<(Seq<char>, Seq<char>)>,
> {
    match r {
        Some(v) => Some(pairs_view(v@)),
        None => None,
    }
}

/// The text without the white space around it.
fn trim_json_ws(text: &str) -> (r: String)
    ensures
        r@ == json_trimmed(text@),
{
    let len = text.unicode_len();
    let mut a: usize = 0;
    while a < len && (text.get_char(a) == ' ' || text.get_char(a) == '\t' || text.get_char(a)
        == '\n' || text.get_char(a) == '\r')
        invariant
            len == text@.len(),
            a <= len,
            ws_end(text@, 0) == ws_end(text@, a as int),
        decreases len - a,
    {
        a = a + 1;
    }
    let mut b: usize = len;
    while b > a && (text.get_char(b - 1) == ' ' || text.get_char(b - 1) == '\t' || text.get_char(
        b - 1,
    ) == '\n' || text.get_char(b - 1) == '\r')
        invariant
            len == text@.len(),
            a <= b <= len,
            a == ws_end(text@, 0),
            ws_start(text@, len as int, a as int) == ws_start(text@, b as int, a as int),
        decreases b - a,
    {
        b = b - 1;
    }
    owned(text.substring_char(a, b))
}

/// Whether serde_json reads the text as `null`.
fn read_null(text: &str) -> (r: bool)
    ensures
        r == serde_null(text@),
{
    str_eq(trim_json_ws(text).as_str(), "null")
}

/// The boolean serde_json reads from the text, if the text is one.
fn read_bool(text: &str) -> (r: Option<bool>)
    ensures
        r == serde_bool(text@),
{
    let t = trim_json_ws(text);
    if str_eq(t.as_str(), "true") {
        Some(true)
    } else if str_eq(t.as_str(), "false") {
        Some(false)
    } else {
        None
    }
}

/// Calls `serde_json::from_str::<serde_json::Number>` and prints the number
/// with its `Display`.
#[verifier::external_body]
fn read_number(text: &str) -> (r: Option<String>)
    ensures
        match r {
            Some(n) => serde_number(text@) == Some(n@),
            None => serde_number(text@) is None,
        },
{
    match serde_json::from_str::<serde_json::Number>(text) {
        Ok(n) => Some(n.to_string()),
        Err(_) => None,
    }
}

/// Calls `serde_json::from_str::<String>`.
#[verifier::external_body]
fn read_string(text: &str) -> (r: Option<String>)
    ensures
        match r {
            Some(s) => serde_string(text@) == Some(s@),
            None => serde_string(text@) is None,
        },
{
    serde_json::from_str::<String>(text).ok()
}

/// Calls `serde_json::from_str::<Vec<Box<RawValue>>>` and hands out the raw
/// text of each item. A raw item is a slice of the text strictly inside its
/// brackets, so it is shorter than the text.
#[verifier::external_body]
fn read_array(text: &str) -> (r: Option<Vec<String>>)
    ensures
        opt_strings_view(r) == serde_array(text@),
        r matches Some(items) ==> forall|i: int|
            0 <= i < items.len() ==> (#[trigger] items[i])@.len() < text@.len(),
{
    match serde_json::from_str::<Vec<Box<RawValue>>>(text) {
        Ok(items) => Some(items.into_iter().map(|v| v.get().to_string()).collect()),
        Err(_) => None,
    }
}

/// Calls `serde_json::from_str::<BTreeMap<String, Box<RawValue>>>` and hands
/// out each key with the raw text of its value. The map yields its keys in
/// strictly increasing order, and each raw value is a slice of the text
/// strictly inside its braces.
#[verifier::external_body]
fn read_object(text: &str) -> (r: Option<Vec<(String, String)>>)
    ensures
        opt_pairs_view(r) == serde_object(text@),
        r matches Some(es) ==> (forall|i: int, j: int|
            0 <= i < j < es.len() ==> chars_lt((#[trigger] es[i]).0@, (#[trigger] es[j]).0@)) && (
        forall|i: int| 0 <= i < es.len() ==> (#[trigger] es[i]).1@.len() < text@.len()),
{
    match serde_json::from_str::<BTreeMap<String, Box<RawValue>>>(text) {
        Ok(m) => Some(m.into_iter().map(|(k, v)| (k, v.get().to_string())).collect()),
        Err(_) => None,
    }
}

/// The message of the error serde_json gives reading the text as a
/// `serde_json::Value`; none where it reads one.
pub uninterp spec fn serde_value_error(text: Seq<char>) -> Option<Seq<char>>;

/// Whether serde_json reads the text as a `serde_json::Map<String, Value>`.
pub uninterp spec fn serde_map_accepts(text: Seq<char>) -> bool;

/// Calls `serde_json::from_str::<serde_json::Value>` and hands out the
/// message of its error, if any. An empty text holds no value.
#[verifier::external_body]
fn json_value_error(text: &str) -> (r: Option<String>)
    ensures
        match r {
            Some(m) => serde_value_error(text@) == Some(m@),
            None => serde_value_error(text@) is None,
        },
        text@.len() == 0 ==> r is Some,
{
    match serde_json::from_str::<serde_json::Value>(text) {
        Ok(_) => None,
        Err(e) => Some(e.to_string()),
    }
}

/// Calls `serde_json::from_str::<serde_json::Map<String, Value>>`. An empty
/// text holds no map.
#[verifier::external_body]
fn read_json_map(text: &str) -> (r: bool)
    ensures
        r == serde_map_accepts(text@),
        text@.len() == 0 ==> !r,
{
    serde_json::from_str::<serde_json::Map<String, serde_json::Value>>(text).is_ok()
}

/// Whether serde_json reads the text as a JSON object.
pub fn is_json_object(text: &str) -> (r: bool)
    ensures
        r == serde_map_accepts(text@),
{
    read_json_map(text)
}

/// The message of the error serde_json gives reading a text as JSON, if any.
pub fn json_error(text: &str) -> (r: Option<String>)
    ensures
        match r {
            Some(m) => serde_value_error(text@) == Some(m@),
            None => serde_value_error(text@) is None,
        },
{
    json_value_error(text)
}

/// The JSON value of a text: where serde_json reads the text as a value,
/// the value assembled from what it reads of each node.
pub open spec fn json_read(text: Seq<char>) -> Option<Json> {
    if serde_value_error(text) is None {
        json_decode(text)
    } else {
        None
    }
}

/// Reads a JSON value from text: the value that serde_json reads, or `None`
/// where the text is not JSON (an empty text is not).
pub fn parse_json(text: &str) -> (r: Option<JsonValue>)
    ensures
        opt_json_view(r) == json_read(text@),
        r matches Some(v) ==> json_wf(v@),
        text@.len() == 0 ==> r is None,
{
    match json_value_error(text) {
        Some(_) => None,
        None => decode_json(text),
    }
}

/// The JSON value that serde_json reads from the text, assembled node by node.
pub open spec fn json_decode(text: Seq<char>) -> Option<Json>
    decreases text.len(), 1nat, 0nat,
{
    if serde_null(text) {
        Some(Json::Null)
    } else if serde_bool(text) is Some {
        Some(Json::Bool(serde_bool(text)->0))
    } else if serde_number(text) is Some {
        Some(Json::Number(serde_number(text)->0))
    } else if serde_string(text) is Some {
        Some(Json::Str(serde_string(text)->0))
    } else if serde_array(text) is Some {
        match decode_items(serde_array(text)->0, text.len()) {
            Some(vs) => Some(Json::Array(vs)),
            None => None,
        }
    } else if serde_object(text) is Some {
        match decode_entries(serde_object(text)->0, text.len()) {
            Some(es) => Some(Json::Object(es)),
            None => None,
        }
    } else {
        None
    }
}

/// Decodes item texts shorter than `bound`.
pub open spec fn decode_items(items: Seq<Seq<char>>, bound: nat) -> Option<Seq<Json>>
    decreases bound, 0nat, items.len(),
{
    if items.len() == 0 {
        Some(Seq::empty())
    } else if items.last().len() < bound {
        match decode_items(items.drop_last(), bound) {
            Some(vs) => match json_decode(items.last()) {
                Some(v) => Some(vs.push(v)),
                None => None,
            },
            None => None,
        }
    } else {
        None
    }
}

/// Decodes the value texts, shorter than `bound`, of object entries.
pub open spec fn decode_entries(es: Seq<(Seq<char>, Seq<char>)>, bound: nat) -> Option<
    Seq<(Seq<char>, Json)>,
>
    decreases bound, 0nat, es.len(),
{
    if es.len() == 0 {
        Some(Seq::empty())
    } else if es.last().1.len() < bound {
        match decode_entries(es.drop_last(), bound) {
            Some(vs) => match json_decode(es.last().1) {
                Some(v) => Some(vs.push((es.last().0, v))),
                None => None,
            },
            None => None,
        }
    } else {
        None
    }
}

/// Assembles the JSON value of a text node by node from what serde_json
/// reads of each node.
fn decode_json(text: &str) -> (r: Option<JsonValue>)
    ensures
        opt_json_view(r) == json_decode(text@),
        r matches Some(v) ==> json_wf(v@),
    decreases text@.len(),
{
    if read_null(text) {
        return Some(JsonValue::Null);
    }
    if let Some(b) = read_bool(text) {
        return Some(JsonValue::Bool(b));
    }
    if let Some(n) = read_number(text) {
        return Some(JsonValue::Number(n));
    }
    if let Some(s) = read_string(text) {
        return Some(JsonValue::Str(s));
    }
    if let Some(items) = read_array(text) {
        let ghost iv = strings_view(items@);
        let mut out: Vec<JsonValue> = Vec::new();
        let mut i: usize = 0;
        while i < items.len()
            invariant
                i <= items.len(),
                iv == strings_view(items@),
                serde_array(text@) == Some(iv),
                !serde_null(text@),
                serde_bool(text@) is None,
                serde_number(text@) is None,
                serde_string(text@) is None,
                forall|m: int| 0 <= m < items.len() ==> (#[trigger] items[m])@.len() < text@.len(),
                out.len() == i,
                decode_items(iv.take(i as int), text@.len()) == Some(
                    Seq::new(i as nat, |m: int| out[m]@),
                ),
                forall|m: int| 0 <= m < i ==> json_wf((#[trigger] out[m])@),
            decreases items.len() - i,
        {
            let item = &items[i];
            assert(iv[i as int] == item@);
            let parsed = decode_json(item.as_str());
            proof {
                let t = iv.take(i + 1);
                assert(t.last() == item@);
                assert(t.drop_last() =~= iv.take(i as int));
            }
            match parsed {
                Some(v) => {
                    let ghost vv = v@;
                    let ghost prev = Seq::new(i as nat, |m: int| out[m]@);
                    out.push(v);
                    proof {
                        assert(Seq::new((i + 1) as nat, |m: int| out[m]@) =~= prev.push(vv));
                    }
                },
                None => {
                    proof {
                        assert(decode_items(iv, text@.len()) is None) by {
                            lemma_decode_items_prefix_none(iv, text@.len(), i + 1);
                        }
                    }
                    return None;
                },
            }
            i = i + 1;
        }
        proof {
            assert(iv.take(items.len() as int) =~= iv);
            lemma_array_view(out);
        }
        return Some(JsonValue::Array(out));
    }
    if let Some(es) = read_object(text) {
        let ghost pv = pairs_view(es@);
        let mut out: Vec<(String, JsonValue)> = Vec::new();
        let mut i: usize = 0;
        while i < es.len()
            invariant
                i <= es.len(),
                pv == pairs_view(es@),
                serde_object(text@) == Some(pv),
                serde_array(text@) is None,
                !serde_null(text@),
                serde_bool(text@) is None,
                serde_number(text@) is None,
                serde_string(text@) is None,
                forall|m: int| 0 <= m < es.len() ==> (#[trigger] es[m]).1@.len() < text@.len(),
                forall|a: int, b: int|
                    0 <= a < b < es.len() ==> chars_lt((#[trigger] es[a]).0@, (#[trigger] es[b]).0@),
                out.len() == i,
                forall|m: int| 0 <= m < i ==> (#[trigger] out[m]).0@ == es[m].0@,
                decode_entries(pv.take(i as int), text@.len()) == Some(entries_view(out@)),
                forall|m: int| 0 <= m < i ==> json_wf((#[trigger] out[m]).1@),
            decreases es.len() - i,
        {
            let entry = &es[i];
            assert(pv[i as int] == (entry.0@, entry.1@));
            let parsed = decode_json(entry.1.as_str());
            proof {
                let t = pv.take(i + 1);
                assert(t.last() == (entry.0@, entry.1@));
                assert(t.drop_last() =~= pv.take(i as int));
            }
            match parsed {
                Some(v) => {
                    let ghost prev = entries_view(out@);
                    let k = entry.0.clone();
                    let ghost kv = k@;
                    let ghost vv = v@;
                    out.push((k, v));
                    proof {
                        assert(entries_view(out@) =~= prev.push((kv, vv)));
                    }
                },
                None => {
                    proof {
                        assert(decode_entries(pv, text@.len()) is None) by {
                            lemma_decode_entries_prefix_none(pv, text@.len(), i + 1);
                        }
                    }
                    return None;
                },
            }
            i = i + 1;
        }
        proof {
            assert(pv.take(es.len() as int) =~= pv);
            lemma_object_view(out);
            let ev = entries_view(out@);
            assert(entries_sorted(ev)) by {
                assert forall|a: int, b: int| 0 <= a < b < ev.len() implies chars_lt(
                    #[trigger] ev[a].0,
                    #[trigger] ev[b].0,
                ) by {
                    assert(ev[a].0 == es[a].0@);
                    assert(ev[b].0 == es[b].0@);
                }
            }
            assert forall|m: int| 0 <= m < ev.len() implies json_wf(#[trigger] ev[m].1) by {
                assert(ev[m].1 == out[m].1@);
            }
        }
        return Some(JsonValue::Object(out));
    }
    None
}

proof fn lemma_decode_items_prefix_none(items: Seq<Seq<char>>, bound: nat, n: int)
    requires
        0 < n <= items.len(),
        decode_items(items.take(n), bound) is None,
    ensures
        decode_items(items, bound) is None,
    decreases items.len() - n,
{
    if n < items.len() {
        let t = items.take(n + 1);
        assert(t.drop_last() =~= items.take(n));
        lemma_decode_items_prefix_none(items, bound, n + 1);
    } else {
        assert(items.take(n) =~= items);
    }
}

proof fn lemma_decode_entries_prefix_none(es: Seq<(Seq<char>, Seq<char>)>, bound: nat, n: int)
    requires
        0 < n <= es.len(),
        decode_entries(es.take(n), bound) is None,
    ensures
        decode_entries(es, bound) is None,
    decreases es.len() - n,
{
    if n < es.len() {
        let t = es.take(n + 1);
        assert(t.drop_last() =~= es.take(n));
        lemma_decode_entries_prefix_none(es, bound, n + 1);
    } else {
        assert(es.take(n) =~= es);
    }
}

} // verus!
