use std::collections::BTreeMap;

use vstd::prelude::*;

use crate::json::{chars_lt, lemma_chars_lt_irreflexive, lemma_chars_lt_transitive, str_lt};
use crate::request::{has_header, headers_unique, lemma_unique_cons};
use crate::url::pairs_of;

verus! {

broadcast use vstd::string::group_string_axioms;

// ---------------------------------------------------------------------
// JSON text of strings and of string maps
// ---------------------------------------------------------------------
/// A lower-case hexadecimal digit.
pub open spec fn hex_digit(d: int) -> char {
    if d < 10 {
        (48 + d) as char
    } else {
        (87 + d) as char
    }
}

/// A character as it stands inside a JSON string: `"` and `\` after a
/// backslash; backspace, tab, line feed, form feed and carriage return as
/// `\b`, `\t`, `\n`, `\f`, `\r`; any other character below U+0020 as `\u00`
/// and two lower-case hex digits; every other character as it is.
pub open spec fn char_escape(c: char) -> Seq<char> {
    if c == '"' {
        seq!['\\', '"']
    } else if c == '\\' {
        seq!['\\', '\\']
    } else if c == '\u{8}' {
        seq!['\\', 'b']
    } else if c == '\t' {
        seq!['\\', 't']
    } else if c == '\n' {
        seq!['\\', 'n']
    } else if c == '\u{c}' {
        seq!['\\', 'f']
    } else if c == '\r' {
        seq!['\\', 'r']
    } else if (c as int) < 32 {
        seq!['\\', 'u', '0', '0', hex_digit((c as int) / 16), hex_digit((c as int) % 16)]
    } else {
        seq![c]
    }
}

/// The characters of a text, each as it stands inside a JSON string.
pub open spec fn escaped_chars(s: Seq<char>) -> Seq<char>
    decreases s.len(),
{
    if s.len() == 0 {
        Seq::empty()
    } else {
        escaped_chars(s.drop_last()) + char_escape(s.last())
    }
}

/// A text written as a JSON string.
pub open spec fn json_string_text(s: Seq<char>) -> Seq<char> {
    seq!['"'] + escaped_chars(s) + seq!['"']
}

/// A field of a JSON object: its key and its string value, with `:` between.
pub open spec fn entry_text(e: (Seq<char>, Seq<char>)) -> Seq<char> {
    json_string_text(e.0) + seq![':'] + json_string_text(e.1)
}

/// Fields of a JSON object, with `,` between them.
pub open spec fn entries_text(es: Seq<(Seq<char>, Seq<char>)>) -> Seq<char>
    decreases es.len(),
{
    if es.len() == 0 {
        Seq::empty()
    } else if es.len() == 1 {
        entry_text(es[0])
    } else {
        entries_text(es.drop_last()) + seq![','] + entry_text(es.last())
    }
}

/// The compact JSON text of an object whose fields are the entries, in
/// their order: `{"k":"v",...}`.
pub open spec fn json_object_text(es: Seq<(Seq<char>, Seq<char>)>) -> Seq<char> {
    seq!['{'] + entries_text(es) + seq!['}']
}

// ---------------------------------------------------------------------
// Entries in key order
// ---------------------------------------------------------------------
/// Whether entries are in the order of their keys.
pub open spec fn pairs_sorted(es: Seq<(Seq<char>, Seq<char>)>) -> bool {
    forall|i: int, j: int| 0 <= i < j < es.len() ==> !chars_lt(#[trigger] es[j].0, #[trigger] es[i].0)
}

/// An entry put among entries in key order: before the first entry whose
/// key comes after its own.
pub open spec fn sorted_insert(
    s: Seq<(Seq<char>, Seq<char>)>,
    x: (Seq<char>, Seq<char>),
) -> Seq<(Seq<char>, Seq<char>)>
    decreases s.len(),
{
    if s.len() == 0 {
        seq![x]
    } else if chars_lt(x.0, s[0].0) {
        seq![x] + s
    } else {
        seq![s[0]] + sorted_insert(s.drop_first(), x)
    }
}

/// Entries in the order of their keys, entries of equal keys in the order
/// they were given.
pub open spec fn sorted_pairs(es: Seq<(Seq<char>, Seq<char>)>) -> Seq<(Seq<char>, Seq<char>)>
    decreases es.len(),
{
    if es.len() == 0 {
        es
    } else {
        sorted_insert(sorted_pairs(es.drop_last()), es.last())
    }
}

proof fn lemma_has_header_cons(x: (Seq<char>, Seq<char>), rest: Seq<(Seq<char>, Seq<char>)>)
    ensures
        forall|k: Seq<char>| #[trigger]
            has_header(seq![x] + rest, k) <==> (k == x.0 || has_header(rest, k)),
{
    let s = seq![x] + rest;
    assert forall|k: Seq<char>| #[trigger] has_header(s, k) <==> (k == x.0 || has_header(rest, k)) by {
        if has_header(s, k) && k != x.0 {
            let i = choose|i: int| 0 <= i < s.len() && (#[trigger] s[i]).0 == k;
            assert(rest[i - 1] == s[i]);
        }
        if has_header(rest, k) {
            let i = choose|i: int| 0 <= i < rest.len() && (#[trigger] rest[i]).0 == k;
            assert(s[i + 1] == rest[i]);
        }
        if k == x.0 {
            assert(s[0].0 == k);
        }
    }
}

proof fn lemma_has_header_push(s: Seq<(Seq<char>, Seq<char>)>, x: (Seq<char>, Seq<char>))
    ensures
        forall|k: Seq<char>| #[trigger] has_header(s.push(x), k) <==> (k == x.0 || has_header(s, k)),
        headers_unique(s.push(x)) <==> (headers_unique(s) && !has_header(s, x.0)),
{
    let t = s.push(x);
    assert forall|k: Seq<char>| #[trigger] has_header(t, k) <==> (k == x.0 || has_header(s, k)) by {
        if has_header(t, k) && k != x.0 {
            let i = choose|i: int| 0 <= i < t.len() && (#[trigger] t[i]).0 == k;
            assert(s[i] == t[i]);
        }
        if has_header(s, k) {
            let i = choose|i: int| 0 <= i < s.len() && (#[trigger] s[i]).0 == k;
            assert(t[i] == s[i]);
        }
        if k == x.0 {
            assert(t[s.len() as int].0 == k);
        }
    }
    if headers_unique(t) {
        assert forall|i: int, j: int| 0 <= i < j < s.len() implies (#[trigger] s[i]).0
            != (#[trigger] s[j]).0 by {
            assert(t[i] == s[i] && t[j] == s[j]);
        }
        if has_header(s, x.0) {
            let i = choose|i: int| 0 <= i < s.len() && (#[trigger] s[i]).0 == x.0;
            assert(t[i] == s[i] && t[s.len() as int] == x);
        }
    }
    if headers_unique(s) && !has_header(s, x.0) {
        assert forall|i: int, j: int| 0 <= i < j < t.len() implies (#[trigger] t[i]).0
            != (#[trigger] t[j]).0 by {
            assert(t[i] == s[i]);
            if j < s.len() {
                assert(t[j] == s[j]);
            }
        }
    }
}

/// Putting an entry among entries in key order keeps them in order, names
/// the keys they named and the entry's, and keeps the keys apart where the
/// entry's key was new.
proof fn lemma_sorted_insert(s: Seq<(Seq<char>, Seq<char>)>, x: (Seq<char>, Seq<char>))
    ensures
        forall|k: Seq<char>| #[trigger]
            has_header(sorted_insert(s, x), k) <==> (k == x.0 || has_header(s, k)),
        pairs_sorted(s) ==> pairs_sorted(sorted_insert(s, x)),
        headers_unique(s) && !has_header(s, x.0) ==> headers_unique(sorted_insert(s, x)),
    decreases s.len(),
{
    let r = sorted_insert(s, x);
    let e = Seq::<(Seq<char>, Seq<char>)>::empty();
    if s.len() == 0 {
        assert(r == seq![x] + e);
        assert(s =~= e);
        lemma_has_header_cons(x, e);
        lemma_unique_cons(x, e);
    } else {
        let rest = s.drop_first();
        assert(s =~= seq![s[0]] + rest);
        lemma_has_header_cons(s[0], rest);
        lemma_unique_cons(s[0], rest);
        if chars_lt(x.0, s[0].0) {
            assert(r == seq![x] + s);
            lemma_has_header_cons(x, s);
            lemma_unique_cons(x, s);
            if pairs_sorted(s) {
                assert forall|i: int, j: int| 0 <= i < j < r.len() implies !chars_lt(
                    #[trigger] r[j].0,
                    #[trigger] r[i].0,
                ) by {
                    if i == 0 {
                        assert(r[j] == s[j - 1]);
                        if chars_lt(s[j - 1].0, x.0) {
                            lemma_chars_lt_transitive(s[j - 1].0, x.0, s[0].0);
                            if j - 1 == 0 {
                                lemma_chars_lt_irreflexive(s[0].0);
                            }
                        }
                    } else {
                        assert(r[i] == s[i - 1] && r[j] == s[j - 1]);
                    }
                }
            }
        } else {
            let t = sorted_insert(rest, x);
            lemma_sorted_insert(rest, x);
            assert(r == seq![s[0]] + t);
            lemma_has_header_cons(s[0], t);
            lemma_unique_cons(s[0], t);
            if pairs_sorted(s) {
                assert(pairs_sorted(rest)) by {
                    assert forall|i: int, j: int| 0 <= i < j < rest.len() implies !chars_lt(
                        #[trigger] rest[j].0,
                        #[trigger] rest[i].0,
                    ) by {
                        assert(rest[i] == s[i + 1] && rest[j] == s[j + 1]);
                    }
                }
                assert forall|i: int, j: int| 0 <= i < j < r.len() implies !chars_lt(
                    #[trigger] r[j].0,
                    #[trigger] r[i].0,
                ) by {
                    if i == 0 {
                        assert(r[j] == t[j - 1]);
                        let k = t[j - 1].0;
                        assert(has_header(t, k));
                        if k != x.0 {
                            assert(has_header(rest, k));
                            let m = choose|m: int| 0 <= m < rest.len() && (#[trigger] rest[m]).0 == k;
                            assert(s[m + 1] == rest[m]);
                        }
                    } else {
                        assert(r[i] == t[i - 1] && r[j] == t[j - 1]);
                    }
                }
            }
        }
    }
}

/// Law: entries put in key order stay in order, name the keys they named,
/// and keep keys apart that were apart.
pub proof fn lemma_sorted_pairs(es: Seq<(Seq<char>, Seq<char>)>)
    ensures
        pairs_sorted(sorted_pairs(es)),
        forall|k: Seq<char>| #[trigger] has_header(sorted_pairs(es), k) <==> has_header(es, k),
        headers_unique(es) ==> headers_unique(sorted_pairs(es)),
    decreases es.len(),
{
    if es.len() > 0 {
        let init = es.drop_last();
        lemma_sorted_pairs(init);
        lemma_sorted_insert(sorted_pairs(init), es.last());
        assert(es =~= init.push(es.last()));
        lemma_has_header_push(init, es.last());
    }
}

proof fn lemma_sorted_insert_split(
    s: Seq<(Seq<char>, Seq<char>)>,
    x: (Seq<char>, Seq<char>),
    p: int,
)
    requires
        0 <= p <= s.len(),
        forall|k: int| 0 <= k < p ==> !chars_lt(x.0, #[trigger] s[k].0),
        p < s.len() ==> chars_lt(x.0, s[p].0),
    ensures
        sorted_insert(s, x) == s.insert(p, x),
    decreases p,
{
    if p == 0 {
        if s.len() == 0 {
            assert(s.insert(0, x) =~= seq![x]);
        } else {
            assert(s.insert(0, x) =~= seq![x] + s);
        }
    } else {
        let rest = s.drop_first();
        assert forall|k: int| 0 <= k < p - 1 implies !chars_lt(x.0, #[trigger] rest[k].0) by {
            assert(rest[k] == s[k + 1]);
        }
        assert(!chars_lt(x.0, s[0].0));
        lemma_sorted_insert_split(rest, x, p - 1);
        assert(seq![s[0]] + rest.insert(p - 1, x) =~= s.insert(p, x));
    }
}

/// Puts entries in the order of their keys, entries of equal keys in the
/// order they were given.
pub fn sort_pairs(v: &Vec<(String, String)>) -> (r: Vec<(String, String)>)
    ensures
        pairs_of(r@) == sorted_pairs(pairs_of(v@)),
{
    let ghost es = pairs_of(v@);
    let mut out: Vec<(String, String)> = Vec::new();
    let mut i: usize = 0;
    assert(es.take(0) =~= Seq::<(Seq<char>, Seq<char>)>::empty());
    assert(pairs_of(out@) =~= Seq::<(Seq<char>, Seq<char>)>::empty());
    while i < v.len()
        invariant
            i <= v.len(),
            es == pairs_of(v@),
            pairs_of(out@) == sorted_pairs(es.take(i as int)),
        decreases v.len() - i,
    {
        let ghost before = pairs_of(out@);
        let x = (v[i].0.clone(), v[i].1.clone());
        let ghost xv = (x.0@, x.1@);
        assert(xv == es[i as int]);
        let mut p: usize = 0;
        while p < out.len() && !str_lt(x.0.as_str(), out[p].0.as_str())
            invariant
                p <= out.len(),
                before == pairs_of(out@),
                xv == (x.0@, x.1@),
                forall|k: int| 0 <= k < p ==> !chars_lt(xv.0, #[trigger] before[k].0),
            decreases out.len() - p,
        {
            p = p + 1;
        }
        proof {
            lemma_sorted_insert_split(before, xv, p as int);
            assert(es.take(i + 1).drop_last() =~= es.take(i as int));
            assert(es.take(i + 1).last() == xv);
        }
        out.insert(p, x);
        assert(pairs_of(out@) =~= before.insert(p as int, xv));
        i = i + 1;
    }
    assert(es.take(v.len() as int) =~= es);
    out
}

/// Calls `serde_json::to_string` on the `BTreeMap<String, String>` of the
/// entries. The entries come in key order, each key once, which is the
/// order in which the map hands them to serde_json; serde_json writes a
/// map of string keys to string values in compact form, each key and value
/// as a JSON string, and this does not fail.
#[verifier::external_body]
pub fn string_map_to_json(entries: &Vec<(String, String)>) -> (r: String)
    requires
        pairs_sorted(pairs_of(entries@)),
        headers_unique(pairs_of(entries@)),
    ensures
        r@ == json_object_text(pairs_of(entries@)),
{
    let map: BTreeMap<String, String> = entries.iter().cloned().collect();
    serde_json::to_string(&map).unwrap_or_default()
}

} // verus!
