use vstd::prelude::*;

use crate::json::{chars_lt, lemma_chars_lt_asymmetric, lemma_chars_lt_transitive, str_lt, strings_view};
use crate::output::{lines_view, Line, LineModel, BREAK_LINE, TAB_SPACE};
use crate::style::{plain, styled_view, Color, StyledModel, StyledStr};

verus! {

broadcast use vstd::string::group_string_axioms;

/// Whether names are in order: no name comes before a name it follows.
pub open spec fn names_sorted(v: Seq<Seq<char>>) -> bool {
    forall|i: int, j: int| 0 <= i < j < v.len() ==> !chars_lt(#[trigger] v[j], #[trigger] v[i])
}

/// The names in order, each name kept as often as it was given.
pub fn sort_request_names(names: Vec<String>) -> (r: Vec<String>)
    ensures
        names_sorted(strings_view(r@)),
        strings_view(r@).to_multiset() == strings_view(names@).to_multiset(),
{
    let ghost input = strings_view(names@);
    let mut out: Vec<String> = Vec::new();
    proof {
        assert(input.take(0) =~= Seq::<Seq<char>>::empty());
        assert(strings_view(out@) =~= Seq::<Seq<char>>::empty());
    }
    let mut i: usize = 0;
    while i < names.len()
        invariant
            i <= names.len(),
            input == strings_view(names@),
            names_sorted(strings_view(out@)),
            strings_view(out@).to_multiset() == input.take(i as int).to_multiset(),
        decreases names.len() - i,
    {
        let x = names[i].clone();
        let ghost before = strings_view(out@);
        let mut p: usize = 0;
        while p < out.len() && !str_lt(x.as_str(), out[p].as_str())
            invariant
                p <= out.len(),
                before == strings_view(out@),
                forall|k: int| 0 <= k < p ==> !chars_lt(x@, #[trigger] before[k]),
            decreases out.len() - p,
        {
            p = p + 1;
        }
        let ghost xv = x@;
        out.insert(p, x);
        proof {
            let after = strings_view(out@);
            assert(after =~= before.insert(p as int, xv));
            assert forall|a: int, b: int| 0 <= a < b < after.len() implies !chars_lt(
                #[trigger] after[b],
                #[trigger] after[a],
            ) by {
                if b < p {
                    assert(after[a] == before[a] && after[b] == before[b]);
                } else if b == p {
                    assert(after[a] == before[a]);
                } else if a > p {
                    assert(after[a] == before[a - 1] && after[b] == before[b - 1]);
                } else if a == p {
                    assert(after[b] == before[b - 1]);
                    assert(chars_lt(xv, before[p as int]));
                    if chars_lt(after[b], xv) {
                        if b - 1 == p {
                            lemma_chars_lt_asymmetric(xv, before[p as int]);
                        } else {
                            lemma_chars_lt_transitive(before[b - 1], xv, before[p as int]);
                        }
                    }
                } else {
                    assert(after[a] == before[a] && after[b] == before[b - 1]);
                }
            }
            assert(input.take(i + 1) =~= input.take(i as int).push(input[i as int]));
            assert(input[i as int] == xv);
            vstd::seq_lib::to_multiset_insert(before, p as int, xv);
            vstd::seq_lib::to_multiset_build(input.take(i as int), xv);
        }
        i = i + 1;
    }
    proof {
        assert(input.take(names.len() as int) =~= input);
    }
    out
}

/// The listing of saved requests: a yellow title and one indented line
/// per name, in order.
pub open spec fn listing_model(names: Seq<Seq<char>>) -> Seq<LineModel> {
    seq![
        LineModel::Text(BREAK_LINE@),
        LineModel::Styled(seq![StyledModel { color_text: Some(Color::Yellow), ..plain(" Requests"@) }]),
    ] + names.map_values(|n: Seq<char>| LineModel::Styled(seq![plain(TAB_SPACE@), plain(n)]))
}

/// The listing of saved requests.
pub fn listing_lines<'a>(names: &'a Vec<String>) -> (r: Vec<Line<'a>>)
    ensures
        lines_view(r@) == listing_model(strings_view(names@)),
{
    let ghost ns = strings_view(names@);
    let mut out: Vec<Line<'a>> = Vec::new();
    out.push(Line::Text(BREAK_LINE));
    let title = vec![StyledStr::from(" Requests").with_color_text(Color::Yellow)];
    assert(styled_view(title@) =~= seq![
        StyledModel { color_text: Some(Color::Yellow), ..plain(" Requests"@) },
    ]);
    out.push(Line::Styled(title));
    let ghost head = lines_view(out@);
    let mut i: usize = 0;
    while i < names.len()
        invariant
            i <= names.len(),
            ns == strings_view(names@),
            head.len() == 2,
            head == seq![
                LineModel::Text(BREAK_LINE@),
                LineModel::Styled(
                    seq![StyledModel { color_text: Some(Color::Yellow), ..plain(" Requests"@) }],
                ),
            ],
            lines_view(out@) == head + ns.take(i as int).map_values(
                |n: Seq<char>| LineModel::Styled(seq![plain(TAB_SPACE@), plain(n)]),
            ),
        decreases names.len() - i,
    {
        let pieces = vec![StyledStr::from(TAB_SPACE), StyledStr::from(names[i].as_str())];
        let line = Line::Styled(pieces);
        let ghost prev = out@;
        out.push(line);
        proof {
            assert(styled_view(pieces@) =~= seq![plain(TAB_SPACE@), plain(ns[i as int])]);
            assert(lines_view(out@) =~= lines_view(prev).push(line@));
            assert(ns.take(i + 1) =~= ns.take(i as int).push(ns[i as int]));
            assert(ns.take(i + 1).map_values(
                |n: Seq<char>| LineModel::Styled(seq![plain(TAB_SPACE@), plain(n)]),
            ) =~= ns.take(i as int).map_values(
                |n: Seq<char>| LineModel::Styled(seq![plain(TAB_SPACE@), plain(n)]),
            ).push(LineModel::Styled(seq![plain(TAB_SPACE@), plain(ns[i as int])])));
        }
        i = i + 1;
    }
    proof {
        assert(ns.take(names.len() as int) =~= ns);
        assert(lines_view(out@) =~= listing_model(ns));
    }
    out
}

/// What the listing of saved requests shows: a notice where there are
/// none, else the listing.
pub open spec fn request_list_model(names: Seq<Seq<char>>) -> Seq<LineModel> {
    if names.len() == 0 {
        seq![
            LineModel::Text(BREAK_LINE@),
            LineModel::Styled(seq![plain(" No requests found"@)]),
            LineModel::Text(BREAK_LINE@),
        ]
    } else {
        listing_model(names)
    }
}

/// What the listing of saved requests shows.
pub fn request_list_lines<'a>(names: &'a Vec<String>) -> (r: Vec<Line<'a>>)
    ensures
        lines_view(r@) == request_list_model(strings_view(names@)),
{
    if names.len() == 0 {
        let notice = vec![StyledStr::from(" No requests found")];
        assert(styled_view(notice@) =~= seq![plain(" No requests found"@)]);
        let r = vec![Line::Text(BREAK_LINE), Line::Styled(notice), Line::Text(BREAK_LINE)];
        assert(lines_view(r@) =~= request_list_model(strings_view(names@)));
        return r;
    }
    listing_lines(names)
}

} // verus!
