//! The widget styles that the preview offers.

use crate::text::lex_lt;
use itertools::Itertools;
use vstd::prelude::*;

verus! {

/// Those of the first `count` available styles that the preview offers:
/// all but `qt`, and `qt` too where the native style can be had.
pub open spec fn offered_styles(
    available: Seq<Seq<char>>,
    has_native_style: bool,
    count: int,
) -> Seq<Seq<char>>
    decreases count,
{
    if count <= 0 {
        Seq::empty()
    } else if available[count - 1] != "qt"@ || has_native_style {
        offered_styles(available, has_native_style, count - 1).push(available[count - 1])
    } else {
        offered_styles(available, has_native_style, count - 1)
    }
}

/// The styles that the preview knows, before they are sorted: `native`,
/// and those of the available styles that it offers.
pub open spec fn style_candidates(available: Seq<Seq<char>>, has_native_style: bool) -> Seq<
    Seq<char>,
> {
    seq!["native"@] + offered_styles(available, has_native_style, available.len() as int)
}

/// Whether `styles` is a list of the candidates in ascending order: it
/// holds what the candidates hold, each as often, and no style stands
/// before one that sorts before it.
pub open spec fn is_sorted_list_of(styles: Seq<Seq<char>>, candidates: Seq<Seq<char>>) -> bool {
    &&& styles.to_multiset() == candidates.to_multiset()
    &&& forall|a: int, b: int|
        0 <= a < b < styles.len() ==> !lex_lt(#[trigger] styles[b], #[trigger] styles[a])
}

/// The style that is shown for a requested one: the requested style where
/// it is one of the candidates, and `native` otherwise.
pub open spec fn chosen_style(style: Seq<char>, candidates: Seq<Seq<char>>) -> Seq<char> {
    if candidates.contains(style) {
        style
    } else {
        "native"@
    }
}

/// `Itertools::sorted`, collected into a vector: the documentation says
/// that it sorts all elements in ascending order, with the standard
/// library's stable sort. The elements are strings, which the standard
/// library orders lexicographically by bytes, and so by code point. The
/// contract states that the result holds the same texts, each as often as
/// before, and that none stands before one that sorts before it.
#[verifier::external_body]
pub(crate) fn sort_styles(styles: Vec<String>) -> (sorted: Vec<String>)
    ensures
        is_sorted_list_of(sorted.deep_view(), styles.deep_view()),
{
    styles.into_iter().sorted().collect()
}

/// `fileaccess::styles` of `i_slint_compiler`: the names of the widget
/// styles that the compiler was built with. Nothing is claimed of them.
#[verifier::external_body]
pub(crate) fn builtin_styles() -> (styles: Vec<String>) {
    i_slint_compiler::fileaccess::styles().into_iter().map(|s| s.to_string()).collect()
}

/// `HAS_NATIVE_STYLE` of `i_slint_backend_selector`: whether the build
/// has the native style. Nothing is claimed of it.
#[verifier::external_body]
pub(crate) fn has_native_style() -> (r: bool) {
    i_slint_backend_selector::HAS_NATIVE_STYLE
}

/// Makes the sorted list of the styles that the preview knows.
pub fn known_styles(available: &Vec<String>, has_native_style: bool) -> (styles: Vec<String>)
    ensures
        is_sorted_list_of(
            styles.deep_view(),
            style_candidates(available.deep_view(), has_native_style),
        ),
{
    let mut candidates: Vec<String> = Vec::new();
    candidates.push(String::from_str("native"));
    let qt = String::from_str("qt");
    let ghost first = candidates.deep_view();
    assert(first =~= seq!["native"@]);
    let mut i: usize = 0;
    while i < available.len()
        invariant
            i <= available.len(),
            qt@ == "qt"@,
            candidates.deep_view() == first + offered_styles(
                available.deep_view(),
                has_native_style,
                i as int,
            ),
        decreases available.len() - i,
    {
        let ghost before = candidates.deep_view();
        if available[i] != qt || has_native_style {
            candidates.push(available[i].clone());
            assert(candidates.deep_view() =~= before.push(available.deep_view()[i as int]));
        }
        i += 1;
        assert(candidates.deep_view() =~= first + offered_styles(
            available.deep_view(),
            has_native_style,
            i as int,
        ));
    }
    sort_styles(candidates)
}

/// Picks the style that is shown for a requested one from the sorted list
/// of the known styles.
pub fn choose_style(style: String, known_styles: &Vec<String>) -> (chosen: String)
    ensures
        chosen@ == chosen_style(style@, known_styles.deep_view()),
{
    let mut i: usize = 0;
    while i < known_styles.len()
        invariant
            i <= known_styles.len(),
            forall|j: int| 0 <= j < i ==> known_styles.deep_view()[j] != style@,
        decreases known_styles.len() - i,
    {
        if known_styles[i] == style {
            assert(known_styles.deep_view()[i as int] == style@);
            return style;
        }
        i += 1;
    }
    String::from_str("native")
}

/// A sorted list of candidates holds a style exactly where the candidates
/// hold it, and is as long as they are.
pub proof fn lemma_sorted_list_has_the_candidates(
    styles: Seq<Seq<char>>,
    candidates: Seq<Seq<char>>,
    style: Seq<char>,
)
    requires
        is_sorted_list_of(styles, candidates),
    ensures
        styles.contains(style) == candidates.contains(style),
        styles.len() == candidates.len(),
        chosen_style(style, styles) == chosen_style(style, candidates),
{
    vstd::seq_lib::to_multiset_contains(styles, style);
    vstd::seq_lib::to_multiset_contains(candidates, style);
    vstd::seq_lib::to_multiset_len(styles);
    vstd::seq_lib::to_multiset_len(candidates);
}

} // verus!
