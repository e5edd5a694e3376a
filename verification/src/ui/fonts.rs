//! Choosing the font of the terminal.

use vstd::prelude::*;
use vstd::string::*;

use crate::config::settings::{texts, DEFAULT_FONT_FAMILY};
use crate::text::{
    ascii_case_equal, blank, law_trimming_cuts_white_space_alone, same_text_ignoring_ascii_case, trim,
    trimmed,
};

verus! {

/// The font that is used, and whether it stands in for another one.
#[derive(Clone, Debug, Eq, PartialEq)]
pub struct FontResolution {
    pub family: String,
    pub used_fallback: bool,
}

/// The first of `families` at or after `from` that goes by the name `requested`, whatever its
/// capitals.
pub open spec fn matching_family(
    families: Seq<Seq<char>>,
    requested: Seq<char>,
    from: int,
) -> Option<Seq<char>>
    decreases families.len() - from,
{
    if from < 0 || from >= families.len() {
        None
    } else if ascii_case_equal(families[from], requested) {
        Some(families[from])
    } else {
        matching_family(families, requested, from + 1)
    }
}

/// The font that is used where the user asks for `requested` and `families` are installed: the
/// one that was asked for, by the name under which it is installed, else the bundled one.
pub open spec fn resolution(requested: Seq<char>, families: Seq<Seq<char>>) -> (Seq<char>, bool) {
    let name = trimmed(requested);
    let found = if name.len() == 0 {
        None
    } else {
        matching_family(families, name, 0)
    };
    match found {
        Some(family) => (family, false),
        None => (DEFAULT_FONT_FAMILY@, true),
    }
}

/// The font that is used where the user asks for `requested` and `families` are installed.
#[must_use]
pub fn resolve_font_family(requested: &str, families: &Vec<String>) -> (res: FontResolution)
    ensures
        (res.family@, res.used_fallback) == resolution(requested@, texts(families@)),
{
    let name = trim(requested);
    let ghost views = texts(families@);
    if !name.is_empty() {
        let mut i: usize = 0;
        while i < families.len()
            invariant
                i <= families.len(),
                views == texts(families@),
                name@ == trimmed(requested@),
                name@.len() > 0,
                matching_family(views, name@, 0) == matching_family(views, name@, i as int),
            decreases families.len() - i,
        {
            assert(views[i as int] == families@[i as int]@);
            if same_text_ignoring_ascii_case(families[i].as_str(), name) {
                return FontResolution { family: families[i].clone(), used_fallback: false };
            }
            i = i + 1;
        }
    }
    FontResolution { family: DEFAULT_FONT_FAMILY.to_owned(), used_fallback: true }
}

/// A font that is not installed is stood in for by the bundled one, and the resolution says so.
pub proof fn law_missing_font_falls_back_visibly(requested: Seq<char>, families: Seq<Seq<char>>)
    requires
        forall|i: int|
            0 <= i < families.len() ==> !ascii_case_equal(#[trigger] families[i], trimmed(requested)),
    ensures
        resolution(requested, families) == (DEFAULT_FONT_FAMILY@, true),
{
    lemma_no_match(families, trimmed(requested), 0);
}

proof fn lemma_no_match(families: Seq<Seq<char>>, requested: Seq<char>, from: int)
    requires
        forall|i: int|
            0 <= i < families.len() ==> !ascii_case_equal(#[trigger] families[i], requested),
    ensures
        matching_family(families, requested, from) is None,
    decreases families.len() - from,
{
    if 0 <= from < families.len() {
        lemma_no_match(families, requested, from + 1);
    }
}

/// An installed font that goes by the name that was asked for is used, under the name by which it is
/// installed; of several the first. No font stands in for it.
pub proof fn law_installed_font_is_used(requested: Seq<char>, families: Seq<Seq<char>>, place: int)
    requires
        0 <= place < families.len(),
        trimmed(requested).len() > 0,
        ascii_case_equal(families[place], trimmed(requested)),
        forall|i: int|
            0 <= i < place ==> !ascii_case_equal(#[trigger] families[i], trimmed(requested)),
    ensures
        resolution(requested, families) == (families[place], false),
{
    lemma_first_match(families, trimmed(requested), 0, place);
}

proof fn lemma_first_match(families: Seq<Seq<char>>, requested: Seq<char>, from: int, place: int)
    requires
        0 <= from <= place < families.len(),
        ascii_case_equal(families[place], requested),
        forall|i: int| from <= i < place ==> !ascii_case_equal(#[trigger] families[i], requested),
    ensures
        matching_family(families, requested, from) == Some(families[place]),
    decreases place - from,
{
    if from < place {
        lemma_first_match(families, requested, from + 1, place);
    }
}

/// Where no font is asked for the bundled one is used, and stands in for nothing else that might be
/// installed.
pub proof fn law_bundled_font_is_the_default(requested: Seq<char>, families: Seq<Seq<char>>)
    requires
        blank(requested),
    ensures
        resolution(requested, families) == (DEFAULT_FONT_FAMILY@, true),
{
    law_trimming_cuts_white_space_alone(requested);
}

} // verus!
