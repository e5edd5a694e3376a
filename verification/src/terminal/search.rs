//! Searching the whole buffer for a literal text.

use regex::{Regex, RegexBuilder};
use vstd::prelude::*;
use vstd::string::*;
use vstd::utf8::*;

use crate::terminal::emulator::{
    display_offset, emulator_state, grid_cell_views, moved_state, read_row, screen_lines,
    scroll_display, total_lines, Emulator, EmulatorState, GridCell, GridCellView, TermContent,
};
use crate::terminal::frame::{flagged, FLAG_WIDE_CHAR_SPACER};
use crate::terminal::types::{
    BufferPoint, BufferRange, CellPoint, CellRange, SearchDirection, SearchResult, SearchView,
};
use crate::text::{byte_offset, lemma_byte_offset_increases};

verus! {

/// A compiled search, `regex::Regex`.
#[verifier::external_type_specification]
#[verifier::external_body]
pub struct ExRegex(Regex);

/// The text that a compiled search looks for, and which characters answer to one another besides
/// being the same.
#[verifier::ext_equal]
pub struct Needle {
    pub text: Seq<char>,
    pub variants: spec_fn(char, char) -> bool,
}

/// What `regex` was compiled from, where it was compiled from a literal text.
pub uninterp spec fn regex_needle(regex: Regex) -> Option<Needle>;

/// Whether a search that ignores case takes the two characters for the same: they agree under
/// Unicode's simple case folding, as `RegexBuilder::case_insensitive` applies it.
pub uninterp spec fn case_variants(a: char, b: char) -> bool;

/// What is looked for when `query` is searched for: its characters, or where capitals make no
/// difference any variants of them.
pub open spec fn needle_of(query: Seq<char>, case_sensitive: bool) -> Needle {
    Needle {
        text: query,
        variants: |a: char, b: char| !case_sensitive && case_variants(a, b),
    }
}

/// Whether the character `b` of the searched text answers to `a`.
pub open spec fn same_letter(needle: Needle, a: char, b: char) -> bool {
    a == b || (needle.variants)(a, b)
}

/// Whether the needle stands at `at` in `text`.
pub open spec fn occurs_at(text: Seq<char>, needle: Needle, at: int) -> bool {
    &&& 0 <= at
    &&& at + needle.text.len() <= text.len()
    &&& forall|i: int|
        0 <= i < needle.text.len() ==> same_letter(
            needle,
            #[trigger] needle.text[i],
            text[at + i],
        )
}

/// The places at or after `from` at which the needle stands in `text`, from left to right and
/// without overlaps: after each occurrence the search goes on behind it.
pub open spec fn occurrences(text: Seq<char>, needle: Needle, from: int) -> Seq<int>
    decreases text.len() - from,
{
    if needle.text.len() == 0 || from < 0 || from + needle.text.len() > text.len() {
        Seq::empty()
    } else if occurs_at(text, needle, from) {
        seq![from] + occurrences(text, needle, from + needle.text.len() as int)
    } else {
        occurrences(text, needle, from + 1)
    }
}

/// The bytes that the needle takes up where it stands at `at` in `text`.
pub open spec fn byte_span(text: Seq<char>, needle: Needle, at: int) -> (usize, usize) {
    (
        byte_offset(text, at) as usize,
        byte_offset(text, at + needle.text.len()) as usize,
    )
}

/// How many characters a text may have that is sure to be found wherever it stands.
pub const SURE_QUERY_CHARACTERS: usize = 1000;

/// Compiles a search for a literal text with `regex::escape` and `regex::RegexBuilder`. The
/// compiled program is limited to ten mebibytes, of which a character takes up a few hundred bytes
/// at most. So a text of ordinary length is always taken; which longer ones are is not said.
#[verifier::external_body]
pub(crate) fn compile_literal(query: &str, case_sensitive: bool) -> (res: Option<Regex>)
    ensures
        res matches Some(regex) ==> regex_needle(regex) == Some(
            (Needle {
                text: query@,
                variants: |a: char, b: char| !case_sensitive && case_variants(a, b),
            }),
        ),
        query@.len() <= SURE_QUERY_CHARACTERS ==> res is Some,
{
    RegexBuilder::new(&regex::escape(query)).case_insensitive(!case_sensitive).build().ok()
}

/// The matches that `Regex::find_iter` yields, as byte offsets of their starts and ends: the
/// leftmost occurrences that do not overlap, each character standing for itself or, where
/// capitals make no difference, for any character with the same simple case folding.
#[verifier::external_body]
fn find_spans(regex: &Regex, text: &str) -> (res: Vec<(usize, usize)>)
    requires
        regex_needle(*regex) matches Some(needle) && needle.text.len() > 0,
    ensures
        res@ == occurrences(text@, regex_needle(*regex).unwrap(), 0).map_values(
            |at: int| byte_span(text@, regex_needle(*regex).unwrap(), at),
        ),
{
    regex.find_iter(text).map(|found| (found.start(), found.end())).collect()
}

/// The characters of a row that can be searched, each with the column of its cell. The second
/// half of a wide character holds none.
pub open spec fn searchable(cells: Seq<GridCellView>) -> Seq<(char, usize)>
    decreases cells.len(),
{
    if cells.len() == 0 {
        Seq::empty()
    } else {
        let before = searchable(cells.drop_last());
        let cell = cells.last();
        let column = (cells.len() - 1) as usize;
        if flagged(cell.flags, FLAG_WIDE_CHAR_SPACER) {
            before
        } else {
            before.push((cell.character, column)) + cell.zero_width.map_values(
                |c: char| (c, column),
            )
        }
    }
}

/// The characters of a row that can be searched.
pub open spec fn characters(searchable: Seq<(char, usize)>) -> Seq<char> {
    searchable.map_values(|place: (char, usize)| place.0)
}

/// The cells in which the needle stands, where it starts at the character `at` of a row.
pub open spec fn match_range(
    searchable: Seq<(char, usize)>,
    needle: Needle,
    line: i32,
    at: int,
) -> BufferRange {
    BufferRange {
        start: BufferPoint { line, column: searchable[at].1 },
        end: BufferPoint { line, column: searchable[at + needle.text.len() - 1].1 },
    }
}

/// The matches in one row, from left to right.
pub open spec fn row_matches(cells: Seq<GridCellView>, needle: Needle, line: i32) -> Seq<
    BufferRange,
> {
    let places = searchable(cells);
    occurrences(characters(places), needle, 0).map_values(
        |at: int| match_range(places, needle, line, at),
    )
}

/// The matches in the first `count` rows of the buffer, from the oldest row on.
pub open spec fn buffer_matches(content: TermContent, needle: Needle, count: nat) -> Seq<
    BufferRange,
>
    decreases count,
{
    if count == 0 {
        Seq::empty()
    } else {
        let row = count - 1;
        buffer_matches(content, needle, row as nat) + row_matches(
            content.rows[row],
            needle,
            (row - content.history()) as i32,
        )
    }
}

proof fn lemma_characters_push(places: Seq<(char, usize)>, place: (char, usize))
    ensures
        characters(places.push(place)) == characters(places).push(place.0),
{
    assert(characters(places.push(place)) =~= characters(places).push(place.0));
}

/// Whether `positions` gives, for each of `places`, the byte at which its character stands and
/// the column of its cell.
spec fn indexes(positions: Seq<(usize, usize)>, places: Seq<(char, usize)>) -> bool {
    &&& positions.len() == places.len()
    &&& forall|i: int|
        0 <= i < places.len() ==> (#[trigger] positions[i]).0 == byte_offset(characters(places), i)
            && positions[i].1 == places[i].1
}

proof fn lemma_indexes_push(
    positions: Seq<(usize, usize)>,
    places: Seq<(char, usize)>,
    place: (char, usize),
    byte: usize,
)
    requires
        indexes(positions, places),
        byte == encode_utf8(characters(places)).len(),
    ensures
        indexes(positions.push((byte, place.1)), places.push(place)),
        characters(places.push(place)) == characters(places).push(place.0),
{
    let text = characters(places);
    lemma_characters_push(places, place);
    assert forall|i: int| 0 <= i < places.push(place).len() implies (#[trigger] positions.push(
        (byte, place.1),
    )[i]).0 == byte_offset(text.push(place.0), i) by {
        assert(text.push(place.0).take(i) =~= text.take(i));
        if i == places.len() {
            assert(text.take(i) =~= text);
        }
    }
}

/// Appends a character of the cell at `column` to the searched text.
fn push_searchable(
    text: &mut String,
    positions: &mut Vec<(usize, usize)>,
    character: char,
    column: usize,
    places: Ghost<Seq<(char, usize)>>,
)
    requires
        old(text)@ == characters(places@),
        indexes(old(positions)@, places@),
    ensures
        final(text)@ == characters(places@.push((character, column))),
        indexes(final(positions)@, places@.push((character, column))),
{
    let byte = text.as_str().as_bytes().len();
    proof {
        lemma_indexes_push(positions@, places@, (character, column), byte);
    }
    positions.push((byte, column));
    text.push(character);
}

/// The text of a row that can be searched, with the byte and the column of each character.
fn index_row(cells: &Vec<GridCell>) -> (res: (String, Vec<(usize, usize)>))
    ensures
        res.0@ == characters(searchable(grid_cell_views(cells@))),
        indexes(res.1@, searchable(grid_cell_views(cells@))),
{
    let ghost views = grid_cell_views(cells@);
    let mut text = String::new();
    let mut positions: Vec<(usize, usize)> = Vec::new();
    let mut column: usize = 0;
    assert(text@ =~= characters(searchable(views.take(0))));
    while column < cells.len()
        invariant
            views == grid_cell_views(cells@),
            column <= cells.len(),
            text@ == characters(searchable(views.take(column as int))),
            indexes(positions@, searchable(views.take(column as int))),
        decreases cells.len() - column,
    {
        let cell = &cells[column];
        let ghost before = searchable(views.take(column as int));
        let ghost view = views[column as int];
        proof {
            assert(views.take(column + 1).drop_last() =~= views.take(column as int));
            assert(view == cell@);
        }
        if cell.flags & FLAG_WIDE_CHAR_SPACER != FLAG_WIDE_CHAR_SPACER {
            push_searchable(&mut text, &mut positions, cell.character, column, Ghost(before));
            let ghost first = before.push((cell.character, column));
            let mut i: usize = 0;
            assert(first + view.zero_width.take(0).map_values(|c: char| (c, column)) =~= first);
            while i < cell.zero_width.len()
                invariant
                    i <= cell.zero_width.len(),
                    view.zero_width == cell.zero_width@,
                    text@ == characters(
                        first + view.zero_width.take(i as int).map_values(
                            |c: char| (c, column),
                        ),
                    ),
                    indexes(
                        positions@,
                        first + view.zero_width.take(i as int).map_values(
                            |c: char| (c, column),
                        ),
                    ),
                decreases cell.zero_width.len() - i,
            {
                let character = cell.zero_width[i];
                let ghost places = first + view.zero_width.take(i as int).map_values(
                    |c: char| (c, column),
                );
                push_searchable(&mut text, &mut positions, character, column, Ghost(places));
                assert(places.push((character, column)) =~= first + view.zero_width.take(
                    i + 1,
                ).map_values(|c: char| (c, column)));
                i = i + 1;
            }
            assert(view.zero_width.take(i as int) =~= view.zero_width);
        }
        column = column + 1;
    }
    assert(views.take(column as int) =~= views);
    (text, positions)
}

/// Whether the entry at `index` is the last one at or before `byte`.
spec fn last_at_or_before(positions: Seq<(usize, usize)>, byte: int, index: int) -> bool {
    &&& 0 <= index < positions.len()
    &&& positions[index].0 <= byte
    &&& forall|i: int| index < i < positions.len() ==> (#[trigger] positions[i]).0 > byte
}

/// The column of the last character at or before `byte`.
fn column_at(positions: &Vec<(usize, usize)>, byte: usize) -> (res: Option<usize>)
    ensures
        match res {
            Some(column) => exists|i: int| #[trigger]
                last_at_or_before(positions@, byte as int, i) && positions@[i].1 == column,
            None => forall|i: int|
                0 <= i < positions.len() ==> (#[trigger] positions@[i]).0 > byte,
        },
{
    let mut end: usize = positions.len();
    while end > 0
        invariant
            end <= positions.len(),
            forall|i: int| end <= i < positions.len() ==> (#[trigger] positions@[i]).0 > byte,
        decreases end,
    {
        end = end - 1;
        if positions[end].0 <= byte {
            assert(last_at_or_before(positions@, byte as int, end as int));
            return Some(positions[end].1);
        }
    }
    None
}

/// The needle stands where it is said to occur.
pub proof fn lemma_occurrences(text: Seq<char>, needle: Needle, from: int, k: int)
    requires
        0 <= k < occurrences(text, needle, from).len(),
    ensures
        from <= occurrences(text, needle, from)[k],
        occurs_at(text, needle, occurrences(text, needle, from)[k]),
        needle.text.len() > 0,
    decreases text.len() - from,
{
    if occurs_at(text, needle, from) {
        if k > 0 {
            lemma_occurrences(text, needle, from + needle.text.len() as int, k - 1);
        }
    } else {
        lemma_occurrences(text, needle, from + 1, k);
    }
}

proof fn lemma_place(
    positions: Seq<(usize, usize)>,
    places: Seq<(char, usize)>,
    byte: int,
    at: int,
    found: int,
)
    requires
        indexes(positions, places),
        0 <= at < places.len(),
        byte_offset(characters(places), at) <= byte < byte_offset(characters(places), at + 1),
        last_at_or_before(positions, byte, found),
    ensures
        found == at,
{
    let text = characters(places);
    if found < at {
        assert(positions[at].0 == byte_offset(text, at));
    } else if found > at {
        assert(positions[found].0 == byte_offset(text, found));
        if at + 1 < found {
            lemma_byte_offset_increases(text, at + 1, found);
        }
    }
}

/// Appends the matches in one row.
fn search_row(cells: &Vec<GridCell>, regex: &Regex, line: i32, matches: &mut Vec<BufferRange>)
    requires
        regex_needle(*regex) matches Some(needle) && needle.text.len() > 0,
    ensures
        final(matches)@ == old(matches)@ + row_matches(
            grid_cell_views(cells@),
            regex_needle(*regex).unwrap(),
            line,
        ),
{
    let ghost needle = regex_needle(*regex).unwrap();
    let ghost places = searchable(grid_cell_views(cells@));
    let ghost text_view = characters(places);
    let ghost found_at = occurrences(text_view, needle, 0);
    let ghost before = matches@;
    let (text, positions) = index_row(cells);
    let total = text.as_str().as_bytes().len();
    let spans = find_spans(regex, text.as_str());
    let mut k: usize = 0;
    while k < spans.len()
        invariant
            k <= spans.len(),
            text_view == characters(places),
            found_at == occurrences(text_view, needle, 0),
            total == encode_utf8(text_view).len(),
            spans@ == found_at.map_values(|at: int| byte_span(text_view, needle, at)),
            indexes(positions@, places),
            matches@ == before + found_at.take(k as int).map_values(
                |at: int| match_range(places, needle, line, at),
            ),
        decreases spans.len() - k,
    {
        let ghost at = found_at[k as int];
        let ghost last = at + needle.text.len() - 1;
        proof {
            lemma_occurrences(text_view, needle, 0, k as int);
            lemma_byte_offset_increases(text_view, at, at + needle.text.len());
            lemma_byte_offset_increases(text_view, at, at + 1);
            lemma_byte_offset_increases(text_view, last, last + 1);
            assert(text_view.take(text_view.len() as int) =~= text_view);
            if last + 1 < text_view.len() {
                lemma_byte_offset_increases(text_view, last + 1, text_view.len() as int);
            }
        }
        let span = spans[k];
        assert(span == byte_span(text_view, needle, at));
        let start = match column_at(&positions, span.0) {
            Some(column) => column,
            None => 0,
        };
        let end = match column_at(&positions, span.1 - 1) {
            Some(column) => column,
            None => start,
        };
        proof {
            assert(positions@[at].0 == byte_offset(text_view, at));
            assert(positions@[last].0 == byte_offset(text_view, last));
            assert(start == places[at].1) by {
                let i = choose|i: int| #[trigger]
                    last_at_or_before(positions@, span.0 as int, i) && positions@[i].1 == start;
                lemma_place(positions@, places, span.0 as int, at, i);
            }
            assert(end == places[last].1) by {
                let i = choose|i: int| #[trigger]
                    last_at_or_before(positions@, span.1 - 1, i) && positions@[i].1 == end;
                lemma_place(positions@, places, span.1 - 1, last, i);
            }
        }
        matches.push(
            BufferRange {
                start: BufferPoint { line, column: start },
                end: BufferPoint { line, column: end },
            },
        );
        assert(found_at.take(k + 1) =~= found_at.take(k as int).push(at));
        assert(matches@ =~= before + found_at.take(k + 1).map_values(
            |at: int| match_range(places, needle, line, at),
        ));
        k = k + 1;
    }
    assert(found_at.take(k as int) =~= found_at);
}

/// The matches in the whole buffer, from the oldest row on; none where there is nothing to search
/// with.
pub(crate) fn matches_of(emulator: &Emulator, regex: Option<Regex>) -> (res: Vec<BufferRange>)
    requires
        emulator_state(*emulator).content.well_formed(),
        regex matches Some(regex) ==> (regex_needle(regex) matches Some(needle)
            && needle.text.len() > 0),
    ensures
        res@ == match regex {
            Some(regex) => buffer_matches(
                emulator_state(*emulator).content,
                regex_needle(regex).unwrap(),
                emulator_state(*emulator).content.rows.len(),
            ),
            None => Seq::empty(),
        },
{
    let mut matches: Vec<BufferRange> = Vec::new();
    let regex = match regex {
        Some(regex) => regex,
        None => {
            return matches;
        },
    };
    let ghost content = emulator_state(*emulator).content;
    let ghost needle = regex_needle(regex).unwrap();
    let total = total_lines(emulator);
    let history = total - screen_lines(emulator);
    let mut row: usize = 0;
    while row < total
        invariant
            content == emulator_state(*emulator).content,
            content.well_formed(),
            regex_needle(regex) == Some(needle),
            needle.text.len() > 0,
            total == content.rows.len(),
            history == content.history(),
            row <= total,
            matches@ == buffer_matches(content, needle, row as nat),
        decreases total - row,
    {
        let line = row as i32 - history as i32;
        let cells = read_row(emulator, line);
        search_row(&cells, &regex, line, &mut matches);
        row = row + 1;
    }
    matches
}

/// Whether `found` is what searching for `query` finds: all matches, or none where the query is so
/// long that it could not be compiled.
pub open spec fn found_in(
    content: TermContent,
    query: Seq<char>,
    case_sensitive: bool,
    found: Seq<BufferRange>,
) -> bool {
    ||| found == buffer_matches(content, needle_of(query, case_sensitive), content.rows.len())
    ||| query.len() > SURE_QUERY_CHARACTERS && found.len() == 0
}

/// The matches of `query` in the whole buffer, from the oldest row on. Where the query is too
/// long to be compiled there are none.
pub(crate) fn collect_search_matches(
    emulator: &Emulator,
    query: &str,
    case_sensitive: bool,
) -> (res: Vec<BufferRange>)
    requires
        emulator_state(*emulator).content.well_formed(),
        query@.len() > 0,
    ensures
        found_in(emulator_state(*emulator).content, query@, case_sensitive, res@),
{
    let regex = compile_literal(query, case_sensitive);
    let ghost compiled = regex;
    proof {
        if let Some(regex) = compiled {
            assert(regex_needle(regex).unwrap() =~= needle_of(query@, case_sensitive));
        }
    }
    matches_of(emulator, regex)
}

/// Whether a match stands in a viewport that is scrolled up by `offset` rows.
pub open spec fn in_view(found: BufferRange, offset: int, lines: int) -> bool {
    0 <= found.start.line + offset < lines
}

/// The cells of a match in a viewport that is scrolled up by `offset` rows.
pub open spec fn visible_range(found: BufferRange, offset: int) -> CellRange {
    let row = (found.start.line + offset) as usize;
    CellRange {
        start: CellPoint { row, column: found.start.column },
        end: CellPoint { row, column: found.end.column },
    }
}

/// The matches that stand in the viewport.
pub open spec fn visible_ranges(matches: Seq<BufferRange>, offset: int, lines: int) -> Seq<CellRange>
    decreases matches.len(),
{
    if matches.len() == 0 {
        Seq::empty()
    } else {
        let before = visible_ranges(matches.drop_last(), offset, lines);
        if in_view(matches.last(), offset, lines) {
            before.push(visible_range(matches.last(), offset))
        } else {
            before
        }
    }
}

/// The place of the current match among those that stand in the viewport.
pub open spec fn active_place(
    matches: Seq<BufferRange>,
    current: Option<usize>,
    offset: int,
    lines: int,
) -> Option<usize> {
    match current {
        Some(index) if index < matches.len() && in_view(matches[index as int], offset, lines) =>
            Some(visible_ranges(matches.take(index as int), offset, lines).len() as usize),
        _ => None,
    }
}

/// What is reported of the matches when the viewport is scrolled up by `offset` rows.
pub open spec fn search_report(
    matches: Seq<BufferRange>,
    current: Option<usize>,
    offset: int,
    lines: int,
) -> SearchView {
    SearchView {
        matches: visible_ranges(matches, offset, lines),
        active: active_place(matches, current, offset, lines),
        current,
        total: matches.len(),
    }
}

/// What is reported of the matches for the viewport as it stands.
pub(crate) fn visible_search_result(
    emulator: &Emulator,
    matches: &Vec<BufferRange>,
    current: Option<usize>,
) -> (res: SearchResult)
    requires
        emulator_state(*emulator).content.well_formed(),
    ensures
        res@ == search_report(
            matches@,
            current,
            emulator_state(*emulator).content.display_offset as int,
            emulator_state(*emulator).content.screen_lines as int,
        ),
{
    let offset = display_offset(emulator);
    let lines = screen_lines(emulator);
    let mut visible: Vec<CellRange> = Vec::new();
    let mut active: Option<usize> = None;
    let mut index: usize = 0;
    while index < matches.len()
        invariant
            offset <= i32::MAX,
            lines <= i32::MAX,
            index <= matches.len(),
            visible@ == visible_ranges(matches@.take(index as int), offset as int, lines as int),
            active == (match current {
                Some(place) if place < index => active_place(
                    matches@,
                    current,
                    offset as int,
                    lines as int,
                ),
                _ => None,
            }),
        decreases matches.len() - index,
    {
        proof {
            assert(matches@.take(index + 1).drop_last() =~= matches@.take(index as int));
        }
        let found = matches[index];
        let row = found.start.line as i64 + offset as i64;
        if 0 <= row && row < lines as i64 {
            let is_current = match current {
                Some(place) => place == index,
                None => false,
            };
            if is_current {
                active = Some(visible.len());
            }
            visible.push(
                CellRange {
                    start: CellPoint { row: row as usize, column: found.start.column },
                    end: CellPoint { row: row as usize, column: found.end.column },
                },
            );
        }
        index = index + 1;
    }
    assert(matches@.take(index as int) =~= matches@);
    SearchResult { matches: visible, active, current, total: matches.len() }
}

/// Where the viewport stands once it shows `found`: where it stood if it showed the match, else
/// with the row of the match at its top, or on the screen where the match is on the screen.
pub open spec fn revealing_offset(content: TermContent, found: BufferRange) -> nat {
    if in_view(found, content.display_offset as int, content.screen_lines as int) {
        content.display_offset
    } else if found.start.line >= 0 {
        0
    } else if -found.start.line > content.history() {
        content.history() as nat
    } else {
        -found.start.line as nat
    }
}

/// The state of the emulator once its viewport shows `found`. A viewport that showed the match is
/// not told to move.
pub open spec fn revealed_state(state: EmulatorState, found: BufferRange) -> EmulatorState {
    let content = state.content;
    if in_view(found, content.display_offset as int, content.screen_lines as int) {
        state
    } else {
        moved_state(state, revealing_offset(content, found))
    }
}

/// Scrolls until the viewport shows `found`.
pub(crate) fn scroll_match_into_view(emulator: &mut Emulator, found: BufferRange)
    requires
        emulator_state(*old(emulator)).content.well_formed(),
    ensures
        emulator_state(*final(emulator)) == revealed_state(emulator_state(*old(emulator)), found),
{
    let offset = display_offset(emulator);
    let lines = screen_lines(emulator);
    let row = found.start.line as i64 + offset as i64;
    if 0 <= row && row < lines as i64 {
        return;
    }
    let history = (total_lines(emulator) - lines) as i64;
    let above: i64 = if found.start.line < 0 {
        -(found.start.line as i64)
    } else {
        0
    };
    let desired = if above < history {
        above
    } else {
        history
    };
    scroll_display(emulator, (desired - offset as i64) as i32);
}

/// The match that follows the current one in the given direction; the last match is followed by
/// the first.
pub open spec fn following(current: int, total: int, direction: SearchDirection) -> int {
    match direction {
        SearchDirection::Next => if current + 1 < total {
            current + 1
        } else {
            0
        },
        SearchDirection::Previous => if current > 0 {
            current - 1
        } else {
            total - 1
        },
    }
}

/// The match that follows the current one in the given direction.
pub fn next_match(current: usize, total: usize, direction: SearchDirection) -> (res: usize)
    requires
        current < total,
    ensures
        res == following(current as int, total as int, direction),
        res < total,
{
    match direction {
        SearchDirection::Next => if current + 1 < total {
            current + 1
        } else {
            0
        },
        SearchDirection::Previous => if current > 0 {
            current - 1
        } else {
            total - 1
        },
    }
}

/// Going on to the next match and back to the previous one leads to where one was, and the other
/// way round.
pub proof fn law_next_and_previous_undo_each_other(current: int, total: int)
    requires
        0 <= current < total,
    ensures
        following(
            following(current, total, SearchDirection::Next),
            total,
            SearchDirection::Previous,
        ) == current,
        following(
            following(current, total, SearchDirection::Previous),
            total,
            SearchDirection::Next,
        ) == current,
{
}

/// Scrolling to a match that stands in the buffer brings it into view.
pub proof fn law_revealed_match_is_in_view(content: TermContent, found: BufferRange)
    requires
        content.well_formed(),
        content.has_line(found.start.line as int),
    ensures
        in_view(
            found,
            revealing_offset(content, found) as int,
            content.screen_lines as int,
        ),
{
}

/// A match lies within one row, and the characters from its first to its last answer one by one to
/// those of the text that was searched for.
pub proof fn law_match_spells_the_query(cells: Seq<GridCellView>, needle: Needle, line: i32, k: int)
    requires
        0 <= k < row_matches(cells, needle, line).len(),
    ensures
        ({
            let places = searchable(cells);
            let at = occurrences(characters(places), needle, 0)[k];
            let found = row_matches(cells, needle, line)[k];
            &&& found.start.line == line && found.end.line == line
            &&& found.start.column == places[at].1
            &&& found.end.column == places[at + needle.text.len() - 1].1
            &&& 0 <= at && at + needle.text.len() <= places.len()
            &&& forall|i: int|
                0 <= i < needle.text.len() ==> same_letter(
                    needle,
                    #[trigger] needle.text[i],
                    places[at + i].0,
                )
        }),
{
    lemma_occurrences(characters(searchable(cells)), needle, 0, k);
}

/// Matches in one row follow each other from left to right and do not overlap.
pub proof fn law_matches_do_not_overlap(text: Seq<char>, needle: Needle, from: int, j: int, k: int)
    requires
        0 <= j < k < occurrences(text, needle, from).len(),
    ensures
        occurrences(text, needle, from)[j] + needle.text.len() <= occurrences(
            text,
            needle,
            from,
        )[k],
    decreases text.len() - from,
{
    if occurs_at(text, needle, from) {
        let next = from + needle.text.len() as int;
        if j > 0 {
            law_matches_do_not_overlap(text, needle, next, j - 1, k - 1);
        } else {
            lemma_occurrences(text, needle, next, k - 1);
        }
    } else {
        law_matches_do_not_overlap(text, needle, from + 1, j, k);
    }
}

/// Whether every occurrence of the needle at or after `from` overlaps one of those that are found.
pub open spec fn none_missed(text: Seq<char>, needle: Needle, from: int) -> bool {
    forall|at: int|
        from <= at && #[trigger] occurs_at(text, needle, at) ==> exists|k: int|
            0 <= k < occurrences(text, needle, from).len() && #[trigger] occurrences(
                text,
                needle,
                from,
            )[k] <= at < occurrences(text, needle, from)[k] + needle.text.len()
}

/// A search misses nothing: wherever the needle stands, a match is found there or one that
/// overlaps it from the left.
pub proof fn law_search_misses_nothing(text: Seq<char>, needle: Needle, from: int)
    requires
        needle.text.len() > 0,
        0 <= from,
    ensures
        none_missed(text, needle, from),
    decreases text.len() - from,
{
    let found = occurrences(text, needle, from);
    if from + needle.text.len() <= text.len() {
        let here = occurs_at(text, needle, from);
        let next = if here {
            from + needle.text.len() as int
        } else {
            from + 1
        };
        law_search_misses_nothing(text, needle, next);
        let later = occurrences(text, needle, next);
        assert forall|at: int| from <= at && #[trigger] occurs_at(text, needle, at) implies exists|
            k: int,
        |
            0 <= k < found.len() && #[trigger] found[k] <= at < found[k] + needle.text.len() by {
            if at < next {
                assert(here);
                assert(found[0] == from);
            } else {
                let k = choose|k: int|
                    0 <= k < later.len() && #[trigger] later[k] <= at < later[k]
                        + needle.text.len();
                if here {
                    assert(found[k + 1] == later[k]);
                } else {
                    assert(found[k] == later[k]);
                }
            }
        }
    }
}

/// Every match stands in a row of the buffer.
pub proof fn law_matches_stand_in_the_buffer(
    content: TermContent,
    needle: Needle,
    count: nat,
    k: int,
)
    requires
        content.well_formed(),
        count <= content.rows.len(),
        0 <= k < buffer_matches(content, needle, count).len(),
    ensures
        content.has_line(buffer_matches(content, needle, count)[k].start.line as int),
    decreases count,
{
    if count > 0 {
        let row = count - 1;
        let before = buffer_matches(content, needle, row as nat);
        if k < before.len() {
            law_matches_stand_in_the_buffer(content, needle, row as nat, k);
        } else {
            assert(content.has_line(row - content.history()));
        }
    }
}

proof fn lemma_visible_prefix(matches: Seq<BufferRange>, offset: int, lines: int, index: int)
    requires
        0 <= index < matches.len(),
        in_view(matches[index], offset, lines),
    ensures
        ({
            let place = visible_ranges(matches.take(index), offset, lines).len();
            &&& place < visible_ranges(matches, offset, lines).len()
            &&& visible_ranges(matches, offset, lines)[place as int] == visible_range(
                matches[index],
                offset,
            )
        }),
    decreases matches.len(),
{
    let shorter = matches.drop_last();
    if index < shorter.len() {
        lemma_visible_prefix(shorter, offset, lines, index);
        assert(shorter.take(index) =~= matches.take(index));
    } else {
        assert(matches.take(index) =~= shorter);
    }
}

/// Where the current match is in view, the active entry of the report gives its cells; there is no
/// active entry where it is not.
pub proof fn law_active_match_is_the_current_one(
    matches: Seq<BufferRange>,
    current: usize,
    offset: int,
    lines: int,
)
    requires
        current < matches.len() <= usize::MAX,
    ensures
        ({
            let report = search_report(matches, Some(current), offset, lines);
            let found = matches[current as int];
            match report.active {
                Some(place) => in_view(found, offset, lines) && place < report.matches.len()
                    && report.matches[place as int] == visible_range(found, offset),
                None => !in_view(found, offset, lines),
            }
        }),
{
    if in_view(matches[current as int], offset, lines) {
        lemma_visible_prefix(matches, offset, lines, current as int);
        lemma_visible_count(matches, offset, lines);
    }
}

proof fn lemma_visible_count(matches: Seq<BufferRange>, offset: int, lines: int)
    ensures
        visible_ranges(matches, offset, lines).len() <= matches.len(),
    decreases matches.len(),
{
    if matches.len() > 0 {
        lemma_visible_count(matches.drop_last(), offset, lines);
    }
}

/// Going on to a match after a search shows it: whichever way one goes, the report has an active
/// entry, and it gives the cells of the match that is now the current one.
pub proof fn law_navigation_shows_the_match(
    content: TermContent,
    needle: Needle,
    current: int,
    direction: SearchDirection,
)
    requires
        content.well_formed(),
        0 <= current < buffer_matches(content, needle, content.rows.len()).len(),
        buffer_matches(content, needle, content.rows.len()).len() <= usize::MAX,
    ensures
        ({
            let matches = buffer_matches(content, needle, content.rows.len());
            let next = following(current, matches.len() as int, direction);
            let offset = revealing_offset(content, matches[next]) as int;
            let report = search_report(
                matches,
                Some(next as usize),
                offset,
                content.screen_lines as int,
            );
            &&& report.active matches Some(place)
            &&& place < report.matches.len()
            &&& report.matches[place as int] == visible_range(matches[next], offset)
        }),
{
    let matches = buffer_matches(content, needle, content.rows.len());
    let next = following(current, matches.len() as int, direction);
    law_matches_stand_in_the_buffer(content, needle, content.rows.len(), next);
    law_revealed_match_is_in_view(content, matches[next]);
    law_active_match_is_the_current_one(
        matches,
        next as usize,
        revealing_offset(content, matches[next]) as int,
        content.screen_lines as int,
    );
}

} // verus!
