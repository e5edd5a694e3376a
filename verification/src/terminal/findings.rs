//! What a search finds, and where it is reported to stand.

use vstd::prelude::*;

use crate::sequences::{lemma_filter_push, lemma_filtered_are_contained};
use crate::terminal::emulator::{GridCellView, Rgb, TermContent};
use crate::terminal::frame::row_cells;
use crate::terminal::search::{
    buffer_matches, case_variants, characters, following, law_matches_do_not_overlap,
    law_search_misses_nothing, lemma_occurrences, needle_of,
    occurrences, occurs_at, revealing_offset, row_matches, same_letter, search_report, searchable,
    visible_ranges, Needle,
};
use crate::terminal::types::{
    BufferRange, CellPoint, CellRange, DamageView, RenderCellView, SearchDirection,
};
use crate::ui::glyphs::{joined_text, text_cells};

verus! {

/// Whether a match stands on one of `lines` rows that begin `offset` lines above the screen.
pub open spec fn stands_in(offset: int, lines: int) -> spec_fn(BufferRange) -> bool {
    |found: BufferRange| 0 <= found.start.line + offset && found.start.line + offset < lines
}

/// Where the cells of a match are shown by a viewport that begins `offset` lines above the screen.
pub open spec fn shown_at(offset: int) -> spec_fn(BufferRange) -> CellRange {
    |found: BufferRange|
        CellRange {
            start: CellPoint {
                row: (found.start.line + offset) as usize,
                column: found.start.column,
            },
            end: CellPoint {
                row: (found.start.line + offset) as usize,
                column: found.end.column,
            },
        }
}

/// A report lists the matches that stand in the viewport, in order and each in its own cells. It
/// counts all matches, and passes on which is the current one.
pub proof fn law_report_lists_the_matches_in_view(
    matches: Seq<BufferRange>,
    current: Option<usize>,
    offset: int,
    lines: int,
)
    ensures
        search_report(matches, current, offset, lines).matches == matches.filter(
            stands_in(offset, lines),
        ).map_values(shown_at(offset)),
        search_report(matches, current, offset, lines).total == matches.len(),
        search_report(matches, current, offset, lines).current == current,
{
    lemma_visible_ranges(matches, offset, lines);
}

proof fn lemma_visible_ranges(matches: Seq<BufferRange>, offset: int, lines: int)
    ensures
        visible_ranges(matches, offset, lines) == matches.filter(
            stands_in(offset, lines),
        ).map_values(shown_at(offset)),
    decreases matches.len(),
{
    let keep = stands_in(offset, lines);
    let place = shown_at(offset);
    if matches.len() == 0 {
        reveal(Seq::filter);
        assert(matches.filter(keep).map_values(place) =~= Seq::empty());
    } else {
        let shorter = matches.drop_last();
        lemma_visible_ranges(shorter, offset, lines);
        lemma_filter_push(shorter, matches.last(), keep);
        assert(shorter.push(matches.last()) =~= matches);
        assert(visible_ranges(matches, offset, lines) =~= matches.filter(keep).map_values(place));
    }
}

/// The cells that are reported are those of a match: they stand on the row of the viewport that
/// shows the line of the match, from its first to its last column.
pub proof fn law_reported_cells_are_those_of_a_match(
    matches: Seq<BufferRange>,
    current: Option<usize>,
    offset: int,
    lines: int,
    range: CellRange,
) -> (found: BufferRange)
    requires
        search_report(matches, current, offset, lines).matches.contains(range),
        0 <= lines <= usize::MAX,
    ensures
        matches.contains(found),
        range.start.row == found.start.line + offset,
        range.end.row == found.start.line + offset,
        range.start.column == found.start.column,
        range.end.column == found.end.column,
        range.start.row < lines,
{
    let keep = stands_in(offset, lines);
    let kept = matches.filter(keep);
    law_report_lists_the_matches_in_view(matches, current, offset, lines);
    let reported = kept.map_values(shown_at(offset));
    let at = choose|at: int| 0 <= at < reported.len() && reported[at] == range;
    lemma_filtered_are_contained(matches, keep);
    assert(kept.contains(kept[at]));
    kept[at]
}

/// Every match that stands in the viewport is reported.
pub proof fn law_matches_in_view_are_reported(
    matches: Seq<BufferRange>,
    current: Option<usize>,
    offset: int,
    lines: int,
    index: int,
)
    requires
        0 <= index < matches.len(),
        0 <= matches[index].start.line + offset < lines <= usize::MAX,
    ensures
        exists|k: int|
            0 <= k < search_report(matches, current, offset, lines).matches.len() && {
                let range = #[trigger] search_report(matches, current, offset, lines).matches[k];
                &&& range.start.row == matches[index].start.line + offset
                &&& range.end.row == matches[index].start.line + offset
                &&& range.start.column == matches[index].start.column
                &&& range.end.column == matches[index].end.column
            },
{
    let keep = stands_in(offset, lines);
    let kept = matches.filter(keep);
    law_report_lists_the_matches_in_view(matches, current, offset, lines);
    matches.lemma_filter_contains(keep, index);
    let k = choose|k: int| 0 <= k < kept.len() && kept[k] == matches[index];
    assert(search_report(matches, current, offset, lines).matches[k] == shown_at(offset)(kept[k]));
}

/// The active entry of a report is that of the current match: as many entries stand before it as
/// matches in view stand before the match. There is none where the current match is out of view.
pub proof fn law_active_entry_is_the_current_match(
    matches: Seq<BufferRange>,
    current: usize,
    offset: int,
    lines: int,
)
    requires
        current < matches.len() <= usize::MAX,
        0 <= lines <= usize::MAX,
    ensures
        ({
            let report = search_report(matches, Some(current), offset, lines);
            let found = matches[current as int];
            if 0 <= found.start.line + offset < lines {
                &&& report.active matches Some(place)
                &&& place == matches.take(current as int).filter(stands_in(offset, lines)).len()
                &&& place < report.matches.len()
                &&& report.matches[place as int].start.row == found.start.line + offset
                &&& report.matches[place as int].start.column == found.start.column
                &&& report.matches[place as int].end.column == found.end.column
            } else {
                report.active is None
            }
        }),
        search_report(matches, None, offset, lines).active is None,
{
    let keep = stands_in(offset, lines);
    let before = matches.take(current as int);
    let after = matches.skip(current as int);
    lemma_visible_ranges(before, offset, lines);
    lemma_visible_ranges(matches, offset, lines);
    before.lemma_filter_len(keep);
    if 0 <= matches[current as int].start.line + offset < lines {
        assert(before + after =~= matches);
        Seq::filter_distributes_over_add(before, after, keep);
        let rest = after.skip(1);
        assert(seq![after[0]] + rest =~= after);
        Seq::filter_distributes_over_add(seq![after[0]], rest, keep);
        lemma_filter_push(Seq::empty(), after[0], keep);
        reveal(Seq::filter);
        assert(Seq::<BufferRange>::empty().push(after[0]) =~= seq![after[0]]);
        assert(after.filter(keep)[0] == after[0]);
        let place = before.filter(keep).len() as int;
        assert(matches.filter(keep)[place] == matches[current as int]);
    }
}

/// The characters of a row that can be searched are those of its cells: each stands in the cell of
/// its column, as its character or among what combines with it, and that cell is not the second
/// half of a wide character. Their columns go from left to right.
pub proof fn law_searched_characters_stand_in_their_cells(cells: Seq<GridCellView>, i: int)
    requires
        0 <= i < searchable(cells).len(),
        cells.len() <= usize::MAX,
    ensures
        ({
            let (c, column) = searchable(cells)[i];
            &&& column < cells.len()
            &&& cells[column as int].flags & 0x40 != 0x40
            &&& c == cells[column as int].character || cells[column as int].zero_width.contains(c)
            &&& i > 0 ==> searchable(cells)[i - 1].1 <= column
        }),
    decreases cells.len(),
{
    let shorter = cells.drop_last();
    let before = searchable(shorter);
    let last = cells.last();
    if i < before.len() {
        law_searched_characters_stand_in_their_cells(shorter, i);
        assert(searchable(cells)[i] == before[i]);
        assert(i > 0 ==> searchable(cells)[i - 1] == before[i - 1]);
    } else {
        if i > 0 && i == before.len() {
            law_searched_characters_stand_in_their_cells(shorter, i - 1);
            assert(searchable(cells)[i - 1] == before[i - 1]);
        }
        if i > before.len() {
            assert(searchable(cells)[i].0 == last.zero_width[i - before.len() - 1]);
        }
    }
}

/// What is searched is what is shown: where nothing is hidden, the characters of a row that can be
/// searched are the text of its cells as they are drawn.
pub proof fn law_searched_text_is_the_shown_text(
    row: int,
    cells: Seq<GridCellView>,
    colors: Seq<Option<Rgb>>,
)
    requires
        0 <= row <= usize::MAX,
        cells.len() <= usize::MAX,
        forall|i: int| 0 <= i < cells.len() ==> (#[trigger] cells[i]).flags & 0x100 != 0x100,
    ensures
        characters(searchable(cells)) == joined_text(
            text_cells(row_cells(row, cells, colors, DamageView::Full, cells.len()), row),
        ),
{
    lemma_searched_prefix(row, cells, colors, cells.len());
    assert(cells.take(cells.len() as int) =~= cells);
}

proof fn lemma_searched_prefix(
    row: int,
    cells: Seq<GridCellView>,
    colors: Seq<Option<Rgb>>,
    count: nat,
)
    requires
        0 <= row <= usize::MAX,
        count <= cells.len() <= usize::MAX,
        forall|i: int| 0 <= i < cells.len() ==> (#[trigger] cells[i]).flags & 0x100 != 0x100,
    ensures
        characters(searchable(cells.take(count as int))) == joined_text(
            text_cells(row_cells(row, cells, colors, DamageView::Full, count), row),
        ),
    decreases count,
{
    let keep = |cell: RenderCellView| cell.row == row && !cell.style.wide_spacer;
    let drawn = row_cells(row, cells, colors, DamageView::Full, count);
    if count == 0 {
        reveal(Seq::filter);
        assert(characters(searchable(cells.take(0))) =~= Seq::empty());
        assert(text_cells(drawn, row) =~= Seq::empty());
    } else {
        let last = count - 1;
        let cell = cells[last];
        let shorter = row_cells(row, cells, colors, DamageView::Full, last as nat);
        lemma_searched_prefix(row, cells, colors, last as nat);
        assert(cells.take(count as int).drop_last() =~= cells.take(last));
        lemma_filter_push(shorter, drawn.last(), keep);
        assert(shorter.push(drawn.last()) =~= drawn);
        let before = text_cells(shorter, row);
        assert(before.push(drawn.last()).drop_last() =~= before);
        let places = searchable(cells.take(last));
        if !drawn.last().style.wide_spacer {
            assert(characters(searchable(cells.take(count as int))) =~= characters(places) + (
            seq![cell.character] + cell.zero_width));
        }
    }
}

/// Whether the text that was searched for stands in the row, from the cell in one column to the
/// cell in another: the characters between answer to it one by one.
pub open spec fn spelled_between(
    cells: Seq<GridCellView>,
    needle: Needle,
    first: usize,
    last: usize,
) -> bool {
    exists|at: int|
        0 <= at && at + needle.text.len() <= searchable(cells).len() && (#[trigger] searchable(
            cells,
        )[at]).1 == first && searchable(cells)[at + needle.text.len() - 1].1 == last && (forall|
            i: int,
        |
            0 <= i < needle.text.len() ==> #[trigger] needle.text[i] == searchable(cells)[at + i].0
                || (needle.variants)(needle.text[i], searchable(cells)[at + i].0))
}

proof fn lemma_buffer_match(content: TermContent, needle: Needle, count: nat, k: int)
    requires
        content.well_formed(),
        count <= content.rows.len(),
        0 <= k < buffer_matches(content, needle, count).len(),
    ensures
        ({
            let found = buffer_matches(content, needle, count)[k];
            let line = found.start.line as int;
            &&& found.end.line == line
            &&& -content.history() <= line < count - content.history()
            &&& spelled_between(
                content.rows[content.history() + line],
                needle,
                found.start.column,
                found.end.column,
            )
        }),
    decreases count,
{
    if count > 0 {
        let row = count - 1;
        let before = buffer_matches(content, needle, row as nat);
        if k < before.len() {
            lemma_buffer_match(content, needle, row as nat, k);
        } else {
            let cells = content.rows[row];
            let places = searchable(cells);
            let line = (row - content.history()) as i32;
            lemma_occurrences(characters(places), needle, 0, k - before.len());
            let at = occurrences(characters(places), needle, 0)[k - before.len()];
            let found = buffer_matches(content, needle, count)[k];
            assert(found == row_matches(cells, needle, line)[k - before.len()]);
            assert(places[at].1 == found.start.column);
            assert forall|i: int| 0 <= i < needle.text.len() implies #[trigger] needle.text[i]
                == places[at + i].0 || (needle.variants)(needle.text[i], places[at + i].0) by {
                assert(same_letter(needle, needle.text[i], characters(places)[at + i]));
            }
            assert(spelled_between(cells, needle, found.start.column, found.end.column));
        }
    }
}

/// Every match spells the text that was searched for, in the row of the buffer that it names.
pub proof fn law_matches_spell_the_query(content: TermContent, needle: Needle, k: int)
    requires
        content.well_formed(),
        0 <= k < buffer_matches(content, needle, content.rows.len()).len(),
    ensures
        ({
            let found = buffer_matches(content, needle, content.rows.len())[k];
            let line = found.start.line as int;
            &&& found.end.line == line
            &&& -content.history() <= line < content.screen_lines
            &&& spelled_between(
                content.rows[content.history() + line],
                needle,
                found.start.column,
                found.end.column,
            )
        }),
{
    lemma_buffer_match(content, needle, content.rows.len(), k);
}

/// The cells that a search reports hold what was searched for: in the row that the viewport shows
/// there, the characters from the first to the last column answer to the query one by one.
pub proof fn law_reported_cells_spell_the_query(
    content: TermContent,
    needle: Needle,
    current: Option<usize>,
    range: CellRange,
)
    requires
        content.well_formed(),
        search_report(
            buffer_matches(content, needle, content.rows.len()),
            current,
            content.display_offset as int,
            content.screen_lines as int,
        ).matches.contains(range),
    ensures
        range.start.row == range.end.row,
        range.start.row < content.screen_lines,
        spelled_between(
            content.rows[content.history() - content.display_offset + range.start.row],
            needle,
            range.start.column,
            range.end.column,
        ),
{
    let matches = buffer_matches(content, needle, content.rows.len());
    let found = law_reported_cells_are_those_of_a_match(
        matches,
        current,
        content.display_offset as int,
        content.screen_lines as int,
        range,
    );
    let k = choose|k: int| 0 <= k < matches.len() && matches[k] == found;
    law_matches_spell_the_query(content, needle, k);
}

proof fn lemma_rows_are_searched(content: TermContent, needle: Needle, count: nat, row: int, j: int)
    requires
        content.well_formed(),
        0 <= row < count <= content.rows.len(),
        0 <= j < row_matches(
            content.rows[row],
            needle,
            (row - content.history()) as i32,
        ).len(),
    ensures
        buffer_matches(content, needle, count).contains(
            row_matches(content.rows[row], needle, (row - content.history()) as i32)[j],
        ),
    decreases count,
{
    let last = count - 1;
    let before = buffer_matches(content, needle, last as nat);
    let all = buffer_matches(content, needle, count);
    let found = row_matches(content.rows[row], needle, (row - content.history()) as i32)[j];
    if row < last {
        lemma_rows_are_searched(content, needle, last as nat, row, j);
        let k = choose|k: int| 0 <= k < before.len() && before[k] == found;
        assert(all[k] == found);
    } else {
        assert(all[before.len() + j] == found);
    }
}

/// Every row of the buffer is searched, the history as well as the screen: wherever the text that
/// was searched for stands in a row, there is a match on the line of that row which covers its
/// first character.
pub proof fn law_every_row_is_searched(content: TermContent, needle: Needle, line: int, at: int) -> (
    found: BufferRange)
    requires
        content.well_formed(),
        needle.text.len() > 0,
        -content.history() <= line < content.screen_lines,
        occurs_at(characters(searchable(content.rows[content.history() + line])), needle, at),
    ensures
        buffer_matches(content, needle, content.rows.len()).contains(found),
        found.start.line == line,
        found.start.column <= searchable(content.rows[content.history() + line])[at].1
            <= found.end.column,
{
    let row = content.history() + line;
    let places = searchable(content.rows[row]);
    let text = characters(places);
    law_search_misses_nothing(text, needle, 0);
    let spots = occurrences(text, needle, 0);
    let k = choose|k: int|
        0 <= k < spots.len() && #[trigger] spots[k] <= at < spots[k] + needle.text.len();
    lemma_rows_are_searched(content, needle, content.rows.len(), row, k);
    lemma_occurrences(text, needle, 0, k);
    lemma_columns_increase(content.rows[row], spots[k], at);
    lemma_columns_increase(content.rows[row], at, spots[k] + needle.text.len() - 1);
    row_matches(content.rows[row], needle, line as i32)[k]
}

proof fn lemma_columns_increase(cells: Seq<GridCellView>, i: int, j: int)
    requires
        0 <= i <= j < searchable(cells).len(),
        cells.len() <= usize::MAX,
    ensures
        searchable(cells)[i].1 <= searchable(cells)[j].1,
    decreases j - i,
{
    if i < j {
        law_searched_characters_stand_in_their_cells(cells, j);
        lemma_columns_increase(cells, i, j - 1);
    }
}

/// Where capitals make a difference a character answers to itself alone. Where they make none it
/// also answers to its variants.
pub proof fn law_case_decides_what_answers(query: Seq<char>, case_sensitive: bool, a: char, b: char)
    ensures
        needle_of(query, case_sensitive).text == query,
        same_letter(needle_of(query, case_sensitive), a, b) <==> (a == b || (!case_sensitive
            && case_variants(a, b))),
{
}

/// Going on leads through all matches in turn, in the order of the buffer or against it, and over
/// its end to the other one.
pub proof fn law_navigation_goes_in_turn(current: int, total: int)
    requires
        0 <= current < total,
    ensures
        following(current, total, SearchDirection::Next) == (current + 1) % total,
        following(current, total, SearchDirection::Previous) == (current + total - 1) % total,
{
    if current + 1 < total {
        assert((current + 1) % total == current + 1) by (nonlinear_arith)
            requires
                0 <= current + 1 < total,
        ;
    } else {
        assert(total % total == 0) by (nonlinear_arith)
            requires
                total > 0,
        ;
    }
    if current > 0 {
        assert((current - 1 + total) % total == current - 1) by (nonlinear_arith)
            requires
                0 <= current - 1 < total,
        ;
    } else {
        assert((total - 1) % total == total - 1) by (nonlinear_arith)
            requires
                total > 0,
        ;
    }
}

/// A viewport that shows a match does not move for it. Else it moves to the screen for a match on
/// the screen, and for one in the history until the match stands in its first row.
pub proof fn law_viewport_moves_no_further_than_needed(content: TermContent, found: BufferRange)
    requires
        content.well_formed(),
        -content.history() <= found.start.line < content.screen_lines,
    ensures
        ({
            let offset = revealing_offset(content, found);
            let row = found.start.line + content.display_offset;
            &&& 0 <= found.start.line + offset < content.screen_lines
            &&& 0 <= row < content.screen_lines ==> offset == content.display_offset
            &&& !(0 <= row < content.screen_lines) && found.start.line >= 0 ==> offset == 0
            &&& !(0 <= row < content.screen_lines) && found.start.line < 0 ==> found.start.line
                + offset == 0
        }),
{
}

proof fn lemma_older_matches_come_first(
    content: TermContent,
    needle: Needle,
    count: nat,
    j: int,
    k: int,
)
    requires
        content.well_formed(),
        count <= content.rows.len(),
        0 <= j < k < buffer_matches(content, needle, count).len(),
    ensures
        ({
            let earlier = buffer_matches(content, needle, count)[j];
            let later = buffer_matches(content, needle, count)[k];
            ||| earlier.start.line < later.start.line
            ||| earlier.start.line == later.start.line && earlier.end.column <= later.start.column
        }),
    decreases count,
{
    let row = count - 1;
    let before = buffer_matches(content, needle, row as nat);
    if k < before.len() {
        lemma_older_matches_come_first(content, needle, row as nat, j, k);
    } else if j < before.len() {
        lemma_buffer_match(content, needle, row as nat, j);
    } else {
        let cells = content.rows[row];
        let text = characters(searchable(cells));
        let spots = occurrences(text, needle, 0);
        let left = j - before.len();
        let right = k - before.len();
        lemma_occurrences(text, needle, 0, left);
        lemma_occurrences(text, needle, 0, right);
        law_matches_do_not_overlap(text, needle, 0, left, right);
        lemma_columns_increase(cells, spots[left] + needle.text.len() - 1, spots[right]);
    }
}

/// Matches are listed from the oldest row on, and in a row from left to right.
pub proof fn law_older_matches_come_first(content: TermContent, needle: Needle, j: int, k: int)
    requires
        content.well_formed(),
        0 <= j < k < buffer_matches(content, needle, content.rows.len()).len(),
    ensures
        ({
            let earlier = buffer_matches(content, needle, content.rows.len())[j];
            let later = buffer_matches(content, needle, content.rows.len())[k];
            ||| earlier.start.line < later.start.line
            ||| earlier.start.line == later.start.line && earlier.end.column <= later.start.column
        }),
{
    lemma_older_matches_come_first(content, needle, content.rows.len(), j, k);
}

} // verus!
