//! Keeping a whole frame up to date with partial ones.

use vstd::prelude::*;
use vstd::seq_lib::*;

use crate::sequences::{lemma_filter_parts, lemma_filtered_are_contained};
use crate::terminal::emulator::{scrolled_offset, TermContent};
use crate::terminal::frame::{
    drawn_damaged, frame_of, law_full_rows_are_in_order, law_partial_frame_is_the_damaged_part,
    strictly_ordered, viewport_cells,
};
use crate::terminal::model::{
    navigated, reported_damage, ModelState, TerminalModel,
};
use crate::terminal::types::{
    cell_views, covered_by_regions, region_covers, regions_cover, DamageRegion, DamageView,
    FrameDamage, FrameView, RenderCell, RenderCellView, SearchDirection, SearchResult, SearchView,
    TerminalFrame, TerminalSize,
};

verus! {

/// Whether a patch takes the place of the whole frame: it is whole itself, or shows the screen in
/// another size or another part of the history.
pub open spec fn replaces(current: FrameView, patch: FrameView) -> bool {
    patch.damage is Full || patch.size != current.size || patch.display_offset
        != current.display_offset
}

/// The cells that lie outside all regions.
pub open spec fn cells_outside(cells: Seq<RenderCellView>, regions: Seq<DamageRegion>) -> Seq<
    RenderCellView,
> {
    cells.filter(
        |cell: RenderCellView| !regions_cover(regions, cell.row as int, cell.column as int),
    )
}

/// Reading order: by row, then by column.
pub open spec fn comes_before(a: RenderCellView, b: RenderCellView) -> bool {
    a.row < b.row || (a.row == b.row && a.column <= b.column)
}

/// Whether cells are in reading order.
pub open spec fn in_order(cells: Seq<RenderCellView>) -> bool {
    forall|i: int, j: int| 0 <= i < j < cells.len() ==> comes_before(cells[i], cells[j])
}

/// Whether `cells` are those of `current` with the damaged ones replaced by those of `patch`.
pub open spec fn patched(
    cells: Seq<RenderCellView>,
    current: Seq<RenderCellView>,
    patch: FrameView,
) -> bool {
    match patch.damage {
        DamageView::Partial(regions) => in_order(cells) && cells.to_multiset() == (cells_outside(
            current,
            regions,
        ) + patch.cells).to_multiset(),
        _ => cells == current,
    }
}

/// Whether `after` shows `before` with what `patch` changes.
pub open spec fn refreshed(before: FrameView, patch: FrameView, after: FrameView) -> bool {
    if replaces(before, patch) {
        after == patch
    } else {
        after == (FrameView { cells: after.cells, ..patch }) && patched(
            after.cells,
            before.cells,
            patch,
        )
    }
}

/// Sorts cells by row and column with `slice::sort_unstable_by_key`. Cells in the same place may
/// change places.
#[verifier::external_body]
fn sort_cells(cells: &mut Vec<RenderCell>)
    ensures
        in_order(cell_views(final(cells)@)),
        cell_views(final(cells)@).to_multiset() == cell_views(old(cells)@).to_multiset(),
{
    cells.sort_unstable_by_key(|cell| (cell.row, cell.column));
}

/// Drops the cells that lie in a region.
fn keep_outside(cells: Vec<RenderCell>, regions: &Vec<DamageRegion>) -> (res: Vec<RenderCell>)
    ensures
        cell_views(res@) == cells_outside(cell_views(cells@), regions@),
{
    let ghost views = cell_views(cells@);
    let mut kept: Vec<RenderCell> = Vec::new();
    proof {
        reveal(Seq::filter);
        assert(cell_views(kept@) =~= cells_outside(views.take(0), regions@));
    }
    for cell in it: cells
        invariant
            it.seq() == cells@,
            views == cell_views(cells@),
            cell_views(kept@) == cells_outside(views.take(it.index() as int), regions@),
    {
        let ghost index = it.index() as int;
        proof {
            reveal(Seq::filter);
            assert(views[index] == cell@);
            assert(views.take(index + 1).drop_last() =~= views.take(index));
        }
        if !covered_by_regions(regions, cell.row, cell.column) {
            assert(cell_views(kept@.push(cell)) =~= cell_views(kept@).push(cell@));
            kept.push(cell);
        }
    }
    assert(views.take(views.len() as int) =~= views);
    kept
}

/// The frame that shows `current` with what `patch` changes. The patch itself takes its place
/// where it stands for the whole screen.
pub fn apply_frame_patch(current: TerminalFrame, patch: TerminalFrame) -> (res: TerminalFrame)
    ensures
        refreshed(current@, patch@, res@),
{
    let whole = match &patch.damage {
        FrameDamage::Full => true,
        _ => false,
    };
    if whole || patch.size != current.size || patch.display_offset != current.display_offset {
        return patch;
    }
    let ghost old_cells = cell_views(current.cells@);
    let ghost patch_view = patch@;
    let mut cells = current.cells;
    let mut patch_cells = patch.cells;
    if let FrameDamage::Partial(regions) = &patch.damage {
        let mut kept = keep_outside(cells, regions);
        let ghost outside = cell_views(kept@);
        let ghost added = cell_views(patch_cells@);
        kept.append(&mut patch_cells);
        assert(cell_views(kept@) =~= outside + added);
        sort_cells(&mut kept);
        cells = kept;
    }
    TerminalFrame {
        revision: patch.revision,
        size: patch.size,
        damage: patch.damage,
        cells,
        cursor: patch.cursor,
        selection: patch.selection,
        display_offset: patch.display_offset,
        modes: patch.modes,
    }
}

proof fn lemma_ordered_cells_are_unique(a: Seq<RenderCellView>, b: Seq<RenderCellView>)
    requires
        in_order(a),
        strictly_ordered(b),
        a.to_multiset() == b.to_multiset(),
    ensures
        a == b,
    decreases a.len(),
{
    a.to_multiset_ensures();
    b.to_multiset_ensures();
    assert(a.len() == b.len());
    if a.len() == 0 {
        assert(a =~= b);
    } else {
        let n = a.len() - 1;
        assert(a.contains(a[n]));
        assert(b.to_multiset().count(a[n]) > 0);
        let i = choose|i: int| 0 <= i < b.len() && b[i] == a[n];
        assert(b.contains(b[n]));
        assert(a.to_multiset().count(b[n]) > 0);
        let j = choose|j: int| 0 <= j < a.len() && a[j] == b[n];
        assert(j == n || comes_before(a[j], a[n]));
        assert(i == n);
        assert(a.remove(n) =~= a.drop_last());
        assert(b.remove(n) =~= b.drop_last());
        lemma_ordered_cells_are_unique(a.drop_last(), b.drop_last());
        assert(a =~= a.drop_last().push(a[n]));
        assert(b =~= b.drop_last().push(b[n]));
    }
}

/// Patching shows what is there: where a whole frame is patched with what was reported as damaged
/// since, and nothing else has changed, the result is the whole frame of what the terminal holds
/// now.
pub proof fn law_patched_frame_is_the_full_frame(
    cells: Seq<RenderCellView>,
    current: Seq<RenderCellView>,
    content: TermContent,
    regions: Seq<DamageRegion>,
    patch: FrameView,
)
    requires
        content.well_formed(),
        patch.damage == DamageView::Partial(regions),
        patch.cells == viewport_cells(
            content,
            DamageView::Partial(regions),
            content.screen_lines,
        ),
        cells_outside(current, regions) == cells_outside(
            viewport_cells(content, DamageView::Full, content.screen_lines),
            regions,
        ),
        patched(cells, current, patch),
    ensures
        cells == viewport_cells(content, DamageView::Full, content.screen_lines),
{
    let damage = DamageView::Partial(regions);
    let full = viewport_cells(content, DamageView::Full, content.screen_lines);
    let keep = drawn_damaged(damage);
    law_partial_frame_is_the_damaged_part(content, damage, content.screen_lines);
    law_full_rows_are_in_order(content, content.screen_lines);
    lemma_filter_parts(full, keep);
    let outside = |cell: RenderCellView|
        !regions_cover(regions, cell.row as int, cell.column as int);
    assert(outside =~= |cell: RenderCellView| !keep(cell));
    assert(cells.to_multiset() == full.to_multiset());
    lemma_ordered_cells_are_unique(cells, full);
}

/// Whether `shown` was brought up to date with what the terminal holds in `state`.
pub open spec fn shows_state(before: FrameView, state: ModelState, shown: FrameView) -> bool {
    refreshed(
        before,
        frame_of(
            state.content,
            state.revision,
            reported_damage(state.damage),
            state.selection,
        ),
        shown,
    )
}

/// Brings the frame that is shown up to date with the terminal.
pub fn refresh<T: TerminalModel>(terminal: &mut T, shown: TerminalFrame) -> (res: TerminalFrame)
    requires
        old(terminal).state().well_formed(),
    ensures
        final(terminal).state() == old(terminal).state().drawn(),
        shows_state(shown@, old(terminal).state(), res@),
{
    let patch = terminal.frame();
    apply_frame_patch(shown, patch)
}

/// Goes on to the next or previous match, and brings the frame that is shown up to date.
pub fn move_search<T: TerminalModel>(
    terminal: &mut T,
    shown: TerminalFrame,
    direction: SearchDirection,
) -> (res: (SearchResult, TerminalFrame))
    requires
        old(terminal).state().well_formed(),
    ensures
        final(terminal).state().well_formed(),
        exists|moved: ModelState| #[trigger]
            navigated(old(terminal).state(), direction, moved, res.0@) && final(terminal).state()
                == moved.drawn() && shows_state(shown@, moved, res.1@),
{
    let result = terminal.navigate_search(direction);
    let ghost moved = terminal.state();
    let frame = refresh(terminal, shown);
    let res = (result, frame);
    assert(navigated(old(terminal).state(), direction, moved, res.0@));
    res
}

/// Whether a frame shows the whole viewport.
pub open spec fn shows_whole(shown: FrameView, content: TermContent) -> bool {
    &&& shown.cells == viewport_cells(content, DamageView::Full, content.screen_lines)
    &&& shown.size.columns == content.columns
    &&& shown.size.lines == content.screen_lines
    &&& shown.display_offset == content.display_offset
}

/// Refreshing keeps a whole frame whole where the terminal holds what it held, or reports that
/// everything has to be drawn anew.
pub proof fn law_refreshing_keeps_the_frame_whole(
    before: ModelState,
    after: ModelState,
    shown: FrameView,
    res: FrameView,
)
    requires
        before.well_formed(),
        after.well_formed(),
        shows_whole(shown, before.content),
        after.damage is None || after.content == before.content,
        shows_state(shown, after, res),
    ensures
        shows_whole(res, after.content),
{
    let damage = reported_damage(after.damage);
    let patch = frame_of(after.content, after.revision, damage, after.selection);
    if let DamageView::Partial(regions) = damage {
        if !replaces(shown, patch) {
            law_patched_frame_is_the_full_frame(
                res.cells,
                shown.cells,
                after.content,
                regions,
                patch,
            );
        }
    }
}

/// After scrolling, refreshing shows the whole viewport as it then is.
pub proof fn law_scrolling_is_shown(
    before: ModelState,
    delta: int,
    shown: FrameView,
    res: FrameView,
)
    requires
        before.well_formed(),
        before.moved(scrolled_offset(before.content, delta)).revised().well_formed(),
        shows_whole(shown, before.content),
        shows_state(shown, before.moved(scrolled_offset(before.content, delta)).revised(), res),
    ensures
        shows_whole(res, before.moved(scrolled_offset(before.content, delta)).revised().content),
{
    law_refreshing_keeps_the_frame_whole(before, before.moved(scrolled_offset(before.content, delta)).revised(), shown, res);
}

/// After resizing, refreshing shows the whole viewport as it then is.
pub proof fn law_resizing_is_shown(
    before: ModelState,
    size: TerminalSize,
    content: TermContent,
    shown: FrameView,
    res: FrameView,
)
    requires
        before.well_formed(),
        before.resized(size, content).well_formed(),
        shows_whole(shown, before.content),
        shows_state(shown, before.resized(size, content), res),
    ensures
        shows_whole(res, before.resized(size, content).content),
{
    law_refreshing_keeps_the_frame_whole(before, before.resized(size, content), shown, res);
}

/// After the history was limited, refreshing shows the whole viewport as it then is.
pub proof fn law_limiting_is_shown(
    before: ModelState,
    limit: nat,
    shown: FrameView,
    res: FrameView,
)
    requires
        before.well_formed(),
        before.limited(limit).well_formed(),
        shows_whole(shown, before.content),
        shows_state(shown, before.limited(limit), res),
    ensures
        shows_whole(res, before.limited(limit).content),
{
    law_refreshing_keeps_the_frame_whole(before, before.limited(limit), shown, res);
}

/// After going on to a match, refreshing shows the whole viewport as it then is.
pub proof fn law_navigation_is_shown(
    before: ModelState,
    direction: SearchDirection,
    after: ModelState,
    report: SearchView,
    shown: FrameView,
    res: FrameView,
)
    requires
        before.well_formed(),
        after.well_formed(),
        shows_whole(shown, before.content),
        navigated(before, direction, after, report),
        shows_state(shown, after, res),
    ensures
        shows_whole(res, after.content),
{
    law_refreshing_keeps_the_frame_whole(before, after, shown, res);
}

/// What is shown after a patch is what the patch says of the cursor, the selection, the modes, the
/// size and the rest. Each of its cells is one of the patch or, outside of what was reported as
/// changed, one that was shown before.
pub proof fn law_patched_frame_holds_nothing_stale(
    before: FrameView,
    patch: FrameView,
    after: FrameView,
    cell: RenderCellView,
)
    requires
        refreshed(before, patch, after),
    ensures
        after.cursor == patch.cursor,
        after.selection == patch.selection,
        after.modes == patch.modes,
        after.size == patch.size,
        after.revision == patch.revision,
        after.display_offset == patch.display_offset,
        patch.damage is Full ==> after.cells == patch.cells,
        patch.size != before.size || patch.display_offset != before.display_offset ==> after.cells
            == patch.cells,
        patch.size == before.size && patch.display_offset == before.display_offset ==> (
        match patch.damage {
            DamageView::Full => true,
            DamageView::Unchanged => after.cells == before.cells,
            DamageView::Partial(regions) => after.cells.contains(cell) <==> patch.cells.contains(
                cell,
            ) || (before.cells.contains(cell) && !(exists|i: int|
                0 <= i < regions.len() && (#[trigger] regions[i]).row == cell.row && regions[i].left
                    <= cell.column <= regions[i].right)),
        }),
{
    if let DamageView::Partial(regions) = patch.damage {
        if !replaces(before, patch) {
            let keep = |cell: RenderCellView|
                !regions_cover(regions, cell.row as int, cell.column as int);
            let outside = cells_outside(before.cells, regions);
            let all = outside + patch.cells;
            lemma_filtered_are_contained(before.cells, keep);
            all.to_multiset_ensures();
            after.cells.to_multiset_ensures();
            assert(all.contains(cell) == after.cells.contains(cell)) by {
                assert(all.to_multiset().count(cell) > 0 <==> all.contains(cell));
                assert(after.cells.to_multiset().count(cell) > 0 <==> after.cells.contains(cell));
            }
            lemma_contains_add(outside, patch.cells, cell);
            if before.cells.contains(cell) && keep(cell) {
                let i = choose|i: int| 0 <= i < before.cells.len() && before.cells[i] == cell;
                before.cells.lemma_filter_contains(keep, i);
            }
            if regions_cover(regions, cell.row as int, cell.column as int) {
                let i = choose|i: int|
                    0 <= i < regions.len() && region_covers(
                        #[trigger] regions[i],
                        cell.row as int,
                        cell.column as int,
                    );
                assert(regions[i].row == cell.row);
            }
            if exists|i: int|
                0 <= i < regions.len() && (#[trigger] regions[i]).row == cell.row && regions[i].left
                    <= cell.column <= regions[i].right {
                let i = choose|i: int|
                    0 <= i < regions.len() && (#[trigger] regions[i]).row == cell.row
                        && regions[i].left <= cell.column <= regions[i].right;
                assert(region_covers(regions[i], cell.row as int, cell.column as int));
            }
        }
    }
}

proof fn lemma_contains_add(
    a: Seq<RenderCellView>,
    b: Seq<RenderCellView>,
    cell: RenderCellView,
)
    ensures
        (a + b).contains(cell) <==> a.contains(cell) || b.contains(cell),
{
    if a.contains(cell) {
        let i = choose|i: int| 0 <= i < a.len() && a[i] == cell;
        assert((a + b)[i] == cell);
    }
    if b.contains(cell) {
        let i = choose|i: int| 0 <= i < b.len() && b[i] == cell;
        assert((a + b)[a.len() + i] == cell);
    }
    if (a + b).contains(cell) {
        let i = choose|i: int| 0 <= i < (a + b).len() && (a + b)[i] == cell;
        if i < a.len() {
            assert(a[i] == cell);
        } else {
            assert(b[i - a.len()] == cell);
        }
    }
}

} // verus!
