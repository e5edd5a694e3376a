//! What each step changes of a terminal, and what it leaves alone.

use vstd::prelude::*;
use vstd::utf8::*;

use crate::terminal::emulator::{
    scrolled_offset, EmulatorEventView, InputEffect, TermContent,
};
use crate::terminal::findings::{
    law_navigation_goes_in_turn, law_viewport_moves_no_further_than_needed,
};
use crate::terminal::model::{
    action_for, actions_for, host_writes, last_index, lemma_actions_add, navigated, next_revision,
    other_actions, reported_damage, restart_marker, ModelState,
};
use crate::terminal::search::following;
use crate::terminal::types::{
    within_range, ActionView, BufferRange, CellPoint, CellRange, ClipboardKind, DamageRegion,
    DamageView, SearchDirection, SearchView, TerminalSize,
};
use crate::text::printable;

verus! {

/// What the emulator tells is passed on with its contents: a reply goes to the host byte by byte, a
/// title is the title, and a request about a clipboard is about that clipboard. What only concerns
/// drawing asks for drawing. Questions that are never answered ask for nothing.
pub proof fn law_notifications_are_passed_on(
    text: Seq<char>,
    selection: bool,
    request: alacritty_terminal::event::Event,
)
    ensures
        action_for(EmulatorEventView::PtyWrite(text)) matches Some(ActionView::WriteToHost(bytes))
            && valid_utf8(bytes) && decode_utf8(bytes) == text,
        action_for(EmulatorEventView::Title(text)) == Some(ActionView::Title(text)),
        action_for(EmulatorEventView::ResetTitle) == Some(ActionView::ResetTitle),
        action_for(EmulatorEventView::Bell) == Some(ActionView::Bell),
        action_for(EmulatorEventView::Exit) == Some(ActionView::ExitRequested),
        action_for(EmulatorEventView::ClipboardStore(selection, text)) matches Some(
            ActionView::ClipboardStore { kind, text: stored },
        ) && stored == text && (kind == ClipboardKind::Selection <==> selection),
        action_for(EmulatorEventView::ClipboardLoad(selection, request)) matches Some(
            ActionView::ClipboardLoad { kind, request: asked },
        ) && asked == request && (kind == ClipboardKind::Selection <==> selection),
        action_for(EmulatorEventView::Wakeup) == Some(ActionView::Wakeup),
        action_for(EmulatorEventView::CursorBlinkingChange) == Some(ActionView::Wakeup),
        action_for(EmulatorEventView::MouseCursorDirty) == Some(ActionView::Wakeup),
        action_for(EmulatorEventView::ColorRequest) is None,
        action_for(EmulatorEventView::TextAreaSizeRequest) is None,
        action_for(EmulatorEventView::ChildExit) is None,
{
    encode_utf8_valid_utf8(text);
    encode_utf8_decode_utf8(text);
}

/// Notifications are passed on one by one, in the order in which they came.
pub proof fn law_notifications_keep_their_order(
    earlier: Seq<EmulatorEventView>,
    event: EmulatorEventView,
    later: Seq<EmulatorEventView>,
)
    ensures
        actions_for(earlier + seq![event] + later) == actions_for(earlier) + (
        match action_for(event) {
            Some(action) => seq![action],
            None => Seq::empty(),
        }) + actions_for(later),
{
    lemma_actions_add(earlier + seq![event], later);
    lemma_actions_add(earlier, seq![event]);
    assert(seq![event].drop_last() =~= Seq::empty());
    assert(actions_for(seq![event].drop_last()) =~= Seq::empty());
    assert(actions_for(seq![event]) =~= match action_for(event) {
        Some(action) => seq![action],
        None => Seq::empty(),
    });
}

/// Parting what goes to the host from the other actions loses nothing and adds nothing.
pub proof fn law_parting_loses_nothing(actions: Seq<ActionView>)
    ensures
        host_writes(actions).len() + other_actions(actions).len() == actions.len(),
        forall|i: int|
            0 <= i < actions.len() ==> (if actions[i] is WriteToHost {
                host_writes(actions).contains(actions[i]->WriteToHost_0)
            } else {
                other_actions(actions).contains(#[trigger] actions[i])
            }),
    decreases actions.len(),
{
    reveal(Seq::filter);
    if actions.len() > 0 {
        let shorter = actions.drop_last();
        law_parting_loses_nothing(shorter);
        assert forall|i: int| 0 <= i < actions.len() implies (if actions[i] is WriteToHost {
            host_writes(actions).contains(actions[i]->WriteToHost_0)
        } else {
            other_actions(actions).contains(#[trigger] actions[i])
        }) by {
            if i < shorter.len() {
                assert(shorter[i] == actions[i]);
                if actions[i] is WriteToHost {
                    let k = choose|k: int|
                        0 <= k < host_writes(shorter).len() && host_writes(shorter)[k]
                            == actions[i]->WriteToHost_0;
                    assert(host_writes(actions)[k] == actions[i]->WriteToHost_0);
                } else {
                    let k = choose|k: int|
                        0 <= k < other_actions(shorter).len() && other_actions(shorter)[k]
                            == actions[i];
                    assert(other_actions(actions)[k] == actions[i]);
                }
            } else if actions[i] is WriteToHost {
                assert(host_writes(actions)[host_writes(shorter).len() as int]
                    == actions[i]->WriteToHost_0);
            } else {
                assert(other_actions(actions)[other_actions(shorter).len() as int] == actions[i]);
            }
        }
    }
}

/// Revisions tell one state from the next. They count up by one until they start over.
pub proof fn law_revisions_count_up(revision: u64)
    ensures
        next_revision(revision) != revision,
        revision < u64::MAX ==> next_revision(revision) == revision + 1,
        revision == u64::MAX ==> next_revision(revision) == 0,
{
}

/// Input shows what it leads to, queues what it asks for behind what was asked for before, and
/// leaves the selection and the search alone.
pub proof fn law_input_leaves_selection_and_search_alone(state: ModelState, effect: InputEffect)
    ensures
        ({
            let after = state.fed(effect);
            &&& after.content == effect.content
            &&& after.damage == effect.damage
            &&& after.title == effect.title
            &&& after.pending.len() == state.pending.len() + actions_for(effect.sent).len()
            &&& after.pending.take(state.pending.len() as int) == state.pending
            &&& after.pending.skip(state.pending.len() as int) == actions_for(effect.sent)
            &&& after.selection == state.selection
            &&& after.matches == state.matches
            &&& after.current == state.current
            &&& after.revision != state.revision
        }),
{
    let after = state.fed(effect);
    assert(after.pending.take(state.pending.len() as int) =~= state.pending);
    assert(after.pending.skip(state.pending.len() as int) =~= actions_for(effect.sent));
}

/// Resizing to the size that the screen has changes nothing but the revision. Another size has the
/// whole screen drawn anew. Neither touches the selection, the search, the title or the queue.
pub proof fn law_resizing_concerns_the_screen(
    state: ModelState,
    size: TerminalSize,
    content: TermContent,
)
    ensures
        ({
            let after = state.resized(size, content);
            let same = size.columns == state.content.columns && size.lines
                == state.content.screen_lines;
            &&& same ==> after.content == state.content && after.damage == state.damage
            &&& !same ==> after.content == content && reported_damage(after.damage)
                == DamageView::Full
            &&& after.selection == state.selection
            &&& after.matches == state.matches
            &&& after.current == state.current
            &&& after.title == state.title
            &&& after.pending == state.pending
            &&& after.revision != state.revision
        }),
{
}

/// Scrolling moves the viewport and changes nothing of what the terminal holds. A viewport that
/// moved is drawn whole.
pub proof fn law_scrolling_changes_the_viewport_alone(state: ModelState, offset: nat)
    ensures
        ({
            let after = state.moved(offset);
            &&& after.content.display_offset == offset
            &&& after.content.rows == state.content.rows
            &&& after.content.cursor == state.content.cursor
            &&& after.content.mode == state.content.mode
            &&& after.content.colors == state.content.colors
            &&& after.content.columns == state.content.columns
            &&& after.content.screen_lines == state.content.screen_lines
            &&& after.content.history_limit == state.content.history_limit
            &&& offset != state.content.display_offset ==> reported_damage(after.damage)
                == DamageView::Full
            &&& offset == state.content.display_offset ==> after.damage == state.damage
            &&& after.selection == state.selection
            &&& after.matches == state.matches
            &&& after.current == state.current
            &&& after.title == state.title
            &&& after.pending == state.pending.push(ActionView::Wakeup)
        }),
{
}

/// Scrolling goes towards the history by a positive number of rows and towards the screen by a
/// negative one. It goes as far as it was asked to, or to the end of the buffer.
pub proof fn law_scrolling_goes_as_far_as_asked(content: TermContent, delta: int)
    requires
        content.well_formed(),
        content.display_offset <= content.history(),
    ensures
        ({
            let after = scrolled_offset(content, delta);
            let target = content.display_offset + delta;
            &&& 0 <= target <= content.history() ==> after == target
            &&& target < 0 ==> after == 0
            &&& target > content.history() ==> after == content.history()
            &&& delta >= 0 ==> after >= content.display_offset
            &&& delta <= 0 ==> after <= content.display_offset
        }),
{
}

/// Limiting the history changes neither the screen nor the cursor, nor the selection, the search and
/// the title. It has the whole screen drawn anew and the title told again, behind what was asked for
/// before.
pub proof fn law_limiting_concerns_the_history(state: ModelState, limit: nat)
    requires
        state.well_formed(),
    ensures
        ({
            let after = state.limited(limit);
            &&& after.content.history_limit == limit
            &&& after.content.history() <= limit
            &&& after.content.history() <= state.content.history()
            &&& after.content.display_offset <= limit
            &&& after.content.display_offset <= state.content.display_offset
            &&& after.content.columns == state.content.columns
            &&& after.content.screen_lines == state.content.screen_lines
            &&& after.content.cursor == state.content.cursor
            &&& after.content.mode == state.content.mode
            &&& after.content.rows.skip(after.content.history()) == state.content.rows.skip(
                state.content.history(),
            )
            &&& reported_damage(after.damage) == DamageView::Full
            &&& after.selection == state.selection
            &&& after.matches == state.matches
            &&& after.current == state.current
            &&& after.title == state.title
            &&& after.pending.drop_last() == state.pending
            &&& state.title matches Some(title) ==> after.pending.last() == ActionView::Title(title)
            &&& state.title is None ==> after.pending.last() == ActionView::ResetTitle
        }),
{
    let after = state.limited(limit);
    assert(after.content.rows.skip(after.content.history()) =~= state.content.rows.skip(
        state.content.history(),
    ));
    assert(after.pending.drop_last() =~= state.pending);
}

/// A frame reports what changed as it is: the whole screen, the regions, or nothing.
pub proof fn law_damage_is_reported_as_it_is(regions: Seq<DamageRegion>)
    ensures
        reported_damage(None) == DamageView::Full,
        regions.len() > 0 ==> reported_damage(Some(regions)) == DamageView::Partial(regions),
        regions.len() == 0 ==> reported_damage(Some(regions)) == DamageView::Unchanged,
{
}

/// A search begins at the last of its matches, the one nearest to the end of the screen.
pub proof fn law_search_begins_at_the_end(matches: Seq<BufferRange>, found: BufferRange)
    requires
        matches.len() < usize::MAX,
    ensures
        last_index(Seq::empty()) is None,
        last_index(matches.push(found)) matches Some(index) && matches.push(found)[index as int]
            == found && index == matches.len(),
{
}

/// Between two sessions the name of the profile is written as it is, but for control characters,
/// on a line of its own. Everything before it leaves the screen clean: the alternate screen, the
/// mouse, bracketed paste and colors are switched off.
pub proof fn law_restart_marker_names_the_profile(name: Seq<char>)
    ensures
        ({
            let marker = restart_marker(name);
            let shown = printable(name);
            let start = marker.len() - 6 - shown.len();
            &&& start > 0
            &&& marker.subrange(start, start + shown.len()) == shown
            &&& marker.skip(marker.len() - 2) == seq!['\r', '\n']
            &&& marker.take(8) == seq!['\x1b', '[', '?', '1', '0', '4', '9', 'l']
            &&& marker.subrange(8, 16) == seq!['\x1b', '[', '?', '1', '0', '0', '0', 'l']
            &&& marker.subrange(16, 24) == seq!['\x1b', '[', '?', '1', '0', '0', '2', 'l']
            &&& marker.subrange(24, 32) == seq!['\x1b', '[', '?', '1', '0', '0', '3', 'l']
            &&& marker.subrange(32, 40) == seq!['\x1b', '[', '?', '2', '0', '0', '4', 'l']
            &&& marker.subrange(40, 44) == seq!['\x1b', '[', '0', 'm']
            &&& marker.subrange(44, 46) == seq!['\r', '\n']
        }),
{
    reveal_strlit(
        "\x1b[?1049l\x1b[?1000l\x1b[?1002l\x1b[?1003l\x1b[?2004l\x1b[0m\r\n\r\n--- Matcha · ",
    );
    reveal_strlit(" ---\r\n");
    let marker = restart_marker(name);
    let shown = printable(name);
    let start = marker.len() - 6 - shown.len();
    assert(marker.subrange(start, start + shown.len()) =~= shown);
    assert(marker.skip(marker.len() - 2) =~= seq!['\r', '\n']);
    assert(marker.take(8) =~= seq!['\x1b', '[', '?', '1', '0', '4', '9', 'l']);
    assert(marker.subrange(8, 16) =~= seq!['\x1b', '[', '?', '1', '0', '0', '0', 'l']);
    assert(marker.subrange(16, 24) =~= seq!['\x1b', '[', '?', '1', '0', '0', '2', 'l']);
    assert(marker.subrange(24, 32) =~= seq!['\x1b', '[', '?', '1', '0', '0', '3', 'l']);
    assert(marker.subrange(32, 40) =~= seq!['\x1b', '[', '?', '2', '0', '0', '4', 'l']);
    assert(marker.subrange(40, 44) =~= seq!['\x1b', '[', '0', 'm']);
    assert(marker.subrange(44, 46) =~= seq!['\r', '\n']);
}

/// Going on makes the next match in turn, or the one before, the current one, and brings it into
/// view. It changes neither the matches nor what the terminal holds, and reports the match that is
/// now the current one.
pub proof fn law_navigation_goes_to_the_match(
    before: ModelState,
    direction: SearchDirection,
    after: ModelState,
    report: SearchView,
)
    requires
        before.well_formed(),
        before.matches.len() <= usize::MAX,
        navigated(before, direction, after, report),
        before.current is Some,
    ensures
        ({
            let count = before.matches.len() as int;
            let from = before.current.unwrap() as int;
            let to: int = if direction == SearchDirection::Next {
                (from + 1) % count
            } else {
                (from + count - 1) % count
            };
            let found = before.matches[to];
            &&& after.current == Some(to as usize)
            &&& report.current == Some(to as usize)
            &&& report.total == count
            &&& after.matches == before.matches
            &&& after.selection == before.selection
            &&& after.title == before.title
            &&& after.content == (TermContent {
                display_offset: after.content.display_offset,
                ..before.content
            })
            &&& after.revision != before.revision
            &&& before.content.has_line(found.start.line as int) ==> 0 <= found.start.line
                + after.content.display_offset < before.content.screen_lines
        }),
{
    let count = before.matches.len() as int;
    let from = before.current.unwrap() as int;
    law_navigation_goes_in_turn(from, count);
    let to = following(from, count, direction);
    let found = before.matches[to];
    if before.content.has_line(found.start.line as int) {
        law_viewport_moves_no_further_than_needed(before.content, found);
    }
}

/// Where there are no matches going on does nothing and reports nothing.
pub proof fn law_navigation_needs_matches(
    before: ModelState,
    direction: SearchDirection,
    after: ModelState,
    report: SearchView,
)
    requires
        navigated(before, direction, after, report),
        before.current is None,
    ensures
        after == before,
        report.matches.len() == 0,
        report.total == 0,
        report.active is None,
        report.current is None,
{
}

/// Selecting changes the selection alone. It selects just the cells between the two ends, whichever
/// was named first; selecting nothing ends the selection.
pub proof fn law_selecting_concerns_the_selection(
    state: ModelState,
    selection: Option<CellRange>,
    point: CellPoint,
)
    ensures
        ({
            let after = state.selecting(selection);
            &&& after == (ModelState {
                selection: after.selection,
                revision: after.revision,
                ..state
            })
            &&& after.revision != state.revision
            &&& selection is None ==> after.selection is None
            &&& selection matches Some(range) ==> (after.selection matches Some(kept) && {
                &&& within_range(kept, point) <==> within_range(range, point)
                &&& kept.start.row < kept.end.row || (kept.start.row == kept.end.row
                    && kept.start.column <= kept.end.column)
            })
        }),
{
}

/// Between two sessions the screen and the history stay, but for what the marker writes. Nothing is
/// selected any longer, the search is forgotten, and what was asked for before is still asked for.
pub proof fn law_restarting_keeps_the_screen(state: ModelState, effect: InputEffect)
    ensures
        ({
            let after = state.restarted(effect);
            &&& after.content == effect.content
            &&& after.title == effect.title
            &&& after.selection is None
            &&& after.matches.len() == 0
            &&& after.current is None
            &&& after.pending == state.pending + actions_for(effect.sent)
            &&& state.revision < u64::MAX - 1 ==> after.revision == state.revision + 2
        }),
{
}

} // verus!
