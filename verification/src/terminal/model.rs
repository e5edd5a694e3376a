//! The terminal model: an emulator with a selection, a search and a queue of actions.

use alacritty_terminal::event::Event;
use vstd::prelude::*;
use vstd::string::*;
use vstd::utf8::*;

use crate::terminal::emulator::{
    advance, columns, content_after_resize, contents_of, convert_event, damage_once_drawn,
    display_offset, emulator_state, event_contents, initial_content, input_effect, limited_content,
    new_emulator, read_damage, reset_damage, resize, screen_lines, scroll_display, scrolled_offset,
    set_history_limit, take_events, title_event, total_lines, Emulator, EmulatorEvent,
    EmulatorEventView, InputEffect, TermContent, MIN_COLUMNS, MIN_LINES, MODE_INSERT,
};
use crate::terminal::excerpt::{frame_text, range_text, selected_text, shown_text};
use crate::terminal::frame::{extract_frame, frame_of};
use crate::terminal::search::{
    collect_search_matches, following, found_in, in_view, next_match, revealing_offset,
    scroll_match_into_view, search_report, visible_search_result,
};
use crate::terminal::types::{
    action_views, no_matches, ordered_range, ActionView, BufferRange, CellRange, ClipboardKind,
    DamageRegion, DamageView, FrameDamage, SearchDirection, SearchRequest, SearchResult, SearchView,
    TerminalAction, TerminalFrame, TerminalSize,
};
use crate::text::{bytes_of, control, printable, without_control};

verus! {

/// The clipboard that a notification is about.
pub open spec fn clipboard_meant(selection: bool) -> ClipboardKind {
    if selection {
        ClipboardKind::Selection
    } else {
        ClipboardKind::Clipboard
    }
}

/// The clipboard that a notification is about.
pub fn clipboard_kind(selection: bool) -> (res: ClipboardKind)
    ensures
        res == clipboard_meant(selection),
{
    if selection {
        ClipboardKind::Selection
    } else {
        ClipboardKind::Clipboard
    }
}

/// The action that a notification of the emulator asks for, if any.
pub open spec fn action_for(event: EmulatorEventView) -> Option<ActionView> {
    match event {
        EmulatorEventView::PtyWrite(text) => Some(ActionView::WriteToHost(encode_utf8(text))),
        EmulatorEventView::Title(title) => Some(ActionView::Title(title)),
        EmulatorEventView::ResetTitle => Some(ActionView::ResetTitle),
        EmulatorEventView::Bell => Some(ActionView::Bell),
        EmulatorEventView::Wakeup
        | EmulatorEventView::CursorBlinkingChange
        | EmulatorEventView::MouseCursorDirty => Some(ActionView::Wakeup),
        EmulatorEventView::Exit => Some(ActionView::ExitRequested),
        EmulatorEventView::ClipboardStore(selection, text) => Some(
            ActionView::ClipboardStore { kind: clipboard_meant(selection), text },
        ),
        EmulatorEventView::ClipboardLoad(selection, request) => Some(
            ActionView::ClipboardLoad { kind: clipboard_meant(selection), request },
        ),
        EmulatorEventView::ColorRequest
        | EmulatorEventView::TextAreaSizeRequest
        | EmulatorEventView::ChildExit => None,
    }
}

/// The actions that notifications of the emulator ask for, in order.
pub open spec fn actions_for(events: Seq<EmulatorEventView>) -> Seq<ActionView>
    decreases events.len(),
{
    if events.len() == 0 {
        Seq::empty()
    } else {
        let before = actions_for(events.drop_last());
        match action_for(events.last()) {
            Some(action) => before.push(action),
            None => before,
        }
    }
}

/// The action that a notification of the emulator asks for, if any.
pub fn action_of(event: EmulatorEvent) -> (res: Option<TerminalAction>)
    ensures
        match res {
            Some(action) => action_for(event@) == Some(action@),
            None => action_for(event@) is None,
        },
{
    match event {
        EmulatorEvent::PtyWrite(text) => Some(TerminalAction::WriteToHost(bytes_of(text.as_str()))),
        EmulatorEvent::Title(title) => Some(TerminalAction::Title(title)),
        EmulatorEvent::ResetTitle => Some(TerminalAction::ResetTitle),
        EmulatorEvent::Bell => Some(TerminalAction::Bell),
        EmulatorEvent::Wakeup
        | EmulatorEvent::CursorBlinkingChange
        | EmulatorEvent::MouseCursorDirty => Some(TerminalAction::Wakeup),
        EmulatorEvent::Exit => Some(TerminalAction::ExitRequested),
        EmulatorEvent::ClipboardStore(selection, text) => Some(
            TerminalAction::ClipboardStore { kind: clipboard_kind(selection), text },
        ),
        EmulatorEvent::ClipboardLoad(selection, request) => Some(
            TerminalAction::ClipboardLoad { kind: clipboard_kind(selection), request },
        ),
        EmulatorEvent::ColorRequest
        | EmulatorEvent::TextAreaSizeRequest
        | EmulatorEvent::ChildExit => None,
    }
}

/// Appends the actions that `events` ask for to `queue`.
pub fn queue_actions(queue: &mut Vec<TerminalAction>, events: Vec<Event>)
    ensures
        action_views(final(queue)@) == action_views(old(queue)@) + actions_for(
            contents_of(events@),
        ),
{
    let ghost before = action_views(queue@);
    let ghost views = contents_of(events@);
    assert(before + actions_for(views.take(0)) =~= before);
    for event in it: events
        invariant
            it.seq() == events@,
            views == contents_of(events@),
            action_views(queue@) == before + actions_for(views.take(it.index() as int)),
    {
        let ghost index = it.index() as int;
        proof {
            assert(views[index] == event_contents(event));
            assert(views.take(index + 1).drop_last() =~= views.take(index));
        }
        if let Some(action) = action_of(convert_event(event)) {
            assert(action_views(queue@.push(action)) =~= action_views(queue@).push(action@));
            queue.push(action);
        }
        assert(action_views(queue@) =~= before + actions_for(views.take(index + 1)));
    }
    assert(views.take(views.len() as int) =~= views);
}

/// What two stretches of notifications ask for is what each asks for, one after the other.
pub proof fn lemma_actions_add(a: Seq<EmulatorEventView>, b: Seq<EmulatorEventView>)
    ensures
        actions_for(a + b) == actions_for(a) + actions_for(b),
    decreases b.len(),
{
    if b.len() == 0 {
        assert(a + b =~= a);
        assert(actions_for(a) + actions_for(b) =~= actions_for(a));
    } else {
        lemma_actions_add(a, b.drop_last());
        assert((a + b).drop_last() =~= a + b.drop_last());
        assert(actions_for(a + b) =~= actions_for(a) + actions_for(b));
    }
}

proof fn lemma_actions_push(events: Seq<EmulatorEventView>, event: EmulatorEventView)
    ensures
        actions_for(events.push(event)) == match action_for(event) {
            Some(action) => actions_for(events).push(action),
            None => actions_for(events),
        },
{
    assert(events.push(event).drop_last() =~= events);
}

/// What the application writes back to the host, in order.
pub open spec fn host_writes(actions: Seq<ActionView>) -> Seq<Seq<u8>>
    decreases actions.len(),
{
    if actions.len() == 0 {
        Seq::empty()
    } else {
        let before = host_writes(actions.drop_last());
        match actions.last() {
            ActionView::WriteToHost(bytes) => before.push(bytes),
            _ => before,
        }
    }
}

/// The actions other than writes to the host, in order.
pub open spec fn other_actions(actions: Seq<ActionView>) -> Seq<ActionView> {
    actions.filter(|action: ActionView| !(action is WriteToHost))
}

/// The contents of a sequence of byte strings.
pub open spec fn byte_strings(strings: Seq<Vec<u8>>) -> Seq<Seq<u8>> {
    strings.map_values(|bytes: Vec<u8>| bytes@)
}

/// Parts writes to the host from the other actions; both keep their order.
pub fn split_actions(actions: Vec<TerminalAction>) -> (res: (Vec<Vec<u8>>, Vec<TerminalAction>))
    ensures
        byte_strings(res.0@) == host_writes(action_views(actions@)),
        action_views(res.1@) == other_actions(action_views(actions@)),
{
    let mut responses: Vec<Vec<u8>> = Vec::new();
    let mut retained: Vec<TerminalAction> = Vec::new();
    let ghost views = action_views(actions@);
    proof {
        reveal(Seq::filter);
        assert(byte_strings(responses@) =~= host_writes(views.take(0)));
        assert(action_views(retained@) =~= other_actions(views.take(0)));
    }
    for action in it: actions
        invariant
            it.seq() == actions@,
            views == action_views(actions@),
            byte_strings(responses@) == host_writes(views.take(it.index() as int)),
            action_views(retained@) == other_actions(views.take(it.index() as int)),
    {
        let ghost index = it.index() as int;
        proof {
            reveal(Seq::filter);
            assert(views[index] == action@);
            assert(views.take(index + 1).drop_last() =~= views.take(index));
        }
        match action {
            TerminalAction::WriteToHost(bytes) => {
                assert(byte_strings(responses@.push(bytes)) =~= byte_strings(responses@).push(
                    bytes@,
                ));
                responses.push(bytes);
            },
            other => {
                assert(action_views(retained@.push(other)) =~= action_views(retained@).push(
                    other@,
                ));
                retained.push(other);
            },
        }
    }
    assert(views.take(views.len() as int) =~= views);
    (responses, retained)
}

/// What a terminal model holds.
///
/// `damage` is what the next frame reports as changed; nothing stands for the whole screen. `title`
/// is the title that the application chose last. `matches` and `current` belong to the latest
/// search. `pending` holds actions that nobody has taken yet.
#[verifier::ext_equal]
pub struct ModelState {
    pub content: TermContent,
    pub damage: Option<Seq<DamageRegion>>,
    pub title: Option<Seq<char>>,
    pub revision: u64,
    pub selection: Option<CellRange>,
    pub matches: Seq<BufferRange>,
    pub current: Option<usize>,
    pub pending: Seq<ActionView>,
}

impl ModelState {
    pub open spec fn well_formed(self) -> bool {
        &&& self.content.well_formed()
        &&& match self.current {
            Some(index) => index < self.matches.len(),
            None => self.matches.len() == 0,
        }
    }

    /// The same state, one revision later.
    pub open spec fn revised(self) -> ModelState {
        ModelState { revision: next_revision(self.revision), ..self }
    }

    /// The state once a frame was taken: all that is left to draw is the cell of the cursor, or
    /// the whole screen in insert mode.
    pub open spec fn drawn(self) -> ModelState {
        ModelState { damage: damage_once_drawn(self.content), ..self }
    }

    /// The state after input with the given effect.
    pub open spec fn fed(self, effect: InputEffect) -> ModelState {
        ModelState {
            content: effect.content,
            damage: effect.damage,
            title: effect.title,
            pending: self.pending + actions_for(effect.sent),
            ..self
        }.revised()
    }

    /// The state once `selection` is selected, with its ends in reading order.
    pub open spec fn selecting(self, selection: Option<CellRange>) -> ModelState {
        ModelState {
            selection: match selection {
                Some(range) => Some(ordered_range(range)),
                None => None,
            },
            ..self
        }.revised()
    }

    /// The state in which another session starts, after input with the given effect marked that:
    /// nothing is selected, and nothing was searched for.
    pub open spec fn restarted(self, effect: InputEffect) -> ModelState {
        ModelState { selection: None, matches: Seq::empty(), current: None, ..self.fed(effect) }.revised()
    }

    /// The state after the screen took on another size, with `content` on it. Its own size changes
    /// nothing; another one has to be drawn whole.
    pub open spec fn resized(self, size: TerminalSize, content: TermContent) -> ModelState {
        if size.columns == self.content.columns && size.lines == self.content.screen_lines {
            self.revised()
        } else {
            ModelState { content, damage: None, ..self }.revised()
        }
    }

    /// The state after the viewport was told to move to `offset`. Where it moved, the screen has
    /// to be drawn whole.
    pub open spec fn moved(self, offset: nat) -> ModelState {
        ModelState {
            content: TermContent { display_offset: offset, ..self.content },
            damage: if offset == self.content.display_offset {
                self.damage
            } else {
                None
            },
            pending: self.pending.push(ActionView::Wakeup),
            ..self
        }
    }

    /// The state once the viewport shows `found`. A viewport that showed the match is not told to
    /// move.
    pub open spec fn revealing(self, found: BufferRange) -> ModelState {
        let content = self.content;
        if in_view(found, content.display_offset as int, content.screen_lines as int) {
            self
        } else {
            self.moved(revealing_offset(content, found))
        }
    }

    /// The state once the history is limited to `limit` rows. The screen has to be drawn whole, and
    /// the title is told again.
    pub open spec fn limited(self, limit: nat) -> ModelState {
        ModelState {
            content: limited_content(self.content, limit),
            damage: None,
            pending: self.pending.push(
                match self.title {
                    Some(title) => ActionView::Title(title),
                    None => ActionView::ResetTitle,
                },
            ),
            ..self
        }.revised()
    }
}

/// Revisions count up and start over after the last one.
pub open spec fn next_revision(revision: u64) -> u64 {
    if revision == u64::MAX {
        0
    } else {
        (revision + 1) as u64
    }
}

/// What a frame reports as changed.
pub open spec fn reported_damage(damage: Option<Seq<DamageRegion>>) -> DamageView {
    match damage {
        None => DamageView::Full,
        Some(regions) => if regions.len() == 0 {
            DamageView::Unchanged
        } else {
            DamageView::Partial(regions)
        },
    }
}

/// Where the search stands after it found `matches`: at the last of them.
pub open spec fn last_index(matches: Seq<BufferRange>) -> Option<usize> {
    if matches.len() == 0 {
        None
    } else {
        Some((matches.len() - 1) as usize)
    }
}

/// Whether going on to the next or previous match leads from `before` to `after` and is reported
/// as `report`: the match that follows becomes the current one and is scrolled into view. Nothing
/// happens where there are no matches.
pub open spec fn navigated(
    before: ModelState,
    direction: SearchDirection,
    after: ModelState,
    report: SearchView,
) -> bool {
    match before.current {
        None => after == before && report == no_matches(),
        Some(index) => {
            let next = following(index as int, before.matches.len() as int, direction);
            &&& after == (ModelState {
                current: Some(next as usize),
                ..before.revealing(before.matches[next])
            }).revised()
            &&& report == search_report(
                before.matches,
                Some(next as usize),
                revealing_offset(before.content, before.matches[next]) as int,
                before.content.screen_lines as int,
            )
        },
    }
}

/// What is written to the screen between two sessions: the modes that a program may have left
/// behind are switched off, and a line names the profile that starts.
pub open spec fn restart_marker(profile_name: Seq<char>) -> Seq<char> {
    "\x1b[?1049l\x1b[?1000l\x1b[?1002l\x1b[?1003l\x1b[?2004l\x1b[0m\r\n\r\n--- Matcha · "@
        + printable(profile_name) + " ---\r\n"@
}

/// A terminal emulator with a selection, a search and a queue of actions.
pub trait TerminalModel: Sized {
    spec fn state(&self) -> ModelState;

    /// What interpreting `bytes` leads to.
    spec fn input_effect(&self, bytes: Seq<u8>) -> InputEffect;

    /// What the emulator holds after its screen took on another size.
    spec fn after_resize(&self, columns: nat, lines: nat) -> TermContent;

    /// The actions that are left of `pending` once the host's responses were taken from it.
    spec fn left_behind(pending: Seq<ActionView>) -> Seq<ActionView>;

    /// Interprets what the host wrote. What it asks for is queued behind what was asked for before.
    fn feed(&mut self, bytes: &[u8])
        requires
            old(self).state().well_formed(),
        ensures
            final(self).state().well_formed(),
            final(self).state() == old(self).state().fed(old(self).input_effect(bytes@)),
            final(self).state().content.columns == old(self).state().content.columns,
            final(self).state().content.screen_lines == old(self).state().content.screen_lines,
            final(self).state().content.history_limit == old(self).state().content.history_limit,
    ;

    /// Gives the screen another size.
    fn resize(&mut self, size: TerminalSize)
        requires
            old(self).state().well_formed(),
            MIN_COLUMNS <= size.columns,
            MIN_LINES <= size.lines,
            size.lines + old(self).state().content.history_limit <= i32::MAX,
        ensures
            final(self).state().well_formed(),
            final(self).state() == old(self).state().resized(
                size,
                old(self).after_resize(size.columns as nat, size.lines as nat),
            ),
            final(self).state().content.columns == size.columns,
            final(self).state().content.screen_lines == size.lines,
            final(self).state().content.history_limit == old(self).state().content.history_limit,
    ;

    /// What changed since the previous frame.
    fn frame(&mut self) -> (res: TerminalFrame)
        requires
            old(self).state().well_formed(),
        ensures
            final(self).state() == old(self).state().drawn(),
            res@ == frame_of(
                old(self).state().content,
                old(self).state().revision,
                reported_damage(old(self).state().damage),
                old(self).state().selection,
            ),
    ;

    /// The whole screen, whatever changed.
    fn full_frame(&self) -> (res: TerminalFrame)
        requires
            self.state().well_formed(),
        ensures
            res@ == frame_of(
                self.state().content,
                self.state().revision,
                DamageView::Full,
                self.state().selection,
            ),
    ;

    fn size(&self) -> (res: TerminalSize)
        requires
            self.state().well_formed(),
        ensures
            res.columns == self.state().content.columns,
            res.lines == self.state().content.screen_lines,
    ;

    /// Takes the actions that were asked for and not yet taken, in order.
    fn drain_actions(&mut self) -> (res: Vec<TerminalAction>)
        ensures
            action_views(res@) == old(self).state().pending,
            final(self).state() == (ModelState { pending: Seq::empty(), ..old(self).state() }),
    ;

    /// Scrolls towards the history, or towards the screen where `lines` is negative.
    fn scroll(&mut self, lines: i32)
        requires
            old(self).state().well_formed(),
        ensures
            final(self).state().well_formed(),
            final(self).state() == old(self).state().moved(
                scrolled_offset(old(self).state().content, lines as int),
            ).revised(),
    ;

    /// Limits the history to `lines` rows.
    fn set_scrollback_limit(&mut self, lines: usize)
        requires
            old(self).state().well_formed(),
            old(self).state().content.screen_lines + lines <= i32::MAX,
        ensures
            final(self).state().well_formed(),
            final(self).state() == old(self).state().limited(lines as nat),
    ;

    fn set_selection(&mut self, selection: Option<CellRange>)
        ensures
            final(self).state() == old(self).state().selecting(selection),
    ;

    /// The selected text of the visible screen.
    fn selection_text(&self) -> (res: Option<String>)
        requires
            self.state().well_formed(),
        ensures
            match (self.state().selection, res) {
                (Some(range), Some(text)) => text@ == selected_text(
                    frame_of(
                        self.state().content,
                        self.state().revision,
                        DamageView::Full,
                        self.state().selection,
                    ),
                    range,
                ),
                (None, None) => true,
                _ => false,
            },
    ;

    /// Searches the whole buffer. The last match is the current one. An empty query, and one that
    /// is too long to be compiled, has no matches.
    fn search(&mut self, request: &SearchRequest) -> (res: SearchResult)
        requires
            old(self).state().well_formed(),
        ensures
            final(self).state().well_formed(),
            ({
                let state = old(self).state();
                let found = final(self).state().matches;
                &&& final(self).state() == (ModelState {
                    matches: found,
                    current: last_index(found),
                    ..state
                })
                &&& if request.query@.len() == 0 {
                    found.len() == 0
                } else {
                    found_in(state.content, request.query@, request.case_sensitive, found)
                }
                &&& res@ == search_report(
                    found,
                    last_index(found),
                    state.content.display_offset as int,
                    state.content.screen_lines as int,
                )
            }),
    ;

    /// Goes on to the next or previous match and scrolls until it is in view.
    fn navigate_search(&mut self, direction: SearchDirection) -> (res: SearchResult)
        requires
            old(self).state().well_formed(),
        ensures
            final(self).state().well_formed(),
            navigated(old(self).state(), direction, final(self).state(), res@),
    ;

    /// Keeps what is on the screen and in the history, and marks where another session starts.
    fn prepare_session_restart(&mut self, profile_name: &str)
        requires
            old(self).state().well_formed(),
        ensures
            final(self).state().well_formed(),
            final(self).state() == old(self).state().restarted(
                old(self).input_effect(encode_utf8(restart_marker(profile_name@))),
            ),
    ;

    /// Takes what is to be written to the host, in order. What is left of the other actions is the
    /// model's own decision.
    fn drain_host_responses(&mut self) -> (res: Vec<Vec<u8>>)
        ensures
            byte_strings(res@) == host_writes(old(self).state().pending),
            final(self).state() == (ModelState {
                pending: Self::left_behind(old(self).state().pending),
                ..old(self).state()
            }),
    ;

    /// Takes what is to be written to the host, in order, and drops the other actions. It serves
    /// models that leave nothing behind.
    fn drain_all_for_host(&mut self) -> (res: Vec<Vec<u8>>)
        ensures
            byte_strings(res@) == host_writes(old(self).state().pending),
            final(self).state() == (ModelState { pending: Seq::empty(), ..old(self).state() }),
    {
        let actions = self.drain_actions();
        let (responses, _retained) = split_actions(actions);
        responses
    }

    /// The text of the visible screen, without empty lines at its end.
    #[must_use]
    fn visible_text(&self) -> (res: String)
        requires
            self.state().well_formed(),
        ensures
            res@ == shown_text(
                frame_of(
                    self.state().content,
                    self.state().revision,
                    DamageView::Full,
                    self.state().selection,
                ),
            ),
    {
        frame_text(&self.full_frame())
    }
}

/// The terminal model on top of the `alacritty_terminal` emulator.
pub struct AlacrittyTerminal {
    emulator: Emulator,
    actions: Vec<TerminalAction>,
    selection: Option<CellRange>,
    matches: Vec<BufferRange>,
    current: Option<usize>,
    revision: u64,
}

/// How many rows of history a terminal keeps unless it is told otherwise.
pub const DEFAULT_SCROLLBACK: usize = 50_000;

/// The state of a terminal that has interpreted nothing yet.
pub open spec fn initial_state(size: TerminalSize, scrollback_lines: nat) -> ModelState {
    ModelState {
        content: initial_content(size.columns as nat, size.lines as nat, scrollback_lines),
        damage: None,
        title: None,
        revision: 0,
        selection: None,
        matches: Seq::empty(),
        current: None,
        pending: Seq::empty(),
    }
}

fn bump(revision: u64) -> (res: u64)
    ensures
        res == next_revision(revision),
{
    if revision == u64::MAX {
        0
    } else {
        revision + 1
    }
}

proof fn lemma_limited_content(content: TermContent, limit: nat)
    requires
        content.well_formed(),
        content.screen_lines + limit <= i32::MAX,
    ensures
        limited_content(content, limit).well_formed(),
{
}

impl AlacrittyTerminal {
    #[must_use]
    pub fn new(size: TerminalSize) -> (res: Self)
        requires
            MIN_COLUMNS <= size.columns,
            MIN_LINES <= size.lines,
            size.lines + DEFAULT_SCROLLBACK <= i32::MAX,
        ensures
            res.state() == initial_state(size, DEFAULT_SCROLLBACK as nat),
            res.state().well_formed(),
    {
        Self::new_with_scrollback(size, DEFAULT_SCROLLBACK)
    }

    #[must_use]
    pub fn new_with_scrollback(size: TerminalSize, scrollback_lines: usize) -> (res: Self)
        requires
            MIN_COLUMNS <= size.columns,
            MIN_LINES <= size.lines,
            size.lines + scrollback_lines <= i32::MAX,
        ensures
            res.state() == initial_state(size, scrollback_lines as nat),
            res.state().well_formed(),
    {
        let terminal = AlacrittyTerminal {
            emulator: new_emulator(size.columns, size.lines, scrollback_lines),
            actions: Vec::new(),
            selection: None,
            matches: Vec::new(),
            current: None,
            revision: 0,
        };
        assert(terminal.state().pending =~= Seq::empty());
        terminal
    }

    /// Number of history rows currently retained outside the visible screen.
    #[must_use]
    pub fn scrollback_len(&self) -> (res: usize)
        requires
            self.state().well_formed(),
        ensures
            res == self.state().content.history(),
            res <= self.state().content.history_limit,
    {
        total_lines(&self.emulator) - screen_lines(&self.emulator)
    }

    /// Takes over the matches of a search. The last match becomes the current one.
    fn adopt_matches(&mut self, matches: Vec<BufferRange>) -> (res: SearchResult)
        requires
            old(self).state().well_formed(),
        ensures
            final(self).state().well_formed(),
            final(self).state() == (ModelState {
                matches: matches@,
                current: last_index(matches@),
                ..old(self).state()
            }),
            res@ == search_report(
                matches@,
                last_index(matches@),
                old(self).state().content.display_offset as int,
                old(self).state().content.screen_lines as int,
            ),
    {
        self.current = if matches.len() == 0 {
            None
        } else {
            Some(matches.len() - 1)
        };
        self.matches = matches;
        visible_search_result(&self.emulator, &self.matches, self.current)
    }

    /// Moves what the emulator has asked for into the queue.
    fn collect_events(&mut self)
        ensures
            final(self).state() == old(self).state(),
            action_views(final(self).actions@) == old(self).state().pending,
    {
        let events = take_events(&mut self.emulator);
        queue_actions(&mut self.actions, events);
        assert(self.state().pending =~= old(self).state().pending);
    }
}

impl TerminalModel for AlacrittyTerminal {
    closed spec fn state(&self) -> ModelState {
        let emulator = emulator_state(self.emulator);
        ModelState {
            content: emulator.content,
            damage: emulator.damage,
            title: emulator.title,
            revision: self.revision,
            selection: self.selection,
            matches: self.matches@,
            current: self.current,
            pending: action_views(self.actions@) + actions_for(emulator.waiting),
        }
    }

    closed spec fn input_effect(&self, bytes: Seq<u8>) -> InputEffect {
        input_effect(self.emulator, bytes)
    }

    closed spec fn after_resize(&self, columns: nat, lines: nat) -> TermContent {
        content_after_resize(self.emulator, columns, lines)
    }

    open spec fn left_behind(pending: Seq<ActionView>) -> Seq<ActionView> {
        other_actions(pending)
    }

    fn feed(&mut self, bytes: &[u8]) {
        let ghost before = self.state();
        let ghost effect = self.input_effect(bytes@);
        proof {
            lemma_actions_add(emulator_state(self.emulator).waiting, effect.sent);
        }
        advance(&mut self.emulator, bytes);
        self.revision = bump(self.revision);
        assert(self.state().pending =~= before.fed(effect).pending);
    }

    fn resize(&mut self, size: TerminalSize) {
        resize(&mut self.emulator, size.columns, size.lines);
        self.revision = bump(self.revision);
    }

    fn frame(&mut self) -> (res: TerminalFrame) {
        let damage = match read_damage(&mut self.emulator) {
            None => FrameDamage::Full,
            Some(regions) => {
                if regions.len() == 0 {
                    FrameDamage::Unchanged
                } else {
                    FrameDamage::Partial(regions)
                }
            },
        };
        let frame = extract_frame(&self.emulator, self.revision, damage, self.selection);
        reset_damage(&mut self.emulator);
        frame
    }

    fn full_frame(&self) -> (res: TerminalFrame) {
        extract_frame(&self.emulator, self.revision, FrameDamage::Full, self.selection)
    }

    fn size(&self) -> (res: TerminalSize) {
        TerminalSize::new(columns(&self.emulator), screen_lines(&self.emulator))
    }

    fn drain_actions(&mut self) -> (res: Vec<TerminalAction>) {
        self.collect_events();
        let mut actions: Vec<TerminalAction> = Vec::new();
        actions.append(&mut self.actions);
        assert(self.state().pending =~= Seq::empty());
        actions
    }

    /// Takes what is to be written to the host, in order. Other actions stay where they are.
    fn drain_host_responses(&mut self) -> (res: Vec<Vec<u8>>) {
        let actions = self.drain_actions();
        assert(self.state().pending.len() == 0);
        assert(actions_for(emulator_state(self.emulator).waiting) =~= Seq::empty());
        let (responses, retained) = split_actions(actions);
        self.actions = retained;
        assert(self.state().pending =~= action_views(retained@));
        responses
    }

    fn scroll(&mut self, lines: i32) {
        let ghost before = self.state();
        let ghost target = scrolled_offset(before.content, lines as int);
        proof {
            lemma_actions_push(
                emulator_state(self.emulator).waiting,
                EmulatorEventView::MouseCursorDirty,
            );
        }
        let offset = display_offset(&self.emulator) as i64;
        let delta = if offset + lines as i64 > i32::MAX as i64 {
            (i32::MAX as i64 - offset) as i32
        } else {
            lines
        };
        scroll_display(&mut self.emulator, delta);
        self.revision = bump(self.revision);
        assert(self.state().pending =~= before.moved(target).pending);
    }

    fn set_scrollback_limit(&mut self, lines: usize) {
        let ghost before = self.state();
        proof {
            lemma_limited_content(before.content, lines as nat);
            lemma_actions_push(
                emulator_state(self.emulator).waiting,
                title_event(before.title),
            );
        }
        set_history_limit(&mut self.emulator, lines);
        self.revision = bump(self.revision);
        assert(self.state().pending =~= before.limited(lines as nat).pending);
    }

    fn set_selection(&mut self, selection: Option<CellRange>) {
        self.selection = match selection {
            Some(range) => Some(range.normalized()),
            None => None,
        };
        self.revision = bump(self.revision);
    }

    fn selection_text(&self) -> (res: Option<String>) {
        match self.selection {
            Some(range) => Some(range_text(&self.full_frame(), range)),
            None => None,
        }
    }

    fn search(&mut self, request: &SearchRequest) -> (res: SearchResult) {
        if request.query.as_str().is_empty() {
            return self.adopt_matches(Vec::new());
        }
        let matches = collect_search_matches(
            &self.emulator,
            request.query.as_str(),
            request.case_sensitive,
        );
        self.adopt_matches(matches)
    }

    fn navigate_search(&mut self, direction: SearchDirection) -> (res: SearchResult) {
        let current = match self.current {
            Some(current) => current,
            None => {
                return SearchResult::default();
            },
        };
        let ghost before = self.state();
        proof {
            lemma_actions_push(
                emulator_state(self.emulator).waiting,
                EmulatorEventView::MouseCursorDirty,
            );
        }
        let next = next_match(current, self.matches.len(), direction);
        self.current = Some(next);
        scroll_match_into_view(&mut self.emulator, self.matches[next]);
        self.revision = bump(self.revision);
        assert(self.state().pending =~= before.revealing(before.matches[next as int]).pending);
        visible_search_result(&self.emulator, &self.matches, self.current)
    }

    fn prepare_session_restart(&mut self, profile_name: &str) {
        let mut marker = "\x1b[?1049l\x1b[?1000l\x1b[?1002l\x1b[?1003l\x1b[?2004l\x1b[0m\r\n\r\n--- Matcha · ".to_owned();
        marker.append(without_control(profile_name).as_str());
        marker.append(" ---\r\n");
        self.feed(marker.as_str().as_bytes());
        self.set_selection(None);
        self.matches = Vec::new();
        self.current = None;
        assert(self.matches@ =~= Seq::empty());
    }
}

/// Once a frame was taken, the next one reports the cell of the cursor alone, or nothing where the
/// cursor is scrolled out of view. Taking more frames changes nothing. In insert mode every frame
/// reports the whole screen.
pub proof fn law_drawn_screen_has_only_its_cursor_left(state: ModelState)
    requires
        state.well_formed(),
    ensures
        state.drawn().well_formed(),
        state.drawn().drawn() == state.drawn(),
        reported_damage(state.drawn().damage) == ({
            let row = state.content.cursor.line + state.content.display_offset;
            let column = state.content.cursor.column;
            if state.content.mode & MODE_INSERT == MODE_INSERT {
                DamageView::Full
            } else if row < state.content.screen_lines {
                DamageView::Partial(
                    seq![DamageRegion { row: row as usize, left: column, right: column }],
                )
            } else {
                DamageView::Unchanged
            }
        }),
{
}

/// Limiting the history keeps the screen and the newest rows of the history as they are.
pub proof fn law_limiting_keeps_the_newest_rows(content: TermContent, limit: nat, line: int)
    requires
        content.well_formed(),
    ensures
        limited_content(content, limit).history() == if content.history() > limit {
            limit as int
        } else {
            content.history()
        },
        limited_content(content, limit).has_line(line) ==> content.has_line(line)
            && limited_content(content, limit).row(line) == content.row(line),
{
}

/// Scrolling stops at the oldest row and at the screen, and scrolling back by as much undoes it
/// where neither was reached.
pub proof fn law_scrolling_back_undoes_scrolling(content: TermContent, delta: int)
    requires
        content.well_formed(),
        content.display_offset <= content.history(),
    ensures
        0 <= scrolled_offset(content, delta) <= content.history(),
        0 <= content.display_offset + delta <= content.history() ==> scrolled_offset(
            TermContent { display_offset: scrolled_offset(content, delta), ..content },
            -delta,
        ) == content.display_offset,
{
}

/// The name of a profile cannot smuggle control characters into what is written between two
/// sessions.
pub proof fn law_restart_marker_is_clean(profile_name: Seq<char>, i: int)
    requires
        0 <= i < printable(profile_name).len(),
    ensures
        !control(printable(profile_name)[i]),
{
    let keep = |c: char| !control(c);
    profile_name.lemma_filter_pred(keep, i);
}

/// What is left after the writes to the host were taken holds none: nothing is written twice.
pub proof fn law_host_writes_are_taken_once(actions: Seq<ActionView>)
    ensures
        host_writes(other_actions(actions)) == Seq::<Seq<u8>>::empty(),
    decreases actions.len(),
{
    reveal(Seq::filter);
    if actions.len() > 0 {
        law_host_writes_are_taken_once(actions.drop_last());
        if !(actions.last() is WriteToHost) {
            let before = other_actions(actions.drop_last());
            assert(before.push(actions.last()).drop_last() =~= before);
        }
    }
}

/// Taking what is to be written to the host after every input takes what taking it once would have:
/// replies come in the order in which they were asked for.
pub proof fn law_host_writes_keep_their_order(a: Seq<ActionView>, b: Seq<ActionView>)
    ensures
        host_writes(a + b) == host_writes(a) + host_writes(b),
        host_writes(other_actions(a) + b) == host_writes(b),
    decreases b.len(),
{
    law_host_writes_are_taken_once(a);
    if b.len() == 0 {
        assert(a + b =~= a);
        assert(other_actions(a) + b =~= other_actions(a));
        assert(host_writes(a) + host_writes(b) =~= host_writes(a));
    } else {
        let shorter = b.drop_last();
        law_host_writes_keep_their_order(a, shorter);
        assert((a + b).drop_last() =~= a + shorter);
        assert((other_actions(a) + b).drop_last() =~= other_actions(a) + shorter);
        assert(host_writes(a + b) =~= host_writes(a) + host_writes(b));
    }
}

} // verus!
