//! The boundary to the terminal emulator.
//!
//! Every function here that touches an emulator value makes one call into `alacritty_terminal`
//! and converts what comes back. The state of the emulator, as far as Matcha reads it, is
//! [`EmulatorState`].

use alacritty_terminal::event::{Event, EventListener};
use alacritty_terminal::grid::{Dimensions, Scroll};
use alacritty_terminal::index::Line;
use alacritty_terminal::term::color::COUNT;
use alacritty_terminal::term::test::TermSize;
use alacritty_terminal::term::{ClipboardType, Config, Term, TermDamage};
use alacritty_terminal::vte::ansi::{Color, CursorShape, Processor, StdSyncHandler};
use crossbeam_channel::{Receiver, Sender};
use vstd::prelude::*;

use crate::terminal::types::{optional_text, DamageRegion};

verus! {

/// A notification of the emulator, `alacritty_terminal::event::Event`.
#[verifier::external_type_specification]
#[verifier::external_body]
pub struct ExEvent(Event);

/// `Event::clone` copies a notification; nothing here depends on the copy.
pub assume_specification[ <Event as Clone>::clone ](event: &Event) -> Event;

/// The sending end of a channel, `crossbeam_channel::Sender`.
#[verifier::external_type_specification]
#[verifier::external_body]
#[verifier::reject_recursive_types(T)]
pub struct ExSender<T>(Sender<T>);

/// Smallest number of columns that holds a full-width character.
pub const MIN_COLUMNS: usize = 2;

/// Smallest number of visible lines.
pub const MIN_LINES: usize = 1;

/// Number of entries of the emulator's color table.
pub const COLOR_TABLE_LEN: usize = 269;

#[derive(Clone, Copy, Debug, Eq, PartialEq, Structural)]
pub struct Rgb {
    pub r: u8,
    pub g: u8,
    pub b: u8,
}

/// A color as a program names it: an entry of the named table, one of the 256 indexed colors, or
/// its components.
#[derive(Clone, Copy, Debug, Eq, PartialEq, Structural)]
pub enum CellColor {
    Named(u16),
    Indexed(u8),
    Direct(Rgb),
}

/// One cell of the emulator's grid.
#[derive(Clone, Debug)]
pub struct GridCell {
    pub character: char,
    pub zero_width: Vec<char>,
    pub foreground: CellColor,
    pub background: CellColor,
    pub underline: Option<CellColor>,
    pub flags: u16,
    pub hyperlink: Option<String>,
}

/// The contents of a [`GridCell`].
#[verifier::ext_equal]
pub struct GridCellView {
    pub character: char,
    pub zero_width: Seq<char>,
    pub foreground: CellColor,
    pub background: CellColor,
    pub underline: Option<CellColor>,
    pub flags: u16,
    pub hyperlink: Option<Seq<char>>,
}

impl View for GridCell {
    type V = GridCellView;

    open spec fn view(&self) -> GridCellView {
        GridCellView {
            character: self.character,
            zero_width: self.zero_width@,
            foreground: self.foreground,
            background: self.background,
            underline: self.underline,
            flags: self.flags,
            hyperlink: optional_text(self.hyperlink),
        }
    }
}

/// The contents of a row of cells.
pub open spec fn grid_cell_views(cells: Seq<GridCell>) -> Seq<GridCellView> {
    cells.map_values(|cell: GridCell| cell@)
}

/// The shapes in which the emulator asks for the cursor to be drawn.
#[derive(Clone, Copy, Debug, Eq, PartialEq, Structural)]
pub enum EmulatorCursorShape {
    Block,
    Underline,
    Beam,
    HollowBlock,
    Hidden,
}

/// Where the emulator's cursor stands, and the style in which it asks for it to be drawn.
#[derive(Clone, Copy, Debug, Eq, PartialEq, Structural)]
pub struct CursorState {
    pub line: i32,
    pub column: usize,
    pub shape: EmulatorCursorShape,
    pub blinking: bool,
}

/// What Matcha reads of the emulator.
///
/// `rows` holds the scrollback history followed by the screen; the last `screen_lines` rows are
/// the screen. `mode` is the emulator's mode word, and `colors` the palette entries that programs
/// have redefined.
#[verifier::ext_equal]
pub struct TermContent {
    pub columns: nat,
    pub screen_lines: nat,
    pub rows: Seq<Seq<GridCellView>>,
    pub display_offset: nat,
    pub history_limit: nat,
    pub mode: u32,
    pub cursor: CursorState,
    pub colors: Seq<Option<Rgb>>,
}

/// The bit of the mode word that stands for a visible cursor.
pub const MODE_SHOW_CURSOR: u32 = 0x1;

/// The bit of the mode word that stands for the alternate screen.
pub const MODE_ALT_SCREEN: u32 = 0x1000;

/// The bit of the mode word that stands for insert mode.
pub const MODE_INSERT: u32 = 0x400;

/// The mode word of a new emulator: visible cursor, line wrap, alternate scroll, urgency hints.
pub const MODE_INITIAL: u32 = 0x28081;

impl TermContent {
    /// Number of rows above the screen.
    pub open spec fn history(self) -> int {
        self.rows.len() - self.screen_lines
    }

    /// The row at `line`; line zero is the first row of the screen.
    pub open spec fn row(self, line: int) -> Seq<GridCellView> {
        self.rows[self.history() + line]
    }

    /// Whether the buffer holds a row at `line`.
    pub open spec fn has_line(self, line: int) -> bool {
        -self.history() <= line < self.screen_lines
    }

    pub open spec fn well_formed(self) -> bool {
        &&& MIN_COLUMNS <= self.columns <= usize::MAX
        &&& MIN_LINES <= self.screen_lines
        &&& self.screen_lines + self.history_limit <= i32::MAX
        &&& self.screen_lines <= self.rows.len() <= self.screen_lines + self.history_limit
        &&& self.display_offset <= self.history_limit
        &&& forall|i: int|
            0 <= i < self.rows.len() ==> (#[trigger] self.rows[i]).len() == self.columns
        &&& self.colors.len() == COLOR_TABLE_LEN
        &&& self.mode & MODE_ALT_SCREEN == MODE_ALT_SCREEN ==> self.history() == 0
            && self.display_offset == 0
        &&& 0 <= self.cursor.line < self.screen_lines
        &&& self.cursor.column < self.columns
    }
}

/// The contents of a cell that was never written to.
pub open spec fn blank_grid_cell() -> GridCellView {
    GridCellView {
        character: ' ',
        zero_width: Seq::empty(),
        foreground: CellColor::Named(256),
        background: CellColor::Named(257),
        underline: None,
        flags: 0,
        hyperlink: None,
    }
}

/// The contents of a new emulator.
pub open spec fn initial_content(columns: nat, lines: nat, history_limit: nat) -> TermContent {
    TermContent {
        columns,
        screen_lines: lines,
        rows: Seq::new(lines, |row: int| Seq::new(columns, |column: int| blank_grid_cell())),
        display_offset: 0,
        history_limit,
        mode: MODE_INITIAL,
        cursor: CursorState {
            line: 0,
            column: 0,
            shape: EmulatorCursorShape::Block,
            blinking: false,
        },
        colors: Seq::new(COLOR_TABLE_LEN as nat, |index: int| None::<Rgb>),
    }
}

/// The state of an emulator.
///
/// `damage` is what is reported next as changed; nothing stands for the whole screen. `reported` is
/// the line and the column at which the cursor stood when that was last asked for. `waiting` holds
/// the notifications that nobody has taken yet, and `title` the title that the application chose
/// last.
#[verifier::ext_equal]
pub struct EmulatorState {
    pub content: TermContent,
    pub damage: Option<Seq<DamageRegion>>,
    pub reported: (i32, usize),
    pub waiting: Seq<EmulatorEventView>,
    pub title: Option<Seq<char>>,
}

/// What interpreting some bytes leads to: what the emulator then holds, what it reports as changed,
/// the notifications that it sent meanwhile, and its title.
#[verifier::ext_equal]
pub struct InputEffect {
    pub content: TermContent,
    pub damage: Option<Seq<DamageRegion>>,
    pub sent: Seq<EmulatorEventView>,
    pub title: Option<Seq<char>>,
}

/// An emulator, `alacritty_terminal::term::Term`, together with the end of the channel,
/// `crossbeam_channel::Receiver`, at which its notifications arrive.
#[verifier::external_body]
pub struct Emulator {
    term: Term<EventSink>,
    events: Receiver<Event>,
}

/// The state of the emulator, as the functions of this module read it.
pub uninterp spec fn emulator_state(emulator: Emulator) -> EmulatorState;

/// What interpreting `bytes` leads to, which `Processor::advance` decides.
pub uninterp spec fn input_effect(emulator: Emulator, bytes: Seq<u8>) -> InputEffect;

/// What the emulator holds after `Term::resize` gave its screen another size.
pub uninterp spec fn content_after_resize(
    emulator: Emulator,
    columns: nat,
    lines: nat,
) -> TermContent;

/// A notification of the emulator. Those about a clipboard say whether it is the selection rather
/// than the clipboard proper. A request to read one is carried along: it knows how the answer is to
/// be written.
#[derive(Clone, Debug)]
pub enum EmulatorEvent {
    PtyWrite(String),
    Title(String),
    ResetTitle,
    Bell,
    Wakeup,
    CursorBlinkingChange,
    MouseCursorDirty,
    Exit,
    ClipboardStore(bool, String),
    ClipboardLoad(bool, Event),
    ColorRequest,
    TextAreaSizeRequest,
    ChildExit,
}

/// The contents of an [`EmulatorEvent`].
#[verifier::ext_equal]
pub enum EmulatorEventView {
    PtyWrite(Seq<char>),
    Title(Seq<char>),
    ResetTitle,
    Bell,
    Wakeup,
    CursorBlinkingChange,
    MouseCursorDirty,
    Exit,
    ClipboardStore(bool, Seq<char>),
    ClipboardLoad(bool, Event),
    ColorRequest,
    TextAreaSizeRequest,
    ChildExit,
}

impl View for EmulatorEvent {
    type V = EmulatorEventView;

    open spec fn view(&self) -> EmulatorEventView {
        match self {
            EmulatorEvent::PtyWrite(text) => EmulatorEventView::PtyWrite(text@),
            EmulatorEvent::Title(text) => EmulatorEventView::Title(text@),
            EmulatorEvent::ResetTitle => EmulatorEventView::ResetTitle,
            EmulatorEvent::Bell => EmulatorEventView::Bell,
            EmulatorEvent::Wakeup => EmulatorEventView::Wakeup,
            EmulatorEvent::CursorBlinkingChange => EmulatorEventView::CursorBlinkingChange,
            EmulatorEvent::MouseCursorDirty => EmulatorEventView::MouseCursorDirty,
            EmulatorEvent::Exit => EmulatorEventView::Exit,
            EmulatorEvent::ClipboardStore(selection, text) => EmulatorEventView::ClipboardStore(
                *selection,
                text@,
            ),
            EmulatorEvent::ClipboardLoad(selection, request) => EmulatorEventView::ClipboardLoad(
                *selection,
                *request,
            ),
            EmulatorEvent::ColorRequest => EmulatorEventView::ColorRequest,
            EmulatorEvent::TextAreaSizeRequest => EmulatorEventView::TextAreaSizeRequest,
            EmulatorEvent::ChildExit => EmulatorEventView::ChildExit,
        }
    }
}

/// The notification that an emulator event stands for.
pub uninterp spec fn event_contents(event: Event) -> EmulatorEventView;

/// The notifications that emulator events stand for.
pub open spec fn contents_of(events: Seq<Event>) -> Seq<EmulatorEventView> {
    events.map_values(|event: Event| event_contents(event))
}

/// Tells the variants of `alacritty_terminal::event::Event` apart and moves what they hold. The
/// formatters for the answers to questions that are never answered are dropped.
#[verifier::external_body]
pub(crate) fn convert_event(event: Event) -> (res: EmulatorEvent)
    ensures
        res@ == event_contents(event),
{
    match event {
        Event::PtyWrite(text) => EmulatorEvent::PtyWrite(text),
        Event::Title(title) => EmulatorEvent::Title(title),
        Event::ResetTitle => EmulatorEvent::ResetTitle,
        Event::Bell => EmulatorEvent::Bell,
        Event::Wakeup => EmulatorEvent::Wakeup,
        Event::CursorBlinkingChange => EmulatorEvent::CursorBlinkingChange,
        Event::MouseCursorDirty => EmulatorEvent::MouseCursorDirty,
        Event::Exit => EmulatorEvent::Exit,
        Event::ClipboardStore(kind, text) => EmulatorEvent::ClipboardStore(matches!(kind, ClipboardType::Selection), text),
        Event::ClipboardLoad(kind, _) => EmulatorEvent::ClipboardLoad(matches!(kind, ClipboardType::Selection), event),
        Event::ColorRequest(..) => EmulatorEvent::ColorRequest,
        Event::TextAreaSizeRequest(_) => EmulatorEvent::TextAreaSizeRequest,
        Event::ChildExit(_) => EmulatorEvent::ChildExit,
    }
}

/// Hands an event to the receiving end of the channel with `crossbeam_channel::Sender::send`.
/// Whether anybody still listens makes no difference to the sender.
#[verifier::external_body]
fn send(sender: &Sender<Event>, event: Event) {
    let _ = sender.send(event);
}

/// Passes the notifications of the emulator on to the other end of the channel.
pub struct EventSink {
    events: Sender<Event>,
}

impl EventListener for EventSink {
    fn send_event(&self, event: Event) {
        send(&self.events, event);
    }
}

/// Makes an emulator with `alacritty_terminal::term::Term::new` and a channel with
/// `crossbeam_channel::unbounded`: an empty screen with the cursor at its first cell, no history,
/// no title, everything to be drawn and nothing to be told.
#[verifier::external_body]
pub(crate) fn new_emulator(columns: usize, lines: usize, scrollback: usize) -> (res: Emulator)
    requires
        MIN_COLUMNS <= columns,
        MIN_LINES <= lines,
        lines + scrollback <= i32::MAX,
    ensures
        emulator_state(res) == (EmulatorState {
            content: initial_content(columns as nat, lines as nat, scrollback as nat),
            damage: None,
            reported: (0, 0),
            waiting: Seq::empty(),
            title: None,
        }),
{
    let (sender, events) = crossbeam_channel::unbounded();
    let config = Config { scrolling_history: scrollback, ..Config::default() };
    let term = Term::new(config, &TermSize::new(columns, lines), EventSink { events: sender });
    Emulator { term, events }
}

/// Takes the notifications that wait, in the order in which they were sent, with
/// `crossbeam_channel::Receiver::try_iter`.
#[verifier::external_body]
pub(crate) fn take_events(emulator: &mut Emulator) -> (res: Vec<Event>)
    ensures
        contents_of(res@) == emulator_state(*old(emulator)).waiting,
        emulator_state(*final(emulator)) == (EmulatorState {
            waiting: Seq::empty(),
            ..emulator_state(*old(emulator))
        }),
{
    emulator.events.try_iter().collect()
}

/// Number of columns, from `Dimensions::columns` of the emulator.
#[verifier::external_body]
pub(crate) fn columns(emulator: &Emulator) -> (res: usize)
    ensures
        res == emulator_state(*emulator).content.columns,
{
    emulator.term.columns()
}

/// Number of visible lines, from `Dimensions::screen_lines` of the emulator.
#[verifier::external_body]
pub(crate) fn screen_lines(emulator: &Emulator) -> (res: usize)
    ensures
        res == emulator_state(*emulator).content.screen_lines,
{
    emulator.term.screen_lines()
}

/// Number of rows in history and screen together, from `Dimensions::total_lines` of the emulator.
#[verifier::external_body]
pub(crate) fn total_lines(emulator: &Emulator) -> (res: usize)
    ensures
        res == emulator_state(*emulator).content.rows.len(),
{
    emulator.term.total_lines()
}

/// How many rows the viewport stands above the screen, from `Grid::display_offset`.
#[verifier::external_body]
pub(crate) fn display_offset(emulator: &Emulator) -> (res: usize)
    ensures
        res == emulator_state(*emulator).content.display_offset,
{
    emulator.term.grid().display_offset()
}

/// The cells of one row, from indexing the emulator's `Grid` by line and going through its `Row`.
#[verifier::external_body]
pub(crate) fn read_row(emulator: &Emulator, line: i32) -> (res: Vec<GridCell>)
    requires
        emulator_state(*emulator).content.has_line(line as int),
    ensures
        grid_cell_views(res@) == emulator_state(*emulator).content.row(line as int),
{
    let color = |color: Color| match color {
        Color::Named(name) => CellColor::Named(name as u16),
        Color::Indexed(index) => CellColor::Indexed(index),
        Color::Spec(rgb) => CellColor::Direct(Rgb { r: rgb.r, g: rgb.g, b: rgb.b }),
    };
    let row = &emulator.term.grid()[Line(line)];
    row.into_iter().map(|cell| GridCell {
        character: cell.c,
        zero_width: cell.zerowidth().unwrap_or_default().to_vec(),
        foreground: color(cell.fg),
        background: color(cell.bg),
        underline: cell.underline_color().map(color),
        flags: cell.flags.bits(),
        hyperlink: cell.hyperlink().map(|link| link.uri().to_owned()),
    }).collect()
}

/// The palette entries that programs have redefined, from `Term::colors`.
#[verifier::external_body]
pub(crate) fn read_colors(emulator: &Emulator) -> (res: Vec<Option<Rgb>>)
    ensures
        res@ == emulator_state(*emulator).content.colors,
{
    let colors = (0..COUNT).map(|index| emulator.term.colors()[index]);
    colors.map(|color| color.map(|rgb| Rgb { r: rgb.r, g: rgb.g, b: rgb.b })).collect()
}

/// The line and the column of the cursor, from the `cursor` of the emulator's `Grid`.
#[verifier::external_body]
pub(crate) fn read_cursor_point(emulator: &Emulator) -> (res: (i32, usize))
    ensures
        res.0 == emulator_state(*emulator).content.cursor.line,
        res.1 == emulator_state(*emulator).content.cursor.column,
{
    let point = emulator.term.grid().cursor.point;
    (point.line.0, point.column.0)
}

/// The shape of the cursor and whether it blinks, from `Term::cursor_style`.
#[verifier::external_body]
pub(crate) fn read_cursor_style(emulator: &Emulator) -> (res: (EmulatorCursorShape, bool))
    ensures
        res.0 == emulator_state(*emulator).content.cursor.shape,
        res.1 == emulator_state(*emulator).content.cursor.blinking,
{
    let style = emulator.term.cursor_style();
    let shape = match style.shape {
        CursorShape::Block => EmulatorCursorShape::Block,
        CursorShape::Underline => EmulatorCursorShape::Underline,
        CursorShape::Beam => EmulatorCursorShape::Beam,
        CursorShape::HollowBlock => EmulatorCursorShape::HollowBlock,
        CursorShape::Hidden => EmulatorCursorShape::Hidden,
    };
    (shape, style.blinking)
}

/// The mode word, from `Term::mode`.
#[verifier::external_body]
pub(crate) fn read_mode(emulator: &Emulator) -> (res: u32)
    ensures
        res == emulator_state(*emulator).content.mode,
{
    emulator.term.mode().bits()
}

/// What has to be drawn anew, from `Term::damage`: nothing where it is the whole screen, else the
/// damaged part of each damaged line. Asking takes note of where the cursor stands, and otherwise
/// changes only what is reported the next time, of which nothing is said.
#[verifier::external_body]
pub(crate) fn read_damage(emulator: &mut Emulator) -> (res: Option<Vec<DamageRegion>>)
    requires
        emulator_state(*old(emulator)).content.well_formed(),
    ensures
        match res {
            None => emulator_state(*old(emulator)).damage is None,
            Some(regions) => emulator_state(*old(emulator)).damage == Some(regions@),
        },
        emulator_state(*final(emulator)) == (EmulatorState {
            damage: emulator_state(*final(emulator)).damage,
            reported: cursor_point(emulator_state(*old(emulator)).content),
            ..emulator_state(*old(emulator))
        }),
{
    let region = |line: alacritty_terminal::term::LineDamageBounds| DamageRegion {
        row: line.line,
        left: line.left,
        right: line.right,
    };
    match emulator.term.damage() {
        TermDamage::Full => None,
        TermDamage::Partial(lines) => Some(lines.map(region).collect()),
    }
}

/// The line and the column of the cursor.
pub open spec fn cursor_point(content: TermContent) -> (i32, usize) {
    (content.cursor.line, content.cursor.column)
}

/// What is reported as changed where nothing has happened since everything was drawn: the cell of
/// the cursor where it is in view. In insert mode it is always the whole screen.
pub open spec fn damage_once_drawn(content: TermContent) -> Option<Seq<DamageRegion>> {
    let row = content.cursor.line + content.display_offset;
    let column = content.cursor.column;
    if content.mode & MODE_INSERT == MODE_INSERT {
        None
    } else if row < content.screen_lines {
        Some(seq![DamageRegion { row: row as usize, left: column, right: column }])
    } else {
        Some(Seq::empty())
    }
}

/// Marks everything as drawn, with `Term::reset_damage`. Where the cursor stands where it was last
/// reported, only its cell is left. What is reported where it has moved is not said.
#[verifier::external_body]
pub(crate) fn reset_damage(emulator: &mut Emulator)
    requires
        emulator_state(*old(emulator)).content.well_formed(),
    ensures
        emulator_state(*final(emulator)) == (EmulatorState {
            damage: emulator_state(*final(emulator)).damage,
            ..emulator_state(*old(emulator))
        }),
        emulator_state(*old(emulator)).reported == cursor_point(
            emulator_state(*old(emulator)).content,
        ) ==> emulator_state(*final(emulator)).damage == damage_once_drawn(
            emulator_state(*old(emulator)).content,
        ),
{
    emulator.term.reset_damage()
}

/// Where the viewport stands after it moved up by `delta` rows.
pub open spec fn scrolled_offset(content: TermContent, delta: int) -> nat {
    let target = content.display_offset + delta;
    if target < 0 {
        0
    } else if target > content.history() {
        content.history() as nat
    } else {
        target as nat
    }
}

/// The state of the emulator after its viewport was told to move to `offset`: where it moved,
/// everything has to be drawn anew. That the mouse points at something else is told either way.
pub open spec fn moved_state(state: EmulatorState, offset: nat) -> EmulatorState {
    EmulatorState {
        content: TermContent { display_offset: offset, ..state.content },
        damage: if offset == state.content.display_offset {
            state.damage
        } else {
            None
        },
        waiting: state.waiting.push(EmulatorEventView::MouseCursorDirty),
        ..state
    }
}

/// Moves the viewport up, or down where `delta` is negative, with `Term::scroll_display`. It
/// stays between the oldest row and the screen.
#[verifier::external_body]
pub(crate) fn scroll_display(emulator: &mut Emulator, delta: i32)
    requires
        i32::MIN <= emulator_state(*old(emulator)).content.display_offset + delta <= i32::MAX,
    ensures
        emulator_state(*final(emulator)) == moved_state(
            emulator_state(*old(emulator)),
            scrolled_offset(emulator_state(*old(emulator)).content, delta as int),
        ),
{
    emulator.term.scroll_display(Scroll::Delta(delta))
}

/// Gives the screen another size, with `Term::resize`. Its own size changes nothing; another one
/// re-flows the rows, keeps the cursor on the screen and damages the whole screen. Nothing is told.
#[verifier::external_body]
pub(crate) fn resize(emulator: &mut Emulator, columns: usize, lines: usize)
    requires
        emulator_state(*old(emulator)).content.well_formed(),
        MIN_COLUMNS <= columns,
        MIN_LINES <= lines,
        lines + emulator_state(*old(emulator)).content.history_limit <= i32::MAX,
    ensures
        ({
            let before = emulator_state(*old(emulator));
            if columns == before.content.columns && lines == before.content.screen_lines {
                emulator_state(*final(emulator)) == before
            } else {
                emulator_state(*final(emulator)) == (EmulatorState {
                    content: content_after_resize(*old(emulator), columns as nat, lines as nat),
                    damage: None,
                    reported: (0, 0),
                    ..before
                })
            }
        }),
        emulator_state(*final(emulator)).content.well_formed(),
        emulator_state(*final(emulator)).content.columns == columns,
        emulator_state(*final(emulator)).content.screen_lines == lines,
        emulator_state(*final(emulator)).content.history_limit == emulator_state(
            *old(emulator),
        ).content.history_limit,
        emulator_state(*final(emulator)).content.mode == emulator_state(
            *old(emulator),
        ).content.mode,
        emulator_state(*final(emulator)).content.colors == emulator_state(
            *old(emulator),
        ).content.colors,
{
    emulator.term.resize(TermSize::new(columns, lines))
}

/// What the emulator holds once its history is limited to `limit` rows.
pub open spec fn limited_content(content: TermContent, limit: nat) -> TermContent {
    let dropped = if content.history() > limit {
        content.history() - limit
    } else {
        0
    };
    TermContent {
        rows: content.rows.skip(dropped),
        display_offset: if content.display_offset > limit {
            limit
        } else {
            content.display_offset
        },
        history_limit: limit,
        ..content
    }
}

/// How the emulator tells its title.
pub open spec fn title_event(title: Option<Seq<char>>) -> EmulatorEventView {
    match title {
        Some(title) => EmulatorEventView::Title(title),
        None => EmulatorEventView::ResetTitle,
    }
}

/// Limits the history to `scrollback` rows, with `Term::set_options`. On the main screen the
/// oldest rows beyond the limit are dropped and the viewport stays within the limit; the
/// alternate screen has no history. Everything is damaged, and the title is told again.
#[verifier::external_body]
pub(crate) fn set_history_limit(emulator: &mut Emulator, scrollback: usize)
    requires
        emulator_state(*old(emulator)).content.well_formed(),
        emulator_state(*old(emulator)).content.screen_lines + scrollback <= i32::MAX,
    ensures
        emulator_state(*final(emulator)) == (EmulatorState {
            content: limited_content(emulator_state(*old(emulator)).content, scrollback as nat),
            damage: None,
            waiting: emulator_state(*old(emulator)).waiting.push(
                title_event(emulator_state(*old(emulator)).title),
            ),
            ..emulator_state(*old(emulator))
        }),
{
    emulator.term.set_options(Config { scrolling_history: scrollback, ..Config::default() })
}

/// Interprets `bytes` with a new `vte::ansi::Processor`. What the emulator holds, reports as
/// changed and tells is what its state and the bytes together make of it; its size and its limit
/// stay as they were, and the cursor stays on the screen.
#[verifier::external_body]
pub(crate) fn advance(emulator: &mut Emulator, bytes: &[u8])
    requires
        emulator_state(*old(emulator)).content.well_formed(),
    ensures
        emulator_state(*final(emulator)) == (EmulatorState {
            content: input_effect(*old(emulator), bytes@).content,
            damage: input_effect(*old(emulator), bytes@).damage,
            reported: emulator_state(*old(emulator)).reported,
            waiting: emulator_state(*old(emulator)).waiting + input_effect(
                *old(emulator),
                bytes@,
            ).sent,
            title: input_effect(*old(emulator), bytes@).title,
        }),
        emulator_state(*final(emulator)).content.well_formed(),
        emulator_state(*final(emulator)).content.columns == emulator_state(
            *old(emulator),
        ).content.columns,
        emulator_state(*final(emulator)).content.screen_lines == emulator_state(
            *old(emulator),
        ).content.screen_lines,
        emulator_state(*final(emulator)).content.history_limit == emulator_state(
            *old(emulator),
        ).content.history_limit,
{
    let mut processor: Processor<StdSyncHandler> = Processor::new();
    processor.advance(&mut emulator.term, bytes);
}

} // verus!
