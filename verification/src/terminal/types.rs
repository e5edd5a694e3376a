//! Frames, cells, ranges and actions exchanged with a terminal model.

use alacritty_terminal::event::Event;
use vstd::prelude::*;

verus! {

#[derive(Clone, Copy, Debug, Eq, PartialEq, Structural)]
pub struct TerminalSize {
    pub columns: usize,
    pub lines: usize,
}

impl TerminalSize {
    #[must_use]
    pub fn new(columns: usize, lines: usize) -> (res: Self)
        ensures
            res.columns == columns,
            res.lines == lines,
    {
        TerminalSize { columns, lines }
    }
}

#[derive(Clone, Copy, Debug, Default, Eq, PartialEq, Structural)]
pub struct TerminalColor {
    pub red: u8,
    pub green: u8,
    pub blue: u8,
    pub alpha: u8,
}

/// The opaque color with the given components.
pub open spec fn opaque_color(red: u8, green: u8, blue: u8) -> TerminalColor {
    TerminalColor { red, green, blue, alpha: 255 }
}

impl TerminalColor {
    /// The opaque color with the given components.
    #[must_use]
    pub fn rgb(red: u8, green: u8, blue: u8) -> (res: Self)
        ensures
            res == opaque_color(red, green, blue),
    {
        TerminalColor { red, green, blue, alpha: 255 }
    }
}

#[derive(Clone, Copy, Debug, Default, Eq, PartialEq, Structural)]
pub enum UnderlineStyle {
    #[default]
    Plain,
    Single,
    Double,
    Curl,
    Dotted,
    Dashed,
}

#[derive(Clone, Copy, Debug, Default, Eq, PartialEq, Structural)]
pub struct CellStyle {
    pub bold: bool,
    pub italic: bool,
    pub dim: bool,
    pub inverse: bool,
    pub hidden: bool,
    pub strikeout: bool,
    pub underline: UnderlineStyle,
    pub wide: bool,
    pub wide_spacer: bool,
}

/// One cell as the renderer draws it.
#[derive(Clone, Debug, Eq, PartialEq)]
pub struct RenderCell {
    pub row: usize,
    pub column: usize,
    pub text: String,
    pub foreground: TerminalColor,
    pub background: TerminalColor,
    pub underline_color: TerminalColor,
    pub style: CellStyle,
    pub hyperlink: Option<String>,
}

/// The contents of a [`RenderCell`].
#[verifier::ext_equal]
pub struct RenderCellView {
    pub row: usize,
    pub column: usize,
    pub text: Seq<char>,
    pub foreground: TerminalColor,
    pub background: TerminalColor,
    pub underline_color: TerminalColor,
    pub style: CellStyle,
    pub hyperlink: Option<Seq<char>>,
}

/// The characters of an optional text.
pub open spec fn optional_text(text: Option<String>) -> Option<Seq<char>> {
    match text {
        Some(text) => Some(text@),
        None => None,
    }
}

impl View for RenderCell {
    type V = RenderCellView;

    open spec fn view(&self) -> RenderCellView {
        RenderCellView {
            row: self.row,
            column: self.column,
            text: self.text@,
            foreground: self.foreground,
            background: self.background,
            underline_color: self.underline_color,
            style: self.style,
            hyperlink: optional_text(self.hyperlink),
        }
    }
}

/// The contents of a sequence of cells.
pub open spec fn cell_views(cells: Seq<RenderCell>) -> Seq<RenderCellView> {
    cells.map_values(|cell: RenderCell| cell@)
}

#[derive(Clone, Copy, Debug, Eq, PartialEq, Structural)]
pub enum CursorShape {
    Block,
    Underline,
    Beam,
    Hidden,
}

#[derive(Clone, Copy, Debug, Eq, PartialEq, Structural)]
pub struct TerminalCursor {
    pub row: usize,
    pub column: usize,
    pub shape: CursorShape,
    pub blinking: bool,
}

/// A position on the visible screen.
#[derive(Clone, Copy, Debug, Default, Eq, PartialEq, Structural)]
pub struct CellPoint {
    pub row: usize,
    pub column: usize,
}

/// Reading order: by row, then by column.
pub open spec fn reading_order(a: CellPoint, b: CellPoint) -> bool {
    a.row < b.row || (a.row == b.row && a.column <= b.column)
}

/// An inclusive stretch of cells in reading order, named by two of its ends.
#[derive(Clone, Copy, Debug, Eq, PartialEq, Structural)]
pub struct CellRange {
    pub start: CellPoint,
    pub end: CellPoint,
}

/// The same stretch of cells with its ends in reading order.
pub open spec fn ordered_range(range: CellRange) -> CellRange {
    if reading_order(range.start, range.end) {
        range
    } else {
        CellRange { start: range.end, end: range.start }
    }
}

/// Whether `point` lies between the two ends of `range`, both included.
pub open spec fn within_range(range: CellRange, point: CellPoint) -> bool {
    let ordered = ordered_range(range);
    reading_order(ordered.start, point) && reading_order(point, ordered.end)
}

impl CellRange {
    /// The same stretch of cells with its ends in reading order.
    #[must_use]
    pub fn normalized(self) -> (res: Self)
        ensures
            res == ordered_range(self),
            reading_order(res.start, res.end),
    {
        if self.start.row < self.end.row || (self.start.row == self.end.row && self.start.column
            <= self.end.column) {
            self
        } else {
            CellRange { start: self.end, end: self.start }
        }
    }

    /// Whether `point` lies between the two ends of the range, both included.
    #[must_use]
    pub fn contains(self, point: CellPoint) -> (res: bool)
        ensures
            res == within_range(self, point),
    {
        let range = self.normalized();
        let after_start = range.start.row < point.row || (range.start.row == point.row
            && range.start.column <= point.column);
        let before_end = point.row < range.end.row || (point.row == range.end.row && point.column
            <= range.end.column);
        after_start && before_end
    }
}

/// The columns `left..=right` of one visible row.
#[derive(Clone, Copy, Debug, Eq, PartialEq, Structural)]
pub struct DamageRegion {
    pub row: usize,
    pub left: usize,
    pub right: usize,
}

/// The part of the screen that changed since the previous frame.
#[derive(Clone, Debug, Default, Eq, PartialEq)]
pub enum FrameDamage {
    #[default]
    Full,
    Partial(Vec<DamageRegion>),
    Unchanged,
}

/// The contents of a [`FrameDamage`].
#[verifier::ext_equal]
pub enum DamageView {
    Full,
    Partial(Seq<DamageRegion>),
    Unchanged,
}

impl View for FrameDamage {
    type V = DamageView;

    open spec fn view(&self) -> DamageView {
        match self {
            FrameDamage::Full => DamageView::Full,
            FrameDamage::Partial(regions) => DamageView::Partial(regions@),
            FrameDamage::Unchanged => DamageView::Unchanged,
        }
    }
}

/// Whether `region` covers the cell at `row` and `column`.
pub open spec fn region_covers(region: DamageRegion, row: int, column: int) -> bool {
    region.row == row && region.left <= column <= region.right
}

/// Whether some region covers the cell at `row` and `column`.
pub open spec fn regions_cover(regions: Seq<DamageRegion>, row: int, column: int) -> bool {
    exists|i: int| 0 <= i < regions.len() && region_covers(#[trigger] regions[i], row, column)
}

/// Whether the cell at `row` and `column` is damaged.
pub open spec fn damaged(damage: DamageView, row: int, column: int) -> bool {
    match damage {
        DamageView::Full => true,
        DamageView::Partial(regions) => regions_cover(regions, row, column),
        DamageView::Unchanged => false,
    }
}

/// Reports whether some region covers the cell at `row` and `column`.
pub fn covered_by_regions(regions: &Vec<DamageRegion>, row: usize, column: usize) -> (res: bool)
    ensures
        res == regions_cover(regions@, row as int, column as int),
{
    let mut i: usize = 0;
    while i < regions.len()
        invariant
            i <= regions.len(),
            forall|j: int|
                0 <= j < i ==> !region_covers(#[trigger] regions@[j], row as int, column as int),
        decreases regions.len() - i,
    {
        let region = regions[i];
        if region.row == row && column >= region.left && column <= region.right {
            assert(region_covers(regions@[i as int], row as int, column as int));
            return true;
        }
        i = i + 1;
    }
    false
}

/// Reports whether the cell at `row` and `column` is damaged.
pub fn damage_contains(damage: &FrameDamage, row: usize, column: usize) -> (res: bool)
    ensures
        res == damaged(damage@, row as int, column as int),
{
    match damage {
        FrameDamage::Full => true,
        FrameDamage::Partial(regions) => covered_by_regions(regions, row, column),
        FrameDamage::Unchanged => false,
    }
}

#[derive(Clone, Copy, Debug, Default, Eq, PartialEq, Structural)]
pub struct TerminalModes {
    pub application_cursor: bool,
    pub alternate_screen: bool,
    pub bracketed_paste: bool,
    pub mouse_tracking: bool,
    pub sgr_mouse: bool,
    pub kitty_keyboard: bool,
}

/// Everything the renderer needs to draw one state of the screen.
#[derive(Clone, Debug, Eq, PartialEq)]
pub struct TerminalFrame {
    pub revision: u64,
    pub size: TerminalSize,
    pub damage: FrameDamage,
    pub cells: Vec<RenderCell>,
    pub cursor: TerminalCursor,
    pub selection: Option<CellRange>,
    pub display_offset: usize,
    pub modes: TerminalModes,
}

/// The contents of a [`TerminalFrame`].
#[verifier::ext_equal]
pub struct FrameView {
    pub revision: u64,
    pub size: TerminalSize,
    pub damage: DamageView,
    pub cells: Seq<RenderCellView>,
    pub cursor: TerminalCursor,
    pub selection: Option<CellRange>,
    pub display_offset: usize,
    pub modes: TerminalModes,
}

impl View for TerminalFrame {
    type V = FrameView;

    open spec fn view(&self) -> FrameView {
        FrameView {
            revision: self.revision,
            size: self.size,
            damage: self.damage@,
            cells: cell_views(self.cells@),
            cursor: self.cursor,
            selection: self.selection,
            display_offset: self.display_offset,
            modes: self.modes,
        }
    }
}

#[derive(Clone, Copy, Debug, Eq, PartialEq, Structural)]
pub enum ClipboardKind {
    Clipboard,
    Selection,
}

/// A request of the terminal application to its surroundings.
#[derive(Clone, Debug)]
pub enum TerminalAction {
    WriteToHost(Vec<u8>),
    Title(String),
    ResetTitle,
    Bell,
    Wakeup,
    ExitRequested,
    ClipboardStore { kind: ClipboardKind, text: String },
    /// The request knows how the answer is to be written.
    ClipboardLoad { kind: ClipboardKind, request: Event },
}

/// The contents of a [`TerminalAction`].
#[verifier::ext_equal]
pub enum ActionView {
    WriteToHost(Seq<u8>),
    Title(Seq<char>),
    ResetTitle,
    Bell,
    Wakeup,
    ExitRequested,
    ClipboardStore { kind: ClipboardKind, text: Seq<char> },
    ClipboardLoad { kind: ClipboardKind, request: Event },
}

impl View for TerminalAction {
    type V = ActionView;

    open spec fn view(&self) -> ActionView {
        match self {
            TerminalAction::WriteToHost(bytes) => ActionView::WriteToHost(bytes@),
            TerminalAction::Title(title) => ActionView::Title(title@),
            TerminalAction::ResetTitle => ActionView::ResetTitle,
            TerminalAction::Bell => ActionView::Bell,
            TerminalAction::Wakeup => ActionView::Wakeup,
            TerminalAction::ExitRequested => ActionView::ExitRequested,
            TerminalAction::ClipboardStore { kind, text } => ActionView::ClipboardStore {
                kind: *kind,
                text: text@,
            },
            TerminalAction::ClipboardLoad { kind, request } => ActionView::ClipboardLoad {
                kind: *kind,
                request: *request,
            },
        }
    }
}

/// The contents of a sequence of actions.
pub open spec fn action_views(actions: Seq<TerminalAction>) -> Seq<ActionView> {
    actions.map_values(|action: TerminalAction| action@)
}

#[derive(Clone, Debug, Eq, PartialEq)]
pub struct SearchRequest {
    pub query: String,
    pub case_sensitive: bool,
}

/// The matches on the visible screen, and where the current match stands among all matches.
#[derive(Clone, Debug, Eq, PartialEq)]
pub struct SearchResult {
    pub matches: Vec<CellRange>,
    pub active: Option<usize>,
    pub current: Option<usize>,
    pub total: usize,
}

impl Default for SearchResult {
    fn default() -> (res: Self)
        ensures
            res@ == no_matches(),
    {
        SearchResult { matches: Vec::new(), active: None, current: None, total: 0 }
    }
}

/// The contents of a [`SearchResult`].
#[verifier::ext_equal]
pub struct SearchView {
    pub matches: Seq<CellRange>,
    pub active: Option<usize>,
    pub current: Option<usize>,
    pub total: nat,
}

impl View for SearchResult {
    type V = SearchView;

    open spec fn view(&self) -> SearchView {
        SearchView {
            matches: self.matches@,
            active: self.active,
            current: self.current,
            total: self.total as nat,
        }
    }
}

/// The result of a search that found nothing.
pub open spec fn no_matches() -> SearchView {
    SearchView { matches: Seq::empty(), active: None, current: None, total: 0 }
}

#[derive(Clone, Copy, Debug, Eq, PartialEq, Structural)]
pub enum SearchDirection {
    Next,
    Previous,
}

/// A position in the whole buffer; line zero is the first line of the screen, and lines of the
/// scrollback history are negative.
#[derive(Clone, Copy, Debug, Eq, PartialEq, Structural)]
pub struct BufferPoint {
    pub line: i32,
    pub column: usize,
}

/// An inclusive stretch of cells in the whole buffer.
#[derive(Clone, Copy, Debug, Eq, PartialEq, Structural)]
pub struct BufferRange {
    pub start: BufferPoint,
    pub end: BufferPoint,
}

/// Normalizing twice is normalizing once, and it keeps the covered cells.
pub proof fn law_normalized_range(range: CellRange, point: CellPoint)
    ensures
        ordered_range(ordered_range(range)) == ordered_range(range),
        within_range(ordered_range(range), point) == within_range(range, point),
{
}

/// A range covers the same cells whichever of its ends is named first.
pub proof fn law_range_ends_are_interchangeable(range: CellRange, point: CellPoint)
    ensures
        within_range(range, point) == within_range(
            CellRange { start: range.end, end: range.start },
            point,
        ),
        within_range(range, range.start),
        within_range(range, range.end),
{
}

/// A range runs as text does: from its first cell to the end of that row, through all columns of the
/// rows between, and to its last cell. In one row it runs from one column to the other.
pub proof fn law_ranges_run_as_text_does(range: CellRange, point: CellPoint)
    ensures
        range.start.row < range.end.row ==> {
            &&& point.row == range.start.row ==> (within_range(range, point) <==> point.column
                >= range.start.column)
            &&& range.start.row < point.row < range.end.row ==> within_range(range, point)
            &&& point.row == range.end.row ==> (within_range(range, point) <==> point.column
                <= range.end.column)
        },
        range.start.row == range.end.row && point.row == range.start.row && range.start.column
            <= range.end.column ==> (within_range(range, point) <==> range.start.column
            <= point.column <= range.end.column),
        point.row < range.start.row && point.row < range.end.row ==> !within_range(range, point),
        point.row > range.start.row && point.row > range.end.row ==> !within_range(range, point),
        ordered_range(range) == range || ordered_range(range) == (CellRange {
            start: range.end,
            end: range.start,
        }),
{
}

/// A region damages the columns from its left to its right end on its own row, both included.
/// Several regions damage what any of them does; without any, nothing is damaged.
pub proof fn law_regions_damage_what_they_cover(
    region: DamageRegion,
    others: Seq<DamageRegion>,
    row: int,
    column: int,
)
    ensures
        damaged(DamageView::Full, row, column),
        !damaged(DamageView::Unchanged, row, column),
        !damaged(DamageView::Partial(Seq::empty()), row, column),
        damaged(DamageView::Partial(others.push(region)), row, column) <==> damaged(
            DamageView::Partial(others),
            row,
            column,
        ) || (row == region.row && region.left <= column <= region.right),
{
    let all = others.push(region);
    if row == region.row && region.left <= column <= region.right {
        assert(all[others.len() as int] == region);
    }
    if regions_cover(others, row, column) {
        let i = choose|i: int|
            0 <= i < others.len() && region_covers(#[trigger] others[i], row, column);
        assert(all[i] == others[i]);
    }
    if regions_cover(all, row, column) {
        let i = choose|i: int| 0 <= i < all.len() && region_covers(#[trigger] all[i], row, column);
        if i < others.len() {
            assert(all[i] == others[i]);
        }
    }
}

} // verus!
