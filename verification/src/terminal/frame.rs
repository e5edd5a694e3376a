//! Frames: what the emulator holds, as the renderer draws it.

use vstd::prelude::*;
use vstd::string::*;

use crate::sequences::lemma_filter_push;
use crate::terminal::colors::{resolve_color, shown_color};
use crate::terminal::emulator::{
    columns, display_offset, emulator_state, grid_cell_views, read_colors, read_cursor_point,
    read_cursor_style, read_mode, read_row, screen_lines, total_lines, Emulator,
    EmulatorCursorShape, GridCell, GridCellView, Rgb, TermContent, MODE_ALT_SCREEN,
    MODE_SHOW_CURSOR,
};
use crate::terminal::types::{
    cell_views, damage_contains, damaged, CellRange, CellStyle, CursorShape,
    DamageView, FrameDamage, FrameView, RenderCell, RenderCellView, TerminalCursor, TerminalFrame,
    TerminalModes, TerminalSize, UnderlineStyle,
};

verus! {

pub const FLAG_INVERSE: u16 = 0x1;

pub const FLAG_BOLD: u16 = 0x2;

pub const FLAG_ITALIC: u16 = 0x4;

pub const FLAG_UNDERLINE: u16 = 0x8;

pub const FLAG_WIDE_CHAR: u16 = 0x20;

pub const FLAG_WIDE_CHAR_SPACER: u16 = 0x40;

pub const FLAG_DIM: u16 = 0x80;

pub const FLAG_HIDDEN: u16 = 0x100;

pub const FLAG_STRIKEOUT: u16 = 0x200;

pub const FLAG_DOUBLE_UNDERLINE: u16 = 0x800;

pub const FLAG_UNDERCURL: u16 = 0x1000;

pub const FLAG_DOTTED_UNDERLINE: u16 = 0x2000;

pub const FLAG_DASHED_UNDERLINE: u16 = 0x4000;

pub const MODE_APP_CURSOR: u32 = 0x2;

pub const MODE_BRACKETED_PASTE: u32 = 0x10;

pub const MODE_SGR_MOUSE: u32 = 0x20;

/// Reports of clicks, of drags and of motion.
pub const MODE_ANY_MOUSE: u32 = 0x2048;

/// All five enhancements of the kitty keyboard protocol.
pub const MODE_KITTY_KEYBOARD: u32 = 0x7c0000;

/// Whether the cell flags hold `flag`.
pub open spec fn flagged(flags: u16, flag: u16) -> bool {
    flags & flag == flag
}

/// Whether the mode word holds all bits of `bits`.
pub open spec fn mode_holds(mode: u32, bits: u32) -> bool {
    mode & bits == bits
}

/// How a cell with these flags is drawn. Of several underlines the fanciest is drawn.
pub open spec fn style_of(flags: u16) -> CellStyle {
    CellStyle {
        bold: flagged(flags, FLAG_BOLD),
        italic: flagged(flags, FLAG_ITALIC),
        dim: flagged(flags, FLAG_DIM),
        inverse: flagged(flags, FLAG_INVERSE),
        hidden: flagged(flags, FLAG_HIDDEN),
        strikeout: flagged(flags, FLAG_STRIKEOUT),
        underline: if flagged(flags, FLAG_DOUBLE_UNDERLINE) {
            UnderlineStyle::Double
        } else if flagged(flags, FLAG_UNDERCURL) {
            UnderlineStyle::Curl
        } else if flagged(flags, FLAG_DOTTED_UNDERLINE) {
            UnderlineStyle::Dotted
        } else if flagged(flags, FLAG_DASHED_UNDERLINE) {
            UnderlineStyle::Dashed
        } else if flagged(flags, FLAG_UNDERLINE) {
            UnderlineStyle::Single
        } else {
            UnderlineStyle::Plain
        },
        wide: flagged(flags, FLAG_WIDE_CHAR),
        wide_spacer: flagged(flags, FLAG_WIDE_CHAR_SPACER),
    }
}

fn has_flag(flags: u16, flag: u16) -> (res: bool)
    ensures
        res == flagged(flags, flag),
{
    flags & flag == flag
}

/// How a cell with these flags is drawn.
pub fn cell_style(flags: u16) -> (res: CellStyle)
    ensures
        res == style_of(flags),
{
    let underline = if has_flag(flags, FLAG_DOUBLE_UNDERLINE) {
        UnderlineStyle::Double
    } else if has_flag(flags, FLAG_UNDERCURL) {
        UnderlineStyle::Curl
    } else if has_flag(flags, FLAG_DOTTED_UNDERLINE) {
        UnderlineStyle::Dotted
    } else if has_flag(flags, FLAG_DASHED_UNDERLINE) {
        UnderlineStyle::Dashed
    } else if has_flag(flags, FLAG_UNDERLINE) {
        UnderlineStyle::Single
    } else {
        UnderlineStyle::Plain
    };
    CellStyle {
        bold: has_flag(flags, FLAG_BOLD),
        italic: has_flag(flags, FLAG_ITALIC),
        dim: has_flag(flags, FLAG_DIM),
        inverse: has_flag(flags, FLAG_INVERSE),
        hidden: has_flag(flags, FLAG_HIDDEN),
        strikeout: has_flag(flags, FLAG_STRIKEOUT),
        underline,
        wide: has_flag(flags, FLAG_WIDE_CHAR),
        wide_spacer: has_flag(flags, FLAG_WIDE_CHAR_SPACER),
    }
}

/// What the mode word says to the rest of the application.
pub open spec fn modes_of(mode: u32) -> TerminalModes {
    TerminalModes {
        application_cursor: mode_holds(mode, MODE_APP_CURSOR),
        alternate_screen: mode_holds(mode, MODE_ALT_SCREEN),
        bracketed_paste: mode_holds(mode, MODE_BRACKETED_PASTE),
        mouse_tracking: mode & MODE_ANY_MOUSE != 0,
        sgr_mouse: mode_holds(mode, MODE_SGR_MOUSE),
        kitty_keyboard: mode_holds(mode, MODE_KITTY_KEYBOARD),
    }
}

/// What the mode word says to the rest of the application.
pub fn terminal_modes(mode: u32) -> (res: TerminalModes)
    ensures
        res == modes_of(mode),
{
    TerminalModes {
        application_cursor: mode & MODE_APP_CURSOR == MODE_APP_CURSOR,
        alternate_screen: mode & MODE_ALT_SCREEN == MODE_ALT_SCREEN,
        bracketed_paste: mode & MODE_BRACKETED_PASTE == MODE_BRACKETED_PASTE,
        mouse_tracking: mode & MODE_ANY_MOUSE != 0,
        sgr_mouse: mode & MODE_SGR_MOUSE == MODE_SGR_MOUSE,
        kitty_keyboard: mode & MODE_KITTY_KEYBOARD == MODE_KITTY_KEYBOARD,
    }
}

/// The shape in which the cursor is drawn: a hollow block as a block, any other as it is.
pub open spec fn drawn_shape(shape: EmulatorCursorShape) -> CursorShape {
    match shape {
        EmulatorCursorShape::Block | EmulatorCursorShape::HollowBlock => CursorShape::Block,
        EmulatorCursorShape::Underline => CursorShape::Underline,
        EmulatorCursorShape::Beam => CursorShape::Beam,
        EmulatorCursorShape::Hidden => CursorShape::Hidden,
    }
}

/// The shape in which the cursor is drawn.
pub fn cursor_shape(shape: EmulatorCursorShape) -> (res: CursorShape)
    ensures
        res == drawn_shape(shape),
{
    match shape {
        EmulatorCursorShape::Block | EmulatorCursorShape::HollowBlock => CursorShape::Block,
        EmulatorCursorShape::Underline => CursorShape::Underline,
        EmulatorCursorShape::Beam => CursorShape::Beam,
        EmulatorCursorShape::Hidden => CursorShape::Hidden,
    }
}

/// A cell of the grid as it is drawn at `row` and `column`.
///
/// Inverse video swaps the colors of the text and of what is behind it. A hidden cell shows a
/// space. An underline has the color of the text unless it was given one.
pub open spec fn rendered(
    row: usize,
    column: usize,
    cell: GridCellView,
    colors: Seq<Option<Rgb>>,
) -> RenderCellView {
    let style = style_of(cell.flags);
    let text_color = shown_color(cell.foreground, colors, true);
    let fill_color = shown_color(cell.background, colors, false);
    let foreground = if style.inverse {
        fill_color
    } else {
        text_color
    };
    RenderCellView {
        row,
        column,
        text: if style.hidden {
            seq![' ']
        } else {
            seq![cell.character] + cell.zero_width
        },
        foreground,
        background: if style.inverse {
            text_color
        } else {
            fill_color
        },
        underline_color: match cell.underline {
            Some(color) => shown_color(color, colors, true),
            None => foreground,
        },
        style,
        hyperlink: cell.hyperlink,
    }
}

/// The text of a cell: its character and what combines with it.
fn cell_text(cell: &GridCell, hidden: bool) -> (res: String)
    ensures
        res@ == if hidden {
            seq![' ']
        } else {
            seq![cell.character] + cell.zero_width@
        },
{
    let mut text = String::new();
    if hidden {
        text.push(' ');
    } else {
        text.push(cell.character);
        let mut i: usize = 0;
        while i < cell.zero_width.len()
            invariant
                i <= cell.zero_width.len(),
                text@ == seq![cell.character] + cell.zero_width@.take(i as int),
            decreases cell.zero_width.len() - i,
        {
            text.push(cell.zero_width[i]);
            assert(cell.zero_width@.take(i + 1) =~= cell.zero_width@.take(i as int).push(
                cell.zero_width@[i as int],
            ));
            i = i + 1;
        }
        assert(cell.zero_width@.take(i as int) =~= cell.zero_width@);
    }
    assert(hidden ==> text@ =~= seq![' ']);
    text
}

/// A cell of the grid as it is drawn at `row` and `column`.
pub fn render_cell(row: usize, column: usize, cell: &GridCell, colors: &Vec<Option<Rgb>>) -> (res:
    RenderCell)
    ensures
        res@ == rendered(row, column, cell@, colors@),
{
    let style = cell_style(cell.flags);
    let text_color = resolve_color(cell.foreground, colors, true);
    let fill_color = resolve_color(cell.background, colors, false);
    let (foreground, background) = if style.inverse {
        (fill_color, text_color)
    } else {
        (text_color, fill_color)
    };
    RenderCell {
        row,
        column,
        text: cell_text(cell, style.hidden),
        foreground,
        background,
        underline_color: match cell.underline {
            Some(color) => resolve_color(color, colors, true),
            None => foreground,
        },
        style,
        hyperlink: match &cell.hyperlink {
            Some(uri) => Some(uri.clone()),
            None => None,
        },
    }
}

/// The damaged cells among the first `count` cells of a row, from left to right.
pub open spec fn row_cells(
    row: int,
    cells: Seq<GridCellView>,
    colors: Seq<Option<Rgb>>,
    damage: DamageView,
    count: nat,
) -> Seq<RenderCellView>
    decreases count,
{
    if count == 0 {
        Seq::empty()
    } else {
        let column = count - 1;
        let before = row_cells(row, cells, colors, damage, column as nat);
        if damaged(damage, row, column) {
            before.push(rendered(row as usize, column as usize, cells[column], colors))
        } else {
            before
        }
    }
}

/// The damaged cells of the first `count` rows of the viewport, in reading order. The viewport
/// starts as many lines above the screen as it is scrolled; it shows nothing above the oldest row.
pub open spec fn viewport_cells(content: TermContent, damage: DamageView, count: nat) -> Seq<
    RenderCellView,
>
    decreases count,
{
    if count == 0 {
        Seq::empty()
    } else {
        let row = count - 1;
        let line = row - content.display_offset;
        let before = viewport_cells(content, damage, row as nat);
        if content.has_line(line) {
            before + row_cells(row, content.row(line), content.colors, damage, content.columns)
        } else {
            before
        }
    }
}

/// The row of the viewport at which the cursor is drawn.
pub open spec fn cursor_row(line: int, display_offset: int) -> usize {
    let row = line + display_offset;
    if row < 0 {
        0
    } else if row > i32::MAX {
        i32::MAX as usize
    } else {
        row as usize
    }
}

/// The column at which the cursor is drawn: that of its cell, or the one before where the cell is
/// the second half of a wide character.
pub open spec fn cursor_column(content: TermContent) -> usize {
    let line = content.cursor.line as int;
    let column = content.cursor.column;
    if content.has_line(line) && 0 < column < content.columns && flagged(
        content.row(line)[column as int].flags,
        FLAG_WIDE_CHAR_SPACER,
    ) {
        (column - 1) as usize
    } else {
        column
    }
}

/// The cursor as it is drawn. The application may have hidden it.
pub open spec fn drawn_cursor(content: TermContent) -> TerminalCursor {
    TerminalCursor {
        row: cursor_row(content.cursor.line as int, content.display_offset as int),
        column: cursor_column(content),
        shape: if mode_holds(content.mode, MODE_SHOW_CURSOR) {
            drawn_shape(content.cursor.shape)
        } else {
            CursorShape::Hidden
        },
        blinking: content.cursor.blinking,
    }
}

/// The frame that shows `content`.
pub open spec fn frame_of(
    content: TermContent,
    revision: u64,
    damage: DamageView,
    selection: Option<CellRange>,
) -> FrameView {
    FrameView {
        revision,
        size: TerminalSize {
            columns: content.columns as usize,
            lines: content.screen_lines as usize,
        },
        damage,
        cells: viewport_cells(content, damage, content.screen_lines),
        cursor: drawn_cursor(content),
        selection,
        display_offset: content.display_offset as usize,
        modes: modes_of(content.mode),
    }
}

/// Appends the damaged cells of one row.
fn extract_row(
    row: usize,
    cells: &Vec<GridCell>,
    colors: &Vec<Option<Rgb>>,
    damage: &FrameDamage,
    out: &mut Vec<RenderCell>,
)
    ensures
        cell_views(final(out)@) == cell_views(old(out)@) + row_cells(
            row as int,
            grid_cell_views(cells@),
            colors@,
            damage@,
            cells@.len(),
        ),
{
    let ghost before = cell_views(out@);
    let mut column: usize = 0;
    while column < cells.len()
        invariant
            column <= cells.len(),
            cell_views(out@) == before + row_cells(
                row as int,
                grid_cell_views(cells@),
                colors@,
                damage@,
                column as nat,
            ),
        decreases cells.len() - column,
    {
        if damage_contains(damage, row, column) {
            let cell = render_cell(row, column, &cells[column], colors);
            proof {
                assert(grid_cell_views(cells@)[column as int] == cells@[column as int]@);
                assert(cell_views(out@.push(cell)) =~= cell_views(out@).push(cell@));
            }
            out.push(cell);
        }
        proof {
            let views = grid_cell_views(cells@);
            let next = row_cells(row as int, views, colors@, damage@, (column + 1) as nat);
            assert(cell_views(out@) =~= before + next);
        }
        column = column + 1;
    }
}

/// The cursor as it is drawn.
fn extract_cursor(emulator: &Emulator) -> (res: TerminalCursor)
    requires
        emulator_state(*emulator).content.well_formed(),
    ensures
        res == drawn_cursor(emulator_state(*emulator).content),
{
    let (line, column) = read_cursor_point(emulator);
    let (shape, blinking) = read_cursor_style(emulator);
    let lines = screen_lines(emulator);
    let history = total_lines(emulator) - lines;
    let shown = line as i64 + display_offset(emulator) as i64;
    let row: usize = if shown < 0 {
        0
    } else if shown > i32::MAX as i64 {
        i32::MAX as usize
    } else {
        shown as usize
    };
    let mut drawn: usize = column;
    if -(history as i64) <= line as i64 && (line as i64) < lines as i64 && 0 < column && column
        < columns(emulator) {
        let cells = read_row(emulator, line);
        assert(grid_cell_views(cells@)[column as int] == cells@[column as int]@);
        if has_flag(cells[column].flags, FLAG_WIDE_CHAR_SPACER) {
            drawn = column - 1;
        }
    }
    TerminalCursor {
        row,
        column: drawn,
        shape: if read_mode(emulator) & MODE_SHOW_CURSOR == MODE_SHOW_CURSOR {
            cursor_shape(shape)
        } else {
            CursorShape::Hidden
        },
        blinking,
    }
}

/// The frame that shows what the emulator holds, with the damaged cells only.
pub(crate) fn extract_frame(
    emulator: &Emulator,
    revision: u64,
    damage: FrameDamage,
    selection: Option<CellRange>,
) -> (res: TerminalFrame)
    requires
        emulator_state(*emulator).content.well_formed(),
    ensures
        res@ == frame_of(emulator_state(*emulator).content, revision, damage@, selection),
{
    let ghost content = emulator_state(*emulator).content;
    let size = TerminalSize::new(columns(emulator), screen_lines(emulator));
    let offset = display_offset(emulator);
    let history = total_lines(emulator) - size.lines;
    let cursor = extract_cursor(emulator);
    let colors = read_colors(emulator);
    let mut cells: Vec<RenderCell> = Vec::new();
    let mut row: usize = 0;
    assert(cell_views(cells@) =~= Seq::empty());
    while row < size.lines
        invariant
            content == emulator_state(*emulator).content,
            content.well_formed(),
            size.lines == content.screen_lines,
            offset == content.display_offset,
            history == content.history(),
            colors@ == content.colors,
            row <= size.lines,
            cell_views(cells@) == viewport_cells(content, damage@, row as nat),
        decreases size.lines - row,
    {
        if offset <= history + row {
            let line = row as i32 - offset as i32;
            let grid_row = read_row(emulator, line);
            extract_row(row, &grid_row, &colors, &damage, &mut cells);
        }
        row = row + 1;
    }
    TerminalFrame {
        revision,
        size,
        damage,
        cells,
        cursor,
        selection,
        display_offset: offset,
        modes: terminal_modes(read_mode(emulator)),
    }
}

proof fn lemma_full_row(
    row: int,
    cells: Seq<GridCellView>,
    colors: Seq<Option<Rgb>>,
    count: nat,
)
    ensures
        row_cells(row, cells, colors, DamageView::Full, count) == Seq::new(
            count,
            |column: int| rendered(row as usize, column as usize, cells[column], colors),
        ),
    decreases count,
{
    if count > 0 {
        lemma_full_row(row, cells, colors, (count - 1) as nat);
        assert(row_cells(row, cells, colors, DamageView::Full, count) =~= Seq::new(
            count,
            |column: int| rendered(row as usize, column as usize, cells[column], colors),
        ));
    }
}

/// A full frame shows every cell of the viewport, row by row and from left to right.
pub proof fn law_full_frame_shows_every_cell(content: TermContent, count: nat, row: int, column: int)
    requires
        content.well_formed(),
        content.display_offset <= content.history(),
        count <= content.screen_lines,
        0 <= row < count,
        0 <= column < content.columns,
    ensures
        viewport_cells(content, DamageView::Full, count).len() == count * content.columns,
        viewport_cells(content, DamageView::Full, count)[row * content.columns + column]
            == rendered(
            row as usize,
            column as usize,
            content.row(row - content.display_offset)[column],
            content.colors,
        ),
    decreases count,
{
    let last = count - 1;
    let width = content.columns as int;
    let line = last - content.display_offset;
    let before = viewport_cells(content, DamageView::Full, last as nat);
    lemma_full_row(last, content.row(line), content.colors, content.columns);
    assert(before.len() == last * width) by {
        if last > 0 {
            law_full_frame_shows_every_cell(content, last as nat, 0, 0);
        }
    }
    assert(count * width == last * width + width) by (nonlinear_arith)
        requires
            last == count - 1,
    ;
    if row < last {
        law_full_frame_shows_every_cell(content, last as nat, row, column);
        assert(row * width + column < last * width) by (nonlinear_arith)
            requires
                0 <= row < last,
                0 <= column < width,
        ;
        assert(0 <= row * width + column) by (nonlinear_arith)
            requires
                0 <= row,
                0 <= column < width,
        ;
    }
}

/// Whether a cell that is drawn is damaged.
pub open spec fn drawn_damaged(damage: DamageView) -> spec_fn(RenderCellView) -> bool {
    |cell: RenderCellView| damaged(damage, cell.row as int, cell.column as int)
}

proof fn lemma_partial_row(
    row: int,
    cells: Seq<GridCellView>,
    colors: Seq<Option<Rgb>>,
    damage: DamageView,
    count: nat,
)
    requires
        0 <= row <= usize::MAX,
        count <= usize::MAX,
    ensures
        row_cells(row, cells, colors, damage, count) == row_cells(
            row,
            cells,
            colors,
            DamageView::Full,
            count,
        ).filter(drawn_damaged(damage)),
    decreases count,
{
    let keep = drawn_damaged(damage);
    if count == 0 {
        reveal(Seq::filter);
    } else {
        let column = count - 1;
        let before = row_cells(row, cells, colors, DamageView::Full, column as nat);
        lemma_partial_row(row, cells, colors, damage, column as nat);
        lemma_filter_push(
            before,
            rendered(row as usize, column as usize, cells[column], colors),
            keep,
        );
    }
}

/// A partial frame is the full frame without the cells that are not damaged.
pub proof fn law_partial_frame_is_the_damaged_part(
    content: TermContent,
    damage: DamageView,
    count: nat,
)
    requires
        content.well_formed(),
        count <= content.screen_lines,
    ensures
        viewport_cells(content, damage, count) == viewport_cells(
            content,
            DamageView::Full,
            count,
        ).filter(drawn_damaged(damage)),
    decreases count,
{
    if count == 0 {
        reveal(Seq::filter);
    } else {
        let row = count - 1;
        let line = row - content.display_offset;
        law_partial_frame_is_the_damaged_part(content, damage, row as nat);
        if content.has_line(line) {
            lemma_partial_row(row, content.row(line), content.colors, damage, content.columns);
            Seq::filter_distributes_over_add(
                viewport_cells(content, DamageView::Full, row as nat),
                row_cells(
                    row,
                    content.row(line),
                    content.colors,
                    DamageView::Full,
                    content.columns,
                ),
                drawn_damaged(damage),
            );
        }
    }
}

/// Whether each cell stands behind the one before it in reading order.
pub open spec fn strictly_ordered(cells: Seq<RenderCellView>) -> bool {
    forall|i: int, j: int|
        0 <= i < j < cells.len() ==> (cells[i].row < cells[j].row || (cells[i].row == cells[j].row
            && cells[i].column < cells[j].column))
}

/// A full frame lists its cells in reading order, each place once.
pub proof fn law_full_rows_are_in_order(content: TermContent, count: nat)
    requires
        content.well_formed(),
        count <= content.screen_lines,
    ensures
        strictly_ordered(viewport_cells(content, DamageView::Full, count)),
        forall|i: int|
            0 <= i < viewport_cells(content, DamageView::Full, count).len() ==> (
            #[trigger] viewport_cells(content, DamageView::Full, count)[i]).row < count,
    decreases count,
{
    if count > 0 {
        let row = count - 1;
        let line = row - content.display_offset;
        let before = viewport_cells(content, DamageView::Full, row as nat);
        let all = viewport_cells(content, DamageView::Full, count);
        law_full_rows_are_in_order(content, row as nat);
        if content.has_line(line) {
            let added = row_cells(
                row,
                content.row(line),
                content.colors,
                DamageView::Full,
                content.columns,
            );
            lemma_full_row(row, content.row(line), content.colors, content.columns);
            assert forall|i: int| 0 <= i < added.len() implies (#[trigger] added[i]).row == row
                && added[i].column == i by {}
            assert(all == before + added);
            assert forall|i: int, j: int| 0 <= i < j < all.len() implies (all[i].row < all[j].row
                || (all[i].row == all[j].row && all[i].column < all[j].column)) by {
                if j >= before.len() {
                    assert(all[j] == added[j - before.len()]);
                    if i >= before.len() {
                        assert(all[i] == added[i - before.len()]);
                    } else {
                        assert(all[i] == before[i]);
                    }
                } else {
                    assert(all[i] == before[i] && all[j] == before[j]);
                }
            }
            assert forall|i: int| 0 <= i < all.len() implies (#[trigger] all[i]).row < count by {
                if i < before.len() {
                    assert(all[i] == before[i]);
                } else {
                    assert(all[i] == added[i - before.len()]);
                }
            }
        }
    }
}

} // verus!
