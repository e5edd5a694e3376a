//! How what programs ask for shows on the screen.

use vstd::prelude::*;

use crate::terminal::colors::shown_color;
use crate::terminal::emulator::{EmulatorCursorShape, GridCellView, Rgb, TermContent};
use crate::terminal::frame::{
    drawn_cursor, frame_of, law_full_frame_shows_every_cell, modes_of, rendered, style_of,
};
use crate::terminal::types::{CellRange, CellStyle, CursorShape, DamageView, UnderlineStyle};

verus! {

/// Each attribute of a cell has a flag of its own: it shows if and only if that bit is set.
pub proof fn law_attributes_have_flags_of_their_own(flags: u16)
    ensures
        ({
            let style = style_of(flags);
            &&& style.inverse <==> flags & 0x1 != 0
            &&& style.bold <==> flags & 0x2 != 0
            &&& style.italic <==> flags & 0x4 != 0
            &&& style.wide <==> flags & 0x20 != 0
            &&& style.wide_spacer <==> flags & 0x40 != 0
            &&& style.dim <==> flags & 0x80 != 0
            &&& style.hidden <==> flags & 0x100 != 0
            &&& style.strikeout <==> flags & 0x200 != 0
        }),
{
    assert(flags & 0x1 != 0 <==> flags & 0x1 == 0x1) by (bit_vector);
    assert(flags & 0x2 != 0 <==> flags & 0x2 == 0x2) by (bit_vector);
    assert(flags & 0x4 != 0 <==> flags & 0x4 == 0x4) by (bit_vector);
    assert(flags & 0x20 != 0 <==> flags & 0x20 == 0x20) by (bit_vector);
    assert(flags & 0x40 != 0 <==> flags & 0x40 == 0x40) by (bit_vector);
    assert(flags & 0x80 != 0 <==> flags & 0x80 == 0x80) by (bit_vector);
    assert(flags & 0x100 != 0 <==> flags & 0x100 == 0x100) by (bit_vector);
    assert(flags & 0x200 != 0 <==> flags & 0x200 == 0x200) by (bit_vector);
}

/// A cell is underlined if and only if one of the five underlines is asked for; where just one is,
/// it is that one.
pub proof fn law_underlines_are_as_asked_for(flags: u16)
    ensures
        ({
            let underline = style_of(flags).underline;
            let asked = flags & 0x7808;
            &&& underline == UnderlineStyle::Plain <==> asked == 0
            &&& asked == 0x8 ==> underline == UnderlineStyle::Single
            &&& asked == 0x800 ==> underline == UnderlineStyle::Double
            &&& asked == 0x1000 ==> underline == UnderlineStyle::Curl
            &&& asked == 0x2000 ==> underline == UnderlineStyle::Dotted
            &&& asked == 0x4000 ==> underline == UnderlineStyle::Dashed
        }),
{
    assert(flags & 0x7808 == 0 <==> flags & 0x8 != 0x8 && flags & 0x800 != 0x800 && flags & 0x1000
        != 0x1000 && flags & 0x2000 != 0x2000 && flags & 0x4000 != 0x4000) by (bit_vector);
    assert(flags & 0x7808 == 0x8 ==> flags & 0x8 == 0x8 && flags & 0x800 != 0x800 && flags & 0x1000
        != 0x1000 && flags & 0x2000 != 0x2000 && flags & 0x4000 != 0x4000) by (bit_vector);
    assert(flags & 0x7808 == 0x800 ==> flags & 0x800 == 0x800) by (bit_vector);
    assert(flags & 0x7808 == 0x1000 ==> flags & 0x800 != 0x800 && flags & 0x1000 == 0x1000)
        by (bit_vector);
    assert(flags & 0x7808 == 0x2000 ==> flags & 0x800 != 0x800 && flags & 0x1000 != 0x1000 && flags
        & 0x2000 == 0x2000) by (bit_vector);
    assert(flags & 0x7808 == 0x4000 ==> flags & 0x800 != 0x800 && flags & 0x1000 != 0x1000 && flags
        & 0x2000 != 0x2000 && flags & 0x4000 == 0x4000) by (bit_vector);
}

/// A cell is drawn where it stands, with its own text, link, attributes and colors: what colors the
/// text colors the text, and what is behind it is behind it.
pub proof fn law_cells_are_drawn_as_they_are(
    row: usize,
    column: usize,
    cell: GridCellView,
    colors: Seq<Option<Rgb>>,
)
    ensures
        ({
            let drawn = rendered(row, column, cell, colors);
            &&& drawn.row == row
            &&& drawn.column == column
            &&& drawn.hyperlink == cell.hyperlink
            &&& drawn.style == style_of(cell.flags)
            &&& cell.flags & 0x100 == 0 ==> drawn.text.len() == 1 + cell.zero_width.len()
                && drawn.text[0] == cell.character && drawn.text.skip(1) == cell.zero_width
            &&& cell.flags & 0x100 != 0 ==> drawn.text == seq![' ']
            &&& cell.flags & 0x1 == 0 ==> drawn.foreground == shown_color(
                cell.foreground,
                colors,
                true,
            ) && drawn.background == shown_color(cell.background, colors, false)
            &&& cell.underline is None ==> drawn.underline_color == drawn.foreground
            &&& cell.underline matches Some(color) ==> drawn.underline_color == shown_color(
                color,
                colors,
                true,
            )
        }),
{
    law_attributes_have_flags_of_their_own(cell.flags);
    let drawn = rendered(row, column, cell, colors);
    if cell.flags & 0x100 == 0 {
        assert(drawn.text.skip(1) =~= cell.zero_width);
    }
}

/// Inverse video swaps the color of the text and the color behind it, and changes nothing else of
/// how the cell looks. Asking for it twice undoes it.
pub proof fn law_inverse_video_swaps_the_colors(
    row: usize,
    column: usize,
    cell: GridCellView,
    colors: Seq<Option<Rgb>>,
)
    ensures
        ({
            let plain = rendered(row, column, cell, colors);
            let other = GridCellView { flags: cell.flags ^ 0x1, ..cell };
            let swapped = rendered(row, column, other, colors);
            &&& swapped.foreground == plain.background
            &&& swapped.background == plain.foreground
            &&& swapped.text == plain.text
            &&& swapped.hyperlink == plain.hyperlink
            &&& swapped.style == (CellStyle { inverse: !plain.style.inverse, ..plain.style })
            &&& cell.underline is Some ==> swapped.underline_color == plain.underline_color
        }),
{
    let flags = cell.flags;
    let other = flags ^ 0x1;
    law_attributes_have_flags_of_their_own(flags);
    law_attributes_have_flags_of_their_own(other);
    assert((flags ^ 0x1) & 0x1 != 0 <==> flags & 0x1 == 0) by (bit_vector);
    assert((flags ^ 0x1) & 0x2 == flags & 0x2) by (bit_vector);
    assert((flags ^ 0x1) & 0x4 == flags & 0x4) by (bit_vector);
    assert((flags ^ 0x1) & 0x20 == flags & 0x20) by (bit_vector);
    assert((flags ^ 0x1) & 0x40 == flags & 0x40) by (bit_vector);
    assert((flags ^ 0x1) & 0x80 == flags & 0x80) by (bit_vector);
    assert((flags ^ 0x1) & 0x100 == flags & 0x100) by (bit_vector);
    assert((flags ^ 0x1) & 0x200 == flags & 0x200) by (bit_vector);
    assert((flags ^ 0x1) & 0x8 == flags & 0x8 && (flags ^ 0x1) & 0x800 == flags & 0x800 && (flags
        ^ 0x1) & 0x1000 == flags & 0x1000 && (flags ^ 0x1) & 0x2000 == flags & 0x2000 && (flags
        ^ 0x1) & 0x4000 == flags & 0x4000) by (bit_vector);
}

/// Each mode has bits of its own. The mouse is tracked where clicks, drags or motion are reported;
/// the kitty protocol is spoken where all of its enhancements are on.
pub proof fn law_modes_have_bits_of_their_own(mode: u32)
    ensures
        ({
            let modes = modes_of(mode);
            &&& modes.application_cursor <==> mode & 0x2 != 0
            &&& modes.bracketed_paste <==> mode & 0x10 != 0
            &&& modes.sgr_mouse <==> mode & 0x20 != 0
            &&& modes.alternate_screen <==> mode & 0x1000 != 0
            &&& modes.mouse_tracking <==> mode & 0x8 != 0 || mode & 0x40 != 0 || mode & 0x2000 != 0
            &&& modes.kitty_keyboard <==> mode & 0x4_0000 != 0 && mode & 0x8_0000 != 0 && mode
                & 0x10_0000 != 0 && mode & 0x20_0000 != 0 && mode & 0x40_0000 != 0
        }),
{
    assert(mode & 0x2 != 0 <==> mode & 0x2 == 0x2) by (bit_vector);
    assert(mode & 0x10 != 0 <==> mode & 0x10 == 0x10) by (bit_vector);
    assert(mode & 0x20 != 0 <==> mode & 0x20 == 0x20) by (bit_vector);
    assert(mode & 0x1000 != 0 <==> mode & 0x1000 == 0x1000) by (bit_vector);
    assert(mode & 0x2048 != 0 <==> mode & 0x8 != 0 || mode & 0x40 != 0 || mode & 0x2000 != 0)
        by (bit_vector);
    assert(mode & 0x7c_0000 == 0x7c_0000 <==> mode & 0x4_0000 != 0 && mode & 0x8_0000 != 0 && mode
        & 0x10_0000 != 0 && mode & 0x20_0000 != 0 && mode & 0x40_0000 != 0) by (bit_vector);
}

/// The cursor is drawn on the row of the viewport that shows its line, in the column of its cell.
/// Where that is the second half of a wide character it is drawn on the first half. It blinks as the
/// program asked, and is hidden if and only if the program hid it; else its shape is the one that
/// was asked for, where a hollow block is drawn as a block.
pub proof fn law_cursor_is_drawn_at_its_cell(content: TermContent)
    requires
        content.well_formed(),
    ensures
        ({
            let drawn = drawn_cursor(content);
            let cursor = content.cursor;
            let cells = content.rows[content.history() + cursor.line];
            let second_half = cells[cursor.column as int].flags & 0x40 != 0;
            &&& drawn.row == cursor.line + content.display_offset
            &&& !second_half ==> drawn.column == cursor.column
            &&& second_half && cursor.column > 0 ==> drawn.column + 1 == cursor.column
            &&& drawn.blinking == cursor.blinking
            &&& drawn.shape == CursorShape::Hidden <==> content.mode & 0x1 == 0 || cursor.shape
                == EmulatorCursorShape::Hidden
            &&& content.mode & 0x1 != 0 ==> {
                &&& cursor.shape == EmulatorCursorShape::Underline <==> drawn.shape
                    == CursorShape::Underline
                &&& cursor.shape == EmulatorCursorShape::Beam <==> drawn.shape == CursorShape::Beam
                &&& cursor.shape == EmulatorCursorShape::Block || cursor.shape
                    == EmulatorCursorShape::HollowBlock <==> drawn.shape == CursorShape::Block
            }
        }),
{
    let mode = content.mode;
    assert(mode & 0x1 != 0 <==> mode & 0x1 == 0x1) by (bit_vector);
    let flags = content.rows[content.history() + content.cursor.line][content.cursor.column as int].flags;
    assert(flags & 0x40 != 0 <==> flags & 0x40 == 0x40) by (bit_vector);
}

/// A frame tells the size of the screen, how far it is scrolled, the selection, the revision and
/// what changed as they are.
pub proof fn law_frames_tell_what_they_show(
    content: TermContent,
    revision: u64,
    damage: DamageView,
    selection: Option<CellRange>,
)
    requires
        content.well_formed(),
    ensures
        ({
            let frame = frame_of(content, revision, damage, selection);
            &&& frame.size.columns == content.columns
            &&& frame.size.lines == content.screen_lines
            &&& frame.display_offset == content.display_offset
            &&& frame.selection == selection
            &&& frame.revision == revision
            &&& frame.damage == damage
            &&& frame.cursor == drawn_cursor(content)
            &&& frame.modes == modes_of(content.mode)
        }),
{
}

/// A full frame has one cell for each place of the screen. The cell at a place holds the character
/// of the buffer that stands there: the row as many lines above the screen as the viewport is
/// scrolled, and the same column.
pub proof fn law_full_frame_is_the_viewport(
    content: TermContent,
    revision: u64,
    selection: Option<CellRange>,
    row: int,
    column: int,
)
    requires
        content.well_formed(),
        content.display_offset <= content.history(),
        0 <= row < content.screen_lines,
        0 <= column < content.columns,
    ensures
        ({
            let frame = frame_of(content, revision, DamageView::Full, selection);
            let drawn = frame.cells[row * content.columns + column];
            let cell = content.rows[content.rows.len() - content.screen_lines
                - content.display_offset + row][column];
            &&& frame.cells.len() == content.screen_lines * content.columns
            &&& drawn.row == row
            &&& drawn.column == column
            &&& drawn.style == style_of(cell.flags)
            &&& cell.flags & 0x100 == 0 ==> drawn.text == seq![cell.character] + cell.zero_width
            &&& cell.flags & 0x1 == 0 ==> drawn.foreground == shown_color(
                cell.foreground,
                content.colors,
                true,
            ) && drawn.background == shown_color(cell.background, content.colors, false)
        }),
{
    law_full_frame_shows_every_cell(content, content.screen_lines, row, column);
    let cell = content.row(row - content.display_offset)[column];
    law_cells_are_drawn_as_they_are(row as usize, column as usize, cell, content.colors);
    let drawn = rendered(row as usize, column as usize, cell, content.colors);
    if cell.flags & 0x100 == 0 {
        assert(drawn.text =~= seq![cell.character] + cell.zero_width);
    }
}

} // verus!
