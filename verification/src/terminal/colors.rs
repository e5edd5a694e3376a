//! The colors in which cells are drawn.

use vstd::prelude::*;

use crate::terminal::emulator::{CellColor, Rgb, COLOR_TABLE_LEN};
use crate::terminal::types::{opaque_color, TerminalColor};

verus! {

/// Place of the default background in the table of named colors.
pub const NAMED_BACKGROUND: u16 = 257;

/// Place of the cursor color in the table of named colors.
pub const NAMED_CURSOR: u16 = 258;

pub open spec fn rgb(r: u8, g: u8, b: u8) -> Rgb {
    Rgb { r, g, b }
}

/// The eight ANSI colors, then their bright variants.
pub open spec fn ansi_palette() -> Seq<Rgb> {
    seq![
        rgb(24, 30, 26),
        rgb(230, 99, 92),
        rgb(116, 186, 120),
        rgb(222, 185, 91),
        rgb(103, 155, 222),
        rgb(189, 126, 204),
        rgb(91, 190, 183),
        rgb(210, 218, 211),
        rgb(103, 113, 105),
        rgb(245, 128, 120),
        rgb(151, 211, 153),
        rgb(239, 207, 116),
        rgb(135, 179, 236),
        rgb(211, 155, 222),
        rgb(124, 213, 207),
        rgb(240, 244, 240),
    ]
}

/// Intensity of one of the six levels of the color cube.
pub open spec fn cube_level(level: int) -> u8 {
    if level == 0 {
        0
    } else {
        (55 + 40 * level) as u8
    }
}

/// The 256-color palette: the ANSI colors, a cube with six levels of each component, and a ramp of
/// grays.
pub open spec fn palette_color(index: u8) -> Rgb {
    if index < 16 {
        ansi_palette()[index as int]
    } else if index < 232 {
        let place = index - 16;
        rgb(cube_level(place / 36), cube_level(place / 6 % 6), cube_level(place % 6))
    } else {
        let gray = (8 + 10 * (index - 232)) as u8;
        rgb(gray, gray, gray)
    }
}

/// The theme's color for an entry of the table of named colors.
pub open spec fn theme_color(name: u16, foreground: bool) -> Rgb {
    if name < 16 {
        palette_color(name as u8)
    } else if name == NAMED_BACKGROUND || !foreground {
        rgb(18, 24, 20)
    } else if name == NAMED_CURSOR {
        rgb(167, 213, 165)
    } else {
        rgb(220, 229, 220)
    }
}

/// The entry of the color table at `index`, where a program has redefined it.
pub open spec fn redefined(colors: Seq<Option<Rgb>>, index: int) -> Option<Rgb> {
    if index < colors.len() {
        colors[index]
    } else {
        None
    }
}

/// The color that a cell shows: what the program redefined it to, else the theme's.
pub open spec fn shown_color(
    color: CellColor,
    colors: Seq<Option<Rgb>>,
    foreground: bool,
) -> TerminalColor {
    let shown = match color {
        CellColor::Direct(rgb) => rgb,
        CellColor::Indexed(index) => match redefined(colors, index as int) {
            Some(rgb) => rgb,
            None => palette_color(index),
        },
        CellColor::Named(name) => match redefined(colors, name as int) {
            Some(rgb) => rgb,
            None => theme_color(name, foreground),
        },
    };
    opaque_color(shown.r, shown.g, shown.b)
}

/// One of the sixteen ANSI colors.
fn ansi_color(index: u8) -> (res: Rgb)
    requires
        index < 16,
    ensures
        res == ansi_palette()[index as int],
{
    match index {
        0 => Rgb { r: 24, g: 30, b: 26 },
        1 => Rgb { r: 230, g: 99, b: 92 },
        2 => Rgb { r: 116, g: 186, b: 120 },
        3 => Rgb { r: 222, g: 185, b: 91 },
        4 => Rgb { r: 103, g: 155, b: 222 },
        5 => Rgb { r: 189, g: 126, b: 204 },
        6 => Rgb { r: 91, g: 190, b: 183 },
        7 => Rgb { r: 210, g: 218, b: 211 },
        8 => Rgb { r: 103, g: 113, b: 105 },
        9 => Rgb { r: 245, g: 128, b: 120 },
        10 => Rgb { r: 151, g: 211, b: 153 },
        11 => Rgb { r: 239, g: 207, b: 116 },
        12 => Rgb { r: 135, g: 179, b: 236 },
        13 => Rgb { r: 211, g: 155, b: 222 },
        14 => Rgb { r: 124, g: 213, b: 207 },
        _ => Rgb { r: 240, g: 244, b: 240 },
    }
}

/// Intensity of one of the six levels of the color cube.
fn component(level: u8) -> (res: u8)
    requires
        level < 6,
    ensures
        res == cube_level(level as int),
{
    if level == 0 {
        0
    } else {
        55 + level * 40
    }
}

/// The color at `index` of the 256-color palette.
pub fn indexed_color(index: u8) -> (res: Rgb)
    ensures
        res == palette_color(index),
{
    if index < 16 {
        ansi_color(index)
    } else if index < 232 {
        let value: u8 = index - 16;
        assert(value / 36 < 6 && value % 36 / 6 == value / 6 % 6);
        Rgb { r: component(value / 36), g: component((value % 36) / 6), b: component(value % 6) }
    } else {
        let gray: u8 = 8 + (index - 232) * 10;
        Rgb { r: gray, g: gray, b: gray }
    }
}

/// The theme's color for an entry of the table of named colors.
pub fn named_color(name: u16, foreground: bool) -> (res: Rgb)
    ensures
        res == theme_color(name, foreground),
{
    if name < 16 {
        indexed_color(name as u8)
    } else if name == NAMED_BACKGROUND || !foreground {
        Rgb { r: 18, g: 24, b: 20 }
    } else if name == NAMED_CURSOR {
        Rgb { r: 167, g: 213, b: 165 }
    } else {
        Rgb { r: 220, g: 229, b: 220 }
    }
}

/// The color that a cell shows: what the program redefined it to, else the theme's.
pub fn resolve_color(color: CellColor, colors: &Vec<Option<Rgb>>, foreground: bool) -> (res:
    TerminalColor)
    ensures
        res == shown_color(color, colors@, foreground),
{
    let shown = match color {
        CellColor::Direct(rgb) => rgb,
        CellColor::Indexed(index) => {
            let place = index as usize;
            let entry = if place < colors.len() {
                colors[place]
            } else {
                None
            };
            match entry {
                Some(rgb) => rgb,
                None => indexed_color(index),
            }
        },
        CellColor::Named(name) => {
            let place = name as usize;
            let entry = if place < colors.len() {
                colors[place]
            } else {
                None
            };
            match entry {
                Some(rgb) => rgb,
                None => named_color(name, foreground),
            }
        },
    };
    TerminalColor::rgb(shown.r, shown.g, shown.b)
}

/// A color that is given by its components is shown as it is, and a color that a program has
/// redefined is shown as redefined, whether it colors the text or what is behind it.
pub proof fn law_programs_choose_their_colors(
    index: u8,
    name: u16,
    chosen: Rgb,
    colors: Seq<Option<Rgb>>,
    foreground: bool,
)
    requires
        colors.len() == COLOR_TABLE_LEN,
    ensures
        shown_color(CellColor::Direct(chosen), colors, foreground) == opaque_color(
            chosen.r,
            chosen.g,
            chosen.b,
        ),
        ({
            let shown = shown_color(CellColor::Direct(chosen), colors, foreground);
            &&& shown.red == chosen.r && shown.green == chosen.g && shown.blue == chosen.b
            &&& shown.alpha == 255
        }),
        colors[index as int] == Some(chosen) ==> shown_color(
            CellColor::Indexed(index),
            colors,
            foreground,
        ) == shown_color(CellColor::Direct(chosen), colors, foreground),
        name < COLOR_TABLE_LEN && colors[name as int] == Some(chosen) ==> shown_color(
            CellColor::Named(name),
            colors,
            foreground,
        ) == shown_color(CellColor::Direct(chosen), colors, foreground),
{
}

/// Redefining one entry of the table changes the cells in that color alone.
pub proof fn law_redefining_changes_one_color(
    color: CellColor,
    place: int,
    chosen: Option<Rgb>,
    colors: Seq<Option<Rgb>>,
    foreground: bool,
)
    requires
        0 <= place < colors.len(),
        match color {
            CellColor::Direct(_) => true,
            CellColor::Indexed(index) => index != place,
            CellColor::Named(name) => name != place,
        },
    ensures
        shown_color(color, colors.update(place, chosen), foreground) == shown_color(
            color,
            colors,
            foreground,
        ),
{
}

/// An ANSI color shows the same entry of the palette whether it colors the text or what is behind
/// it, and whether it is asked for by name or by number.
pub proof fn law_ansi_colors_are_one_palette(name: u16, colors: Seq<Option<Rgb>>)
    requires
        name < 16,
        name < colors.len() ==> colors[name as int] is None,
    ensures
        shown_color(CellColor::Named(name), colors, true) == shown_color(
            CellColor::Named(name),
            colors,
            false,
        ),
        forall|foreground: bool|
            #[trigger] shown_color(CellColor::Indexed(name as u8), colors, foreground)
                == shown_color(CellColor::Named(name), colors, foreground),
{
}

/// A color that is asked for by number is the same for the text and for what is behind it.
pub proof fn law_numbered_colors_ignore_their_place(index: u8, colors: Seq<Option<Rgb>>)
    ensures
        shown_color(CellColor::Indexed(index), colors, true) == shown_color(
            CellColor::Indexed(index),
            colors,
            false,
        ),
{
}

/// What the theme puts behind text without a color is the default background, whichever of the
/// theme's own colors was named. In front it is told from the background by every name but the
/// background's own, and the cursor is told from both.
pub proof fn law_theme_text_is_told_from_its_background(name: u16, colors: Seq<Option<Rgb>>)
    requires
        16 <= name,
        forall|i: int| 16 <= i < colors.len() ==> (#[trigger] colors[i]) is None,
    ensures
        shown_color(CellColor::Named(name), colors, false) == shown_color(
            CellColor::Named(257),
            colors,
            true,
        ),
        name != 257 ==> {
            let text = shown_color(CellColor::Named(name), colors, true);
            let fill = shown_color(CellColor::Named(257), colors, false);
            &&& text.red >= fill.red + 100
            &&& text.green >= fill.green + 100
            &&& text.blue >= fill.blue + 100
        },
        name != 257 && name != 258 ==> shown_color(CellColor::Named(name), colors, true)
            == shown_color(CellColor::Named(256), colors, true) && shown_color(
            CellColor::Named(name),
            colors,
            true,
        ) != shown_color(CellColor::Named(258), colors, true),
{
}

/// The lowest three bits of an ANSI color's number say which of red, green and blue it holds: each
/// component that it holds is stronger than each that it does not. Black is darker than white in
/// every component.
pub proof fn law_ansi_numbers_name_their_hue(number: u8)
    requires
        number < 16,
    ensures
        ({
            let color = palette_color(number);
            let hue = number % 8;
            &&& hue == 1 ==> color.r > color.g && color.r > color.b
            &&& hue == 2 ==> color.g > color.r && color.g > color.b
            &&& hue == 3 ==> color.r > color.b && color.g > color.b
            &&& hue == 4 ==> color.b > color.r && color.b > color.g
            &&& hue == 5 ==> color.r > color.g && color.b > color.g
            &&& hue == 6 ==> color.g > color.r && color.b > color.r
            &&& hue == 7 ==> {
                let black = palette_color((number - 7) as u8);
                color.r > black.r && color.g > black.g && color.b > black.b
            }
        }),
{
}

/// The bright variant of an ANSI color is lighter than the color in every component.
pub proof fn law_bright_colors_are_lighter(number: u8)
    requires
        number < 8,
    ensures
        ({
            let color = palette_color(number);
            let bright = palette_color((number + 8) as u8);
            color.r < bright.r && color.g < bright.g && color.b < bright.b
        }),
{
}

/// In the color cube red, green and blue each have six levels. A component depends on its own level
/// alone, is absent at level zero and full at level five, and grows in equal steps between.
pub proof fn law_cube_mixes_red_green_and_blue(red: u8, green: u8, blue: u8)
    requires
        red < 6,
        green < 6,
        blue < 6,
    ensures
        ({
            let color = palette_color((16 + 36 * red + 6 * green + blue) as u8);
            let gray = palette_color((16 + 43 * red) as u8);
            &&& gray.r == gray.g == gray.b
            &&& color.r == gray.r
            &&& color.g == palette_color((16 + 43 * green) as u8).g
            &&& color.b == palette_color((16 + 43 * blue) as u8).b
            &&& red == 0 ==> color.r == 0
            &&& red > 0 ==> color.r == 255 - 40 * (5 - red)
        }),
{
    let number = 16 + 36 * red + 6 * green + blue;
    let place = number - 16;
    assert(place == 36 * red + 6 * green + blue);
    assert(place / 36 == red && place / 6 % 6 == green && place % 6 == blue) by (nonlinear_arith)
        requires
            place == 36 * red + 6 * green + blue,
            0 <= red < 6,
            0 <= green < 6,
            0 <= blue < 6,
    ;
    lemma_gray_diagonal(red);
    lemma_gray_diagonal(green);
    lemma_gray_diagonal(blue);
}

proof fn lemma_gray_diagonal(level: u8)
    requires
        level < 6,
    ensures
        palette_color((16 + 43 * level) as u8) == rgb(
            cube_level(level as int),
            cube_level(level as int),
            cube_level(level as int),
        ),
{
    let place = 43 * level;
    assert(place / 36 == level && place / 6 % 6 == level && place % 6 == level)
        by (nonlinear_arith)
        requires
            place == 43 * level,
            0 <= level < 6,
    ;
}

/// The last colors of the palette are grays, each lighter than the one before by ten. The first is
/// eight above black, and the last short of white.
pub proof fn law_gray_ramp_is_even(number: u8)
    requires
        232 <= number,
    ensures
        ({
            let gray = palette_color(number);
            &&& gray.r == gray.g == gray.b
            &&& gray.r + 2312 == 10 * number
            &&& gray.r < 255
            &&& number < 255 ==> palette_color((number + 1) as u8).r == gray.r + 10
        }),
{
}

} // verus!
