//! Colors of the window.

use vstd::prelude::*;

use crate::config::settings::ThemePreference;
use crate::terminal::colors::shown_color;
use crate::terminal::emulator::{CellColor, Rgb};
use crate::terminal::types::{opaque_color, TerminalColor};

verus! {

/// Whether the window is light.
pub open spec fn light(theme: ThemePreference, system_dark: bool) -> bool {
    theme is Light || (theme is System && !system_dark)
}

/// Reports whether the window is light: because the user wants it so, or because the system is
/// and the user follows the system.
pub fn is_light(theme: ThemePreference, system_dark: bool) -> (res: bool)
    ensures
        res == light(theme, system_dark),
{
    match theme {
        ThemePreference::Light => true,
        ThemePreference::System => !system_dark,
        ThemePreference::MatchaDark => false,
    }
}

/// The parts of the window that have colors of their own.
#[derive(Clone, Copy, Debug, Eq, PartialEq, Structural)]
pub enum Surface {
    Window,
    Terminal,
    SessionBar,
    SessionBarText,
    StatusBar,
    StatusBarText,
    Settings,
    SettingsText,
}

/// The color of a part of the window.
pub open spec fn surface_color(surface: Surface, light: bool) -> TerminalColor {
    match surface {
        Surface::Window => if light {
            opaque_color(241, 245, 241)
        } else {
            opaque_color(24, 31, 26)
        },
        Surface::Terminal => if light {
            opaque_color(250, 252, 250)
        } else {
            opaque_color(18, 24, 20)
        },
        Surface::SessionBar => if light {
            opaque_color(224, 233, 225)
        } else {
            opaque_color(31, 42, 34)
        },
        Surface::SessionBarText => if light {
            opaque_color(30, 44, 33)
        } else {
            opaque_color(226, 235, 226)
        },
        Surface::StatusBar => if light {
            opaque_color(235, 241, 235)
        } else {
            opaque_color(27, 36, 30)
        },
        Surface::StatusBarText => if light {
            opaque_color(76, 96, 80)
        } else {
            opaque_color(176, 193, 179)
        },
        Surface::Settings => if light {
            TerminalColor { red: 247, green: 250, blue: 247, alpha: 250 }
        } else {
            TerminalColor { red: 28, green: 38, blue: 31, alpha: 250 }
        },
        Surface::SettingsText => if light {
            opaque_color(30, 44, 33)
        } else {
            opaque_color(228, 237, 228)
        },
    }
}

/// The color of a part of the window.
pub fn color_of(surface: Surface, light: bool) -> (res: TerminalColor)
    ensures
        res == surface_color(surface, light),
{
    match surface {
        Surface::Window => if light {
            TerminalColor::rgb(241, 245, 241)
        } else {
            TerminalColor::rgb(24, 31, 26)
        },
        Surface::Terminal => if light {
            TerminalColor::rgb(250, 252, 250)
        } else {
            TerminalColor::rgb(18, 24, 20)
        },
        Surface::SessionBar => if light {
            TerminalColor::rgb(224, 233, 225)
        } else {
            TerminalColor::rgb(31, 42, 34)
        },
        Surface::SessionBarText => if light {
            TerminalColor::rgb(30, 44, 33)
        } else {
            TerminalColor::rgb(226, 235, 226)
        },
        Surface::StatusBar => if light {
            TerminalColor::rgb(235, 241, 235)
        } else {
            TerminalColor::rgb(27, 36, 30)
        },
        Surface::StatusBarText => if light {
            TerminalColor::rgb(76, 96, 80)
        } else {
            TerminalColor::rgb(176, 193, 179)
        },
        Surface::Settings => if light {
            TerminalColor { red: 247, green: 250, blue: 247, alpha: 250 }
        } else {
            TerminalColor { red: 28, green: 38, blue: 31, alpha: 250 }
        },
        Surface::SettingsText => if light {
            TerminalColor::rgb(30, 44, 33)
        } else {
            TerminalColor::rgb(228, 237, 228)
        },
    }
}

/// What is drawn over or beside the cells.
#[derive(Clone, Copy, Debug, Eq, PartialEq, Structural)]
pub enum Mark {
    Selection,
    Match,
    ActiveMatch,
    Cursor,
    Preedit,
}

/// The color of a mark. All but text that is being composed let the cells shine through.
pub open spec fn mark_color(mark: Mark) -> TerminalColor {
    match mark {
        Mark::Selection => TerminalColor { red: 82, green: 112, blue: 91, alpha: 190 },
        Mark::Match => TerminalColor { red: 133, green: 112, blue: 49, alpha: 170 },
        Mark::ActiveMatch => TerminalColor { red: 215, green: 176, blue: 74, alpha: 220 },
        Mark::Cursor => TerminalColor { red: 167, green: 213, blue: 165, alpha: 210 },
        Mark::Preedit => opaque_color(232, 240, 232),
    }
}

/// The color of a mark.
pub fn color_of_mark(mark: Mark) -> (res: TerminalColor)
    ensures
        res == mark_color(mark),
{
    match mark {
        Mark::Selection => TerminalColor { red: 82, green: 112, blue: 91, alpha: 190 },
        Mark::Match => TerminalColor { red: 133, green: 112, blue: 49, alpha: 170 },
        Mark::ActiveMatch => TerminalColor { red: 215, green: 176, blue: 74, alpha: 220 },
        Mark::Cursor => TerminalColor { red: 167, green: 213, blue: 165, alpha: 210 },
        Mark::Preedit => TerminalColor::rgb(232, 240, 232),
    }
}

/// Whether each component of `a` is at least `step` above that of `b`.
pub open spec fn lighter_by(a: TerminalColor, b: TerminalColor, step: int) -> bool {
    a.red >= b.red + step && a.green >= b.green + step && a.blue >= b.blue + step
}

/// A light window has dark text on light surfaces, and a dark one light text on dark surfaces: every
/// text stands out from the surface that it is on.
pub proof fn law_text_stands_out(light: bool)
    ensures
        ({
            let pairs = seq![
                (Surface::SessionBar, Surface::SessionBarText),
                (Surface::StatusBar, Surface::StatusBarText),
                (Surface::Settings, Surface::SettingsText),
            ];
            forall|i: int|
                0 <= i < pairs.len() ==> if light {
                    lighter_by(
                        surface_color((#[trigger] pairs[i]).0, light),
                        surface_color(pairs[i].1, light),
                        100,
                    )
                } else {
                    lighter_by(
                        surface_color(pairs[i].1, light),
                        surface_color(pairs[i].0, light),
                        100,
                    )
                }
        }),
{
}

/// Every surface is lighter in a light window than in a dark one, and every text darker. All of them
/// hide what is behind them, but for the settings, which let a little shine through.
pub proof fn law_light_windows_are_light(surface: Surface)
    ensures
        ({
            let in_light = surface_color(surface, true);
            let in_dark = surface_color(surface, false);
            let text = surface is SessionBarText || surface is StatusBarText
                || surface is SettingsText;
            &&& !text ==> lighter_by(in_light, in_dark, 100)
            &&& text ==> lighter_by(in_dark, in_light, 90)
            &&& in_light.alpha == in_dark.alpha
            &&& surface is Settings <==> in_light.alpha < 255
            &&& in_light.alpha >= 250
        }),
{
}

/// The window is light where the user wants it light, dark where the user wants it dark, and like the
/// system where the user follows the system.
pub proof fn law_the_user_chooses_the_theme(system_dark: bool)
    ensures
        light(ThemePreference::Light, system_dark),
        !light(ThemePreference::MatchaDark, system_dark),
        light(ThemePreference::System, system_dark) <==> !system_dark,
{
}

/// Marks let what they mark shine through, but for text that is being composed. The active match is
/// lighter and stronger than the other matches, and the cursor is told from the selection.
pub proof fn law_marks_are_told_apart(mark: Mark)
    ensures
        mark_color(mark).alpha == 255 <==> mark is Preedit,
        mark_color(mark).alpha >= 100,
        lighter_by(mark_color(Mark::ActiveMatch), mark_color(Mark::Match), 20),
        mark_color(Mark::ActiveMatch).alpha > mark_color(Mark::Match).alpha,
        lighter_by(mark_color(Mark::Cursor), mark_color(Mark::Selection), 50),
        mark_color(Mark::Match) != mark_color(Mark::Selection),
{
}

/// The terminal of a dark window is filled with what the terminal puts behind text without a color,
/// and the cursor has the color that programs know as the cursor's.
pub proof fn law_window_and_terminal_agree(colors: Seq<Option<Rgb>>)
    requires
        forall|i: int| 0 <= i < colors.len() ==> (#[trigger] colors[i]) is None,
    ensures
        surface_color(Surface::Terminal, false) == shown_color(
            CellColor::Named(257),
            colors,
            false,
        ),
        ({
            let cursor = shown_color(CellColor::Named(258), colors, true);
            let mark = mark_color(Mark::Cursor);
            cursor.red == mark.red && cursor.green == mark.green && cursor.blue == mark.blue
        }),
{
}

} // verus!
