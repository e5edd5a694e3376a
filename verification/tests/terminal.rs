//! The terminal model, driven through the emulator.

use std::sync::Arc;

use alacritty_terminal::event::Event;
use alacritty_terminal::term::ClipboardType;
use matcha::terminal::emulator::{CellColor, EmulatorEvent, Rgb};
use matcha::terminal::frame::{cell_style, cursor_shape, terminal_modes};
use matcha::terminal::model::{action_of, split_actions, AlacrittyTerminal, TerminalModel};
use matcha::terminal::search::next_match;
use matcha::terminal::types::{
    damage_contains, CellPoint, CellRange, ClipboardKind, CursorShape, DamageRegion, FrameDamage,
    SearchDirection, SearchRequest, TerminalAction, TerminalColor, TerminalFrame, TerminalSize,
    UnderlineStyle,
};
use matcha::terminal::{colors, emulator};

fn search(query: &str, case_sensitive: bool) -> SearchRequest {
    SearchRequest { query: query.into(), case_sensitive }
}

fn cell(frame: &TerminalFrame, row: usize, column: usize) -> matcha::terminal::types::RenderCell {
    frame
        .cells
        .iter()
        .find(|cell| cell.row == row && cell.column == column)
        .expect("cell should exist")
        .clone()
}

#[test]
fn parses_text_and_ansi_attributes() {
    let mut terminal = AlacrittyTerminal::new(TerminalSize::new(20, 3));
    terminal.feed(b"plain \x1b[1;31mred\x1b[0m");
    assert_eq!(terminal.visible_text(), "plain red");
    let red = terminal
        .frame()
        .cells
        .into_iter()
        .find(|cell| cell.column == 6)
        .expect("styled cell should exist");
    assert!(red.style.bold);
    assert_ne!(red.foreground, TerminalColor::default());
}

#[test]
fn handles_cursor_movement() {
    let mut terminal = AlacrittyTerminal::new(TerminalSize::new(10, 3));
    terminal.feed(b"abc\rZ");
    assert_eq!(terminal.visible_text(), "Zbc");
}

#[test]
fn reports_incremental_damage_after_initial_frame() {
    let mut terminal = AlacrittyTerminal::new(TerminalSize::new(20, 3));
    assert!(matches!(terminal.frame().damage, FrameDamage::Full));
    terminal.feed(b"x");
    let frame = terminal.frame();
    assert!(matches!(frame.damage, FrameDamage::Partial(_)));
    assert!(frame.cells.iter().any(|cell| cell.text == "x"));
    assert!(!matches!(terminal.frame().damage, FrameDamage::Full));
}

#[test]
fn drawn_screen_has_only_its_cursor_left() {
    let mut terminal = AlacrittyTerminal::new(TerminalSize::new(20, 3));
    terminal.feed(b"one\r\ntwo\r\nthree\r\nfour\x1b[2;6H");
    terminal.frame();
    let cursor = FrameDamage::Partial(vec![DamageRegion { row: 1, left: 5, right: 5 }]);
    assert_eq!(terminal.frame().damage, cursor);
    assert_eq!(terminal.frame().damage, cursor);
    terminal.scroll(1);
    assert_eq!(terminal.frame().damage, FrameDamage::Full);
    let moved = FrameDamage::Partial(vec![DamageRegion { row: 2, left: 5, right: 5 }]);
    assert_eq!(terminal.frame().damage, moved);
    terminal.feed(b"\x1b[3;1H");
    terminal.frame();
    assert_eq!(terminal.frame().damage, FrameDamage::Unchanged);
    terminal.feed(b"\x1b[4h");
    terminal.frame();
    assert_eq!(terminal.frame().damage, FrameDamage::Full);
}

#[test]
fn dropping_drain_leaves_nothing_behind() {
    let mut terminal = AlacrittyTerminal::new(TerminalSize::new(20, 3));
    terminal.feed(b"\x1b]0;name\x07\x1b[6n");
    assert_eq!(terminal.drain_all_for_host(), vec![b"\x1b[1;1R".to_vec()]);
    assert!(terminal.drain_actions().is_empty());
}

#[test]
fn exposes_device_status_replies_for_the_host() {
    let mut terminal = AlacrittyTerminal::new(TerminalSize::new(80, 24));
    terminal.feed(b"\x1b[6n");
    assert_eq!(terminal.drain_host_responses(), vec![b"\x1b[1;1R"]);
}

#[test]
fn selects_and_searches_visible_text() {
    let mut terminal = AlacrittyTerminal::new(TerminalSize::new(20, 3));
    terminal.feed(b"Matcha terminal");
    terminal.set_selection(Some(CellRange {
        start: CellPoint { row: 0, column: 0 },
        end: CellPoint { row: 0, column: 5 },
    }));
    assert_eq!(terminal.selection_text().as_deref(), Some("Matcha"));
    let result = terminal.search(&SearchRequest {
        query: "TERMINAL".into(),
        case_sensitive: false,
    });
    assert_eq!(result.matches.len(), 1);
    assert_eq!(result.total, 1);
    assert_eq!(result.current, Some(0));
}

#[test]
fn searches_scrollback_and_scrolls_to_the_active_match() {
    let mut terminal = AlacrittyTerminal::new_with_scrollback(TerminalSize::new(20, 3), 50);
    for index in 0..10 {
        terminal.feed(format!("needle-{index}\r\n").as_bytes());
    }
    let result = terminal.search(&SearchRequest {
        query: "needle-0".into(),
        case_sensitive: true,
    });
    assert_eq!(result.total, 1);
    let visible = terminal.navigate_search(SearchDirection::Previous);
    assert_eq!(visible.matches.len(), 1);
    assert!(terminal.full_frame().display_offset > 0);
}

#[test]
fn session_restart_keeps_history_and_adds_a_marker() {
    let mut terminal = AlacrittyTerminal::new(TerminalSize::new(40, 4));
    terminal.feed(b"old output");
    terminal.prepare_session_restart("PowerShell 7");
    let text = terminal.visible_text();
    assert!(text.contains("old output"));
    assert!(text.contains("Matcha"));
    assert!(text.contains("PowerShell 7"));
}

#[test]
fn retains_configured_history_after_one_hundred_thousand_lines() {
    let mut terminal = AlacrittyTerminal::new_with_scrollback(TerminalSize::new(120, 40), 50_000);
    for index in 0..100_000 {
        terminal.feed(format!("Matcha stress line {index}\r\n").as_bytes());
    }
    assert_eq!(terminal.scrollback_len(), 50_000);
    terminal.feed(b"still interactive");
    assert!(terminal.visible_text().contains("still interactive"));
}

#[test]
fn new_terminal_is_blank() {
    let mut terminal = AlacrittyTerminal::new_with_scrollback(TerminalSize::new(7, 3), 5);
    assert_eq!(terminal.size(), TerminalSize::new(7, 3));
    assert_eq!(terminal.scrollback_len(), 0);
    assert_eq!(terminal.visible_text(), "");
    assert!(terminal.drain_actions().is_empty());
    let frame = terminal.full_frame();
    assert_eq!(frame.revision, 0);
    assert_eq!(frame.cells.len(), 21);
    assert_eq!(frame.display_offset, 0);
    assert_eq!((frame.cursor.row, frame.cursor.column), (0, 0));
    assert_eq!(frame.cursor.shape, CursorShape::Block);
    assert!(!frame.cursor.blinking);
    assert!(!frame.modes.mouse_tracking && !frame.modes.kitty_keyboard);
    for (index, cell) in frame.cells.iter().enumerate() {
        assert_eq!((cell.row, cell.column), (index / 7, index % 7));
        assert_eq!(cell.text, " ");
        assert_eq!(cell.foreground, TerminalColor::rgb(220, 229, 220));
        assert_eq!(cell.background, TerminalColor::rgb(18, 24, 20));
    }
}

#[test]
fn colors_follow_the_palette_and_redefinitions() {
    assert_eq!(colors::indexed_color(1), Rgb { r: 230, g: 99, b: 92 });
    assert_eq!(colors::indexed_color(16), Rgb { r: 0, g: 0, b: 0 });
    assert_eq!(colors::indexed_color(196), Rgb { r: 255, g: 0, b: 0 });
    assert_eq!(colors::indexed_color(231), Rgb { r: 255, g: 255, b: 255 });
    assert_eq!(colors::indexed_color(232), Rgb { r: 8, g: 8, b: 8 });
    assert_eq!(colors::indexed_color(255), Rgb { r: 238, g: 238, b: 238 });
    assert_eq!(colors::named_color(256, true), Rgb { r: 220, g: 229, b: 220 });
    assert_eq!(colors::named_color(257, true), Rgb { r: 18, g: 24, b: 20 });
    assert_eq!(colors::named_color(258, true), Rgb { r: 167, g: 213, b: 165 });

    let mut table = vec![None; emulator::COLOR_TABLE_LEN];
    table[1] = Some(Rgb { r: 1, g: 2, b: 3 });
    let shown = colors::resolve_color(CellColor::Indexed(1), &table, true);
    assert_eq!(shown, TerminalColor::rgb(1, 2, 3));

    let mut terminal = AlacrittyTerminal::new(TerminalSize::new(10, 2));
    terminal.feed(b"\x1b]4;1;rgb:11/22/33\x1b\\\x1b[31mr\x1b[38;2;9;8;7md");
    let frame = terminal.full_frame();
    assert_eq!(cell(&frame, 0, 0).foreground, TerminalColor::rgb(0x11, 0x22, 0x33));
    assert_eq!(cell(&frame, 0, 1).foreground, TerminalColor::rgb(9, 8, 7));
}

#[test]
fn styles_are_read_from_the_flags() {
    let mut terminal = AlacrittyTerminal::new(TerminalSize::new(20, 2));
    terminal.feed(b"\x1b[1mb\x1b[0m\x1b[3mi\x1b[0m\x1b[2md\x1b[0m\x1b[9ms\x1b[0m");
    terminal.feed(b"\x1b[4mu\x1b[4:2mv\x1b[4:3mw\x1b[4:4mx\x1b[4:5my\x1b[0m");
    terminal.feed(b"\x1b[8mh\x1b[0m\x1b[7mn\x1b[0m");
    let frame = terminal.full_frame();
    assert!(cell(&frame, 0, 0).style.bold);
    assert!(cell(&frame, 0, 1).style.italic);
    assert!(cell(&frame, 0, 2).style.dim);
    assert!(cell(&frame, 0, 3).style.strikeout);
    let underlines: Vec<UnderlineStyle> =
        (4..9).map(|column| cell(&frame, 0, column).style.underline).collect();
    assert_eq!(
        underlines,
        vec![
            UnderlineStyle::Single,
            UnderlineStyle::Double,
            UnderlineStyle::Curl,
            UnderlineStyle::Dotted,
            UnderlineStyle::Dashed,
        ]
    );
    assert_eq!(cell(&frame, 0, 9).text, " ");
    assert!(cell(&frame, 0, 9).style.hidden);
    let inverse = cell(&frame, 0, 10);
    assert_eq!(inverse.foreground, TerminalColor::rgb(18, 24, 20));
    assert_eq!(inverse.background, TerminalColor::rgb(220, 229, 220));
    assert_eq!(inverse.underline_color, inverse.foreground);
    assert_eq!(cell_style(0).underline, UnderlineStyle::Plain);
}

#[test]
fn wide_characters_have_a_spacer() {
    let mut terminal = AlacrittyTerminal::new(TerminalSize::new(10, 2));
    terminal.feed("界e\u{301}".as_bytes());
    let frame = terminal.full_frame();
    assert!(cell(&frame, 0, 0).style.wide);
    assert!(cell(&frame, 0, 1).style.wide_spacer);
    assert_eq!(cell(&frame, 0, 2).text, "e\u{301}");
    assert_eq!(terminal.visible_text(), "界e\u{301}");
}

#[test]
fn hyperlinks_are_carried() {
    let mut terminal = AlacrittyTerminal::new(TerminalSize::new(10, 2));
    terminal.feed(b"\x1b]8;;https://example.org\x1b\\l\x1b]8;;\x1b\\n");
    let frame = terminal.full_frame();
    assert_eq!(cell(&frame, 0, 0).hyperlink.as_deref(), Some("https://example.org"));
    assert_eq!(cell(&frame, 0, 1).hyperlink, None);
}

#[test]
fn modes_are_read_from_the_emulator() {
    let mut terminal = AlacrittyTerminal::new(TerminalSize::new(10, 2));
    terminal.feed(b"\x1b[?1h\x1b[?2004h\x1b[?1000h\x1b[?1006h\x1b[?1049h");
    let modes = terminal.full_frame().modes;
    assert!(modes.application_cursor && modes.bracketed_paste && modes.mouse_tracking);
    assert!(modes.sgr_mouse && modes.alternate_screen && !modes.kitty_keyboard);
    assert!(terminal_modes(0x7c0000).kitty_keyboard);
    assert!(!terminal_modes(0x40000).kitty_keyboard);
    assert!(terminal_modes(0x40).mouse_tracking && terminal_modes(0x2000).mouse_tracking);
}

#[test]
fn cursor_is_followed() {
    let mut terminal = AlacrittyTerminal::new(TerminalSize::new(10, 4));
    terminal.feed(b"\x1b[3;5H\x1b[5 q");
    let cursor = terminal.full_frame().cursor;
    assert_eq!((cursor.row, cursor.column), (2, 4));
    assert_eq!(cursor.shape, CursorShape::Beam);
    assert!(cursor.blinking);
    terminal.feed(b"\x1b[4 q");
    assert_eq!(terminal.full_frame().cursor.shape, CursorShape::Underline);
    terminal.feed(b"\x1b[?25l");
    assert_eq!(terminal.full_frame().cursor.shape, CursorShape::Hidden);
    assert_eq!(cursor_shape(emulator::EmulatorCursorShape::HollowBlock), CursorShape::Block);
}

#[test]
fn cursor_on_the_second_half_of_a_wide_character_is_drawn_on_the_first() {
    let mut terminal = AlacrittyTerminal::new(TerminalSize::new(10, 2));
    terminal.feed("a界\x1b[1;3H".as_bytes());
    assert_eq!(terminal.full_frame().cursor.column, 1);
    terminal.feed("\x1b[2J\x1b[H界\r\x1b[P".as_bytes());
    let frame = terminal.full_frame();
    assert!(cell(&frame, 0, 0).style.wide_spacer);
    assert_eq!(frame.cursor.column, 0);
    assert_eq!(terminal.frame().cursor.column, 0);
    assert_eq!(terminal.visible_text(), "");
}

#[test]
fn viewport_and_limit_are_told() {
    let mut terminal = AlacrittyTerminal::new_with_scrollback(TerminalSize::new(10, 3), 5);
    terminal.scroll(1);
    assert!(matches!(terminal.drain_actions()[..], [TerminalAction::Wakeup]));
    terminal.resize(TerminalSize::new(12, 3));
    assert!(terminal.drain_actions().is_empty());
    terminal.set_scrollback_limit(7);
    assert!(matches!(terminal.drain_actions()[..], [TerminalAction::ResetTitle]));
    terminal.feed(b"\x1b]0;vim\x07");
    terminal.set_scrollback_limit(8);
    let actions = terminal.drain_actions();
    assert_eq!(actions.len(), 2);
    assert!(matches!(&actions[1], TerminalAction::Title(title) if title == "vim"));
}

#[test]
fn replies_are_taken_once_and_in_order() {
    let mut terminal = AlacrittyTerminal::new(TerminalSize::new(80, 24));
    terminal.feed(b"\x1b[6n\x07x");
    terminal.feed(b"\x1b[6n");
    assert_eq!(
        terminal.drain_host_responses(),
        vec![b"\x1b[1;1R".to_vec(), b"\x1b[1;2R".to_vec()]
    );
    assert!(terminal.drain_host_responses().is_empty());
    assert!(matches!(terminal.drain_actions()[..], [TerminalAction::Bell]));
}

#[test]
fn scrolling_stays_between_history_and_screen() {
    let mut terminal = AlacrittyTerminal::new_with_scrollback(TerminalSize::new(10, 3), 50);
    for index in 0..8 {
        terminal.feed(format!("{index}\r\n").as_bytes());
    }
    assert_eq!(terminal.scrollback_len(), 6);
    terminal.scroll(2);
    assert_eq!(terminal.full_frame().display_offset, 2);
    assert_eq!(terminal.visible_text(), "4\n5\n6");
    assert!(matches!(terminal.frame().damage, FrameDamage::Full));
    terminal.scroll(3);
    terminal.scroll(-3);
    assert_eq!(terminal.full_frame().display_offset, 2);
    terminal.scroll(i32::MAX);
    assert_eq!(terminal.full_frame().display_offset, 6);
    terminal.scroll(i32::MAX);
    assert_eq!(terminal.full_frame().display_offset, 6);
    assert_eq!(terminal.full_frame().cursor.row, 8);
    terminal.scroll(i32::MIN);
    assert_eq!(terminal.full_frame().display_offset, 0);
    terminal.scroll(4);
    terminal.set_scrollback_limit(3);
    assert_eq!(terminal.scrollback_len(), 3);
    assert_eq!(terminal.full_frame().display_offset, 3);
    assert_eq!(terminal.visible_text(), "3\n4\n5");
}

#[test]
fn resizing_changes_the_screen() {
    let mut terminal = AlacrittyTerminal::new(TerminalSize::new(10, 3));
    terminal.feed(b"hello");
    let _ = terminal.frame();
    terminal.resize(TerminalSize::new(10, 3));
    assert!(!matches!(terminal.frame().damage, FrameDamage::Full));
    terminal.resize(TerminalSize::new(12, 5));
    assert_eq!(terminal.size(), TerminalSize::new(12, 5));
    assert!(matches!(terminal.frame().damage, FrameDamage::Full));
    assert_eq!(terminal.visible_text(), "hello");
    assert_eq!(terminal.full_frame().cells.len(), 60);
}

#[test]
fn every_change_is_a_revision() {
    let mut terminal = AlacrittyTerminal::new(TerminalSize::new(10, 3));
    terminal.feed(b"a");
    terminal.resize(TerminalSize::new(12, 3));
    terminal.scroll(1);
    terminal.set_scrollback_limit(10);
    terminal.set_selection(None);
    assert_eq!(terminal.full_frame().revision, 5);
    terminal.prepare_session_restart("sh");
    assert_eq!(terminal.full_frame().revision, 7);
}

#[test]
fn damage_is_reported_by_cell() {
    let damage = FrameDamage::Partial(vec![DamageRegion { row: 2, left: 3, right: 5 }]);
    assert!(damage_contains(&damage, 2, 3) && damage_contains(&damage, 2, 5));
    assert!(!damage_contains(&damage, 2, 6) && !damage_contains(&damage, 1, 4));
    assert!(damage_contains(&FrameDamage::Full, 9, 9));
    assert!(!damage_contains(&FrameDamage::Unchanged, 0, 0));
}

#[test]
fn insert_mode_always_repaints() {
    let mut terminal = AlacrittyTerminal::new(TerminalSize::new(10, 3));
    terminal.feed(b"\x1b[4h");
    let _ = terminal.frame();
    assert!(matches!(terminal.frame().damage, FrameDamage::Full));
}

#[test]
fn selections_span_rows() {
    let mut terminal = AlacrittyTerminal::new(TerminalSize::new(10, 3));
    terminal.feed(b"first\r\nsecond\r\nthird");
    assert_eq!(terminal.selection_text(), None);
    terminal.set_selection(Some(CellRange {
        start: CellPoint { row: 2, column: 2 },
        end: CellPoint { row: 0, column: 2 },
    }));
    assert_eq!(terminal.selection_text().as_deref(), Some("rst\nsecond\nthi"));
    terminal.set_selection(Some(CellRange {
        start: CellPoint { row: 2, column: 0 },
        end: CellPoint { row: 7, column: 2 },
    }));
    assert_eq!(terminal.selection_text().as_deref(), Some("third\n"));
}

#[test]
fn search_respects_case_and_wide_characters() {
    let mut terminal = AlacrittyTerminal::new(TerminalSize::new(20, 3));
    terminal.feed("界ab AB a.b\r\näÄ".as_bytes());
    assert_eq!(terminal.search(&search("ab", true)).total, 1);
    let both = terminal.search(&search("ab", false));
    assert_eq!(both.total, 2);
    assert_eq!(both.current, Some(1));
    assert_eq!(both.active, Some(1));
    assert_eq!(
        both.matches[0],
        CellRange { start: CellPoint { row: 0, column: 2 }, end: CellPoint { row: 0, column: 3 } }
    );
    assert_eq!(terminal.search(&search("a.b", true)).total, 1);
    assert_eq!(terminal.search(&search("ä", false)).total, 2);
    let wide = terminal.search(&search("界a", true));
    assert_eq!(
        wide.matches,
        vec![CellRange {
            start: CellPoint { row: 0, column: 0 },
            end: CellPoint { row: 0, column: 2 }
        }]
    );
}

#[test]
fn empty_search_finds_nothing() {
    let mut terminal = AlacrittyTerminal::new(TerminalSize::new(20, 3));
    terminal.feed(b"text");
    assert_eq!(terminal.search(&search("t", true)).total, 2);
    let result = terminal.search(&search("", true));
    assert_eq!((result.total, result.current, result.active), (0, None, None));
    assert_eq!(terminal.navigate_search(SearchDirection::Next).total, 0);
}

#[test]
fn long_queries_are_found() {
    let mut terminal = AlacrittyTerminal::new(TerminalSize::new(1100, 2));
    terminal.feed("θ".repeat(1000).as_bytes());
    let result = terminal.search(&search(&"ϑ".repeat(1000), false));
    assert_eq!(result.total, 1);
    assert_eq!(result.matches[0].end.column, 999);
}

#[test]
fn matches_do_not_overlap() {
    let mut terminal = AlacrittyTerminal::new(TerminalSize::new(20, 3));
    terminal.feed(b"aaaa");
    let result = terminal.search(&search("aa", true));
    let starts: Vec<usize> = result.matches.iter().map(|range| range.start.column).collect();
    assert_eq!(starts, vec![0, 2]);
}

#[test]
fn navigation_wraps_around() {
    let mut terminal = AlacrittyTerminal::new(TerminalSize::new(20, 3));
    terminal.feed(b"x x x");
    assert_eq!(terminal.search(&search("x", true)).current, Some(2));
    assert_eq!(terminal.navigate_search(SearchDirection::Next).current, Some(0));
    assert_eq!(terminal.navigate_search(SearchDirection::Previous).current, Some(2));
    assert_eq!(terminal.navigate_search(SearchDirection::Previous).current, Some(1));
    assert_eq!(next_match(0, 1, SearchDirection::Next), 0);
    assert_eq!(next_match(0, 1, SearchDirection::Previous), 0);
}

#[test]
fn navigation_brings_the_match_into_view() {
    let mut terminal = AlacrittyTerminal::new_with_scrollback(TerminalSize::new(20, 3), 50);
    for index in 0..10 {
        terminal.feed(format!("line-{index}\r\n").as_bytes());
    }
    assert_eq!(terminal.search(&search("line-", true)).total, 10);
    for _ in 0..9 {
        let result = terminal.navigate_search(SearchDirection::Previous);
        assert!(result.active.is_some());
    }
    assert_eq!(terminal.full_frame().display_offset, 8);
    let result = terminal.navigate_search(SearchDirection::Previous);
    assert_eq!(result.current, Some(9));
    assert_eq!(terminal.full_frame().display_offset, 0);
}

#[test]
fn actions_are_queued_in_order() {
    let mut terminal = AlacrittyTerminal::new(TerminalSize::new(20, 3));
    terminal.feed(b"\x1b]0;title\x07\x07\x1b[6n\x1b]52;c;aGk=\x07");
    assert_eq!(terminal.drain_host_responses(), vec![b"\x1b[1;1R".to_vec()]);
    let actions = terminal.drain_actions();
    assert!(matches!(&actions[0], TerminalAction::Title(title) if title == "title"));
    assert!(matches!(actions[1], TerminalAction::Bell));
    assert!(matches!(
        &actions[2],
        TerminalAction::ClipboardStore { kind: ClipboardKind::Clipboard, text } if text == "hi"
    ));
    assert_eq!(actions.len(), 3);
    assert!(terminal.drain_actions().is_empty());
}

#[test]
fn events_become_actions() {
    assert!(matches!(
        action_of(EmulatorEvent::PtyWrite("é".into())),
        Some(TerminalAction::WriteToHost(bytes)) if bytes == [0xc3, 0xa9]
    ));
    assert!(matches!(action_of(EmulatorEvent::ResetTitle), Some(TerminalAction::ResetTitle)));
    assert!(matches!(action_of(EmulatorEvent::Exit), Some(TerminalAction::ExitRequested)));
    assert!(matches!(
        action_of(EmulatorEvent::CursorBlinkingChange),
        Some(TerminalAction::Wakeup)
    ));
    let request = Event::ClipboardLoad(
        ClipboardType::Selection,
        Arc::new(|text: &str| format!("<{text}>")),
    );
    let Some(TerminalAction::ClipboardLoad { kind: ClipboardKind::Selection, request }) =
        action_of(EmulatorEvent::ClipboardLoad(true, request))
    else {
        panic!("a request to read the selection is passed on");
    };
    assert!(matches!(
        request,
        Event::ClipboardLoad(_, formatter) if formatter("x") == "<x>"
    ));
    assert!(action_of(EmulatorEvent::ColorRequest).is_none());
    assert!(action_of(EmulatorEvent::TextAreaSizeRequest).is_none());
    assert!(action_of(EmulatorEvent::ChildExit).is_none());
}

#[test]
fn host_writes_are_parted_from_other_actions() {
    let (writes, others) = split_actions(vec![
        TerminalAction::Bell,
        TerminalAction::WriteToHost(vec![1]),
        TerminalAction::Wakeup,
        TerminalAction::WriteToHost(vec![2, 3]),
    ]);
    assert_eq!(writes, vec![vec![1], vec![2, 3]]);
    assert_eq!(others.len(), 2);
    assert!(matches!(others[0], TerminalAction::Bell));
    assert!(matches!(others[1], TerminalAction::Wakeup));
}

#[test]
fn restart_marker_holds_no_control_characters() {
    let mut terminal = AlacrittyTerminal::new(TerminalSize::new(40, 6));
    terminal.set_selection(Some(CellRange {
        start: CellPoint { row: 0, column: 0 },
        end: CellPoint { row: 0, column: 1 },
    }));
    terminal.feed(b"\x1b[?1000h\x1b[?2004h");
    terminal.prepare_session_restart("ba\x1b[31msh\u{85}");
    assert_eq!(terminal.visible_text(), "\n\n--- Matcha · ba[31msh ---");
    let frame = terminal.full_frame();
    assert_eq!(frame.selection, None);
    assert!(!frame.modes.mouse_tracking && !frame.modes.bracketed_paste);
}

#[test]
fn ranges_are_normalized() {
    let range = CellRange {
        start: CellPoint { row: 2, column: 1 },
        end: CellPoint { row: 1, column: 7 },
    };
    let ordered = range.normalized();
    assert_eq!(ordered.start, CellPoint { row: 1, column: 7 });
    assert_eq!(ordered.normalized(), ordered);
    assert!(range.contains(CellPoint { row: 2, column: 0 }));
    assert!(range.contains(CellPoint { row: 1, column: 9 }));
    assert!(!range.contains(CellPoint { row: 1, column: 6 }));
    assert!(!range.contains(CellPoint { row: 2, column: 2 }));
}
