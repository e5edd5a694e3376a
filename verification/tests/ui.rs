//! The decisions of the user interface.

use std::sync::Arc;

use alacritty_terminal::event::Event;
use alacritty_terminal::term::ClipboardType;
use matcha::config::measure::Measure;
use matcha::config::profiles::{LocationFacts, Platform, ShellSurvey};
use matcha::config::settings::{
    AppConfig, ClipboardConfig, LocalePreference, ShellProfileConfig, ThemePreference,
    DEFAULT_FONT_FAMILY,
};
use matcha::pty::SessionEvent;
use matcha::terminal::input::{Modifiers, MouseButton};
use matcha::terminal::model::{AlacrittyTerminal, TerminalModel};
use matcha::terminal::types::{
    CellPoint, CellRange, ClipboardKind, DamageRegion, FrameDamage, SearchDirection, SearchRequest,
    SearchResult, TerminalAction, TerminalColor, TerminalModes, TerminalSize, UnderlineStyle,
};
use matcha::ui::fonts::resolve_font_family;
use matcha::ui::glyphs::build_row;
use matcha::ui::keys::{
    decide_paste, find_shortcut, function_number, handle_key, map_key, search_key, KeyCommand,
    KeyPress, LogicalKey, NamedKey, PasteDecision, SearchCommand, Shortcut,
};
use matcha::ui::locale::{effective_locale, locale_for};
use matcha::ui::patch::{apply_frame_patch, move_search, refresh};
use matcha::ui::pointer::{
    button_from, nearest_cell, semantic_range, wheel_turned, window_size, PointerAction, PointerState,
};
use matcha::ui::profiles::ProfileEditor;
use matcha::ui::session::{
    can_restart, effect_of, is_trusted, must_be_delivered, next_session, routed_status,
    should_blink, starting_profile, stepped_scrollback, trust_profile, CursorBlink, RoutedSessionEvent, SessionStatus, UiEffect,
};
use matcha::ui::strings;
use matcha::ui::theme::{color_of, color_of_mark, is_light, Mark, Surface};
use matcha::ui::view::{
    background_runs, font_changed, range_columns, rebuild_plan, search_highlights,
    selection_spans, CellSpan, FontSettings, RebuildPlan,
};

fn profile(id: &str, name: &str) -> ShellProfileConfig {
    ShellProfileConfig {
        id: id.into(),
        name: name.into(),
        program: "/bin/sh".into(),
        args: vec!["-c".into(), "echo \"é\\\n\"".into()],
        startup_directory: Some("/tmp".into()),
    }
}

fn press(key: &str, control: bool, shift: bool) -> KeyPress {
    KeyPress {
        key: LogicalKey::Character(key.into()),
        modifiers: Modifiers { shift, alt: false, control },
    }
}

fn named(key: NamedKey) -> KeyPress {
    KeyPress { key: LogicalKey::Named(key), modifiers: Modifiers::default() }
}

fn good() -> LocationFacts {
    LocationFacts {
        program_is_file: true,
        program_components: 3,
        program_in_path: false,
        startup_is_directory: true,
    }
}

#[test]
fn row_builder_batches_simple_text_and_isolates_wide_cells() {
    let mut terminal = AlacrittyTerminal::new(TerminalSize::new(20, 2));
    terminal.feed("abc界e\u{301}".as_bytes());
    let frame = terminal.full_frame();
    let row = build_row(&frame, 0);
    assert!(row.len() < frame.cells.len());
    assert!(row.iter().any(|glyph| glyph.columns == 2));
    assert!(row.iter().any(|glyph| glyph.columns >= 3));
}

#[test]
fn merges_background_cells_into_contiguous_color_runs() {
    let terminal = AlacrittyTerminal::new(TerminalSize::new(6, 1));
    let mut frame = terminal.full_frame();
    for cell in &mut frame.cells {
        cell.background = if cell.column < 3 {
            TerminalColor::rgb(10, 20, 30)
        } else {
            TerminalColor::rgb(40, 50, 60)
        };
    }
    let runs = background_runs(&frame);
    assert_eq!(runs.len(), 2);
    assert_eq!((runs[0].start_column, runs[0].end_column), (0, 3));
    assert_eq!((runs[1].start_column, runs[1].end_column), (3, 6));
}

#[test]
fn selection_ranges_form_one_span_per_covered_row() {
    let range = CellRange {
        start: CellPoint { row: 2, column: 4 },
        end: CellPoint { row: 0, column: 2 },
    };
    assert_eq!(range_columns(range, 0, 10), Some((2, 10)));
    assert_eq!(range_columns(range, 1, 10), Some((0, 10)));
    assert_eq!(range_columns(range, 2, 10), Some((0, 5)));
    assert_eq!(range_columns(range, 3, 10), None);
}

#[test]
fn resolves_bundled_font_and_explicitly_falls_back() {
    let families = vec!["Arial".to_owned(), DEFAULT_FONT_FAMILY.to_owned()];
    let bundled = resolve_font_family(DEFAULT_FONT_FAMILY, &families);
    assert_eq!(bundled.family, DEFAULT_FONT_FAMILY);
    assert!(!bundled.used_fallback);

    let missing = resolve_font_family("Matcha Definitely Missing Font", &families);
    assert_eq!(missing.family, DEFAULT_FONT_FAMILY);
    assert!(missing.used_fallback);
}

#[test]
fn fonts_are_found_by_name_whatever_the_capitals() {
    let families = vec!["Fira Code".to_owned()];
    let found = resolve_font_family("  fira CODE ", &families);
    assert_eq!((found.family.as_str(), found.used_fallback), ("Fira Code", false));
    assert!(resolve_font_family("  ", &vec![String::new()]).used_fallback);
}

#[test]
fn ranges_beyond_the_screen_are_cut_off() {
    let range = CellRange {
        start: CellPoint { row: 1, column: 20 },
        end: CellPoint { row: 1, column: usize::MAX },
    };
    assert_eq!(range_columns(range, 1, 10), Some((9, 10)));
    assert_eq!(range_columns(range, 1, 0), None);
    assert_eq!(range_columns(range, 0, 10), None);
}

#[test]
fn runs_keep_text_color_and_place() {
    let mut terminal = AlacrittyTerminal::new(TerminalSize::new(20, 2));
    terminal.feed("ab\x1b[31mcd\x1b[0m  \x1b[4me\x1b[0m界x".as_bytes());
    let runs = build_row(&terminal.full_frame(), 0);
    let found: Vec<(usize, usize, &str)> =
        runs.iter().map(|run| (run.column, run.columns, run.text.as_str())).collect();
    assert_eq!(
        found,
        vec![(0, 2, "ab"), (2, 2, "cd"), (6, 1, "e"), (7, 2, "界"), (9, 11, "x          ")]
    );
    assert_eq!(runs[2].underline, UnderlineStyle::Single);
    assert!(build_row(&terminal.full_frame(), 1).is_empty());
}

#[test]
fn backgrounds_are_parted_by_row() {
    let terminal = AlacrittyTerminal::new(TerminalSize::new(4, 3));
    let runs = background_runs(&terminal.full_frame());
    assert_eq!(runs.len(), 3);
    assert!(runs.iter().all(|run| run.start_column == 0 && run.end_column == 4));
}

#[test]
fn selections_are_highlighted_row_by_row() {
    let mut terminal = AlacrittyTerminal::new(TerminalSize::new(8, 3));
    assert!(selection_spans(&terminal.full_frame()).is_empty());
    terminal.set_selection(Some(CellRange {
        start: CellPoint { row: 0, column: 5 },
        end: CellPoint { row: 1, column: 2 },
    }));
    assert_eq!(
        selection_spans(&terminal.full_frame()),
        vec![
            CellSpan { row: 0, start_column: 5, end_column: 8 },
            CellSpan { row: 1, start_column: 0, end_column: 3 },
        ]
    );
}

#[test]
fn matches_are_highlighted_and_the_active_one_stands_out() {
    let at = |row: usize, start: usize, end: usize| CellRange {
        start: CellPoint { row, column: start },
        end: CellPoint { row, column: end },
    };
    let search = SearchResult {
        matches: vec![at(0, 1, 2), at(3, 0, 0)],
        active: Some(1),
        current: Some(1),
        total: 2,
    };
    let shown = search_highlights(&search, 10);
    assert_eq!(shown[0].spans, vec![CellSpan { row: 0, start_column: 1, end_column: 3 }]);
    assert!(!shown[0].active && shown[1].active);
    assert_eq!(shown[1].spans, vec![CellSpan { row: 3, start_column: 0, end_column: 1 }]);
}

#[test]
fn damaged_rows_are_laid_out_anew() {
    let terminal = AlacrittyTerminal::new(TerminalSize::new(8, 3));
    let mut frame = terminal.full_frame();
    assert_eq!(rebuild_plan(&frame, 3, false), RebuildPlan::All);
    frame.damage = FrameDamage::Partial(vec![
        DamageRegion { row: 2, left: 0, right: 1 },
        DamageRegion { row: 0, left: 0, right: 1 },
        DamageRegion { row: 2, left: 4, right: 5 },
        DamageRegion { row: 9, left: 4, right: 5 },
    ]);
    assert_eq!(rebuild_plan(&frame, 3, false), RebuildPlan::Rows(vec![0, 2]));
    assert_eq!(rebuild_plan(&frame, 2, false), RebuildPlan::All);
    assert_eq!(rebuild_plan(&frame, 3, true), RebuildPlan::All);
    frame.damage = FrameDamage::Unchanged;
    assert_eq!(rebuild_plan(&frame, 0, false), RebuildPlan::Nothing);
}

#[test]
fn patched_frames_show_the_whole_screen() {
    let mut terminal = AlacrittyTerminal::new(TerminalSize::new(12, 4));
    let mut shown = terminal.frame();
    for input in ["hello", "\r\nworld", "\x1b[1;3HX", "\x1b[31mred\x1b[0m", "\n\n\n\n\nend"] {
        terminal.feed(input.as_bytes());
        shown = apply_frame_patch(shown, terminal.frame());
        assert_eq!(shown.cells, terminal.full_frame().cells);
        assert_eq!(shown.cursor, terminal.full_frame().cursor);
    }
    terminal.resize(TerminalSize::new(9, 3));
    shown = apply_frame_patch(shown, terminal.frame());
    assert_eq!(shown.cells, terminal.full_frame().cells);
    let before = shown.cells.clone();
    let mut nothing = terminal.frame();
    nothing.damage = FrameDamage::Unchanged;
    nothing.cells.clear();
    assert_eq!(apply_frame_patch(shown, nothing).cells, before);
}

#[test]
fn patched_cells_are_sorted() {
    let terminal = AlacrittyTerminal::new(TerminalSize::new(3, 2));
    let current = terminal.full_frame();
    let mut patch = terminal.full_frame();
    patch.damage = FrameDamage::Partial(vec![DamageRegion { row: 0, left: 0, right: 2 }]);
    patch.cells.retain(|cell| cell.row == 0);
    patch.cells.reverse();
    let places: Vec<(usize, usize)> = apply_frame_patch(current, patch)
        .cells
        .iter()
        .map(|cell| (cell.row, cell.column))
        .collect();
    assert_eq!(places, vec![(0, 0), (0, 1), (0, 2), (1, 0), (1, 1), (1, 2)]);
}

#[test]
fn shortcuts_belong_to_the_window() {
    assert_eq!(find_shortcut(&press("C", true, true)), Some(Shortcut::Copy));
    assert_eq!(find_shortcut(&press("v", true, true)), Some(Shortcut::Paste));
    assert_eq!(find_shortcut(&press("f", true, false)), Some(Shortcut::OpenSearch));
    assert_eq!(find_shortcut(&press("F", true, true)), Some(Shortcut::OpenSearch));
    assert_eq!(find_shortcut(&press(",", true, false)), Some(Shortcut::OpenSettings));
    assert_eq!(find_shortcut(&press("=", true, false)), Some(Shortcut::EnlargeFont));
    assert_eq!(find_shortcut(&press("+", true, true)), Some(Shortcut::EnlargeFont));
    assert_eq!(find_shortcut(&press("-", true, false)), Some(Shortcut::ShrinkFont));
    assert_eq!(find_shortcut(&press("0", true, false)), Some(Shortcut::ResetFont));
    assert_eq!(find_shortcut(&press("c", true, false)), None);
    assert_eq!(find_shortcut(&press("f", false, false)), None);
}

#[test]
fn other_keys_go_to_the_terminal() {
    let modes = TerminalModes::default();
    assert_eq!(handle_key(&press("c", true, false), modes), KeyCommand::Send(vec![3]));
    assert_eq!(handle_key(&press("x", false, false), modes), KeyCommand::Send(b"x".to_vec()));
    assert_eq!(handle_key(&named(NamedKey::Space), modes), KeyCommand::Send(b" ".to_vec()));
    assert_eq!(handle_key(&named(NamedKey::F5), modes), KeyCommand::Send(b"\x1b[15~".to_vec()));
    assert_eq!(handle_key(&named(NamedKey::Unknown), modes), KeyCommand::Ignore);
    assert_eq!(
        handle_key(&press("C", true, true), modes),
        KeyCommand::Window(Shortcut::Copy)
    );
    let other = KeyPress { key: LogicalKey::Other, modifiers: Modifiers::default() };
    assert!(map_key(&other).is_none());
    assert_eq!(function_number(NamedKey::F12), Some(12));
    assert_eq!(function_number(NamedKey::Enter), None);
}

#[test]
fn several_lines_take_a_confirmation() {
    let modes = TerminalModes::default();
    assert_eq!(
        decide_paste("a\nb".into(), true, modes),
        PasteDecision::Confirm("a\nb".into())
    );
    assert_eq!(decide_paste("a\rb".into(), true, modes), PasteDecision::Confirm("a\rb".into()));
    assert_eq!(
        decide_paste("a\nb".into(), false, modes),
        PasteDecision::Send(b"a\nb".to_vec())
    );
    assert_eq!(decide_paste("ab".into(), true, modes), PasteDecision::Send(b"ab".to_vec()));
}

#[test]
fn search_keys_move_and_close() {
    assert_eq!(
        search_key(&named(NamedKey::Enter)),
        SearchCommand::Go(SearchDirection::Next)
    );
    let mut backward = named(NamedKey::Enter);
    backward.modifiers.shift = true;
    assert_eq!(search_key(&backward), SearchCommand::Go(SearchDirection::Previous));
    assert_eq!(search_key(&named(NamedKey::Escape)), SearchCommand::Close);
    assert_eq!(search_key(&press("a", false, false)), SearchCommand::Ignore);
}

#[test]
fn clicks_select_cells_words_and_lines() {
    let mut terminal = AlacrittyTerminal::new(TerminalSize::new(20, 2));
    terminal.feed(b"one two-2 three");
    let frame = terminal.full_frame();
    let point = CellPoint { row: 0, column: 5 };
    let mut pointer = PointerState::new();
    let range = |start: usize, end: usize| {
        PointerAction::Select(CellRange {
            start: CellPoint { row: 0, column: start },
            end: CellPoint { row: 0, column: end },
        })
    };
    let none = Modifiers::default();
    assert_eq!(pointer.pressed(&frame, point, MouseButton::Left, 2, none), range(4, 8));
    assert!(!pointer.selecting);
    assert_eq!(pointer.pressed(&frame, point, MouseButton::Left, 3, none), range(0, 19));
    assert_eq!(pointer.pressed(&frame, point, MouseButton::Left, 1, none), range(5, 5));
    assert!(pointer.selecting);
    let end = CellPoint { row: 1, column: 3 };
    assert_eq!(
        pointer.moved(frame.modes, end, none),
        PointerAction::Select(CellRange { start: point, end })
    );
    assert_eq!(
        pointer.released(frame.modes, end, none, true),
        PointerAction::CopySelection
    );
    assert!(!pointer.selecting);
    assert_eq!(pointer.moved(frame.modes, end, none), PointerAction::Nothing);
    assert_eq!(pointer.released(frame.modes, end, none, false), PointerAction::Nothing);
    let blank = semantic_range(&frame, CellPoint { row: 0, column: 18 });
    assert_eq!((blank.start.column, blank.end.column), (18, 18));
}

#[test]
fn reports_go_to_the_application_unless_shift_is_held() {
    let mut terminal = AlacrittyTerminal::new(TerminalSize::new(20, 4));
    terminal.feed(b"\x1b[?1002h\x1b[?1006h");
    let frame = terminal.full_frame();
    let point = CellPoint { row: 1, column: 2 };
    let none = Modifiers::default();
    let shift = Modifiers { shift: true, alt: false, control: false };
    let mut pointer = PointerState::new();
    assert_eq!(
        pointer.pressed(&frame, point, MouseButton::Right, 1, none),
        PointerAction::Send(b"\x1b[<2;3;2M".to_vec())
    );
    assert_eq!(
        pointer.moved(frame.modes, point, none),
        PointerAction::Send(b"\x1b[<34;3;2M".to_vec())
    );
    assert_eq!(
        pointer.released(frame.modes, point, none, true),
        PointerAction::Send(b"\x1b[<3;3;2m".to_vec())
    );
    assert_eq!(pointer.button, MouseButton::NoButton);
    assert_eq!(
        wheel_turned(frame.modes, point, none, true, 3),
        PointerAction::Send(b"\x1b[<64;3;2M".to_vec())
    );
    assert_eq!(
        wheel_turned(frame.modes, point, none, false, -3),
        PointerAction::Send(b"\x1b[<65;3;2M".to_vec())
    );
    assert_eq!(wheel_turned(frame.modes, point, shift, true, 3), PointerAction::Scroll(3));
    assert_eq!(wheel_turned(frame.modes, point, shift, true, 0), PointerAction::Nothing);
    assert!(matches!(
        pointer.pressed(&frame, point, MouseButton::Left, 1, shift),
        PointerAction::Select(_)
    ));
}

#[test]
fn windows_have_a_smallest_size() {
    assert_eq!(window_size(0, 1), TerminalSize::new(2, 2));
    assert_eq!(window_size(80, 24), TerminalSize::new(80, 24));
    let size = TerminalSize::new(10, 4);
    assert_eq!(nearest_cell(9, 3, size), CellPoint { row: 3, column: 3 });
    assert_eq!(nearest_cell(1, 10, size), CellPoint { row: 1, column: 9 });
    assert_eq!(nearest_cell(1, 1, TerminalSize::new(0, 0)), CellPoint { row: 0, column: 0 });
}

#[test]
fn events_of_replaced_sessions_are_ignored() {
    let exited = RoutedSessionEvent {
        session_id: 1,
        event: SessionEvent::Exited { code: 7, signal: None },
    };
    assert_eq!(routed_status(&exited, 2), None);
    assert_eq!(routed_status(&exited, 1), Some(SessionStatus::Exited(7)));
    let output = RoutedSessionEvent { session_id: 2, event: SessionEvent::Output };
    assert_eq!(routed_status(&output, 2), Some(SessionStatus::Running));
    let failed =
        RoutedSessionEvent { session_id: 2, event: SessionEvent::WriteFailed("x".into()) };
    assert_eq!(routed_status(&failed, 2), Some(SessionStatus::Failed));
    assert!(!must_be_delivered(&SessionEvent::Output));
    assert!(must_be_delivered(&SessionEvent::ReadFailed("x".into())));
    assert!(can_restart(SessionStatus::Failed) && can_restart(SessionStatus::Exited(0)));
    assert!(!can_restart(SessionStatus::Starting) && !can_restart(SessionStatus::Running));
}

#[test]
fn sessions_are_numbered() {
    let first = next_session(0);
    assert_eq!((first.session_id, first.follows_another), (1, false));
    let second = next_session(first.session_id);
    assert_eq!((second.session_id, second.follows_another), (2, true));
}

#[test]
fn clipboard_requests_follow_the_policy() {
    let mut clipboard = ClipboardConfig::with_safe_defaults();
    let store = || TerminalAction::ClipboardStore {
        kind: ClipboardKind::Clipboard,
        text: "secret".into(),
    };
    let effect = |action, clipboard: &ClipboardConfig| effect_of(action, "Shell", "a", clipboard);
    assert_eq!(effect(store(), &clipboard), UiEffect::AskBeforeStoring("secret".into()));
    trust_profile(&mut clipboard, "a");
    trust_profile(&mut clipboard, "a");
    assert_eq!(clipboard.trusted_osc52_write_profiles, vec!["a".to_owned()]);
    assert!(is_trusted(&clipboard, "a") && !is_trusted(&clipboard, "b"));
    assert_eq!(effect(store(), &clipboard), UiEffect::StoreInClipboard("secret".into()));
    clipboard.allow_osc52_read = true;
    let load = TerminalAction::ClipboardLoad {
        kind: ClipboardKind::Clipboard,
        request: Event::ClipboardLoad(ClipboardType::Clipboard, Arc::new(str::to_owned)),
    };
    assert_eq!(effect(load, &clipboard), UiEffect::DenyClipboardRead);
    assert_eq!(
        effect(TerminalAction::Title("vim".into()), &clipboard),
        UiEffect::SetTitle("vim".into())
    );
    assert_eq!(
        effect(TerminalAction::ResetTitle, &clipboard),
        UiEffect::SetTitle("Shell".into())
    );
    assert_eq!(effect(TerminalAction::ExitRequested, &clipboard), UiEffect::TerminateSession);
    assert_eq!(effect(TerminalAction::Bell, &clipboard), UiEffect::Nothing);
}

#[test]
fn blinking_dies_with_its_generation() {
    let mut blink = CursorBlink::new();
    let first = blink.restart();
    assert!(blink.tick(first));
    assert!(!blink.visible);
    let second = blink.restart();
    assert!(blink.visible);
    assert!(!blink.tick(first));
    assert!(blink.visible);
    assert!(blink.tick(second) && !blink.visible);
    let mut last = CursorBlink { visible: false, generation: u64::MAX };
    assert_eq!(last.restart(), 0);
    assert!(should_blink(true, true) && !should_blink(true, false) && !should_blink(false, true));
}

#[test]
fn editor_shows_and_describes_profiles() {
    let profiles = vec![profile("a", "One"), profile("b", "Two")];
    let mut editor = ProfileEditor::new(profiles.clone(), &profiles[0]);
    assert_eq!(editor.selected_id, "a");
    assert_eq!(editor.args_json, "[\"-c\",\"echo \\\"é\\\\\\n\\\"\"]");
    editor.select_profile("b");
    assert_eq!(editor.name, "Two");
    assert_eq!(editor.draft(), Some(profiles[1].clone()));
    editor.select_profile("missing");
    assert_eq!(editor.selected_id, "b");
    editor.cwd = "  ".into();
    editor.args_json = " [ ] ".into();
    let draft = editor.draft().expect("arguments should parse");
    assert_eq!(draft.startup_directory, None);
    assert!(draft.args.is_empty());
    editor.args_json = "[1]".into();
    assert_eq!(editor.draft(), None);
    assert!(editor.error.expect("error is shown").starts_with("Invalid arguments JSON: "));
}

#[test]
fn saving_takes_over_valid_profiles() {
    let profiles = vec![profile("a", "One"), profile("b", "Two")];
    let mut config = AppConfig::with_profiles(profiles.clone());
    let mut editor = ProfileEditor::new(profiles.clone(), &profiles[1]);
    editor.name = "Renamed".into();
    let draft = editor.draft().expect("arguments should parse");
    let missing = LocationFacts { program_is_file: false, ..good() };
    assert!(!editor.save_profile(draft.clone(), missing, &mut config));
    assert_eq!(
        editor.error.as_deref(),
        Some("profile program does not exist or cannot be found in PATH")
    );
    assert_eq!(config.shell_profiles, profiles);
    assert!(editor.save_profile(draft, good(), &mut config));
    assert_eq!(editor.error, None);
    assert_eq!(config.shell_profiles[1].name, "Renamed");
    assert_eq!(config.shell_profiles[0], profiles[0]);
    assert_eq!(editor.profiles, config.shell_profiles);
}

#[test]
fn deleting_forgets_the_profile() {
    let profiles = vec![profile("a", "One"), profile("b", "Two")];
    let mut config = AppConfig::with_profiles(profiles.clone());
    trust_profile(&mut config.clipboard, "a");
    trust_profile(&mut config.clipboard, "b");
    let mut editor = ProfileEditor::new(profiles.clone(), &profiles[0]);
    assert!(editor.delete_profile(&mut config));
    assert_eq!(config.shell_profiles, vec![profiles[1].clone()]);
    assert_eq!(config.default_shell_profile, "b");
    assert_eq!(config.clipboard.trusted_osc52_write_profiles, vec!["b".to_owned()]);
    assert_eq!(editor.selected_id, "b");
    assert!(!editor.delete_profile(&mut config));
    assert_eq!(editor.error.as_deref(), Some("At least one profile is required"));
    assert_eq!(config.shell_profiles.len(), 1);
}

#[test]
fn profiles_are_added_and_duplicated() {
    let profiles = vec![profile("a", "One")];
    let mut config = AppConfig::with_profiles(profiles.clone());
    let mut editor = ProfileEditor::new(profiles.clone(), &profiles[0]);
    editor.duplicate_profile();
    assert_eq!(editor.name, "One Copy");
    assert_eq!(editor.profiles.len(), 2);
    assert_eq!(editor.profiles[1].args, profiles[0].args);
    assert_ne!(editor.selected_id, "a");
    editor.add_profile("New".into());
    assert_eq!(editor.name, "New");
    assert_eq!(editor.program, "");
    assert_eq!(editor.args_json, "[]");
    assert!(editor.set_default(&mut config));
    assert_eq!(config.default_shell_profile, editor.selected_id);
    assert_eq!(editor.selected_profile().map(|profile| profile.name), Some("New".into()));
    editor.selected_id = "gone".into();
    assert!(!editor.set_default(&mut config));
    assert!(editor.selected_profile().is_none());
    editor.duplicate_profile_with("x".into());
    assert_eq!(editor.profiles.len(), 3);
    editor.add_profile_with("y".into(), "Y".into());
    assert_eq!(editor.selected_id, "y");
}

#[test]
fn texts_come_in_both_languages() {
    let english = LocalePreference::English;
    let chinese = LocalePreference::SimplifiedChinese;
    assert_eq!(strings::tr(english, "restart"), "Restart");
    assert_eq!(strings::tr(chinese, "restart"), "重新启动");
    assert_eq!(strings::tr(english, "paste_title"), "Confirm multiline paste");
    assert_eq!(strings::tr(LocalePreference::System, "dismiss"), "Dismiss");
    assert_eq!(strings::tr(chinese, "nonsense"), "nonsense");
    assert_eq!(strings::toggle_label(english, "copy_on_select", true), "Copy on select: ✓");
    assert_eq!(strings::toggle_label(chinese, "copy_on_select", false), "选中即复制: ○");
    assert_eq!(strings::number_label(english, "scrollback", 50_000), "Scrollback lines: 50000");
}

#[test]
fn every_key_has_a_text_in_both_languages() {
    let keys = [
        "restart", "starting", "running", "exited", "failed", "settings", "terminal", "font_size",
        "font_family", "scrollback", "system", "copy_on_select", "confirm_paste", "appearance",
        "shell", "no_shell", "profile_name", "profile_program", "profile_args", "profile_cwd",
        "save_profile", "new_profile", "duplicate_profile", "delete_profile", "set_default",
        "paste_title", "paste_warning", "paste", "cancel", "clipboard_request", "allow_once",
        "always_allow", "deny", "dismiss",
    ];
    for key in keys {
        assert_ne!(strings::tr(LocalePreference::English, key), key);
        assert_ne!(strings::tr(LocalePreference::SimplifiedChinese, key), key);
    }
}

#[test]
fn labels_have_their_forms() {
    let english = LocalePreference::English;
    assert_eq!(strings::status_label(english, SessionStatus::Exited(3)), "Exited with code 3");
    assert_eq!(strings::status_label(english, SessionStatus::Running), "Running");
    assert_eq!(strings::size_label(TerminalSize::new(80, 24)), "80 × 24");
    let mut result = SearchResult::default();
    assert_eq!(strings::search_label(&result), "0 / 0");
    result.total = 12;
    result.current = Some(4);
    assert_eq!(strings::search_label(&result), "5 / 12");
    assert_eq!(strings::session_label("bash", "vim"), "bash · vim");
    assert_eq!(strings::clipboard_message("bash", "é"), "bash: 2 bytes");
    assert_eq!(
        strings::paste_message(english, "a\nb"),
        "This content contains multiple lines and may run multiple commands:\n\na\nb"
    );
}

#[test]
fn long_texts_are_previewed() {
    let exact = "é".repeat(600);
    assert_eq!(strings::preview(&exact), exact);
    assert_eq!(strings::preview(&format!("{exact}x")), format!("{exact}\n…"));
    assert!(strings::contains_multiple_lines("a\r") && !strings::contains_multiple_lines("a"));
}

#[test]
fn language_follows_preference_and_system() {
    let system = LocalePreference::System;
    let chinese = LocalePreference::SimplifiedChinese;
    assert_eq!(locale_for(system, Some("ZH-Hans-CN".into())), chinese);
    assert_eq!(locale_for(system, Some("zh_CN".into())), chinese);
    assert_eq!(locale_for(system, Some("z".into())), LocalePreference::English);
    assert_eq!(locale_for(system, None), LocalePreference::English);
    assert_eq!(locale_for(chinese, Some("en".into())), chinese);
    assert_eq!(effective_locale(LocalePreference::English), LocalePreference::English);
    assert_ne!(effective_locale(system), system);
}

#[test]
fn colors_follow_the_theme() {
    assert!(is_light(ThemePreference::Light, true));
    assert!(is_light(ThemePreference::System, false));
    assert!(!is_light(ThemePreference::System, true));
    assert!(!is_light(ThemePreference::MatchaDark, false));
    assert_eq!(color_of(Surface::Terminal, false), TerminalColor::rgb(18, 24, 20));
    assert_eq!(color_of(Surface::Terminal, true), TerminalColor::rgb(250, 252, 250));
    assert_eq!(color_of(Surface::Settings, true).alpha, 250);
}

#[test]
fn refreshing_shows_what_changed() {
    let mut terminal = AlacrittyTerminal::new_with_scrollback(TerminalSize::new(10, 3), 20);
    let mut shown = terminal.full_frame();
    for index in 0..6 {
        terminal.feed(format!("n{index}\r\n").as_bytes());
        shown = refresh(&mut terminal, shown);
        assert_eq!(shown.cells, terminal.full_frame().cells);
    }
    let request = SearchRequest { query: "n0".into(), case_sensitive: true };
    assert_eq!(terminal.search(&request).total, 1);
    let (result, shown) = move_search(&mut terminal, shown, SearchDirection::Next);
    assert_eq!(result.active, Some(0));
    assert_eq!(shown.cells, terminal.full_frame().cells);
    assert_eq!(shown.display_offset, 4);
    let nothing = SearchRequest { query: "zzz".into(), case_sensitive: true };
    assert_eq!(terminal.search(&nothing).total, 0);
    let (result, _) = move_search(&mut terminal, shown, SearchDirection::Next);
    assert_eq!(result, SearchResult::default());
}

#[test]
fn buttons_are_told_apart() {
    assert_eq!(button_from(true, true, true), MouseButton::Left);
    assert_eq!(button_from(false, true, true), MouseButton::Middle);
    assert_eq!(button_from(false, false, true), MouseButton::Right);
    assert_eq!(button_from(false, false, false), MouseButton::NoButton);
}

#[test]
fn marks_have_their_colors() {
    let active = color_of_mark(Mark::ActiveMatch);
    assert_eq!((active.red, active.green, active.blue, active.alpha), (215, 176, 74, 220));
    assert_eq!(color_of_mark(Mark::Match).alpha, 170);
    assert_eq!(color_of_mark(Mark::Selection).green, 112);
    assert_eq!(color_of_mark(Mark::Cursor).alpha, 210);
    assert_eq!(color_of_mark(Mark::Preedit), TerminalColor::rgb(232, 240, 232));
}

#[test]
fn font_changes_are_noticed() {
    let font = |family: &str, size: f32, line_height: f32| FontSettings {
        family: family.into(),
        size: Measure { bits: size.to_bits() },
        line_height: Measure { bits: line_height.to_bits() },
    };
    let before = font("A", 14.0, 1.15);
    assert!(!font_changed(&before, &font("A", 14.0, 1.15)));
    assert!(font_changed(&before, &font("B", 14.0, 1.15)));
    assert!(font_changed(&before, &font("A", 15.0, 1.15)));
    assert!(font_changed(&before, &font("A", 14.0, 1.2)));
}

#[test]
fn sessions_start_with_the_default_profile() {
    let survey = ShellSurvey {
        login_shell: None,
        bash: None,
        powershell_7: None,
        windows_powershell: None,
        command_prompt: None,
        home: None,
    };
    let mut config = AppConfig::with_profiles(vec![profile("a", "One"), profile("b", "Two")]);
    config.default_shell_profile = "b".into();
    assert_eq!(starting_profile(&config, Platform::Unix, &survey), profile("b", "Two"));
    config.shell_profiles.clear();
    let fallback = starting_profile(&config, Platform::Windows, &survey);
    assert_eq!((fallback.id.as_str(), fallback.program.as_str()), ("fallback", "cmd.exe"));
    assert_eq!(starting_profile(&config, Platform::Unix, &survey).program, "/bin/sh");
}

#[test]
fn scrollback_is_stepped_within_bounds() {
    assert_eq!(stepped_scrollback(50_000, true), 60_000);
    assert_eq!(stepped_scrollback(50_000, false), 40_000);
    assert_eq!(stepped_scrollback(5_000, false), 0);
    assert_eq!(stepped_scrollback(995_000, true), 1_000_000);
    assert_eq!(stepped_scrollback(usize::MAX, true), 1_000_000);
    assert_eq!(stepped_scrollback(usize::MAX, false), 1_000_000);
}
