//! The session behind the window: its status, its events, and what its application may do.

use vstd::prelude::*;
use vstd::string::*;

use crate::config::profiles::{fallback_profile, last_resort, Platform, ShellSurvey};
use crate::config::settings::{
    default_profile, texts, AppConfig, ClipboardConfig, ConfigView, ProfileView,
    ShellProfileConfig, MAX_SCROLLBACK_LINES,
};
use crate::pty::SessionEvent;
use crate::terminal::types::TerminalAction;
use crate::text::same_text;

verus! {

/// How the session is doing.
#[derive(Clone, Copy, Debug, Eq, PartialEq, Structural)]
pub enum SessionStatus {
    Starting,
    Running,
    Exited(u32),
    Failed,
}

/// An event and the session that it comes from.
#[derive(Clone, Debug, Eq, PartialEq)]
pub struct RoutedSessionEvent {
    pub session_id: u64,
    pub event: SessionEvent,
}

/// How a session is doing after an event.
pub open spec fn status_after(event: SessionEvent) -> SessionStatus {
    match event {
        SessionEvent::Output => SessionStatus::Running,
        SessionEvent::Exited { code, .. } => SessionStatus::Exited(code),
        SessionEvent::ReadFailed(_) | SessionEvent::WriteFailed(_) => SessionStatus::Failed,
    }
}

/// How the active session is doing after an event. An event of a session that has been replaced
/// says nothing of it.
pub open spec fn status_told(routed: RoutedSessionEvent, active: u64) -> Option<SessionStatus> {
    if routed.session_id == active {
        Some(status_after(routed.event))
    } else {
        None
    }
}

/// How the active session is doing after an event. An event of a session that has been replaced
/// says nothing of it.
pub fn routed_status(routed: &RoutedSessionEvent, active: u64) -> (res: Option<SessionStatus>)
    ensures
        res == status_told(*routed, active),
{
    if routed.session_id != active {
        return None;
    }
    Some(
        match &routed.event {
            SessionEvent::Output => SessionStatus::Running,
            SessionEvent::Exited { code, .. } => SessionStatus::Exited(*code),
            SessionEvent::ReadFailed(_) => SessionStatus::Failed,
            SessionEvent::WriteFailed(_) => SessionStatus::Failed,
        },
    )
}

/// Whether an event must not get lost. That there is output may be dropped while the window is
/// busy: the next event shows what came with it.
pub fn must_be_delivered(event: &SessionEvent) -> (res: bool)
    ensures
        res == !(event is Output),
{
    match event {
        SessionEvent::Output => false,
        _ => true,
    }
}

/// Whether the session has ended.
pub open spec fn ended(status: SessionStatus) -> bool {
    status is Exited || status is Failed
}

/// Whether the status leaves nothing to do but to restart.
pub fn can_restart(status: SessionStatus) -> (res: bool)
    ensures
        res == ended(status),
{
    match status {
        SessionStatus::Exited(_) | SessionStatus::Failed => true,
        SessionStatus::Starting | SessionStatus::Running => false,
    }
}

/// A session that is about to start.
#[derive(Clone, Copy, Debug, Eq, PartialEq, Structural)]
pub struct SessionStart {
    pub session_id: u64,
    /// Whether another session ran before, so that the screen has to be marked.
    pub follows_another: bool,
}

/// The session that follows the active one; no session has the number zero.
pub open spec fn session_after(active: u64) -> SessionStart {
    SessionStart { session_id: (active + 1) as u64, follows_another: active > 0 }
}

/// The session that follows the active one; no session has the number zero.
pub fn next_session(active: u64) -> (res: SessionStart)
    requires
        active < u64::MAX,
    ensures
        res == session_after(active),
        res.session_id == active + 1,
        res.follows_another == (active > 0),
{
    SessionStart { session_id: active + 1, follows_another: active > 0 }
}

/// What the window does about a request of the terminal application.
#[derive(Clone, Debug, Eq, PartialEq)]
pub enum UiEffect {
    SetTitle(String),
    StoreInClipboard(String),
    AskBeforeStoring(String),
    DenyClipboardRead,
    TerminateSession,
    Nothing,
}

/// Whether the profile may write to the clipboard without asking.
pub open spec fn trusted(profiles: Seq<Seq<char>>, profile_id: Seq<char>) -> bool {
    profiles.contains(profile_id)
}

/// Whether `effect` is what the window does about `action`.
///
/// A trusted profile may write to the clipboard; of any other the user is asked first. Nothing
/// may read the clipboard. Resetting the title brings back the name of the profile.
pub open spec fn answers(
    effect: UiEffect,
    action: TerminalAction,
    profile_name: Seq<char>,
    may_store: bool,
) -> bool {
    match action {
        TerminalAction::Title(title) => effect matches UiEffect::SetTitle(shown) && shown@
            == title@,
        TerminalAction::ResetTitle => effect matches UiEffect::SetTitle(shown) && shown@
            == profile_name,
        TerminalAction::ExitRequested => effect is TerminateSession,
        TerminalAction::ClipboardStore { text, .. } => if may_store {
            effect matches UiEffect::StoreInClipboard(stored) && stored@ == text@
        } else {
            effect matches UiEffect::AskBeforeStoring(asked) && asked@ == text@
        },
        TerminalAction::ClipboardLoad { .. } => effect is DenyClipboardRead,
        TerminalAction::Bell | TerminalAction::Wakeup | TerminalAction::WriteToHost(_) =>
            effect is Nothing,
    }
}

/// Reports whether the profile may write to the clipboard without asking.
pub fn is_trusted(clipboard: &ClipboardConfig, profile_id: &str) -> (res: bool)
    ensures
        res == trusted(clipboard@.trusted_osc52_write_profiles, profile_id@),
{
    let ghost ids = texts(clipboard.trusted_osc52_write_profiles@);
    let mut i: usize = 0;
    while i < clipboard.trusted_osc52_write_profiles.len()
        invariant
            i <= clipboard.trusted_osc52_write_profiles.len(),
            ids == texts(clipboard.trusted_osc52_write_profiles@),
            forall|j: int| 0 <= j < i ==> #[trigger] ids[j] != profile_id@,
        decreases clipboard.trusted_osc52_write_profiles.len() - i,
    {
        assert(ids[i as int] == clipboard.trusted_osc52_write_profiles@[i as int]@);
        if same_text(clipboard.trusted_osc52_write_profiles[i].as_str(), profile_id) {
            return true;
        }
        i = i + 1;
    }
    false
}

/// What the window does about a request of the terminal application.
pub fn effect_of(
    action: TerminalAction,
    profile_name: &str,
    profile_id: &str,
    clipboard: &ClipboardConfig,
) -> (res: UiEffect)
    ensures
        answers(
            res,
            action,
            profile_name@,
            trusted(clipboard@.trusted_osc52_write_profiles, profile_id@),
        ),
{
    match action {
        TerminalAction::Title(title) => UiEffect::SetTitle(title),
        TerminalAction::ResetTitle => UiEffect::SetTitle(profile_name.to_owned()),
        TerminalAction::ExitRequested => UiEffect::TerminateSession,
        TerminalAction::ClipboardStore { text, .. } => {
            if is_trusted(clipboard, profile_id) {
                UiEffect::StoreInClipboard(text)
            } else {
                UiEffect::AskBeforeStoring(text)
            }
        },
        TerminalAction::ClipboardLoad { .. } => UiEffect::DenyClipboardRead,
        TerminalAction::Bell | TerminalAction::Wakeup | TerminalAction::WriteToHost(_) =>
            UiEffect::Nothing,
    }
}

/// The clipboard settings once the profile may write to the clipboard without asking.
pub open spec fn with_trust(profiles: Seq<Seq<char>>, profile_id: Seq<char>) -> Seq<Seq<char>> {
    if trusted(profiles, profile_id) {
        profiles
    } else {
        profiles.push(profile_id)
    }
}

/// Lets the profile write to the clipboard without asking.
pub fn trust_profile(clipboard: &mut ClipboardConfig, profile_id: &str)
    ensures
        final(clipboard)@.trusted_osc52_write_profiles == with_trust(
            old(clipboard)@.trusted_osc52_write_profiles,
            profile_id@,
        ),
        final(clipboard)@.copy_on_select == old(clipboard)@.copy_on_select,
        final(clipboard)@.confirm_multiline_paste == old(clipboard)@.confirm_multiline_paste,
        final(clipboard)@.allow_osc52_read == old(clipboard)@.allow_osc52_read,
{
    if !is_trusted(clipboard, profile_id) {
        let ghost before = clipboard.trusted_osc52_write_profiles@;
        let id = profile_id.to_owned();
        assert(texts(before.push(id)) =~= texts(before).push(id@));
        clipboard.trusted_osc52_write_profiles.push(id);
    }
}

/// Trusting a profile lets it write without asking, changes nothing for any other profile, and
/// trusting it again changes nothing at all.
pub proof fn law_trust_concerns_one_profile(
    profiles: Seq<Seq<char>>,
    profile_id: Seq<char>,
    other: Seq<char>,
)
    ensures
        trusted(with_trust(profiles, profile_id), profile_id),
        other != profile_id ==> (trusted(with_trust(profiles, profile_id), other) == trusted(
            profiles,
            other,
        )),
        with_trust(with_trust(profiles, profile_id), profile_id) == with_trust(
            profiles,
            profile_id,
        ),
{
    let after = with_trust(profiles, profile_id);
    if !trusted(profiles, profile_id) {
        assert(after[profiles.len() as int] == profile_id);
        if trusted(profiles, other) {
            let i = choose|i: int| 0 <= i < profiles.len() && profiles[i] == other;
            assert(after[i] == other);
        }
        if other != profile_id && trusted(after, other) {
            let i = choose|i: int| 0 <= i < after.len() && after[i] == other;
            assert(profiles[i] == other);
        }
    }
}

/// Without trust nothing that an application asks for reaches the clipboard unasked, and nothing
/// that it asks for ever reads it.
pub proof fn law_clipboard_is_guarded(
    effect: UiEffect,
    action: TerminalAction,
    profile_name: Seq<char>,
    may_store: bool,
)
    requires
        answers(effect, action, profile_name, may_store),
    ensures
        effect is StoreInClipboard ==> may_store && action is ClipboardStore,
        action is ClipboardLoad ==> effect is DenyClipboardRead,
{
}

/// The blinking of the cursor.
///
/// Every restart begins a new generation. A schedule belongs to the generation in which it was
/// made, and dies with it.
#[derive(Clone, Copy, Debug, Eq, PartialEq, Structural)]
pub struct CursorBlink {
    pub visible: bool,
    pub generation: u64,
}

impl CursorBlink {
    /// The cursor once it was shown again: it is visible, and another generation begins.
    /// Generations start over after the last one.
    pub open spec fn restarted(self) -> CursorBlink {
        CursorBlink {
            visible: true,
            generation: if self.generation == u64::MAX {
                0
            } else {
                (self.generation + 1) as u64
            },
        }
    }

    /// The cursor after a schedule of the generation `expected` had it blink.
    pub open spec fn ticked(self, expected: u64) -> CursorBlink {
        CursorBlink {
            visible: if self.generation == expected {
                !self.visible
            } else {
                self.visible
            },
            generation: self.generation,
        }
    }

    /// A cursor that stands still.
    pub fn new() -> (res: Self)
        ensures
            res.visible,
            res.generation == 0,
    {
        CursorBlink { visible: true, generation: 0 }
    }

    /// Shows the cursor and begins a new generation, whose number is returned. Generations start
    /// over after the last one.
    pub fn restart(&mut self) -> (res: u64)
        ensures
            *final(self) == old(self).restarted(),
            res == final(self).generation,
    {
        self.generation = if self.generation == u64::MAX {
            0
        } else {
            self.generation + 1
        };
        self.visible = true;
        self.generation
    }

    /// Blinks on behalf of a schedule of the generation `expected`; tells whether the schedule
    /// goes on.
    pub fn tick(&mut self, expected: u64) -> (res: bool)
        ensures
            res == (old(self).generation == expected),
            *final(self) == old(self).ticked(expected),
    {
        if self.generation != expected {
            return false;
        }
        self.visible = !self.visible;
        true
    }
}

/// Whether the cursor blinks: its application wants it to, and the terminal has the focus.
pub fn should_blink(blinking: bool, focused: bool) -> (res: bool)
    ensures
        res == (blinking && focused),
{
    blinking && focused
}

/// The profile with which a session starts: the default of the settings, else the profile of last
/// resort.
pub open spec fn profile_to_start(
    config: ConfigView,
    platform: Platform,
    survey: ShellSurvey,
) -> ProfileView {
    match default_profile(config) {
        Some(profile) => profile,
        None => last_resort(platform, survey),
    }
}

/// The profile with which a session starts: the default of the settings, else the profile of last
/// resort.
pub fn starting_profile(config: &AppConfig, platform: Platform, survey: &ShellSurvey) -> (res:
    ShellProfileConfig)
    ensures
        res@ == profile_to_start(config@, platform, *survey),
{
    match config.default_shell() {
        Some(profile) => profile.copied(),
        None => fallback_profile(platform, survey),
    }
}

/// How many lines of history are added or taken away at once.
pub const SCROLLBACK_STEP: usize = 10_000;

/// The limit of the history after the user asked for more or for less.
pub open spec fn stepped_limit(current: int, more: bool) -> int {
    if more {
        if current + SCROLLBACK_STEP > MAX_SCROLLBACK_LINES {
            MAX_SCROLLBACK_LINES as int
        } else {
            current + SCROLLBACK_STEP
        }
    } else if current < SCROLLBACK_STEP {
        0
    } else if current - SCROLLBACK_STEP > MAX_SCROLLBACK_LINES {
        MAX_SCROLLBACK_LINES as int
    } else {
        current - SCROLLBACK_STEP
    }
}

/// The limit of the history after the user asked for more or for less.
pub fn stepped_scrollback(current: usize, more: bool) -> (res: usize)
    ensures
        res == stepped_limit(current as int, more),
        res <= MAX_SCROLLBACK_LINES,
{
    let wanted: usize = if more {
        if current > MAX_SCROLLBACK_LINES {
            MAX_SCROLLBACK_LINES
        } else {
            current + SCROLLBACK_STEP
        }
    } else if current < SCROLLBACK_STEP {
        0
    } else {
        current - SCROLLBACK_STEP
    };
    if wanted > MAX_SCROLLBACK_LINES {
        MAX_SCROLLBACK_LINES
    } else {
        wanted
    }
}

/// Output shows that a session runs, an exit is told with its code, and any failure is a failure. What
/// comes from a session that has been replaced says nothing.
pub proof fn law_events_tell_the_status(routed: RoutedSessionEvent, active: u64)
    ensures
        routed.session_id != active ==> status_told(routed, active) is None,
        routed.session_id == active ==> {
            &&& routed.event is Output ==> status_told(routed, active) == Some(
                SessionStatus::Running,
            )
            &&& routed.event matches SessionEvent::Exited { code, signal } ==> status_told(
                routed,
                active,
            ) == Some(SessionStatus::Exited(code))
            &&& routed.event is ReadFailed || routed.event is WriteFailed ==> status_told(
                routed,
                active,
            ) == Some(SessionStatus::Failed)
        },
{
}

/// A session can be started anew once it has ended, and not while it starts or runs.
pub proof fn law_ended_sessions_can_restart(code: u32)
    ensures
        ended(SessionStatus::Exited(code)),
        ended(SessionStatus::Failed),
        !ended(SessionStatus::Starting),
        !ended(SessionStatus::Running),
{
}

/// Sessions are numbered so that no event of an earlier one is taken for one of a later one. The
/// first one follows no other, and every later one does.
pub proof fn law_sessions_are_told_apart(active: u64)
    requires
        active < u64::MAX,
    ensures
        session_after(active).session_id > active,
        session_after(active).session_id == active + 1,
        session_after(0).follows_another == false,
        active > 0 ==> session_after(active).follows_another,
{
}

/// What an application asks for is answered with what it asked for: its own title, the name of the
/// profile where it gives the title up, and the very text that it wants in the clipboard.
pub proof fn law_requests_are_answered(
    effect: UiEffect,
    action: TerminalAction,
    profile_name: Seq<char>,
    may_store: bool,
)
    requires
        answers(effect, action, profile_name, may_store),
    ensures
        action matches TerminalAction::Title(title) ==> (effect matches UiEffect::SetTitle(shown)
            && shown@ == title@),
        action is ResetTitle ==> (effect matches UiEffect::SetTitle(shown) && shown@
            == profile_name),
        action is ExitRequested <==> effect is TerminateSession,
        action matches TerminalAction::ClipboardStore { kind, text } ==> {
            &&& may_store ==> (effect matches UiEffect::StoreInClipboard(stored) && stored@
                == text@)
            &&& !may_store ==> (effect matches UiEffect::AskBeforeStoring(asked) && asked@
                == text@)
        },
        action is Bell || action is Wakeup || action is WriteToHost ==> effect is Nothing,
{
}

/// The cursor blinks in time with the schedule of its own generation: two ticks bring it back. Showing
/// it again ends the schedules that were made before.
pub proof fn law_blinking_comes_and_goes(blink: CursorBlink, stale: u64)
    ensures
        blink.ticked(blink.generation).visible == !blink.visible,
        blink.ticked(blink.generation).ticked(blink.generation) == blink,
        stale != blink.generation ==> blink.ticked(stale) == blink,
        blink.restarted().visible,
        blink.restarted().generation != blink.generation,
        blink.restarted().ticked(blink.generation) == blink.restarted(),
{
}

/// A session starts with the profile that the settings name, and there is always one to start with.
pub proof fn law_sessions_start_with_the_default(
    config: ConfigView,
    platform: Platform,
    survey: ShellSurvey,
)
    ensures
        default_profile(config) matches Some(profile) ==> profile_to_start(
            config,
            platform,
            survey,
        ) == profile,
        default_profile(config) is None ==> profile_to_start(config, platform, survey)
            == last_resort(platform, survey),
{
}

/// Asking for more history and then for less leads back, as long as no bound is reached. The limit
/// goes up or down by ten thousand lines and stays between none and a million.
pub proof fn law_history_steps_undo_each_other(current: int)
    requires
        0 <= current <= 1_000_000,
    ensures
        0 <= stepped_limit(current, true) <= 1_000_000,
        0 <= stepped_limit(current, false) <= 1_000_000,
        current <= 990_000 ==> stepped_limit(current, true) == current + 10_000 && stepped_limit(
            stepped_limit(current, true),
            false,
        ) == current,
        current >= 10_000 ==> stepped_limit(current, false) == current - 10_000 && stepped_limit(
            stepped_limit(current, false),
            true,
        ) == current,
        current > 990_000 ==> stepped_limit(current, true) == 1_000_000,
        current < 10_000 ==> stepped_limit(current, false) == 0,
{
}

} // verus!
