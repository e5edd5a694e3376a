//! The settings, their defaults and their normal form.

use vstd::prelude::*;
use vstd::string::*;

use crate::config::measure::{
    Measure, EIGHT, FORTY_EIGHT, FOURTEEN, ONE, ONE_AND_A_HALF, ONE_AND_FIFTEEN_HUNDREDTHS,
};
use crate::identity::{
    identifier_text, law_identifier_text_is_unambiguous, new_identifier, random_identifier,
    write_identifier,
};
use crate::terminal::types::optional_text;
use crate::text::{blank, is_blank, same_text};

verus! {

pub const CURRENT_SCHEMA_VERSION: u32 = 2;

pub const DEFAULT_SCROLLBACK_LINES: usize = 50_000;

pub const MAX_SCROLLBACK_LINES: usize = 1_000_000;

/// The family of the bundled font.
pub const DEFAULT_FONT_FAMILY: &'static str = "JetBrains Mono NL";

#[derive(Clone, Copy, Debug, Default, Eq, PartialEq, Structural)]
pub enum LocalePreference {
    #[default]
    System,
    English,
    SimplifiedChinese,
}

#[derive(Clone, Copy, Debug, Default, Eq, PartialEq, Structural)]
pub enum ThemePreference {
    #[default]
    MatchaDark,
    Light,
    System,
}

#[derive(Clone, Copy, Debug, Eq, PartialEq, Structural)]
pub struct AppearanceConfig {
    pub theme: ThemePreference,
    pub locale: LocalePreference,
}

impl Default for AppearanceConfig {
    fn default() -> (res: Self)
        ensures
            res.theme == ThemePreference::MatchaDark,
            res.locale == LocalePreference::System,
    {
        AppearanceConfig { theme: ThemePreference::MatchaDark, locale: LocalePreference::System }
    }
}

#[derive(Clone, Debug, Eq, PartialEq)]
pub struct TerminalConfig {
    pub font_family: String,
    pub font_size: Measure,
    pub line_height: Measure,
    pub scrollback_lines: usize,
}

/// The contents of a [`TerminalConfig`].
#[verifier::ext_equal]
pub struct TerminalConfigView {
    pub font_family: Seq<char>,
    pub font_size: Measure,
    pub line_height: Measure,
    pub scrollback_lines: usize,
}

impl View for TerminalConfig {
    type V = TerminalConfigView;

    open spec fn view(&self) -> TerminalConfigView {
        TerminalConfigView {
            font_family: self.font_family@,
            font_size: self.font_size,
            line_height: self.line_height,
            scrollback_lines: self.scrollback_lines,
        }
    }
}

/// The terminal settings of a new installation: the bundled font at 14 points, compact lines.
pub open spec fn default_terminal() -> TerminalConfigView {
    TerminalConfigView {
        font_family: DEFAULT_FONT_FAMILY@,
        font_size: Measure { bits: FOURTEEN },
        line_height: Measure { bits: ONE_AND_FIFTEEN_HUNDREDTHS },
        scrollback_lines: DEFAULT_SCROLLBACK_LINES,
    }
}

impl Default for TerminalConfig {
    fn default() -> (res: Self)
        ensures
            res@ == default_terminal(),
    {
        TerminalConfig {
            font_family: DEFAULT_FONT_FAMILY.to_owned(),
            font_size: Measure { bits: FOURTEEN },
            line_height: Measure { bits: ONE_AND_FIFTEEN_HUNDREDTHS },
            scrollback_lines: DEFAULT_SCROLLBACK_LINES,
        }
    }
}

/// The terminal settings with every number within its bounds: font sizes from 8 to 48, line
/// heights from 1 to 1.5, and as much history as the maximum.
pub open spec fn bounded_terminal(terminal: TerminalConfigView) -> TerminalConfigView {
    TerminalConfigView {
        font_size: terminal.font_size.within(
            Measure { bits: EIGHT },
            Measure { bits: FORTY_EIGHT },
        ),
        line_height: terminal.line_height.within(
            Measure { bits: ONE },
            Measure { bits: ONE_AND_A_HALF },
        ),
        scrollback_lines: if terminal.scrollback_lines > MAX_SCROLLBACK_LINES {
            MAX_SCROLLBACK_LINES
        } else {
            terminal.scrollback_lines
        },
        ..terminal
    }
}

/// Brings every number within its bounds.
pub fn bound_terminal(terminal: &mut TerminalConfig)
    ensures
        final(terminal)@ == bounded_terminal(old(terminal)@),
{
    terminal.font_size = terminal.font_size.clamp(
        Measure { bits: EIGHT },
        Measure { bits: FORTY_EIGHT },
    );
    terminal.line_height = terminal.line_height.clamp(
        Measure { bits: ONE },
        Measure { bits: ONE_AND_A_HALF },
    );
    if terminal.scrollback_lines > MAX_SCROLLBACK_LINES {
        terminal.scrollback_lines = MAX_SCROLLBACK_LINES;
    }
}

#[derive(Clone, Debug, Eq, PartialEq)]
pub struct ClipboardConfig {
    pub copy_on_select: bool,
    pub confirm_multiline_paste: bool,
    pub allow_osc52_read: bool,
    pub trusted_osc52_write_profiles: Vec<String>,
}

/// The characters of each of a sequence of texts.
pub open spec fn texts(strings: Seq<String>) -> Seq<Seq<char>> {
    strings.map_values(|text: String| text@)
}

/// The contents of a [`ClipboardConfig`].
#[verifier::ext_equal]
pub struct ClipboardConfigView {
    pub copy_on_select: bool,
    pub confirm_multiline_paste: bool,
    pub allow_osc52_read: bool,
    pub trusted_osc52_write_profiles: Seq<Seq<char>>,
}

impl View for ClipboardConfig {
    type V = ClipboardConfigView;

    open spec fn view(&self) -> ClipboardConfigView {
        ClipboardConfigView {
            copy_on_select: self.copy_on_select,
            confirm_multiline_paste: self.confirm_multiline_paste,
            allow_osc52_read: self.allow_osc52_read,
            trusted_osc52_write_profiles: texts(self.trusted_osc52_write_profiles@),
        }
    }
}

/// Nothing leaves or enters the clipboard unasked.
pub open spec fn safe_clipboard() -> ClipboardConfigView {
    ClipboardConfigView {
        copy_on_select: false,
        confirm_multiline_paste: true,
        allow_osc52_read: false,
        trusted_osc52_write_profiles: Seq::empty(),
    }
}

impl Default for ClipboardConfig {
    fn default() -> (res: Self)
        ensures
            res@ == safe_clipboard(),
    {
        Self::with_safe_defaults()
    }
}

impl ClipboardConfig {
    #[must_use]
    pub fn with_safe_defaults() -> (res: Self)
        ensures
            res@ == safe_clipboard(),
    {
        let res = ClipboardConfig {
            copy_on_select: false,
            confirm_multiline_paste: true,
            allow_osc52_read: false,
            trusted_osc52_write_profiles: Vec::new(),
        };
        assert(res@ =~= safe_clipboard());
        res
    }
}

#[derive(Clone, Debug, Eq, PartialEq)]
pub struct ShellProfileConfig {
    pub id: String,
    pub name: String,
    pub program: String,
    pub args: Vec<String>,
    pub startup_directory: Option<String>,
}

/// The contents of a [`ShellProfileConfig`].
#[verifier::ext_equal]
pub struct ProfileView {
    pub id: Seq<char>,
    pub name: Seq<char>,
    pub program: Seq<char>,
    pub args: Seq<Seq<char>>,
    pub startup_directory: Option<Seq<char>>,
}

impl View for ShellProfileConfig {
    type V = ProfileView;

    open spec fn view(&self) -> ProfileView {
        ProfileView {
            id: self.id@,
            name: self.name@,
            program: self.program@,
            args: texts(self.args@),
            startup_directory: optional_text(self.startup_directory),
        }
    }
}

/// A copy of a sequence of texts.
pub fn clone_texts(strings: &Vec<String>) -> (res: Vec<String>)
    ensures
        texts(res@) == texts(strings@),
{
    let mut res: Vec<String> = Vec::new();
    let mut i: usize = 0;
    while i < strings.len()
        invariant
            i <= strings.len(),
            texts(res@) == texts(strings@).take(i as int),
        decreases strings.len() - i,
    {
        let text = strings[i].clone();
        assert(texts(res@.push(text)) =~= texts(res@).push(text@));
        res.push(text);
        assert(texts(res@) =~= texts(strings@).take(i + 1));
        i = i + 1;
    }
    assert(texts(res@) =~= texts(strings@));
    res
}

/// A copy of an optional text.
pub fn clone_text(text: &Option<String>) -> (res: Option<String>)
    ensures
        optional_text(res) == optional_text(*text),
{
    match text {
        Some(text) => Some(text.clone()),
        None => None,
    }
}

impl ShellProfileConfig {
    /// A copy of the profile.
    pub fn copied(&self) -> (res: Self)
        ensures
            res@ == self@,
    {
        ShellProfileConfig {
            id: self.id.clone(),
            name: self.name.clone(),
            program: self.program.clone(),
            args: clone_texts(&self.args),
            startup_directory: clone_text(&self.startup_directory),
        }
    }
}

/// The contents of a sequence of profiles.
pub open spec fn profile_views(profiles: Seq<ShellProfileConfig>) -> Seq<ProfileView> {
    profiles.map_values(|profile: ShellProfileConfig| profile@)
}

#[derive(Clone, Debug, Eq, PartialEq)]
pub struct AppConfig {
    pub schema_version: u32,
    pub appearance: AppearanceConfig,
    pub terminal: TerminalConfig,
    pub clipboard: ClipboardConfig,
    pub shell_profiles: Vec<ShellProfileConfig>,
    pub default_shell_profile: String,
}

/// The contents of an [`AppConfig`].
#[verifier::ext_equal]
pub struct ConfigView {
    pub schema_version: u32,
    pub appearance: AppearanceConfig,
    pub terminal: TerminalConfigView,
    pub clipboard: ClipboardConfigView,
    pub shell_profiles: Seq<ProfileView>,
    pub default_shell_profile: Seq<char>,
}

impl View for AppConfig {
    type V = ConfigView;

    open spec fn view(&self) -> ConfigView {
        ConfigView {
            schema_version: self.schema_version,
            appearance: self.appearance,
            terminal: self.terminal@,
            clipboard: self.clipboard@,
            shell_profiles: profile_views(self.shell_profiles@),
            default_shell_profile: self.default_shell_profile@,
        }
    }
}

/// A copy of a sequence of profiles.
pub fn copy_profiles(profiles: &Vec<ShellProfileConfig>) -> (res: Vec<ShellProfileConfig>)
    ensures
        profile_views(res@) == profile_views(profiles@),
{
    let ghost views = profile_views(profiles@);
    let mut res: Vec<ShellProfileConfig> = Vec::new();
    let mut i: usize = 0;
    while i < profiles.len()
        invariant
            i <= profiles.len(),
            views == profile_views(profiles@),
            profile_views(res@) =~= views.take(i as int),
        decreases profiles.len() - i,
    {
        let profile = profiles[i].copied();
        assert(profile_views(res@.push(profile)) =~= profile_views(res@).push(profile@));
        res.push(profile);
        i = i + 1;
    }
    assert(views.take(i as int) =~= views);
    res
}

impl AppConfig {
    /// A copy of the settings.
    pub fn copied(&self) -> (res: Self)
        ensures
            res@ == self@,
    {
        AppConfig {
            schema_version: self.schema_version,
            appearance: self.appearance,
            terminal: TerminalConfig {
                font_family: self.terminal.font_family.clone(),
                font_size: self.terminal.font_size,
                line_height: self.terminal.line_height,
                scrollback_lines: self.terminal.scrollback_lines,
            },
            clipboard: ClipboardConfig {
                copy_on_select: self.clipboard.copy_on_select,
                confirm_multiline_paste: self.clipboard.confirm_multiline_paste,
                allow_osc52_read: self.clipboard.allow_osc52_read,
                trusted_osc52_write_profiles: clone_texts(
                    &self.clipboard.trusted_osc52_write_profiles,
                ),
            },
            shell_profiles: copy_profiles(&self.shell_profiles),
            default_shell_profile: self.default_shell_profile.clone(),
        }
    }
}

/// The identifier of the first profile; empty where there is none.
pub open spec fn first_id(profiles: Seq<ProfileView>) -> Seq<char> {
    if profiles.len() == 0 {
        Seq::empty()
    } else {
        profiles[0].id
    }
}

/// The settings of a new installation on which `profiles` were discovered.
pub open spec fn default_config(profiles: Seq<ProfileView>) -> ConfigView {
    ConfigView {
        schema_version: CURRENT_SCHEMA_VERSION,
        appearance: AppearanceConfig {
            theme: ThemePreference::MatchaDark,
            locale: LocalePreference::System,
        },
        terminal: default_terminal(),
        clipboard: safe_clipboard(),
        shell_profiles: profiles,
        default_shell_profile: first_id(profiles),
    }
}

/// Whether one of the first `count` profiles has the identifier `id`.
pub open spec fn id_taken(profiles: Seq<ProfileView>, count: int, id: Seq<char>) -> bool {
    exists|i: int| 0 <= i < count && #[trigger] profiles[i].id == id
}

/// Whether some profile has the identifier `id`.
pub open spec fn has_profile(profiles: Seq<ProfileView>, id: Seq<char>) -> bool {
    id_taken(profiles, profiles.len() as int, id)
}

/// The first `count` profiles with usable identifiers: one that is blank, or that an earlier
/// profile has, is replaced by the fresh one at the same place.
pub open spec fn with_usable_ids(
    profiles: Seq<ProfileView>,
    fresh: Seq<Seq<char>>,
    count: nat,
) -> Seq<ProfileView>
    decreases count,
{
    if count == 0 {
        Seq::empty()
    } else {
        let last = count - 1;
        let before = with_usable_ids(profiles, fresh, last as nat);
        let profile = profiles[last];
        if blank(profile.id) || has_profile(before, profile.id) {
            before.push(ProfileView { id: fresh[last], ..profile })
        } else {
            before.push(profile)
        }
    }
}

/// The profiles that the normal form is made of: those of the settings, or the discovered ones
/// where there are none.
pub open spec fn profiles_in_use(config: ConfigView, discovered: Seq<ProfileView>) -> Seq<
    ProfileView,
> {
    if config.shell_profiles.len() == 0 {
        discovered
    } else {
        config.shell_profiles
    }
}

/// The settings in normal form. Where there are no profiles the discovered ones are taken over;
/// where the default profile is missing the first profile becomes the default.
pub open spec fn normal_form(
    config: ConfigView,
    discovered: Seq<ProfileView>,
    fresh: Seq<Seq<char>>,
) -> ConfigView {
    let profiles = profiles_in_use(config, discovered);
    let usable = with_usable_ids(profiles, fresh, profiles.len());
    ConfigView {
        schema_version: CURRENT_SCHEMA_VERSION,
        terminal: bounded_terminal(config.terminal),
        shell_profiles: usable,
        default_shell_profile: if has_profile(usable, config.default_shell_profile) {
            config.default_shell_profile
        } else {
            first_id(usable)
        },
        ..config
    }
}

/// Reports whether one of the first `count` profiles has the identifier `id`.
fn is_id_taken(profiles: &Vec<ShellProfileConfig>, count: usize, id: &str) -> (res: bool)
    requires
        count <= profiles.len(),
    ensures
        res == id_taken(profile_views(profiles@), count as int, id@),
{
    let ghost views = profile_views(profiles@);
    let mut i: usize = 0;
    while i < count
        invariant
            i <= count <= profiles.len(),
            views == profile_views(profiles@),
            forall|j: int| 0 <= j < i ==> #[trigger] views[j].id != id@,
        decreases count - i,
    {
        assert(views[i as int] == profiles@[i as int]@);
        if same_text(profiles[i].id.as_str(), id) {
            assert(views[i as int].id == id@);
            return true;
        }
        i = i + 1;
    }
    false
}

/// Making identifiers usable keeps the number of profiles.
pub proof fn lemma_usable_len(profiles: Seq<ProfileView>, fresh: Seq<Seq<char>>, count: nat)
    ensures
        with_usable_ids(profiles, fresh, count).len() == count,
    decreases count,
{
    if count > 0 {
        lemma_usable_len(profiles, fresh, (count - 1) as nat);
    }
}

/// Replaces each identifier that is blank, or that an earlier profile has, by the fresh one at
/// the same place.
pub fn make_ids_usable(profiles: &mut Vec<ShellProfileConfig>, fresh: &Vec<String>)
    requires
        fresh.len() == old(profiles).len(),
    ensures
        profile_views(final(profiles)@) == with_usable_ids(
            profile_views(old(profiles)@),
            texts(fresh@),
            old(profiles)@.len(),
        ),
{
    let ghost before = profile_views(profiles@);
    let ghost fresh_ids = texts(fresh@);
    let mut i: usize = 0;
    while i < profiles.len()
        invariant
            i <= profiles.len(),
            profiles.len() == before.len(),
            fresh.len() == before.len(),
            fresh_ids == texts(fresh@),
            profile_views(profiles@) =~= with_usable_ids(before, fresh_ids, i as nat)
                + before.skip(i as int),
        decreases profiles.len() - i,
    {
        let ghost usable = with_usable_ids(before, fresh_ids, i as nat);
        let ghost views = profile_views(profiles@);
        proof {
            lemma_usable_len(before, fresh_ids, i as nat);
            assert(views[i as int] == before[i as int]);
            assert forall|j: int| 0 <= j < i implies #[trigger] views[j] == usable[j] by {}
            assert(id_taken(views, i as int, before[i as int].id) == has_profile(
                usable,
                before[i as int].id,
            )) by {
                if id_taken(views, i as int, before[i as int].id) {
                    let j = choose|j: int|
                        0 <= j < i && #[trigger] views[j].id == before[i as int].id;
                    assert(usable[j].id == before[i as int].id);
                }
                if has_profile(usable, before[i as int].id) {
                    let j = choose|j: int|
                        0 <= j < usable.len() && #[trigger] usable[j].id == before[i as int].id;
                    assert(views[j].id == before[i as int].id);
                }
            }
        }
        let unusable = is_blank(profiles[i].id.as_str()) || is_id_taken(
            profiles,
            i,
            profiles[i].id.as_str(),
        );
        let ghost untouched = profiles@;
        if unusable {
            profiles[i].id = fresh[i].clone();
        }
        proof {
            let next = with_usable_ids(before, fresh_ids, (i + 1) as nat);
            lemma_usable_len(before, fresh_ids, (i + 1) as nat);
            assert(fresh_ids[i as int] == fresh@[i as int]@);
            assert(profiles@[i as int]@ == next[i as int]);
            assert forall|j: int| 0 <= j < before.len() implies #[trigger] profile_views(
                profiles@,
            )[j] == (next + before.skip(i + 1))[j] by {
                if j != i {
                    assert(profiles@[j] == untouched[j]);
                    assert(views[j] == untouched[j]@);
                }
            }
        }
        i = i + 1;
    }
    assert(before.skip(i as int) =~= Seq::empty());
    assert(profile_views(profiles@) =~= with_usable_ids(before, fresh_ids, i as nat));
}

/// Whether `id` is the textual form of a random identifier.
pub open spec fn fresh_id(id: Seq<char>) -> bool {
    exists|bits: u128| random_identifier(bits) && id == #[trigger] identifier_text(bits)
}

/// A new identifier for a profile. It is random, so nothing tells which one it is.
#[must_use]
pub fn new_profile_id() -> (res: String)
    ensures
        fresh_id(res@),
{
    write_identifier(new_identifier())
}

fn new_profile_ids(count: usize) -> (res: Vec<String>)
    ensures
        res.len() == count,
        forall|i: int| 0 <= i < count ==> fresh_id(#[trigger] texts(res@)[i]),
{
    let mut res: Vec<String> = Vec::new();
    while res.len() < count
        invariant
            res.len() <= count,
            forall|i: int| 0 <= i < res.len() ==> fresh_id(#[trigger] texts(res@)[i]),
        decreases count - res.len(),
    {
        let id = new_profile_id();
        assert(texts(res@.push(id)) =~= texts(res@).push(id@));
        res.push(id);
    }
    res
}

/// Whether `after` is the normal form of `config` for some new identifiers.
pub open spec fn normalized(
    config: ConfigView,
    discovered: Seq<ProfileView>,
    after: ConfigView,
) -> bool {
    exists|fresh: Seq<Seq<char>>|
        all_fresh(fresh) && fresh.len() == profiles_in_use(config, discovered).len() && after
            == #[trigger] normal_form(config, discovered, fresh)
}

/// Whether each of `ids` is the textual form of a random identifier.
pub open spec fn all_fresh(ids: Seq<Seq<char>>) -> bool {
    forall|i: int| 0 <= i < ids.len() ==> fresh_id(#[trigger] ids[i])
}

impl AppConfig {
    /// The settings of a new installation on which `shell_profiles` were discovered.
    #[must_use]
    pub fn with_profiles(shell_profiles: Vec<ShellProfileConfig>) -> (res: Self)
        ensures
            res@ == default_config(profile_views(shell_profiles@)),
    {
        let default_shell_profile = if shell_profiles.len() > 0 {
            shell_profiles[0].id.clone()
        } else {
            String::new()
        };
        assert(default_shell_profile@ =~= first_id(profile_views(shell_profiles@)));
        AppConfig {
            schema_version: CURRENT_SCHEMA_VERSION,
            appearance: AppearanceConfig::default(),
            terminal: TerminalConfig::default(),
            clipboard: ClipboardConfig::with_safe_defaults(),
            shell_profiles,
            default_shell_profile,
        }
    }

    /// Brings the settings into normal form, with `fresh` identifiers for profiles that need one.
    pub fn normalize_with(&mut self, discovered: Vec<ShellProfileConfig>, fresh: &Vec<String>)
        requires
            fresh.len() == if old(self).shell_profiles.len() == 0 {
                discovered.len()
            } else {
                old(self).shell_profiles.len()
            },
        ensures
            final(self)@ == normal_form(
                old(self)@,
                profile_views(discovered@),
                texts(fresh@),
            ),
    {
        self.schema_version = CURRENT_SCHEMA_VERSION;
        bound_terminal(&mut self.terminal);
        if self.shell_profiles.len() == 0 {
            self.shell_profiles = discovered;
        }
        make_ids_usable(&mut self.shell_profiles, fresh);
        let ghost usable = profile_views(self.shell_profiles@);
        let known = is_id_taken(
            &self.shell_profiles,
            self.shell_profiles.len(),
            self.default_shell_profile.as_str(),
        );
        if !known {
            self.default_shell_profile = if self.shell_profiles.len() > 0 {
                self.shell_profiles[0].id.clone()
            } else {
                String::new()
            };
            assert(self.default_shell_profile@ =~= first_id(usable));
        }
    }

    /// Brings the settings into normal form. Where there are no profiles the `discovered` ones are
    /// taken over.
    pub fn normalize(&mut self, discovered: Vec<ShellProfileConfig>)
        ensures
            normalized(old(self)@, profile_views(discovered@), final(self)@),
    {
        let count = if self.shell_profiles.len() == 0 {
            discovered.len()
        } else {
            self.shell_profiles.len()
        };
        let fresh = new_profile_ids(count);
        self.normalize_with(discovered, &fresh);
        assert(self@ == normal_form(old(self)@, profile_views(discovered@), texts(fresh@)));
    }

    /// The profile that starts by default: the one that the settings name, else the first.
    #[must_use]
    pub fn default_shell(&self) -> (res: Option<&ShellProfileConfig>)
        ensures
            match res {
                Some(profile) => default_profile(self@) == Some(profile@),
                None => default_profile(self@) is None,
            },
    {
        let ghost views = self@.shell_profiles;
        let mut i: usize = 0;
        while i < self.shell_profiles.len()
            invariant
                i <= self.shell_profiles.len(),
                views == profile_views(self.shell_profiles@),
                place_of(views, self.default_shell_profile@, 0) == place_of(
                    views,
                    self.default_shell_profile@,
                    i as nat,
                ),
            decreases self.shell_profiles.len() - i,
        {
            assert(views[i as int] == self.shell_profiles@[i as int]@);
            if same_text(
                self.shell_profiles[i].id.as_str(),
                self.default_shell_profile.as_str(),
            ) {
                return Some(&self.shell_profiles[i]);
            }
            i = i + 1;
        }
        if self.shell_profiles.len() > 0 {
            Some(&self.shell_profiles[0])
        } else {
            None
        }
    }
}

/// The place of the first profile at or after `from` with the identifier `id`.
pub open spec fn place_of(profiles: Seq<ProfileView>, id: Seq<char>, from: nat) -> Option<nat>
    decreases profiles.len() - from,
{
    if from >= profiles.len() {
        None
    } else if profiles[from as int].id == id {
        Some(from)
    } else {
        place_of(profiles, id, from + 1)
    }
}

/// The profile that starts by default: the one that the settings name, else the first.
pub open spec fn default_profile(config: ConfigView) -> Option<ProfileView> {
    match place_of(config.shell_profiles, config.default_shell_profile, 0) {
        Some(place) => Some(config.shell_profiles[place as int]),
        None => if config.shell_profiles.len() > 0 {
            Some(config.shell_profiles[0])
        } else {
            None
        },
    }
}

/// Whether every profile has an identifier of its own.
pub open spec fn ids_usable(profiles: Seq<ProfileView>) -> bool {
    &&& forall|i: int| 0 <= i < profiles.len() ==> !blank(#[trigger] profiles[i].id)
    &&& forall|i: int, j: int|
        0 <= i < j < profiles.len() ==> (#[trigger] profiles[i]).id != (#[trigger] profiles[j]).id
}

/// Whether the fresh identifiers are good for `profiles`: each is different from the others and
/// from every identifier in use, and none is blank.
pub open spec fn good_supply(profiles: Seq<ProfileView>, fresh: Seq<Seq<char>>) -> bool {
    &&& fresh.len() == profiles.len()
    &&& forall|i: int| 0 <= i < fresh.len() ==> !blank(#[trigger] fresh[i])
    &&& forall|i: int, j: int| 0 <= i < j < fresh.len() ==> #[trigger] fresh[i] != #[trigger] fresh[j]
    &&& forall|i: int, j: int|
        0 <= i < fresh.len() && 0 <= j < profiles.len() ==> #[trigger] fresh[i] != (
        #[trigger] profiles[j]).id
}

/// Profiles with usable identifiers have those that they had or new ones, each its own.
pub proof fn lemma_usable_ids(profiles: Seq<ProfileView>, fresh: Seq<Seq<char>>, count: nat)
    requires
        good_supply(profiles, fresh),
        count <= profiles.len(),
    ensures
        with_usable_ids(profiles, fresh, count).len() == count,
        ids_usable(with_usable_ids(profiles, fresh, count)),
        forall|i: int|
            0 <= i < count ==> (#[trigger] with_usable_ids(profiles, fresh, count)[i]).id
                == profiles[i].id || with_usable_ids(profiles, fresh, count)[i].id == fresh[i],
    decreases count,
{
    if count > 0 {
        let last = count - 1;
        let before = with_usable_ids(profiles, fresh, last as nat);
        let after = with_usable_ids(profiles, fresh, count);
        lemma_usable_ids(profiles, fresh, last as nat);
        assert forall|i: int, j: int| 0 <= i < j < count implies (#[trigger] after[i]).id != (
        #[trigger] after[j]).id by {
            assert(after[i] == before[i]);
            if j < last {
                assert(after[j] == before[j]);
            } else if after[last].id == profiles[last].id {
                assert(profiles[last].id != fresh[last]);
                assert(!has_profile(before, profiles[last].id));
                assert(before[i].id != profiles[last].id);
            } else {
                assert(after[last].id == fresh[last]);
                assert(fresh[last] != profiles[i].id);
            }
        }
        assert forall|i: int| 0 <= i < count implies !blank(#[trigger] after[i].id) by {
            if i < last {
                assert(after[i] == before[i]);
            }
        }
        assert forall|i: int| 0 <= i < count implies (#[trigger] after[i]).id == profiles[i].id
            || after[i].id == fresh[i] by {
            if i < last {
                assert(after[i] == before[i]);
            }
        }
    }
}

proof fn lemma_usable_unchanged(profiles: Seq<ProfileView>, fresh: Seq<Seq<char>>, count: nat)
    requires
        ids_usable(profiles),
        count <= profiles.len(),
    ensures
        with_usable_ids(profiles, fresh, count) == profiles.take(count as int),
    decreases count,
{
    if count == 0 {
        assert(profiles.take(0) =~= Seq::empty());
    } else {
        let last = count - 1;
        lemma_usable_unchanged(profiles, fresh, last as nat);
        let before = profiles.take(last);
        assert(!has_profile(before, profiles[last].id)) by {
            if has_profile(before, profiles[last].id) {
                let i = choose|i: int|
                    0 <= i < before.len() && #[trigger] before[i].id == profiles[last].id;
                assert(profiles[i].id == profiles[last].id);
            }
        }
        assert(profiles.take(count as int) =~= before.push(profiles[last]));
    }
}

/// In normal form every profile has an identifier of its own, as long as the new identifiers are
/// different from one another and from those in use.
pub proof fn law_normal_form_has_distinct_ids(
    config: ConfigView,
    discovered: Seq<ProfileView>,
    fresh: Seq<Seq<char>>,
)
    requires
        good_supply(profiles_in_use(config, discovered), fresh),
    ensures
        ids_usable(normal_form(config, discovered, fresh).shell_profiles),
{
    let profiles = profiles_in_use(config, discovered);
    lemma_usable_ids(profiles, fresh, profiles.len());
}

/// In normal form the default profile is one of the profiles, and it is the one that starts,
/// unless there is no profile at all.
pub proof fn law_normal_form_has_a_default(
    config: ConfigView,
    discovered: Seq<ProfileView>,
    fresh: Seq<Seq<char>>,
)
    requires
        config.shell_profiles.len() > 0 || discovered.len() > 0,
    ensures
        ({
            let after = normal_form(config, discovered, fresh);
            &&& has_profile(after.shell_profiles, after.default_shell_profile)
            &&& default_profile(after) matches Some(profile)
            &&& profile.id == after.default_shell_profile
        }),
{
    let after = normal_form(config, discovered, fresh);
    let profiles = profiles_in_use(config, discovered);
    lemma_usable_len(profiles, fresh, profiles.len());
    assert(after.shell_profiles[0].id == first_id(after.shell_profiles));
    lemma_place_of(after.shell_profiles, after.default_shell_profile, 0);
}

/// What is found under an identifier has it; where nothing is found nothing has.
pub proof fn lemma_place_of(profiles: Seq<ProfileView>, id: Seq<char>, from: nat)
    ensures
        match place_of(profiles, id, from) {
            Some(place) => from <= place < profiles.len() && profiles[place as int].id == id,
            None => forall|i: int| from <= i < profiles.len() ==> #[trigger] profiles[i].id != id,
        },
    decreases profiles.len() - from,
{
    if from < profiles.len() && profiles[from as int].id != id {
        lemma_place_of(profiles, id, from + 1);
    }
}

/// Normalizing twice is normalizing once, whatever is discovered in between.
pub proof fn law_normalizing_twice_is_normalizing_once(
    config: ConfigView,
    discovered: Seq<ProfileView>,
    fresh: Seq<Seq<char>>,
    later_discovered: Seq<ProfileView>,
    later_fresh: Seq<Seq<char>>,
)
    requires
        config.shell_profiles.len() > 0 || discovered.len() > 0,
        good_supply(profiles_in_use(config, discovered), fresh),
    ensures
        normal_form(normal_form(config, discovered, fresh), later_discovered, later_fresh)
            == normal_form(config, discovered, fresh),
{
    let once = normal_form(config, discovered, fresh);
    let profiles = profiles_in_use(config, discovered);
    lemma_usable_len(profiles, fresh, profiles.len());
    law_normal_form_has_distinct_ids(config, discovered, fresh);
    law_normal_form_has_a_default(config, discovered, fresh);
    lemma_usable_unchanged(once.shell_profiles, later_fresh, once.shell_profiles.len());
    assert(once.shell_profiles.take(once.shell_profiles.len() as int) =~= once.shell_profiles);
}

/// The settings of a new installation are in normal form already.
pub proof fn law_defaults_are_in_normal_form(
    profiles: Seq<ProfileView>,
    discovered: Seq<ProfileView>,
    fresh: Seq<Seq<char>>,
)
    requires
        profiles.len() > 0,
        ids_usable(profiles),
    ensures
        normal_form(default_config(profiles), discovered, fresh) == default_config(profiles),
{
    lemma_usable_unchanged(profiles, fresh, profiles.len());
    assert(profiles.take(profiles.len() as int) =~= profiles);
    assert(profiles[0].id == first_id(profiles));
}

/// Profile identifiers that come from different random numbers are different, and none is blank.
pub proof fn law_fresh_ids_are_usable(a: u128, b: u128)
    requires
        a != b,
    ensures
        identifier_text(a) != identifier_text(b),
        !blank(identifier_text(a)),
{
    if identifier_text(a) == identifier_text(b) {
        law_identifier_text_is_unambiguous(a, b);
    }
    assert(identifier_text(a)[8] == '-');
}

/// In normal form every number is within its bounds, unless it is not a number at all.
pub proof fn law_normal_form_is_within_bounds(
    config: ConfigView,
    discovered: Seq<ProfileView>,
    fresh: Seq<Seq<char>>,
)
    ensures
        ({
            let after = normal_form(config, discovered, fresh);
            let size = after.terminal.font_size;
            let height = after.terminal.line_height;
            &&& after.schema_version == CURRENT_SCHEMA_VERSION
            &&& after.terminal.scrollback_lines <= MAX_SCROLLBACK_LINES
            &&& size.not_a_number() || EIGHT <= size.rank() <= FORTY_EIGHT
            &&& height.not_a_number() || ONE <= height.rank() <= ONE_AND_A_HALF
        }),
{
}

/// Profiles with identifiers of their own stay as they are in normal form.
pub proof fn lemma_usable_config(
    config: ConfigView,
    discovered: Seq<ProfileView>,
    fresh: Seq<Seq<char>>,
)
    requires
        config.shell_profiles.len() > 0,
        ids_usable(config.shell_profiles),
    ensures
        normal_form(config, discovered, fresh).shell_profiles == config.shell_profiles,
{
    let profiles = config.shell_profiles;
    lemma_usable_unchanged(profiles, fresh, profiles.len());
    assert(profiles.take(profiles.len() as int) =~= profiles);
}

} // verus!
