//! What becomes of each setting when settings are normalized, saved and loaded.

use vstd::prelude::*;

use crate::config::measure::Measure;
use crate::config::settings::{
    all_fresh, bounded_terminal, default_config, default_profile, good_supply, has_profile,
    ids_usable, lemma_place_of, lemma_usable_config, lemma_usable_ids, lemma_usable_len,
    normal_form, normalized, place_of, profiles_in_use, with_usable_ids, AppearanceConfig,
    ConfigView, LocalePreference, ProfileView, TerminalConfigView, ThemePreference,
};
use crate::text::blank;

verus! {

/// Whether the number lies from `low` to `high`, which are the patterns of positive numbers.
pub open spec fn lies_within(value: Measure, low: u32, high: u32) -> bool {
    low <= value.bits <= high
}

/// Whether the settings need no normalizing: everything is within bounds, every profile has an
/// identifier of its own, and the default profile is one of them.
pub open spec fn valid(config: ConfigView) -> bool {
    &&& config.schema_version == 2
    &&& lies_within(config.terminal.font_size, 0x4100_0000, 0x4240_0000)
    &&& lies_within(config.terminal.line_height, 0x3f80_0000, 0x3fc0_0000)
    &&& config.terminal.scrollback_lines <= 1_000_000
    &&& forall|i: int|
        0 <= i < config.shell_profiles.len() ==> !blank(#[trigger] config.shell_profiles[i].id)
    &&& forall|i: int, j: int|
        0 <= i < j < config.shell_profiles.len() ==> (#[trigger] config.shell_profiles[i]).id != (
        #[trigger] config.shell_profiles[j]).id
    &&& exists|i: int|
        0 <= i < config.shell_profiles.len() && (#[trigger] config.shell_profiles[i]).id
            == config.default_shell_profile
}

/// Bounding leaves the font family alone, and every number that is within its bounds. A number
/// beyond a bound becomes that bound.
pub proof fn law_bounding_changes_what_is_out_of_bounds(terminal: TerminalConfigView)
    ensures
        ({
            let after = bounded_terminal(terminal);
            let size = terminal.font_size.bits;
            let height = terminal.line_height.bits;
            &&& after.font_family == terminal.font_family
            &&& 0x4100_0000 <= size <= 0x4240_0000 ==> after.font_size == terminal.font_size
            &&& size < 0x4100_0000 ==> after.font_size.bits == 0x4100_0000
            &&& 0x4240_0000 < size <= 0x7f80_0000 ==> after.font_size.bits == 0x4240_0000
            &&& 0x8000_0000 <= size <= 0xff80_0000 ==> after.font_size.bits == 0x4100_0000
            &&& 0x3f80_0000 <= height <= 0x3fc0_0000 ==> after.line_height == terminal.line_height
            &&& height < 0x3f80_0000 ==> after.line_height.bits == 0x3f80_0000
            &&& 0x3fc0_0000 < height <= 0x7f80_0000 ==> after.line_height.bits == 0x3fc0_0000
            &&& 0x8000_0000 <= height <= 0xff80_0000 ==> after.line_height.bits == 0x3f80_0000
            &&& terminal.scrollback_lines <= 1_000_000 ==> after.scrollback_lines
                == terminal.scrollback_lines
            &&& terminal.scrollback_lines > 1_000_000 ==> after.scrollback_lines == 1_000_000
        }),
{
}

proof fn lemma_usable_keep_all_but_ids(profiles: Seq<ProfileView>, fresh: Seq<Seq<char>>, count: nat)
    requires
        count <= profiles.len(),
    ensures
        with_usable_ids(profiles, fresh, count).len() == count,
        forall|i: int|
            0 <= i < count ==> {
                let after = #[trigger] with_usable_ids(profiles, fresh, count)[i];
                after == (ProfileView { id: after.id, ..profiles[i] })
            },
    decreases count,
{
    if count > 0 {
        let last = (count - 1) as nat;
        let before = with_usable_ids(profiles, fresh, last);
        let all = with_usable_ids(profiles, fresh, count);
        lemma_usable_keep_all_but_ids(profiles, fresh, last);
        assert forall|i: int| 0 <= i < count implies {
            let after = #[trigger] all[i];
            after == (ProfileView { id: after.id, ..profiles[i] })
        } by {
            if i < last {
                assert(all[i] == before[i]);
            }
        }
    }
}

/// Normalizing keeps the theme, the language, the clipboard settings and the font family, and
/// every number that is within its bounds. It keeps the profiles in their order, with their names,
/// programs, arguments and directories, and the default profile where there is such a profile;
/// else the first one becomes the default. Only where there are no profiles the discovered ones
/// take their place.
pub proof fn law_normalizing_keeps_what_is_valid(
    config: ConfigView,
    discovered: Seq<ProfileView>,
    after: ConfigView,
)
    requires
        normalized(config, discovered, after),
    ensures
        after.schema_version == 2,
        after.appearance.theme == config.appearance.theme,
        after.appearance.locale == config.appearance.locale,
        after.clipboard == config.clipboard,
        after.terminal.font_family == config.terminal.font_family,
        lies_within(config.terminal.font_size, 0x4100_0000, 0x4240_0000) ==> after.terminal.font_size
            == config.terminal.font_size,
        lies_within(config.terminal.line_height, 0x3f80_0000, 0x3fc0_0000)
            ==> after.terminal.line_height == config.terminal.line_height,
        config.terminal.scrollback_lines <= 1_000_000 ==> after.terminal.scrollback_lines
            == config.terminal.scrollback_lines,
        ({
            let profiles = if config.shell_profiles.len() > 0 {
                config.shell_profiles
            } else {
                discovered
            };
            &&& after.shell_profiles.len() == profiles.len()
            &&& forall|i: int|
                0 <= i < profiles.len() ==> {
                    let kept = #[trigger] after.shell_profiles[i];
                    &&& kept.name == profiles[i].name
                    &&& kept.program == profiles[i].program
                    &&& kept.args == profiles[i].args
                    &&& kept.startup_directory == profiles[i].startup_directory
                }
        }),
        (exists|i: int|
            0 <= i < after.shell_profiles.len() && (#[trigger] after.shell_profiles[i]).id
                == config.default_shell_profile) ==> after.default_shell_profile
            == config.default_shell_profile,
        !(exists|i: int|
            0 <= i < after.shell_profiles.len() && (#[trigger] after.shell_profiles[i]).id
                == config.default_shell_profile) && after.shell_profiles.len() > 0
            ==> after.default_shell_profile == after.shell_profiles[0].id,
        after.shell_profiles.len() == 0 ==> after.default_shell_profile.len() == 0,
{
    let fresh = choose|fresh: Seq<Seq<char>>|
        all_fresh(fresh) && fresh.len() == profiles_in_use(config, discovered).len() && after
            == #[trigger] normal_form(config, discovered, fresh);
    let profiles = profiles_in_use(config, discovered);
    lemma_usable_keep_all_but_ids(profiles, fresh, profiles.len());
    law_bounding_changes_what_is_out_of_bounds(config.terminal);
}

/// Valid settings come back just as they were after they were saved and loaded, whatever shells
/// have turned up before and in between.
pub proof fn law_valid_settings_survive_saving_and_loading(
    config: ConfigView,
    discovered: Seq<ProfileView>,
    saved: ConfigView,
    later_discovered: Seq<ProfileView>,
    loaded: ConfigView,
)
    requires
        valid(config),
        normalized(config, discovered, saved),
        normalized(saved, later_discovered, loaded),
    ensures
        saved == config,
        loaded == config,
{
    lemma_valid_is_normal(config, discovered, saved);
    lemma_valid_is_normal(saved, later_discovered, loaded);
}

proof fn lemma_valid_is_normal(config: ConfigView, discovered: Seq<ProfileView>, after: ConfigView)
    requires
        valid(config),
        normalized(config, discovered, after),
    ensures
        after == config,
{
    let fresh = choose|fresh: Seq<Seq<char>>|
        all_fresh(fresh) && fresh.len() == profiles_in_use(config, discovered).len() && after
            == #[trigger] normal_form(config, discovered, fresh);
    assert(ids_usable(config.shell_profiles));
    lemma_usable_config(config, discovered, fresh);
    law_bounding_changes_what_is_out_of_bounds(config.terminal);
    assert(after.terminal =~= config.terminal);
    assert(has_profile(config.shell_profiles, config.default_shell_profile));
    assert(after =~= config);
}

/// A profile keeps its identifier where that is not blank and no profile before it has it. Else it
/// gets a new one. This is owed as long as the new identifiers are different from one another and
/// from those in use.
pub proof fn law_usable_ids_are_kept(profiles: Seq<ProfileView>, fresh: Seq<Seq<char>>, i: int)
    requires
        good_supply(profiles, fresh),
        0 <= i < profiles.len(),
    ensures
        ({
            let after = with_usable_ids(profiles, fresh, profiles.len())[i].id;
            if blank(profiles[i].id) || (exists|j: int|
                0 <= j < i && (#[trigger] profiles[j]).id == profiles[i].id) {
                after == fresh[i] && after != profiles[i].id
            } else {
                after == profiles[i].id
            }
        }),
{
    lemma_ids_kept(profiles, fresh, profiles.len(), i);
}

proof fn lemma_ids_kept(profiles: Seq<ProfileView>, fresh: Seq<Seq<char>>, count: nat, i: int)
    requires
        good_supply(profiles, fresh),
        0 <= i < count <= profiles.len(),
    ensures
        ({
            let after = with_usable_ids(profiles, fresh, count)[i].id;
            if blank(profiles[i].id) || (exists|j: int|
                0 <= j < i && (#[trigger] profiles[j]).id == profiles[i].id) {
                after == fresh[i] && after != profiles[i].id
            } else {
                after == profiles[i].id
            }
        }),
    decreases count,
{
    let last = (count - 1) as nat;
    lemma_usable_len(profiles, fresh, last);
    let before = with_usable_ids(profiles, fresh, last);
    if i < last {
        lemma_ids_kept(profiles, fresh, last, i);
        assert(with_usable_ids(profiles, fresh, count)[i] == before[i]);
    } else {
        let id = profiles[i].id;
        lemma_usable_ids(profiles, fresh, last);
        assert(fresh[i] != profiles[i].id);
        if has_profile(before, id) {
            let j = choose|j: int| 0 <= j < before.len() && #[trigger] before[j].id == id;
            assert(before[j].id == profiles[j].id || before[j].id == fresh[j]);
            assert(fresh[j] != profiles[i].id);
            assert(profiles[j].id == id);
        }
        if !blank(id) && (exists|j: int| 0 <= j < i && (#[trigger] profiles[j]).id == id) {
            let j = choose|j: int| 0 <= j < i && (#[trigger] profiles[j]).id == id;
            lemma_first_with_id(profiles, id, j);
            let first = choose|first: int|
                0 <= first <= j && (#[trigger] profiles[first]).id == id && (forall|k: int|
                    0 <= k < first ==> (#[trigger] profiles[k]).id != id);
            lemma_ids_kept(profiles, fresh, last, first);
            assert(before[first].id == id);
            assert(has_profile(before, id));
        }
    }
}

proof fn lemma_first_with_id(profiles: Seq<ProfileView>, id: Seq<char>, at: int)
    requires
        0 <= at < profiles.len(),
        profiles[at].id == id,
    ensures
        exists|first: int|
            0 <= first <= at && (#[trigger] profiles[first]).id == id && (forall|k: int|
                0 <= k < first ==> (#[trigger] profiles[k]).id != id),
    decreases at,
{
    if exists|k: int| 0 <= k < at && (#[trigger] profiles[k]).id == id {
        let k = choose|k: int| 0 <= k < at && (#[trigger] profiles[k]).id == id;
        lemma_first_with_id(profiles, id, k);
    }
}

/// The profile that starts is the first with the identifier that the settings name. Where no
/// profile has it the first profile starts, and none where there is none.
pub proof fn law_the_named_profile_starts(config: ConfigView, i: int)
    requires
        0 <= i < config.shell_profiles.len(),
    ensures
        default_profile(config) matches Some(profile) && {
            let profiles = config.shell_profiles;
            let named = config.default_shell_profile;
            &&& profiles.contains(profile)
            &&& profiles[i].id == named && (forall|k: int|
                0 <= k < i ==> (#[trigger] profiles[k]).id != named) ==> profile == profiles[i]
            &&& (forall|k: int| 0 <= k < profiles.len() ==> (#[trigger] profiles[k]).id != named)
                ==> profile == profiles[0]
        },
{
    lemma_place_of(config.shell_profiles, config.default_shell_profile, 0);
    lemma_place_is_first(config.shell_profiles, config.default_shell_profile, 0);
}

proof fn lemma_place_is_first(profiles: Seq<ProfileView>, id: Seq<char>, from: nat)
    ensures
        place_of(profiles, id, from) matches Some(place) ==> forall|k: int|
            from <= k < place ==> (#[trigger] profiles[k]).id != id,
    decreases profiles.len() - from,
{
    if from < profiles.len() && profiles[from as int].id != id {
        lemma_place_is_first(profiles, id, from + 1);
    }
}

/// A new installation uses the discovered profiles as they are and starts the first of them. It
/// asks before it pastes several lines, copies nothing unasked, lets nothing read the clipboard and
/// trusts no profile to write to it. Its numbers are within their bounds.
pub proof fn law_new_installation_is_careful(profiles: Seq<ProfileView>)
    ensures
        ({
            let config = default_config(profiles);
            &&& config.shell_profiles == profiles
            &&& profiles.len() > 0 ==> config.default_shell_profile == profiles[0].id
                && default_profile(config) == Some(profiles[0])
            &&& profiles.len() == 0 ==> default_profile(config) is None
            &&& config.clipboard.confirm_multiline_paste
            &&& !config.clipboard.copy_on_select
            &&& !config.clipboard.allow_osc52_read
            &&& config.clipboard.trusted_osc52_write_profiles.len() == 0
            &&& config.appearance == (AppearanceConfig {
                theme: ThemePreference::MatchaDark,
                locale: LocalePreference::System,
            })
            &&& config.terminal == bounded_terminal(config.terminal)
            &&& config.terminal.scrollback_lines == 50_000
            &&& config.schema_version == 2
        }),
{
    let config = default_config(profiles);
    lemma_place_of(profiles, config.default_shell_profile, 0);
    lemma_place_is_first(profiles, config.default_shell_profile, 0);
    law_bounding_changes_what_is_out_of_bounds(config.terminal);
    assert(config.terminal =~= bounded_terminal(config.terminal));
}

} // verus!
