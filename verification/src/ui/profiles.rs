//! Editing shell profiles.

use vstd::prelude::*;
use vstd::string::*;

use crate::config::profiles::{
    first_fault, validate_shell_profile, validation_message, LocationFacts,
};
use crate::config::settings::{
    copy_profiles, fresh_id, has_profile, lemma_place_of, new_profile_id, place_of, profile_views, texts,
    AppConfig, ClipboardConfigView, ConfigView, ProfileView, ShellProfileConfig,
};
use crate::sequences::lemma_filtered_are_contained;
use crate::terminal::types::optional_text;
use crate::text::{blank, is_blank, same_text};

verus! {

/// The arguments of a shell as one line of text, which `serde_json::to_string` writes.
pub uninterp spec fn arguments_line(arguments: Seq<Seq<char>>) -> Seq<char>;

/// The arguments that `serde_json::from_str` reads from a line of text, or what is wrong with it.
pub uninterp spec fn line_arguments(line: Seq<char>) -> Result<Seq<Seq<char>>, Seq<char>>;

/// Writes arguments as a JSON array with `serde_json::to_string`. Strings can always be written,
/// and reading the array gives them back.
#[verifier::external_body]
fn write_arguments(arguments: &Vec<String>) -> (res: Option<String>)
    ensures
        res is Some,
        res->0@ == arguments_line(texts(arguments@)),
        (line_arguments(res->0@) == Ok::<Seq<Seq<char>>, Seq<char>>(texts(arguments@))),
{
    serde_json::to_string(arguments).ok()
}

/// Reads a JSON array of strings with `serde_json::from_str`; an error is given in words.
#[verifier::external_body]
fn read_arguments(line: &str) -> (res: Result<Vec<String>, String>)
    ensures
        match res {
            Ok(arguments) => line_arguments(line@) == Ok::<Seq<Seq<char>>, Seq<char>>(
                texts(arguments@),
            ),
            Err(error) => line_arguments(line@) == Err::<Seq<Seq<char>>, Seq<char>>(error@),
        },
{
    serde_json::from_str(line).map_err(|error| error.to_string())
}

/// The profiles of the settings, and one of them as it is being edited.
#[derive(Clone, Debug, Eq, PartialEq)]
pub struct ProfileEditor {
    pub profiles: Vec<ShellProfileConfig>,
    pub selected_id: String,
    pub name: String,
    pub program: String,
    pub args_json: String,
    pub cwd: String,
    pub error: Option<String>,
}

/// The contents of a [`ProfileEditor`].
#[verifier::ext_equal]
pub struct EditorView {
    pub profiles: Seq<ProfileView>,
    pub selected_id: Seq<char>,
    pub name: Seq<char>,
    pub program: Seq<char>,
    pub args_json: Seq<char>,
    pub cwd: Seq<char>,
    pub error: Option<Seq<char>>,
}

impl View for ProfileEditor {
    type V = EditorView;

    open spec fn view(&self) -> EditorView {
        EditorView {
            profiles: profile_views(self.profiles@),
            selected_id: self.selected_id@,
            name: self.name@,
            program: self.program@,
            args_json: self.args_json@,
            cwd: self.cwd@,
            error: optional_text(self.error),
        }
    }
}

impl EditorView {
    /// The editor with one more profile, which is still to be filled in, once it was picked.
    pub open spec fn with_added(self, id: Seq<char>, name: Seq<char>) -> EditorView {
        EditorView { profiles: self.profiles.push(blank_profile(id, name)), ..self }.selecting(id)
    }

    /// The editor with a copy of the profile that is being edited, once it was picked.
    pub open spec fn with_duplicate(self, id: Seq<char>) -> EditorView {
        match place_of(self.profiles, self.selected_id, 0) {
            Some(place) => EditorView {
                profiles: self.profiles.push(copy_of(self.profiles[place as int], id)),
                ..self
            }.selecting(id),
            None => self,
        }
    }

    /// The editor with `profile` in its fields.
    pub open spec fn showing(self, profile: ProfileView) -> EditorView {
        EditorView {
            profiles: self.profiles,
            selected_id: profile.id,
            name: profile.name,
            program: profile.program,
            args_json: arguments_line(profile.args),
            cwd: match profile.startup_directory {
                Some(directory) => directory,
                None => Seq::empty(),
            },
            error: None,
        }
    }

    /// The editor once the profile with the identifier `id` was picked; nothing happens where
    /// there is none.
    pub open spec fn selecting(self, id: Seq<char>) -> EditorView {
        match place_of(self.profiles, id, 0) {
            Some(place) => self.showing(self.profiles[place as int]),
            None => self,
        }
    }

    /// The profile that the fields describe, with these arguments. A blank directory stands for
    /// none.
    pub open spec fn described(self, arguments: Seq<Seq<char>>) -> ProfileView {
        ProfileView {
            id: self.selected_id,
            name: self.name,
            program: self.program,
            args: arguments,
            startup_directory: if blank(self.cwd) {
                None
            } else {
                Some(self.cwd)
            },
        }
    }
}

fn find_profile(profiles: &Vec<ShellProfileConfig>, id: &str) -> (res: Option<usize>)
    ensures
        match res {
            Some(place) => place < profiles.len() && place_of(profile_views(profiles@), id@, 0)
                == Some(place as nat),
            None => place_of(profile_views(profiles@), id@, 0) is None,
        },
{
    let ghost views = profile_views(profiles@);
    let mut i: usize = 0;
    while i < profiles.len()
        invariant
            i <= profiles.len(),
            views == profile_views(profiles@),
            place_of(views, id@, 0) == place_of(views, id@, i as nat),
        decreases profiles.len() - i,
    {
        assert(views[i as int] == profiles@[i as int]@);
        if same_text(profiles[i].id.as_str(), id) {
            return Some(i);
        }
        i = i + 1;
    }
    None
}

impl ProfileEditor {
    /// An editor for `profiles` that shows `profile`.
    pub fn new(profiles: Vec<ShellProfileConfig>, profile: &ShellProfileConfig) -> (res: Self)
        ensures
            res@ == res@.showing(profile@),
            res@.profiles == profile_views(profiles@),
            line_arguments(res@.args_json) == Ok::<Seq<Seq<char>>, Seq<char>>(profile@.args),
    {
        let mut editor = ProfileEditor {
            profiles,
            selected_id: String::new(),
            name: String::new(),
            program: String::new(),
            args_json: String::new(),
            cwd: String::new(),
            error: None,
        };
        editor.show(profile);
        editor
    }

    /// Puts `profile` in the fields. The line of arguments reads back as its arguments.
    fn show(&mut self, profile: &ShellProfileConfig)
        ensures
            final(self)@ == old(self)@.showing(profile@),
            line_arguments(final(self)@.args_json) == Ok::<Seq<Seq<char>>, Seq<char>>(
                profile@.args,
            ),
    {
        self.selected_id = profile.id.clone();
        self.name = profile.name.clone();
        self.program = profile.program.clone();
        self.args_json = match write_arguments(&profile.args) {
            Some(line) => line,
            None => "[]".to_owned(),
        };
        self.cwd = match &profile.startup_directory {
            Some(directory) => directory.clone(),
            None => String::new(),
        };
        self.error = None;
        assert(self@ =~= old(self)@.showing(profile@));
    }

    /// The profile that is being edited, as it was before.
    pub fn selected_profile(&self) -> (res: Option<ShellProfileConfig>)
        ensures
            match (place_of(self@.profiles, self@.selected_id, 0), res) {
                (Some(place), Some(profile)) => profile@ == self@.profiles[place as int],
                (None, None) => true,
                _ => false,
            },
    {
        match find_profile(&self.profiles, self.selected_id.as_str()) {
            Some(place) => {
                assert(self@.profiles[place as int] == self.profiles@[place as int]@);
                Some(self.profiles[place].copied())
            },
            None => None,
        }
    }

    /// Picks the profile with the identifier `id`; nothing happens where there is none. The line
    /// of arguments then reads back as the arguments of the profile.
    pub fn select_profile(&mut self, id: &str)
        ensures
            final(self)@ == old(self)@.selecting(id@),
            place_of(old(self)@.profiles, id@, 0) matches Some(place) ==> line_arguments(
                final(self)@.args_json,
            ) == Ok::<Seq<Seq<char>>, Seq<char>>(old(self)@.profiles[place as int].args),
    {
        if let Some(place) = find_profile(&self.profiles, id) {
            assert(self@.profiles[place as int] == self.profiles@[place as int]@);
            let profile = self.profiles[place].copied();
            self.show(&profile);
        }
    }

    /// The profile that the fields describe, once their line of arguments was read.
    pub fn describe(&self, arguments: Vec<String>) -> (res: ShellProfileConfig)
        ensures
            res@ == self@.described(texts(arguments@)),
    {
        ShellProfileConfig {
            id: self.selected_id.clone(),
            name: self.name.clone(),
            program: self.program.clone(),
            args: arguments,
            startup_directory: if is_blank(self.cwd.as_str()) {
                None
            } else {
                Some(self.cwd.clone())
            },
        }
    }

    /// The profile that the fields describe. A line of arguments that cannot be read is an error,
    /// which the editor then shows.
    pub fn draft(&mut self) -> (res: Option<ShellProfileConfig>)
        ensures
            match line_arguments(old(self)@.args_json) {
                Ok(arguments) => final(self)@ == old(self)@ && (res matches Some(profile)
                    && profile@ == old(self)@.described(arguments)),
                Err(error) => res is None && final(self)@ == (EditorView {
                    error: Some("Invalid arguments JSON: "@ + error),
                    ..old(self)@
                }),
            },
    {
        match read_arguments(self.args_json.as_str()) {
            Ok(arguments) => Some(self.describe(arguments)),
            Err(error) => {
                self.error = Some("Invalid arguments JSON: ".to_owned().concat(error.as_str()));
                None
            },
        }
    }
}

/// The profiles with the first one that has the identifier of `profile` replaced by it.
pub open spec fn with_replaced(profiles: Seq<ProfileView>, profile: ProfileView) -> Seq<ProfileView> {
    match place_of(profiles, profile.id, 0) {
        Some(place) => profiles.update(place as int, profile),
        None => profiles,
    }
}

/// The profiles without those that have the identifier `id`.
pub open spec fn without_id(profiles: Seq<ProfileView>, id: Seq<char>) -> Seq<ProfileView> {
    profiles.filter(|profile: ProfileView| profile.id != id)
}

/// The texts without those that are equal to `text`.
pub open spec fn without_text(all: Seq<Seq<char>>, text: Seq<char>) -> Seq<Seq<char>> {
    all.filter(|other: Seq<char>| other != text)
}

/// The settings once the profile with the identifier `id` is gone and `profiles` are left. Where
/// it was the default the first of those left takes its place, and it is no longer trusted.
pub open spec fn config_without(
    config: ConfigView,
    profiles: Seq<ProfileView>,
    id: Seq<char>,
) -> ConfigView {
    ConfigView {
        shell_profiles: profiles,
        default_shell_profile: if config.default_shell_profile == id {
            profiles[0].id
        } else {
            config.default_shell_profile
        },
        clipboard: ClipboardConfigView {
            trusted_osc52_write_profiles: without_text(
                config.clipboard.trusted_osc52_write_profiles,
                id,
            ),
            ..config.clipboard
        },
        ..config
    }
}

fn drop_id(profiles: Vec<ShellProfileConfig>, id: &str) -> (res: Vec<ShellProfileConfig>)
    ensures
        profile_views(res@) == without_id(profile_views(profiles@), id@),
{
    let ghost views = profile_views(profiles@);
    let mut kept: Vec<ShellProfileConfig> = Vec::new();
    proof {
        reveal(Seq::filter);
        assert(profile_views(kept@) =~= without_id(views.take(0), id@));
    }
    for profile in it: profiles
        invariant
            it.seq() == profiles@,
            views == profile_views(profiles@),
            profile_views(kept@) == without_id(views.take(it.index() as int), id@),
    {
        let ghost index = it.index() as int;
        proof {
            reveal(Seq::filter);
            assert(views[index] == profile@);
            assert(views.take(index + 1).drop_last() =~= views.take(index));
        }
        if !same_text(profile.id.as_str(), id) {
            assert(profile_views(kept@.push(profile)) =~= profile_views(kept@).push(profile@));
            kept.push(profile);
        }
    }
    assert(views.take(views.len() as int) =~= views);
    kept
}

fn drop_text(all: &Vec<String>, text: &str) -> (res: Vec<String>)
    ensures
        texts(res@) == without_text(texts(all@), text@),
{
    let ghost views = texts(all@);
    let mut kept: Vec<String> = Vec::new();
    let mut i: usize = 0;
    proof {
        reveal(Seq::filter);
        assert(texts(kept@) =~= without_text(views.take(0), text@));
    }
    while i < all.len()
        invariant
            i <= all.len(),
            views == texts(all@),
            texts(kept@) == without_text(views.take(i as int), text@),
        decreases all.len() - i,
    {
        proof {
            reveal(Seq::filter);
            assert(views[i as int] == all@[i as int]@);
            assert(views.take(i + 1).drop_last() =~= views.take(i as int));
        }
        if !same_text(all[i].as_str(), text) {
            let other = all[i].clone();
            assert(texts(kept@.push(other)) =~= texts(kept@).push(other@));
            kept.push(other);
        }
        i = i + 1;
    }
    assert(views.take(i as int) =~= views);
    kept
}

impl ProfileEditor {
    /// Takes over an edited profile, in the editor and in the settings; tells whether it did. A
    /// profile that is not valid is turned down, and the editor shows why.
    pub fn save_profile(
        &mut self,
        profile: ShellProfileConfig,
        facts: LocationFacts,
        config: &mut AppConfig,
    ) -> (res: bool)
        ensures
            match first_fault(profile@, facts) {
                Some(fault) => !res && final(config)@ == old(config)@ && final(self)@ == (
                EditorView { error: Some(validation_message(fault)), ..old(self)@ }),
                None => res && final(self)@ == (EditorView {
                    profiles: with_replaced(old(self)@.profiles, profile@),
                    error: None,
                    ..old(self)@
                }) && final(config)@ == (ConfigView {
                    shell_profiles: with_replaced(old(self)@.profiles, profile@),
                    ..old(config)@
                }),
            },
    {
        if let Err(fault) = validate_shell_profile(&profile, facts) {
            self.error = Some(fault.message());
            return false;
        }
        let ghost before = self@.profiles;
        let ghost saved = profile@;
        if let Some(place) = find_profile(&self.profiles, profile.id.as_str()) {
            self.profiles.set(place, profile);
            assert(profile_views(self.profiles@) =~= before.update(place as int, saved));
        }
        config.shell_profiles = copy_profiles(&self.profiles);
        self.error = None;
        true
    }

    /// Deletes the profile that is being edited, in the editor and in the settings, and shows the
    /// first one that is left; tells whether it did. The last profile cannot be deleted.
    pub fn delete_profile(&mut self, config: &mut AppConfig) -> (res: bool)
        requires
            old(self).profiles.len() > 1 ==> without_id(
                old(self)@.profiles,
                old(self)@.selected_id,
            ).len() > 0,
        ensures
            if old(self)@.profiles.len() <= 1 {
                &&& !res
                &&& final(config)@ == old(config)@
                &&& final(self)@ == (EditorView {
                    error: Some("At least one profile is required"@),
                    ..old(self)@
                })
            } else {
                let left = without_id(old(self)@.profiles, old(self)@.selected_id);
                &&& res
                &&& final(config)@ == config_without(
                    old(config)@,
                    left,
                    old(self)@.selected_id,
                )
                &&& final(self)@ == (EditorView { profiles: left, ..old(self)@ }).showing(left[0])
            },
    {
        if self.profiles.len() <= 1 {
            self.error = Some("At least one profile is required".to_owned());
            return false;
        }
        let selected = self.selected_id.clone();
        let all = copy_profiles(&self.profiles);
        self.profiles = drop_id(all, selected.as_str());
        let ghost left = self@.profiles;
        let next = self.profiles[0].copied();
        assert(left[0] == next@);
        config.shell_profiles = copy_profiles(&self.profiles);
        if same_text(config.default_shell_profile.as_str(), selected.as_str()) {
            config.default_shell_profile = next.id.clone();
        }
        config.clipboard.trusted_osc52_write_profiles = drop_text(
            &config.clipboard.trusted_osc52_write_profiles,
            selected.as_str(),
        );
        self.show(&next);
        true
    }

    /// Adds a profile with the identifier `id` that is still to be filled in, and picks it.
    pub fn add_profile_with(&mut self, id: String, name: String)
        ensures
            final(self)@ == old(self)@.with_added(id@, name@),
    {
        let profile = ShellProfileConfig {
            id: id.clone(),
            name,
            program: String::new(),
            args: Vec::new(),
            startup_directory: None,
        };
        let ghost before = self.profiles@;
        assert(profile@ =~= blank_profile(id@, name@));
        self.profiles.push(profile);
        assert(profile_views(self.profiles@) =~= profile_views(before).push(profile@));
        self.select_profile(id.as_str());
    }

    /// Adds a profile that is still to be filled in, under a new identifier, and picks it.
    pub fn add_profile(&mut self, name: String)
        ensures
            exists|id: Seq<char>|
                fresh_id(id) && final(self)@ == #[trigger] old(self)@.with_added(id, name@),
    {
        let id = new_profile_id();
        self.add_profile_with(id, name);
    }

    /// Adds a copy of the profile that is being edited under the identifier `id`, and picks it.
    /// Nothing happens where the editor does not list the profile.
    pub fn duplicate_profile_with(&mut self, id: String)
        ensures
            final(self)@ == old(self)@.with_duplicate(id@),
    {
        if let Some(mut profile) = self.selected_profile() {
            let ghost before = self.profiles@;
            let ghost original = profile@;
            profile.id = id.clone();
            profile.name.append(" Copy");
            assert(profile@ =~= copy_of(original, id@));
            self.profiles.push(profile);
            assert(profile_views(self.profiles@) =~= profile_views(before).push(profile@));
            self.select_profile(id.as_str());
        }
    }

    /// Adds a copy of the profile that is being edited under a new identifier, and picks it.
    pub fn duplicate_profile(&mut self)
        ensures
            exists|id: Seq<char>|
                fresh_id(id) && final(self)@ == #[trigger] old(self)@.with_duplicate(id),
    {
        let id = new_profile_id();
        self.duplicate_profile_with(id);
    }

    /// Makes the profile that is being edited the default; tells whether it did. A profile that
    /// the editor does not list cannot be the default.
    pub fn set_default(&self, config: &mut AppConfig) -> (res: bool)
        ensures
            res == (place_of(self@.profiles, self@.selected_id, 0) is Some),
            final(config)@ == if res {
                ConfigView { default_shell_profile: self@.selected_id, ..old(config)@ }
            } else {
                old(config)@
            },
    {
        match find_profile(&self.profiles, self.selected_id.as_str()) {
            Some(_) => {
                config.default_shell_profile = self.selected_id.clone();
                true
            },
            None => false,
        }
    }
}

/// A profile that is still to be filled in.
pub open spec fn blank_profile(id: Seq<char>, name: Seq<char>) -> ProfileView {
    ProfileView {
        id,
        name,
        program: Seq::empty(),
        args: Seq::empty(),
        startup_directory: None,
    }
}

/// A copy of a profile under another identifier; its name says that it is one.
pub open spec fn copy_of(profile: ProfileView, id: Seq<char>) -> ProfileView {
    ProfileView { id, name: profile.name + " Copy"@, ..profile }
}

proof fn lemma_place_of_added(profiles: Seq<ProfileView>, added: ProfileView, from: nat)
    requires
        !has_profile(profiles, added.id),
        from <= profiles.len(),
    ensures
        place_of(profiles.push(added), added.id, from) == Some(profiles.len()),
    decreases profiles.len() - from,
{
    if from < profiles.len() {
        assert(profiles[from as int].id != added.id);
        assert(profiles.push(added)[from as int] == profiles[from as int]);
        lemma_place_of_added(profiles, added, from + 1);
    }
}

/// A profile that is added, or duplicated, under an identifier that no other profile has is the
/// one that is shown, and the other profiles stay as they are. A duplicate differs from the
/// original in its identifier and its name only.
pub proof fn law_new_profile_is_shown(editor: EditorView, id: Seq<char>, name: Seq<char>)
    requires
        !has_profile(editor.profiles, id),
    ensures
        ({
            let after = editor.with_added(id, name);
            &&& after == after.showing(blank_profile(id, name))
            &&& after.profiles == editor.profiles.push(blank_profile(id, name))
        }),
        place_of(editor.profiles, editor.selected_id, 0) matches Some(place) ==> ({
            let original = editor.profiles[place as int];
            let after = editor.with_duplicate(id);
            &&& after == after.showing(copy_of(original, id))
            &&& after.profiles == editor.profiles.push(copy_of(original, id))
        }),
{
    lemma_place_of_added(editor.profiles, blank_profile(id, name), 0);
    if let Some(place) = place_of(editor.profiles, editor.selected_id, 0) {
        lemma_place_of_added(editor.profiles, copy_of(editor.profiles[place as int], id), 0);
    }
}

/// Once a profile is deleted nothing refers to it: it is not listed, it is not the default, and it
/// is not trusted.
pub proof fn law_deleted_profile_is_forgotten(
    config: ConfigView,
    profiles: Seq<ProfileView>,
    id: Seq<char>,
)
    requires
        without_id(profiles, id).len() > 0,
    ensures
        ({
            let after = config_without(config, without_id(profiles, id), id);
            &&& !has_profile(after.shell_profiles, id)
            &&& after.default_shell_profile != id
            &&& !after.clipboard.trusted_osc52_write_profiles.contains(id)
        }),
{
    broadcast use vstd::seq_lib::group_filter_ensures;

    let after = config_without(config, without_id(profiles, id), id);
    let keep = |profile: ProfileView| profile.id != id;
    assert forall|i: int| 0 <= i < after.shell_profiles.len() implies #[trigger]
        after.shell_profiles[i].id != id by {
        assert(keep(profiles.filter(keep)[i]));
    }
    let other = |text: Seq<char>| text != id;
    let trusted = config.clipboard.trusted_osc52_write_profiles;
    if after.clipboard.trusted_osc52_write_profiles.contains(id) {
        let i = choose|i: int|
            0 <= i < trusted.filter(other).len() && trusted.filter(other)[i] == id;
        assert(other(trusted.filter(other)[i]));
    }
}

/// Saving a profile changes that profile alone, and no identifier.
pub proof fn law_saving_changes_one_profile(
    profiles: Seq<ProfileView>,
    profile: ProfileView,
    i: int,
)
    requires
        0 <= i < profiles.len(),
    ensures
        with_replaced(profiles, profile).len() == profiles.len(),
        with_replaced(profiles, profile)[i].id == profiles[i].id,
        profiles[i].id != profile.id ==> with_replaced(profiles, profile)[i] == profiles[i],
{
    lemma_place_of(profiles, profile.id, 0);
}

/// What the fields show of a profile describes that very profile. A directory that is blank is the
/// one thing that they cannot show.
pub proof fn law_fields_describe_what_they_show(editor: EditorView, profile: ProfileView)
    requires
        profile.startup_directory matches Some(directory) ==> !blank(directory),
    ensures
        editor.showing(profile).described(profile.args) == profile,
        editor.showing(profile).profiles == editor.profiles,
        editor.showing(profile).error is None,
{
    assert(editor.showing(profile).described(profile.args) =~= profile);
}

/// Picking a profile that is listed shows it, by its own identifier, name and program, and changes
/// none. Picking one that is not changes nothing.
pub proof fn law_picking_shows_the_profile(editor: EditorView, id: Seq<char>)
    ensures
        editor.selecting(id).profiles == editor.profiles,
        (exists|i: int| 0 <= i < editor.profiles.len() && (#[trigger] editor.profiles[i]).id == id)
            ==> editor.selecting(id).selected_id == id && exists|i: int|
            0 <= i < editor.profiles.len() && (#[trigger] editor.profiles[i]).id == id
                && editor.selecting(id).name == editor.profiles[i].name && editor.selecting(
                id,
            ).program == editor.profiles[i].program && editor.selecting(id).args_json
                == arguments_line(editor.profiles[i].args),
        !(exists|i: int| 0 <= i < editor.profiles.len() && (#[trigger] editor.profiles[i]).id == id)
            ==> editor.selecting(id) == editor,
{
    lemma_place_of(editor.profiles, id, 0);
}

/// A profile that is added goes behind the others and is empty but for its name; it is the one that
/// is edited next.
pub proof fn law_added_profile_is_empty(editor: EditorView, id: Seq<char>, name: Seq<char>)
    requires
        !has_profile(editor.profiles, id),
    ensures
        ({
            let after = editor.with_added(id, name);
            let added = after.profiles.last();
            &&& after.profiles.drop_last() == editor.profiles
            &&& added.id == id
            &&& added.name == name
            &&& added.program.len() == 0
            &&& added.args.len() == 0
            &&& added.startup_directory is None
            &&& after.selected_id == id
            &&& after.name == name
            &&& after.program.len() == 0
            &&& after.cwd.len() == 0
        }),
{
    law_new_profile_is_shown(editor, id, name);
    let after = editor.with_added(id, name);
    assert(after.profiles.drop_last() =~= editor.profiles);
}

/// A duplicate starts the same program with the same arguments in the same directory. Its name
/// begins with the name of the original and is longer. Where no listed profile is edited nothing is
/// duplicated.
pub proof fn law_duplicate_starts_the_same(editor: EditorView, id: Seq<char>, place: int)
    requires
        !has_profile(editor.profiles, id),
        0 <= place < editor.profiles.len(),
        editor.profiles[place].id == editor.selected_id,
        forall|i: int|
            0 <= i < place ==> (#[trigger] editor.profiles[i]).id != editor.selected_id,
    ensures
        ({
            let original = editor.profiles[place];
            let after = editor.with_duplicate(id);
            let copy = after.profiles.last();
            &&& after.profiles.drop_last() == editor.profiles
            &&& copy.id == id
            &&& copy.program == original.program
            &&& copy.args == original.args
            &&& copy.startup_directory == original.startup_directory
            &&& copy.name.len() > original.name.len()
            &&& copy.name.take(original.name.len() as int) == original.name
            &&& after.selected_id == id
        }),
{
    lemma_place_of(editor.profiles, editor.selected_id, 0);
    lemma_place_at(editor.profiles, editor.selected_id, 0, place);
    let original = editor.profiles[place];
    law_new_profile_is_shown(editor, id, Seq::empty());
    let after = editor.with_duplicate(id);
    reveal_strlit(" Copy");
    assert(after.profiles.drop_last() =~= editor.profiles);
    assert(after.profiles.last().name.take(original.name.len() as int) =~= original.name);
}

proof fn lemma_place_at(profiles: Seq<ProfileView>, id: Seq<char>, from: nat, place: int)
    requires
        from <= place < profiles.len(),
        profiles[place].id == id,
        forall|i: int| from <= i < place ==> (#[trigger] profiles[i]).id != id,
    ensures
        place_of(profiles, id, from) == Some(place as nat),
    decreases place - from,
{
    if from < place {
        lemma_place_at(profiles, id, from + 1, place);
    }
}

/// A profile that is saved takes the place of the first one with its identifier. Where none has it
/// nothing changes.
pub proof fn law_saved_profile_takes_its_place(
    profiles: Seq<ProfileView>,
    profile: ProfileView,
    place: int,
)
    ensures
        0 <= place < profiles.len() && profiles[place].id == profile.id && (forall|i: int|
            0 <= i < place ==> (#[trigger] profiles[i]).id != profile.id) ==> with_replaced(
            profiles,
            profile,
        )[place] == profile,
        (forall|i: int| 0 <= i < profiles.len() ==> (#[trigger] profiles[i]).id != profile.id)
            ==> with_replaced(profiles, profile) == profiles,
{
    lemma_place_of(profiles, profile.id, 0);
    if 0 <= place < profiles.len() && profiles[place].id == profile.id && (forall|i: int|
        0 <= i < place ==> (#[trigger] profiles[i]).id != profile.id) {
        lemma_place_at(profiles, profile.id, 0, place);
    }
}

/// Deleting a profile deletes no other, takes no other's trust, and leaves every other setting as it
/// is. Another default profile stays the default.
pub proof fn law_deleting_concerns_one_profile(
    config: ConfigView,
    profiles: Seq<ProfileView>,
    id: Seq<char>,
    other: ProfileView,
)
    requires
        without_id(profiles, id).len() > 0,
    ensures
        ({
            let after = config_without(config, without_id(profiles, id), id);
            &&& other.id != id ==> (after.shell_profiles.contains(other) <==> profiles.contains(
                other,
            ))
            &&& other.id != id ==> (after.clipboard.trusted_osc52_write_profiles.contains(other.id)
                <==> config.clipboard.trusted_osc52_write_profiles.contains(other.id))
            &&& config.default_shell_profile != id ==> after.default_shell_profile
                == config.default_shell_profile
            &&& config.default_shell_profile == id ==> after.default_shell_profile
                == after.shell_profiles[0].id
            &&& after.appearance == config.appearance
            &&& after.terminal == config.terminal
            &&& after.schema_version == config.schema_version
            &&& after.clipboard.copy_on_select == config.clipboard.copy_on_select
            &&& after.clipboard.confirm_multiline_paste == config.clipboard.confirm_multiline_paste
            &&& after.clipboard.allow_osc52_read == config.clipboard.allow_osc52_read
        }),
{
    let keep = |profile: ProfileView| profile.id != id;
    let trusted = config.clipboard.trusted_osc52_write_profiles;
    assert(without_id(profiles, id) == profiles.filter(keep));
    lemma_filtered_are_contained(profiles, keep);
    lemma_texts_left(trusted, id, other.id);
    if other.id != id {
        if profiles.contains(other) {
            let i = choose|i: int| 0 <= i < profiles.len() && profiles[i] == other;
            profiles.lemma_filter_contains(keep, i);
        }
    }
}

proof fn lemma_texts_left(all: Seq<Seq<char>>, text: Seq<char>, a: Seq<char>)
    ensures
        without_text(all, text).contains(a) <==> all.contains(a) && a != text,
    decreases all.len(),
{
    reveal(Seq::filter);
    if all.len() > 0 {
        let shorter = all.drop_last();
        let before = without_text(shorter, text);
        let after = without_text(all, text);
        lemma_texts_left(shorter, text, a);
        assert(after == if all.last() != text {
            before.push(all.last())
        } else {
            before
        });
        if before.contains(a) {
            let i = choose|i: int| 0 <= i < before.len() && before[i] == a;
            assert(after[i] == a);
        }
        if shorter.contains(a) {
            let i = choose|i: int| 0 <= i < shorter.len() && shorter[i] == a;
            assert(all[i] == a);
        }
        if all.contains(a) && !shorter.contains(a) {
            let i = choose|i: int| 0 <= i < all.len() && all[i] == a;
            assert(i == all.len() - 1) by {
                if i < shorter.len() {
                    assert(shorter[i] == a);
                }
            }
            if a != text {
                assert(after[before.len() as int] == a);
            }
        }
        if after.contains(a) && !before.contains(a) {
            let i = choose|i: int| 0 <= i < after.len() && after[i] == a;
            assert(i == before.len()) by {
                if i < before.len() {
                    assert(before[i] == a);
                }
            }
            assert(all[all.len() - 1] == a);
        }
    }
}

} // verus!
