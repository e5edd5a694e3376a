//! Loading and saving: what is made of a configuration file.

use vstd::prelude::*;
use vstd::string::*;

use crate::config::settings::{
    all_fresh, default_config, ids_usable, law_normal_form_has_a_default, lemma_usable_config,
    normal_form, normalized, profile_views, profiles_in_use, AppConfig, ConfigView, ProfileView,
    ShellProfileConfig,
};
use crate::text::{decimal, law_decimal_reads_back, lemma_decimal_is_digits, push_decimal};

verus! {

/// What is wrong where settings cannot be loaded or saved, with the cause in words.
#[derive(Clone, Debug, Eq, PartialEq)]
pub enum ConfigError {
    NoConfigDirectory,
    CreateDirectory(String),
    Serialize(String),
    Write(String),
}

/// What the error tells the user.
pub open spec fn config_message(error: ConfigError) -> Seq<char> {
    match error {
        ConfigError::NoConfigDirectory => "no platform configuration directory is available"@,
        ConfigError::CreateDirectory(cause) => "failed to create configuration directory: "@
            + cause@,
        ConfigError::Serialize(cause) => "failed to serialize configuration: "@ + cause@,
        ConfigError::Write(cause) => "failed to atomically write configuration: "@ + cause@,
    }
}

impl ConfigError {
    /// What the error tells the user.
    #[must_use]
    pub fn message(&self) -> (res: String)
        ensures
            res@ == config_message(*self),
    {
        match self {
            ConfigError::NoConfigDirectory =>
                "no platform configuration directory is available".to_owned(),
            ConfigError::CreateDirectory(cause) =>
                "failed to create configuration directory: ".to_owned().concat(cause.as_str()),
            ConfigError::Serialize(cause) =>
                "failed to serialize configuration: ".to_owned().concat(cause.as_str()),
            ConfigError::Write(cause) =>
                "failed to atomically write configuration: ".to_owned().concat(cause.as_str()),
        }
    }
}

/// Settings that are ready to use, and what the user has to be told about how they came about.
#[derive(Clone, Debug, Eq, PartialEq)]
pub struct ConfigLoad {
    pub config: AppConfig,
    pub warning: Option<String>,
    pub path: String,
}

/// What is to be done after a configuration file was read.
#[derive(Clone, Debug, Eq, PartialEq)]
pub enum LoadStep {
    /// Use the settings that it holds.
    Use(AppConfig),
    /// Move it out of the way and start over; the text says what is wrong with it.
    BackUp(String),
    /// Start over: there is no file.
    StartOver,
}

/// Whether `step` is what is to be done after an attempt to read and parse a configuration file.
pub open spec fn reading_leads_to(
    parsed: Result<AppConfig, String>,
    exists: bool,
    step: LoadStep,
) -> bool {
    match (parsed, step) {
        (Ok(config), LoadStep::Use(used)) => used == config,
        (Err(error), LoadStep::BackUp(reason)) => exists && reason == error,
        (Err(_), LoadStep::StartOver) => !exists,
        _ => false,
    }
}

/// Decides what is to be done after an attempt to read and parse a configuration file.
#[must_use]
pub fn after_reading(parsed: Result<AppConfig, String>, exists: bool) -> (res: LoadStep)
    ensures
        reading_leads_to(parsed, exists, res),
{
    match parsed {
        Ok(config) => LoadStep::Use(config),
        Err(error) => if exists {
            LoadStep::BackUp(error)
        } else {
            LoadStep::StartOver
        },
    }
}

/// What became of a configuration file that could not be used: where it was moved to, or why it
/// could not be moved.
pub open spec fn backup_note(backup: Result<String, String>) -> Seq<char> {
    match backup {
        Ok(place) => "; invalid file moved to "@ + place@,
        Err(error) => "; backup failed: "@ + error@,
    }
}

/// What the user is told after a configuration file could not be used.
pub open spec fn reset_warning(error: Seq<char>, backup: Result<String, String>) -> Seq<char> {
    "configuration was reset: "@ + error + backup_note(backup)
}

/// The settings of a file, in normal form.
#[must_use]
pub fn loaded(path: String, config: AppConfig, discovered: Vec<ShellProfileConfig>) -> (res:
    ConfigLoad)
    ensures
        res.path == path,
        res.warning is None,
        normalized(config@, profile_views(discovered@), res.config@),
{
    let mut config = config;
    config.normalize(discovered);
    ConfigLoad { config, warning: None, path }
}

/// Default settings after a file could not be used. The user is told why, and what became of it.
#[must_use]
pub fn recovered(
    path: String,
    error: String,
    backup: Result<String, String>,
    discovered: Vec<ShellProfileConfig>,
) -> (res: ConfigLoad)
    ensures
        res.path == path,
        res.warning matches Some(warning) && warning@ == reset_warning(error@, backup),
        res.config@ == default_config(profile_views(discovered@)),
{
    let mut warning = "configuration was reset: ".to_owned();
    warning.append(error.as_str());
    let note = match &backup {
        Ok(place) => "; invalid file moved to ".to_owned().concat(place.as_str()),
        Err(error) => "; backup failed: ".to_owned().concat(error.as_str()),
    };
    warning.append(note.as_str());
    ConfigLoad { config: AppConfig::with_profiles(discovered), warning: Some(warning), path }
}

/// Default settings where there was no file.
#[must_use]
pub fn started_over(path: String, discovered: Vec<ShellProfileConfig>) -> (res: ConfigLoad)
    ensures
        res.path == path,
        res.warning is None,
        res.config@ == default_config(profile_views(discovered@)),
{
    ConfigLoad { config: AppConfig::with_profiles(discovered), warning: None, path }
}

/// Whether some platform ends a directory or a drive in this character.
pub open spec fn ends_place(c: char) -> bool {
    c == '/' || c == '\\' || c == ':'
}

/// Whether the path begins with two separators. Some platforms read a server or a device there.
pub open spec fn names_host(path: Seq<char>) -> bool {
    &&& path.len() >= 2
    &&& path[0] == '/' || path[0] == '\\'
    &&& path[1] == '/' || path[1] == '\\'
}

/// Whether a name is left before the extension: not nothing, and not a single dot.
pub open spec fn ends_in_name(stem: Seq<char>) -> bool {
    &&& stem.len() > 0
    &&& !ends_place(stem.last())
    &&& stem.last() == '.' ==> stem.len() >= 2 && !ends_place(stem[stem.len() - 2])
}

/// Whether the file has an extension, and `stem` is the path before the dot of that extension.
pub open spec fn before_extension(path: Seq<char>, stem: Seq<char>) -> bool {
    &&& ends_in_name(stem)
    &&& stem.len() < path.len()
    &&& stem == path.take(stem.len() as int)
    &&& path[stem.len() as int] == '.'
    &&& forall|i: int|
        stem.len() < i < path.len() ==> #[trigger] path[i] != '.' && !ends_place(path[i])
}

/// Whether the file's name begins at `start` and holds no dot.
pub open spec fn dotless_from(path: Seq<char>, start: int) -> bool {
    &&& 0 <= start < path.len()
    &&& start == 0 || path[start - 1] == '/'
    &&& !ends_place(path.last())
    &&& forall|i: int| start <= i < path.len() ==> #[trigger] path[i] != '.' && path[i] != '/'
}

/// Whether the file's name begins at `start` with its one dot, and goes on after it.
pub open spec fn hidden_from(path: Seq<char>, start: int) -> bool {
    &&& 0 <= start < path.len() - 1
    &&& start == 0 || path[start - 1] == '/'
    &&& path[start] == '.'
    &&& forall|i: int|
        start < i < path.len() ==> #[trigger] path[i] != '.' && !ends_place(path[i])
}

/// Whether `stem` is the path of a file without the file's extension: what stands before the
/// extension, or the whole path where there is none. A name whose one dot stands at its front has
/// no extension.
pub open spec fn path_stem(path: Seq<char>, stem: Seq<char>) -> bool {
    &&& !names_host(path)
    &&& {
        ||| before_extension(path, stem)
        ||| stem == path && exists|start: int|
            #![trigger dotless_from(path, start)]
            #![trigger hidden_from(path, start)]
            dotless_from(path, start) || hidden_from(path, start)
    }
}

/// The path with another extension, from `std::path::Path::with_extension`: the extension of the
/// file is replaced, and a file without one gets it. The extension is not empty and holds no
/// separator of paths. Nothing is said of a path that ends in no file's name, nor of one whose
/// file's name is not the same on every platform.
#[verifier::external_body]
fn with_extension(path: &str, extension: &str) -> (res: String)
    requires
        extension@.len() > 0,
        !extension@.contains('/'),
        !extension@.contains('\\'),
    ensures
        forall|stem: Seq<char>| #[trigger]
            path_stem(path@, stem) ==> res@ == stem.push('.') + extension@,
{
    std::path::Path::new(path).with_extension(extension).display().to_string()
}

/// A path has at most one stem, so a file is moved to one place only.
pub proof fn law_a_path_has_one_stem(path: Seq<char>, stem: Seq<char>, other: Seq<char>)
    requires
        path_stem(path, stem),
        path_stem(path, other),
    ensures
        stem == other,
{
    assert forall|short: Seq<char>| #[trigger] before_extension(path, short) implies !exists|
        start: int,
    | dotless_from(path, start) || hidden_from(path, start) by {
        assert forall|start: int| !(#[trigger] dotless_from(path, start)) && !(
        #[trigger] hidden_from(path, start)) by {
            let dot = short.len() as int;
            assert(path[dot] == '.');
            assert(path[dot - 1] == short.last());
            if 0 < start < path.len() && path[start - 1] == '/' {
                assert(start - 1 < dot);
            }
        }
    }
    if before_extension(path, stem) && before_extension(path, other) {
        assert(path[stem.len() as int] == '.');
        assert(path[other.len() as int] == '.');
    }
}

/// The extension of a configuration file that was moved out of the way `timestamp` seconds into
/// the epoch.
pub open spec fn backup_extension(timestamp: nat) -> Seq<char> {
    "invalid-"@ + decimal(timestamp) + ".toml"@
}

/// Where a configuration file that cannot be used is moved to `timestamp` seconds into the epoch:
/// beside where it was, with another extension.
#[must_use]
pub fn invalid_backup_path(path: &str, timestamp: u64) -> (res: String)
    ensures
        forall|stem: Seq<char>| #[trigger]
            path_stem(path@, stem) ==> res@ == stem.push('.') + backup_extension(
                timestamp as nat,
            ),
{
    let mut extension = "invalid-".to_owned();
    push_decimal(&mut extension, timestamp);
    extension.append(".toml");
    proof {
        reveal_strlit("invalid-");
        reveal_strlit(".toml");
        lemma_decimal_is_digits(timestamp as nat);
        assert forall|i: int| 0 <= i < extension@.len() implies #[trigger] extension@[i] != '/'
            && extension@[i] != '\\' by {
            let digits = decimal(timestamp as nat);
            if 8 <= i < 8 + digits.len() {
                assert(extension@[i] == digits[i - 8]);
            }
        }
    }
    with_extension(path, extension.as_str())
}

/// Default settings where none could be loaded at all. The user is told why.
#[must_use]
pub fn failed_load(error: &ConfigError, path: String, discovered: Vec<ShellProfileConfig>) -> (res:
    ConfigLoad)
    ensures
        res.path == path,
        res.warning matches Some(warning) && warning@ == config_message(*error),
        res.config@ == default_config(profile_views(discovered@)),
{
    ConfigLoad {
        config: AppConfig::with_profiles(discovered),
        warning: Some(error.message()),
        path,
    }
}

/// The settings as they are saved: in normal form.
#[must_use]
pub fn to_be_saved(config: &AppConfig, discovered: Vec<ShellProfileConfig>) -> (res: AppConfig)
    ensures
        normalized(config@, profile_views(discovered@), res@),
{
    let mut normal = config.copied();
    normal.normalize(discovered);
    normal
}

/// Saving and loading gives back the settings in normal form: where `saved` is what was saved of
/// `config`, loading what was saved gives just that, whatever shells have turned up in between. The
/// profiles come back as they were.
pub proof fn law_loading_gives_back_what_was_saved(
    config: ConfigView,
    discovered: Seq<ProfileView>,
    saved: ConfigView,
    later_discovered: Seq<ProfileView>,
    loaded: ConfigView,
)
    requires
        config.shell_profiles.len() > 0,
        ids_usable(config.shell_profiles),
        normalized(config, discovered, saved),
        normalized(saved, later_discovered, loaded),
    ensures
        loaded == saved,
        loaded == normal_form(config, Seq::empty(), Seq::empty()),
        loaded.shell_profiles == config.shell_profiles,
{
    let fresh = choose|fresh: Seq<Seq<char>>|
        all_fresh(fresh) && fresh.len() == profiles_in_use(config, discovered).len() && saved
            == #[trigger] normal_form(config, discovered, fresh);
    let later = choose|fresh: Seq<Seq<char>>|
        all_fresh(fresh) && fresh.len() == profiles_in_use(saved, later_discovered).len() && loaded
            == #[trigger] normal_form(saved, later_discovered, fresh);
    lemma_usable_config(config, discovered, fresh);
    lemma_usable_config(config, Seq::empty(), Seq::empty());
    lemma_usable_config(saved, later_discovered, later);
    law_normal_form_has_a_default(config, discovered, fresh);
}

/// Whether `text` ends in `end`.
pub open spec fn ends_in(text: Seq<char>, end: Seq<char>) -> bool {
    text.len() >= end.len() && text.skip(text.len() - end.len()) == end
}

/// An error is told with its cause, and with what was being done: different kinds of errors are
/// told apart though their causes are the same.
pub proof fn law_errors_are_told_with_their_cause(cause: String)
    ensures
        ends_in(config_message(ConfigError::CreateDirectory(cause)), cause@),
        ends_in(config_message(ConfigError::Serialize(cause)), cause@),
        ends_in(config_message(ConfigError::Write(cause)), cause@),
        config_message(ConfigError::CreateDirectory(cause)) != config_message(
            ConfigError::Serialize(cause),
        ),
        config_message(ConfigError::CreateDirectory(cause)) != config_message(
            ConfigError::Write(cause),
        ),
        config_message(ConfigError::Serialize(cause)) != config_message(ConfigError::Write(cause)),
        config_message(ConfigError::NoConfigDirectory).len() > 0,
{
    reveal_strlit("no platform configuration directory is available");
    reveal_strlit("failed to create configuration directory: ");
    reveal_strlit("failed to serialize configuration: ");
    reveal_strlit("failed to atomically write configuration: ");
    let create = config_message(ConfigError::CreateDirectory(cause));
    let serialize = config_message(ConfigError::Serialize(cause));
    let write = config_message(ConfigError::Write(cause));
    assert(create[10] == 'c' && serialize[10] == 's' && write[10] == 'a');
    assert(create.skip(create.len() - cause@.len()) =~= cause@);
    assert(serialize.skip(serialize.len() - cause@.len()) =~= cause@);
    assert(write.skip(write.len() - cause@.len()) =~= cause@);
}

/// Whether `part` stands somewhere in `text`.
pub open spec fn holds_text(text: Seq<char>, part: Seq<char>) -> bool {
    exists|at: int|
        0 <= at && at + part.len() <= text.len() && #[trigger] text.subrange(
            at,
            at + part.len(),
        ) == part
}

/// After a file could not be used the user is told what was wrong with it, and at the end where it
/// is now, or why it could not be moved. The two are told apart.
pub proof fn law_reset_is_explained(error: Seq<char>, place: String)
    ensures
        holds_text(reset_warning(error, Ok(place)), error),
        holds_text(reset_warning(error, Err(place)), error),
        ends_in(reset_warning(error, Ok(place)), place@),
        ends_in(reset_warning(error, Err(place)), place@),
        reset_warning(error, Ok(place)) != reset_warning(error, Err(place)),
{
    reveal_strlit("configuration was reset: ");
    reveal_strlit("; invalid file moved to ");
    reveal_strlit("; backup failed: ");
    let moved = reset_warning(error, Ok(place));
    let failed = reset_warning(error, Err(place));
    assert(moved.subrange(25, 25int + error.len()) =~= error);
    assert(failed.subrange(25, 25int + error.len()) =~= error);
    assert(moved.skip(moved.len() - place@.len()) =~= place@);
    assert(failed.skip(failed.len() - place@.len()) =~= place@);
    assert(moved[25int + error.len() + 2] == 'i');
    assert(failed[25int + error.len() + 2] == 'b');
}

/// The extension of a file that was moved out of the way tells when it was, and files moved at
/// different times do not get in each other's way.
pub proof fn law_backups_are_dated(timestamp: nat, other: nat)
    ensures
        holds_text(backup_extension(timestamp), decimal(timestamp)),
        ends_in(backup_extension(timestamp), seq!['.', 't', 'o', 'm', 'l']),
        backup_extension(timestamp) == backup_extension(other) ==> timestamp == other,
{
    reveal_strlit("invalid-");
    reveal_strlit(".toml");
    let a = backup_extension(timestamp);
    let b = backup_extension(other);
    assert(a.subrange(8, 8int + decimal(timestamp).len()) =~= decimal(timestamp));
    assert(a.skip(a.len() - 5) =~= seq!['.', 't', 'o', 'm', 'l']);
    if a == b {
        assert(a.subrange(8, a.len() - 5) =~= decimal(timestamp));
        assert(b.subrange(8, b.len() - 5) =~= decimal(other));
        law_decimal_reads_back(timestamp);
        law_decimal_reads_back(other);
    }
}

/// Settings that can be read are used as they are. A file is moved out of the way if and only if there
/// is one and it cannot be read, and the user is told why it cannot.
pub proof fn law_readable_settings_are_used(
    parsed: Result<AppConfig, String>,
    exists: bool,
    step: LoadStep,
)
    requires
        reading_leads_to(parsed, exists, step),
    ensures
        parsed matches Ok(config) ==> step == LoadStep::Use(config),
        parsed matches Err(error) ==> {
            &&& exists ==> step == LoadStep::BackUp(error)
            &&& !exists ==> step is StartOver
        },
{
}

} // verus!
