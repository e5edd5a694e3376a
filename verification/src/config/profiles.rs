//! Shell profiles: discovery and validation.

use vstd::prelude::*;
use vstd::string::*;

use crate::config::settings::{
    clone_text, clone_texts, profile_views, texts, ProfileView, ShellProfileConfig,
};
use crate::context::ShellProfile;
use crate::terminal::types::optional_text;
use crate::text::{blank, is_blank, white_space};

verus! {

/// The families of platforms on which shells are looked for.
#[derive(Clone, Copy, Debug, Eq, PartialEq, Structural)]
pub enum Platform {
    Windows,
    Unix,
}

/// A program that was found, with the last component of its path where it is readable text.
#[derive(Clone, Debug, Eq, PartialEq)]
pub struct FoundProgram {
    pub path: String,
    pub file_name: Option<String>,
}

/// What a look around the machine turned up.
///
/// `login_shell` is the user's shell where it names an existing file. The other programs were
/// looked for in the executable search path.
#[derive(Clone, Debug, Eq, PartialEq)]
pub struct ShellSurvey {
    pub login_shell: Option<FoundProgram>,
    pub bash: Option<FoundProgram>,
    pub powershell_7: Option<FoundProgram>,
    pub windows_powershell: Option<FoundProgram>,
    pub command_prompt: Option<FoundProgram>,
    pub home: Option<String>,
}

/// The profile of a shell that takes one argument, where the shell was found.
pub open spec fn windows_profile(
    id: Seq<char>,
    name: Seq<char>,
    argument: Seq<char>,
    found: Option<FoundProgram>,
    home: Option<Seq<char>>,
) -> Seq<ProfileView> {
    match found {
        Some(program) => seq![
            ProfileView {
                id,
                name,
                program: program.path@,
                args: seq![argument],
                startup_directory: home,
            },
        ],
        None => Seq::empty(),
    }
}

/// The one profile of a Unix machine: the login shell, else bash, else the standard shell.
pub open spec fn unix_profile(survey: ShellSurvey) -> ProfileView {
    let found = match survey.login_shell {
        Some(program) => Some(program),
        None => survey.bash,
    };
    ProfileView {
        id: "login-shell"@,
        name: match found {
            Some(program) => match program.file_name {
                Some(name) => name@,
                None => "Shell"@,
            },
            None => "sh"@,
        },
        program: match found {
            Some(program) => program.path@,
            None => "/bin/sh"@,
        },
        args: Seq::empty(),
        startup_directory: optional_text(survey.home),
    }
}

/// The profiles that suit the machine, the preferred one first.
pub open spec fn suitable_profiles(platform: Platform, survey: ShellSurvey) -> Seq<ProfileView> {
    let home = optional_text(survey.home);
    match platform {
        Platform::Windows => windows_profile(
            "powershell-7"@,
            "PowerShell 7"@,
            "-NoLogo"@,
            survey.powershell_7,
            home,
        ) + windows_profile(
            "windows-powershell"@,
            "Windows PowerShell"@,
            "-NoLogo"@,
            survey.windows_powershell,
            home,
        ) + windows_profile(
            "command-prompt"@,
            "Command Prompt"@,
            "/D"@,
            survey.command_prompt,
            home,
        ),
        Platform::Unix => seq![unix_profile(survey)],
    }
}

fn push_windows_profile(
    profiles: &mut Vec<ShellProfileConfig>,
    id: &str,
    name: &str,
    argument: &str,
    found: &Option<FoundProgram>,
    home: &Option<String>,
)
    ensures
        profile_views(final(profiles)@) == profile_views(old(profiles)@) + windows_profile(
            id@,
            name@,
            argument@,
            *found,
            optional_text(*home),
        ),
{
    if let Some(program) = found {
        let mut args: Vec<String> = Vec::new();
        args.push(argument.to_owned());
        assert(texts(args@) =~= seq![argument@]);
        let profile = ShellProfileConfig {
            id: id.to_owned(),
            name: name.to_owned(),
            program: program.path.clone(),
            args,
            startup_directory: clone_text(home),
        };
        assert(profile_views(profiles@.push(profile)) =~= profile_views(profiles@).push(profile@));
        profiles.push(profile);
    }
    assert(profile_views(profiles@) =~= profile_views(old(profiles)@) + windows_profile(
        id@,
        name@,
        argument@,
        *found,
        optional_text(*home),
    ));
}

/// The profiles that suit the machine, the preferred one first.
#[must_use]
pub fn discover_shell_profiles_with(platform: Platform, survey: &ShellSurvey) -> (res: Vec<
    ShellProfileConfig,
>)
    ensures
        profile_views(res@) == suitable_profiles(platform, *survey),
{
    let mut profiles: Vec<ShellProfileConfig> = Vec::new();
    assert(profile_views(profiles@) =~= Seq::empty());
    match platform {
        Platform::Windows => {
            push_windows_profile(
                &mut profiles,
                "powershell-7",
                "PowerShell 7",
                "-NoLogo",
                &survey.powershell_7,
                &survey.home,
            );
            push_windows_profile(
                &mut profiles,
                "windows-powershell",
                "Windows PowerShell",
                "-NoLogo",
                &survey.windows_powershell,
                &survey.home,
            );
            push_windows_profile(
                &mut profiles,
                "command-prompt",
                "Command Prompt",
                "/D",
                &survey.command_prompt,
                &survey.home,
            );
            assert(profile_views(profiles@) =~= suitable_profiles(platform, *survey));
        },
        Platform::Unix => {
            let found = match &survey.login_shell {
                Some(program) => Some(program),
                None => match &survey.bash {
                    Some(program) => Some(program),
                    None => None,
                },
            };
            let (program, name) = match found {
                Some(program) => (
                    program.path.clone(),
                    match &program.file_name {
                        Some(name) => name.clone(),
                        None => "Shell".to_owned(),
                    },
                ),
                None => ("/bin/sh".to_owned(), "sh".to_owned()),
            };
            let profile = ShellProfileConfig {
                id: "login-shell".to_owned(),
                name,
                program,
                args: Vec::new(),
                startup_directory: clone_text(&survey.home),
            };
            assert(profile@ =~= unix_profile(*survey));
            profiles.push(profile);
            assert(profile_views(profiles@) =~= seq![unix_profile(*survey)]);
        },
    }
    profiles
}

/// What a session needs to know of a profile to start its shell.
#[must_use]
pub fn shell_profile(profile: &ShellProfileConfig) -> (res: ShellProfile)
    ensures
        res.program@ == profile@.program,
        texts(res.args@) == profile@.args,
        optional_text(res.cwd) == profile@.startup_directory,
{
    ShellProfile {
        program: profile.program.clone(),
        args: clone_texts(&profile.args),
        cwd: clone_text(&profile.startup_directory),
    }
}

/// The profile of last resort: the first that suits the machine, else the command interpreter
/// that the platform is sure to have.
pub open spec fn last_resort(platform: Platform, survey: ShellSurvey) -> ProfileView {
    if suitable_profiles(platform, survey).len() > 0 {
        suitable_profiles(platform, survey)[0]
    } else {
        ProfileView {
            id: "fallback"@,
            name: "Shell"@,
            program: match platform {
                Platform::Windows => "cmd.exe"@,
                Platform::Unix => "/bin/sh"@,
            },
            args: Seq::empty(),
            startup_directory: None,
        }
    }
}

/// The profile of last resort.
#[must_use]
pub fn fallback_profile(platform: Platform, survey: &ShellSurvey) -> (res: ShellProfileConfig)
    ensures
        res@ == last_resort(platform, *survey),
{
    let discovered = discover_shell_profiles_with(platform, survey);
    if discovered.len() > 0 {
        assert(profile_views(discovered@)[0] == discovered@[0]@);
        return discovered[0].copied();
    }
    let program = match platform {
        Platform::Windows => "cmd.exe",
        Platform::Unix => "/bin/sh",
    };
    let res = ShellProfileConfig {
        id: "fallback".to_owned(),
        name: "Shell".to_owned(),
        program: program.to_owned(),
        args: Vec::new(),
        startup_directory: None,
    };
    assert(res@ =~= last_resort(platform, *survey));
    res
}

#[derive(Clone, Copy, Debug, Eq, PartialEq, Structural)]
pub enum ProfileValidationError {
    EmptyName,
    EmptyProgram,
    ProgramNotFound,
    StartupDirectoryNotFound,
}

/// What the error tells the user.
pub open spec fn validation_message(error: ProfileValidationError) -> Seq<char> {
    match error {
        ProfileValidationError::EmptyName => "profile name is required"@,
        ProfileValidationError::EmptyProgram => "profile program is required"@,
        ProfileValidationError::ProgramNotFound =>
            "profile program does not exist or cannot be found in PATH"@,
        ProfileValidationError::StartupDirectoryNotFound =>
            "profile startup directory does not exist"@,
    }
}

impl ProfileValidationError {
    /// What the error tells the user.
    #[must_use]
    pub fn message(&self) -> (res: String)
        ensures
            res@ == validation_message(*self),
    {
        match self {
            ProfileValidationError::EmptyName => "profile name is required".to_owned(),
            ProfileValidationError::EmptyProgram => "profile program is required".to_owned(),
            ProfileValidationError::ProgramNotFound =>
                "profile program does not exist or cannot be found in PATH".to_owned(),
            ProfileValidationError::StartupDirectoryNotFound =>
                "profile startup directory does not exist".to_owned(),
        }
    }
}

/// What the file system says of the locations that a profile names.
///
/// `program_components` counts the components of the path of the program, and
/// `startup_is_directory` is of interest only where the profile names a startup directory.
#[derive(Clone, Copy, Debug, Eq, PartialEq, Structural)]
pub struct LocationFacts {
    pub program_is_file: bool,
    pub program_components: usize,
    pub program_in_path: bool,
    pub startup_is_directory: bool,
}

/// Whether the program of a profile can be started: it is a file, or a bare name that the
/// executable search path resolves.
pub open spec fn program_found(facts: LocationFacts) -> bool {
    facts.program_is_file || (facts.program_components == 1 && facts.program_in_path)
}

/// The first thing that is wrong with a profile.
pub open spec fn first_fault(profile: ProfileView, facts: LocationFacts) -> Option<
    ProfileValidationError,
> {
    if blank(profile.name) {
        Some(ProfileValidationError::EmptyName)
    } else if profile.program.len() == 0 {
        Some(ProfileValidationError::EmptyProgram)
    } else if !program_found(facts) {
        Some(ProfileValidationError::ProgramNotFound)
    } else if profile.startup_directory is Some && !facts.startup_is_directory {
        Some(ProfileValidationError::StartupDirectoryNotFound)
    } else {
        None
    }
}

/// Validates a shell profile against what the file system says of its locations.
///
/// # Errors
///
/// Returns the first invalid required field or location.
pub fn validate_shell_profile(profile: &ShellProfileConfig, facts: LocationFacts) -> (res: Result<
    (),
    ProfileValidationError,
>)
    ensures
        match res {
            Ok(()) => first_fault(profile@, facts) is None,
            Err(error) => first_fault(profile@, facts) == Some(error),
        },
{
    if is_blank(profile.name.as_str()) {
        return Err(ProfileValidationError::EmptyName);
    }
    if profile.program.as_str().is_empty() {
        return Err(ProfileValidationError::EmptyProgram);
    }
    if !(facts.program_is_file || (facts.program_components == 1 && facts.program_in_path)) {
        return Err(ProfileValidationError::ProgramNotFound);
    }
    if profile.startup_directory.is_some() && !facts.startup_is_directory {
        return Err(ProfileValidationError::StartupDirectoryNotFound);
    }
    Ok(())
}

/// On a Unix machine there is always a profile to start with.
pub proof fn law_unix_always_has_a_shell(survey: ShellSurvey)
    ensures
        suitable_profiles(Platform::Unix, survey).len() == 1,
        suitable_profiles(Platform::Unix, survey)[0].args.len() == 0,
{
}

/// On a Unix machine the login shell starts where it was found, else bash where that was found,
/// else the standard shell. It starts in the home directory. Its profile is named after the file.
pub proof fn law_login_shell_comes_first(survey: ShellSurvey)
    ensures
        ({
            let profile = suitable_profiles(Platform::Unix, survey)[0];
            &&& profile.startup_directory == optional_text(survey.home)
            &&& profile.id.len() > 0
            &&& survey.login_shell matches Some(found) ==> profile.program == found.path@ && (
            found.file_name matches Some(name) ==> profile.name == name@)
            &&& survey.login_shell is None ==> (survey.bash matches Some(found) ==> profile.program
                == found.path@ && (found.file_name matches Some(name) ==> profile.name == name@))
            &&& survey.login_shell is None && survey.bash is None ==> profile.program == "/bin/sh"@
        }),
{
    reveal_strlit("login-shell");
}

/// Whether a profile starts the program that was found.
pub open spec fn starts(profiles: Seq<ProfileView>, place: int, found: Option<FoundProgram>) -> bool {
    &&& 0 <= place < profiles.len()
    &&& found matches Some(program) && profiles[place].program == program.path@
}

/// On Windows there is a profile for each shell that was found and for no other: first the newer
/// PowerShell, then the older one, then the command prompt. All start in the home directory, each
/// with one argument, and have identifiers of their own.
pub proof fn law_windows_offers_what_was_found(survey: ShellSurvey)
    ensures
        ({
            let profiles = suitable_profiles(Platform::Windows, survey);
            let newer: int = if survey.powershell_7 is Some { 1 } else { 0 };
            let older: int = if survey.windows_powershell is Some { 1 } else { 0 };
            let prompt: int = if survey.command_prompt is Some { 1 } else { 0 };
            &&& profiles.len() == newer + older + prompt
            &&& newer == 1 ==> starts(profiles, 0, survey.powershell_7)
            &&& older == 1 ==> starts(profiles, newer, survey.windows_powershell)
            &&& prompt == 1 ==> starts(profiles, newer + older, survey.command_prompt)
            &&& forall|i: int|
                0 <= i < profiles.len() ==> (#[trigger] profiles[i]).startup_directory
                    == optional_text(survey.home) && profiles[i].args.len() == 1
                    && profiles[i].name.len() > 0
            &&& forall|i: int, j: int|
                0 <= i < j < profiles.len() ==> (#[trigger] profiles[i]).id != (
                #[trigger] profiles[j]).id && profiles[i].name != profiles[j].name
        }),
{
    reveal_strlit("powershell-7");
    reveal_strlit("windows-powershell");
    reveal_strlit("command-prompt");
    reveal_strlit("PowerShell 7");
    reveal_strlit("Windows PowerShell");
    reveal_strlit("Command Prompt");
    assert("powershell-7"@.len() == 12 && "windows-powershell"@.len() == 18
        && "command-prompt"@.len() == 14);
    assert("PowerShell 7"@.len() == 12 && "Windows PowerShell"@.len() == 18
        && "Command Prompt"@.len() == 14);
}

/// There is always a shell to start: the first that suits the machine, else the command
/// interpreter of the platform.
pub proof fn law_last_resort_is_a_shell(platform: Platform, survey: ShellSurvey)
    ensures
        suitable_profiles(platform, survey).len() > 0 ==> last_resort(platform, survey)
            == suitable_profiles(platform, survey)[0],
        suitable_profiles(platform, survey).len() == 0 ==> platform == Platform::Windows
            && last_resort(platform, survey).program == "cmd.exe"@ && last_resort(
            platform,
            survey,
        ).args.len() == 0,
{
}

/// A profile is accepted if and only if it has a name and a program, the program is a file or a bare
/// name that the search path resolves, and the directory that it starts in, if it names one, exists.
/// Otherwise the first of these that fails is told.
pub proof fn law_accepted_profiles_can_start(profile: ProfileView, facts: LocationFacts)
    ensures
        ({
            let named = exists|i: int|
                0 <= i < profile.name.len() && !white_space(#[trigger] profile.name[i]);
            let has_program = profile.program.len() > 0;
            let found = facts.program_is_file || (facts.program_in_path
                && facts.program_components == 1);
            let has_place = profile.startup_directory is None || facts.startup_is_directory;
            let fault = first_fault(profile, facts);
            &&& fault is None <==> named && has_program && found && has_place
            &&& fault == Some(ProfileValidationError::EmptyName) <==> !named
            &&& fault == Some(ProfileValidationError::EmptyProgram) <==> named && !has_program
            &&& fault == Some(ProfileValidationError::ProgramNotFound) <==> named && has_program
                && !found
            &&& fault == Some(ProfileValidationError::StartupDirectoryNotFound) <==> named
                && has_program && found && !has_place
        }),
{
}

/// Each fault is told in words of its own.
pub proof fn law_faults_are_told_apart(a: ProfileValidationError, b: ProfileValidationError)
    requires
        a != b,
    ensures
        validation_message(a) != validation_message(b),
        validation_message(a).len() > 0,
{
    reveal_strlit("profile name is required");
    reveal_strlit("profile program is required");
    reveal_strlit("profile program does not exist or cannot be found in PATH");
    reveal_strlit("profile startup directory does not exist");
    assert("profile name is required"@.len() == 24);
    assert("profile program is required"@.len() == 27);
    assert("profile program does not exist or cannot be found in PATH"@.len() == 57);
    assert("profile startup directory does not exist"@.len() == 40);
}

} // verus!
