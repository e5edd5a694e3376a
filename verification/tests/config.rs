//! Settings, profiles and what is made of a configuration file.

use matcha::config::loading::{
    after_reading, failed_load, invalid_backup_path, loaded, recovered, started_over, to_be_saved,
    ConfigError, LoadStep,
};
use matcha::config::measure::Measure;
use matcha::config::profiles::{
    discover_shell_profiles_with, fallback_profile, shell_profile, validate_shell_profile,
    FoundProgram, LocationFacts, Platform, ProfileValidationError, ShellSurvey,
};
use matcha::config::settings::{
    new_profile_id, AppConfig, ClipboardConfig, LocalePreference, ShellProfileConfig,
    TerminalConfig, ThemePreference, CURRENT_SCHEMA_VERSION, MAX_SCROLLBACK_LINES,
};
use matcha::context::{ContextId, ExecutionContext, ExecutionTarget};

fn profile(id: &str) -> ShellProfileConfig {
    ShellProfileConfig {
        id: id.into(),
        name: "Shell".into(),
        program: "/bin/sh".into(),
        args: vec!["-l".into()],
        startup_directory: None,
    }
}

fn survey() -> ShellSurvey {
    ShellSurvey {
        login_shell: None,
        bash: None,
        powershell_7: None,
        windows_powershell: None,
        command_prompt: None,
        home: Some("/home/me".into()),
    }
}

fn found(path: &str, name: &str) -> Option<FoundProgram> {
    Some(FoundProgram { path: path.into(), file_name: Some(name.into()) })
}

fn measure(value: f32) -> Measure {
    Measure { bits: value.to_bits() }
}

#[test]
fn defaults_are_safe_and_normalized() {
    let config = AppConfig::with_profiles(discover_shell_profiles_with(Platform::Unix, &survey()));
    assert_eq!(config.schema_version, CURRENT_SCHEMA_VERSION);
    assert!((f32::from_bits(config.terminal.font_size.bits) - 14.0).abs() < f32::EPSILON);
    assert_eq!(config.terminal.scrollback_lines, 50_000);
    assert!(!config.clipboard.copy_on_select);
    assert!(config.clipboard.confirm_multiline_paste);
    assert!(!config.clipboard.allow_osc52_read);
    let mut normalized = config.clone();
    normalized.normalize(Vec::new());
    assert_eq!(normalized, config);
}

#[test]
fn default_settings_have_their_values() {
    let config = AppConfig::with_profiles(vec![profile("a"), profile("b")]);
    assert_eq!(config.schema_version, 2);
    assert_eq!(config.appearance.theme, ThemePreference::MatchaDark);
    assert_eq!(config.appearance.locale, LocalePreference::System);
    assert_eq!(config.default_shell_profile, "a");
    assert!(config.clipboard.trusted_osc52_write_profiles.is_empty());
    let terminal = TerminalConfig::default();
    assert_eq!(terminal.font_family, "JetBrains Mono NL");
    assert_eq!(terminal.line_height.bits, 1.15_f32.to_bits());
    assert_eq!(AppConfig::with_profiles(Vec::new()).default_shell_profile, "");
    assert_eq!(ClipboardConfig::default(), ClipboardConfig::with_safe_defaults());
}

#[test]
fn numbers_are_brought_within_bounds() {
    let mut config = AppConfig::with_profiles(vec![profile("a")]);
    config.schema_version = 1;
    config.terminal.font_size = measure(200.0);
    config.terminal.line_height = measure(0.5);
    config.terminal.scrollback_lines = usize::MAX;
    config.normalize(Vec::new());
    assert_eq!(config.schema_version, 2);
    assert_eq!(f32::from_bits(config.terminal.font_size.bits), 48.0);
    assert_eq!(f32::from_bits(config.terminal.line_height.bits), 1.0);
    assert_eq!(config.terminal.scrollback_lines, MAX_SCROLLBACK_LINES);
    config.terminal.font_size = measure(-3.0);
    config.terminal.line_height = measure(f32::INFINITY);
    config.normalize(Vec::new());
    assert_eq!(f32::from_bits(config.terminal.font_size.bits), 8.0);
    assert_eq!(f32::from_bits(config.terminal.line_height.bits), 1.5);
}

#[test]
fn measures_clamp_as_numbers_do() {
    let values = [
        0.0, -0.0, 1.0, -1.0, 7.999, 8.0, 8.001, 47.9, 48.0, 48.1, 1e30, -1e30, f32::MIN_POSITIVE,
        f32::INFINITY, f32::NEG_INFINITY, f32::NAN, -f32::NAN,
    ];
    for value in values {
        let clamped = measure(value).clamp(measure(8.0), measure(48.0));
        assert_eq!(clamped.bits, value.clamp(8.0, 48.0).to_bits());
        assert_eq!(clamped.clamp(measure(8.0), measure(48.0)), clamped);
    }
}

#[test]
fn identifiers_become_usable() {
    let mut config = AppConfig::with_profiles(vec![
        profile("a"),
        profile(" "),
        profile("a"),
        profile("b"),
        profile("new-2"),
    ]);
    config.default_shell_profile = "gone".into();
    let fresh: Vec<String> = (0..5).map(|index| format!("new-{index}")).collect();
    config.normalize_with(Vec::new(), &fresh);
    let ids: Vec<&str> = config.shell_profiles.iter().map(|profile| profile.id.as_str()).collect();
    assert_eq!(ids, vec!["a", "new-1", "new-2", "b", "new-4"]);
    assert_eq!(config.default_shell_profile, "a");
}

#[test]
fn normalizing_twice_is_normalizing_once() {
    let mut config = AppConfig::with_profiles(vec![profile("a"), profile("a"), profile("")]);
    config.default_shell_profile = "a".into();
    config.normalize(Vec::new());
    assert_eq!(config.shell_profiles[0].id, "a");
    assert_ne!(config.shell_profiles[1].id, config.shell_profiles[2].id);
    let once = config.clone();
    config.normalize(vec![profile("other")]);
    assert_eq!(config, once);
}

#[test]
fn missing_profiles_are_discovered() {
    let mut config = AppConfig::with_profiles(Vec::new());
    config.normalize(vec![profile("found")]);
    assert_eq!(config.shell_profiles, vec![profile("found")]);
    assert_eq!(config.default_shell_profile, "found");
}

#[test]
fn default_shell_is_the_named_one() {
    let mut config = AppConfig::with_profiles(vec![profile("a"), profile("b")]);
    config.default_shell_profile = "b".into();
    assert_eq!(config.default_shell().map(|profile| profile.id.as_str()), Some("b"));
    config.default_shell_profile = "c".into();
    assert_eq!(config.default_shell().map(|profile| profile.id.as_str()), Some("a"));
    config.shell_profiles.clear();
    assert!(config.default_shell().is_none());
}

#[test]
fn profile_identifiers_are_random_and_hyphenated() {
    let id = new_profile_id();
    assert_eq!(id.len(), 36);
    assert_ne!(id, new_profile_id());
    for (index, character) in id.chars().enumerate() {
        match index {
            8 | 13 | 18 | 23 => assert_eq!(character, '-'),
            14 => assert_eq!(character, '4'),
            19 => assert!("89ab".contains(character)),
            _ => assert!(character.is_ascii_digit() || ('a'..='f').contains(&character)),
        }
    }
}

#[test]
fn contexts_have_identities() {
    let id = ContextId::new();
    assert_ne!(id, ContextId::default());
    let context = ExecutionContext {
        id,
        name: "Local".into(),
        target: ExecutionTarget::Local,
        shell: shell_profile(&profile("a")),
        cwd: None,
    };
    assert_eq!(context.clone(), context);
    assert_ne!(ExecutionTarget::Local, ExecutionTarget::Ssh { profile_id: "a".into() });
}

#[test]
fn unix_prefers_the_login_shell() {
    let mut survey = survey();
    let fallback = discover_shell_profiles_with(Platform::Unix, &survey);
    assert_eq!(fallback.len(), 1);
    assert_eq!(fallback[0].id, "login-shell");
    assert_eq!(fallback[0].program, "/bin/sh");
    assert_eq!(fallback[0].name, "sh");
    assert_eq!(fallback[0].startup_directory.as_deref(), Some("/home/me"));
    survey.bash = found("/usr/bin/bash", "bash");
    assert_eq!(discover_shell_profiles_with(Platform::Unix, &survey)[0].name, "bash");
    survey.login_shell = Some(FoundProgram { path: "/bin/zsh".into(), file_name: None });
    let login = discover_shell_profiles_with(Platform::Unix, &survey);
    assert_eq!(login[0].program, "/bin/zsh");
    assert_eq!(login[0].name, "Shell");
}

#[test]
fn windows_lists_what_was_found() {
    let mut survey = survey();
    assert!(discover_shell_profiles_with(Platform::Windows, &survey).is_empty());
    assert_eq!(fallback_profile(Platform::Windows, &survey).program, "cmd.exe");
    survey.command_prompt = found("C:\\cmd.exe", "cmd.exe");
    survey.powershell_7 = found("C:\\pwsh.exe", "pwsh.exe");
    survey.windows_powershell = found("C:\\powershell.exe", "powershell.exe");
    let profiles = discover_shell_profiles_with(Platform::Windows, &survey);
    let listed: Vec<(&str, &str, &str)> = profiles
        .iter()
        .map(|profile| (profile.id.as_str(), profile.name.as_str(), profile.args[0].as_str()))
        .collect();
    assert_eq!(
        listed,
        vec![
            ("powershell-7", "PowerShell 7", "-NoLogo"),
            ("windows-powershell", "Windows PowerShell", "-NoLogo"),
            ("command-prompt", "Command Prompt", "/D"),
        ]
    );
    assert_eq!(fallback_profile(Platform::Windows, &survey).id, "powershell-7");
    assert_eq!(fallback_profile(Platform::Unix, &survey).id, "login-shell");
}

#[test]
fn profile_validation_reports_the_first_fault() {
    let good = LocationFacts {
        program_is_file: true,
        program_components: 2,
        program_in_path: false,
        startup_is_directory: true,
    };
    let mut profile = profile("a");
    assert_eq!(validate_shell_profile(&profile, good), Ok(()));
    let bare = LocationFacts {
        program_is_file: false,
        program_components: 1,
        program_in_path: true,
        startup_is_directory: false,
    };
    assert_eq!(validate_shell_profile(&profile, bare), Ok(()));
    let nested = LocationFacts { program_components: 2, ..bare };
    assert_eq!(
        validate_shell_profile(&profile, nested),
        Err(ProfileValidationError::ProgramNotFound)
    );
    profile.startup_directory = Some("/nowhere".into());
    assert_eq!(
        validate_shell_profile(&profile, bare),
        Err(ProfileValidationError::StartupDirectoryNotFound)
    );
    profile.program.clear();
    assert_eq!(
        validate_shell_profile(&profile, nested),
        Err(ProfileValidationError::EmptyProgram)
    );
    profile.name = " \t\u{3000}".into();
    assert_eq!(validate_shell_profile(&profile, good), Err(ProfileValidationError::EmptyName));
}

#[test]
fn faults_are_explained() {
    assert_eq!(ProfileValidationError::EmptyName.message(), "profile name is required");
    assert_eq!(ProfileValidationError::EmptyProgram.message(), "profile program is required");
    assert_eq!(
        ProfileValidationError::ProgramNotFound.message(),
        "profile program does not exist or cannot be found in PATH"
    );
    assert_eq!(
        ProfileValidationError::StartupDirectoryNotFound.message(),
        "profile startup directory does not exist"
    );
    assert_eq!(
        ConfigError::NoConfigDirectory.message(),
        "no platform configuration directory is available"
    );
    assert_eq!(
        ConfigError::CreateDirectory("x".into()).message(),
        "failed to create configuration directory: x"
    );
    assert_eq!(
        ConfigError::Serialize("x".into()).message(),
        "failed to serialize configuration: x"
    );
    assert_eq!(
        ConfigError::Write("x".into()).message(),
        "failed to atomically write configuration: x"
    );
}

#[test]
fn reading_decides_what_to_do() {
    let config = AppConfig::with_profiles(vec![profile("a")]);
    assert_eq!(after_reading(Ok(config.clone()), true), LoadStep::Use(config));
    assert_eq!(after_reading(Err("bad".into()), true), LoadStep::BackUp("bad".into()));
    assert_eq!(after_reading(Err("bad".into()), false), LoadStep::StartOver);
}

#[test]
fn malformed_settings_are_recovered() {
    let moved = recovered(
        "/c/config.toml".into(),
        "bad line".into(),
        Ok("/c/config.invalid-5.toml".into()),
        vec![profile("a")],
    );
    assert_eq!(
        moved.warning.as_deref(),
        Some("configuration was reset: bad line; invalid file moved to /c/config.invalid-5.toml")
    );
    assert_eq!(moved.path, "/c/config.toml");
    assert_eq!(moved.config, AppConfig::with_profiles(vec![profile("a")]));
    let stuck = recovered("p".into(), "bad".into(), Err("locked".into()), Vec::new());
    assert_eq!(
        stuck.warning.as_deref(),
        Some("configuration was reset: bad; backup failed: locked")
    );
    let fresh = started_over("p".into(), vec![profile("a")]);
    assert_eq!(fresh.warning, None);
    assert_eq!(fresh.config.default_shell_profile, "a");
}

#[test]
fn failures_to_load_are_told() {
    let load = failed_load(&ConfigError::NoConfigDirectory, "p".into(), vec![profile("a")]);
    assert_eq!(
        load.warning.as_deref(),
        Some("no platform configuration directory is available")
    );
    assert_eq!(load.config, AppConfig::with_profiles(vec![profile("a")]));
}

#[test]
fn loaded_settings_are_normalized() {
    let mut config = AppConfig::with_profiles(vec![profile("a")]);
    config.terminal.scrollback_lines = usize::MAX;
    config.default_shell_profile.clear();
    let load = loaded("p".into(), config, Vec::new());
    assert_eq!(load.warning, None);
    assert_eq!(load.config.terminal.scrollback_lines, MAX_SCROLLBACK_LINES);
    assert_eq!(load.config.default_shell_profile, "a");
}

#[test]
fn loading_gives_back_what_was_saved() {
    let mut config = AppConfig::with_profiles(vec![profile("a"), profile("b")]);
    config.default_shell_profile = "b".into();
    config.terminal.font_size = measure(200.0);
    config.terminal.scrollback_lines = usize::MAX;
    let saved = to_be_saved(&config, vec![profile("x")]);
    assert_eq!(f32::from_bits(saved.terminal.font_size.bits), 48.0);
    assert_eq!(saved.terminal.scrollback_lines, 1_000_000);
    assert_eq!(saved.shell_profiles, config.shell_profiles);
    let load = loaded("p".into(), saved.clone(), vec![profile("y")]);
    assert_eq!(load.config, saved);
    assert_eq!(load.warning, None);
}

#[test]
fn invalid_files_are_moved_beside_themselves() {
    assert_eq!(
        invalid_backup_path("/home/me/.config/config.toml", 1_700_000_000),
        "/home/me/.config/config.invalid-1700000000.toml"
    );
    assert_eq!(invalid_backup_path("a.b.toml", 0), "a.b.invalid-0.toml");
    assert_eq!(invalid_backup_path("settings.conf", 7), "settings.invalid-7.toml");
    assert_eq!(invalid_backup_path("config", 7), "config.invalid-7.toml");
    assert_eq!(invalid_backup_path("/etc/matcha.d/config", 7), "/etc/matcha.d/config.invalid-7.toml");
    assert_eq!(invalid_backup_path("x.d/.matcha", 7), "x.d/.matcha.invalid-7.toml");
    assert_eq!(invalid_backup_path("settings.", 7), "settings.invalid-7.toml");
    assert_eq!(invalid_backup_path("a..toml", 7), "a..invalid-7.toml");
    assert_eq!(invalid_backup_path("...toml", 7), "...invalid-7.toml");
    assert_eq!(invalid_backup_path("C:\\cfg\\config.toml", 7), "C:\\cfg\\config.invalid-7.toml");
    assert_eq!(invalid_backup_path("C:\\cfg\\config", 7), "C:\\cfg\\config.invalid-7.toml");
}
