//! Choosing the language.

use vstd::prelude::*;
use vstd::string::*;

use crate::config::settings::LocalePreference;
use crate::terminal::types::optional_text;
use crate::text::{ascii_lower, law_lowering_concerns_capitals, to_ascii_lower};

verus! {

/// Whether a locale is Chinese: its name starts with the language code, whatever its capitals.
pub open spec fn chinese_locale(name: Seq<char>) -> bool {
    name.len() >= 2 && ascii_lower(name[0]) == 'z' && ascii_lower(name[1]) == 'h'
}

/// The language for a preference on a system with the given locale. Where the user follows the
/// system it is Chinese on a Chinese system and English on any other.
pub open spec fn language(preference: LocalePreference, system: Option<Seq<char>>) -> LocalePreference {
    if preference != LocalePreference::System {
        preference
    } else {
        match system {
            Some(name) if chinese_locale(name) => LocalePreference::SimplifiedChinese,
            _ => LocalePreference::English,
        }
    }
}

/// The language for a preference on a system with the given locale.
#[must_use]
pub fn locale_for(preference: LocalePreference, system: Option<String>) -> (res: LocalePreference)
    ensures
        res == language(preference, optional_text(system)),
{
    if preference != LocalePreference::System {
        return preference;
    }
    match system {
        Some(name) => {
            let text = name.as_str();
            if text.unicode_len() >= 2 && to_ascii_lower(text.get_char(0)) == 'z'
                && to_ascii_lower(text.get_char(1)) == 'h' {
                LocalePreference::SimplifiedChinese
            } else {
                LocalePreference::English
            }
        },
        None => LocalePreference::English,
    }
}

/// The locale of the system, from `sys_locale::get_locale`. It is the machine's, so nothing is
/// said of it.
#[verifier::external_body]
fn system_locale() -> Option<String> {
    sys_locale::get_locale()
}

/// The language for a preference on this system. It is never left open.
#[must_use]
pub fn effective_locale(preference: LocalePreference) -> (res: LocalePreference)
    ensures
        preference != LocalePreference::System ==> res == preference,
        res != LocalePreference::System,
{
    locale_for(preference, system_locale())
}

/// The language that the user chose is the one that is used. Where the user follows the system it is
/// Chinese if and only if the name of the system's locale begins with the letters of that language,
/// in either case, and English otherwise.
pub proof fn law_the_user_chooses_the_language(system: Option<Seq<char>>)
    ensures
        language(LocalePreference::English, system) == LocalePreference::English,
        language(LocalePreference::SimplifiedChinese, system)
            == LocalePreference::SimplifiedChinese,
        system is None ==> language(LocalePreference::System, system) == LocalePreference::English,
        system matches Some(name) ==> {
            let chinese = name.len() >= 2 && (name[0] == 'z' || name[0] == 'Z') && (name[1] == 'h'
                || name[1] == 'H');
            &&& chinese ==> language(LocalePreference::System, system)
                == LocalePreference::SimplifiedChinese
            &&& !chinese ==> language(LocalePreference::System, system)
                == LocalePreference::English
        },
{
    if let Some(name) = system {
        if name.len() >= 2 {
            law_lowering_concerns_capitals(name[0]);
            law_lowering_concerns_capitals(name[1]);
        }
    }
}

} // verus!
