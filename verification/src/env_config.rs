//! Settings: under a new name with the old name as a fallback, and with defaults.
use crate::text::{decimal, law_decimal_reads_back, opt_str, opt_text, parse_number, parsed_number};
use vstd::prelude::*;

verus! {

/// A setting as it was read.
#[derive(Debug, PartialEq, Eq)]
pub enum Setting {
    Missing,
    /// Its value is no text.
    NotText,
    Value(String),
}

/// The setting under its new name, or under its old one where the new one is
/// missing.
pub fn var(primary: Setting, legacy: Setting) -> (r: Setting)
    ensures
        r == (if primary is Missing {
            legacy
        } else {
            primary
        }),
{
    match primary {
        Setting::Missing => legacy,
        found => found,
    }
}

/// The setting under its new name, or under its old one, whatever it holds.
pub fn var_os(primary: Option<String>, legacy: Option<String>) -> (r: Option<String>)
    ensures
        r == (if primary is Some {
            primary
        } else {
            legacy
        }),
{
    match primary {
        Some(value) => Some(value),
        None => legacy,
    }
}

/// The default path under its new name, unless only the old one exists, so
/// that an upgrade keeps what is there.
pub fn default_path(
    primary: &str,
    legacy: &str,
    primary_exists: bool,
    legacy_exists: bool,
) -> (r: String)
    ensures
        r@ == (if !primary_exists && legacy_exists {
            legacy@
        } else {
            primary@
        }),
{
    if primary_exists {
        return primary.to_owned();
    }
    if legacy_exists {
        return legacy.to_owned();
    }
    primary.to_owned()
}

/// A setting: switched off where it is empty, the default where it is missing.
pub open spec fn setting_or(setting: Option<Seq<char>>, default: Seq<char>) -> Option<Seq<char>> {
    match setting {
        Some(value) => if value.len() == 0 {
            None
        } else {
            Some(value)
        },
        None => Some(default),
    }
}

/// A setting: switched off where it is empty, the default where it is missing.
pub fn chosen_setting(setting: Option<&str>, default: &str) -> (r: Option<String>)
    ensures
        opt_text(r) == setting_or(opt_str(setting), default@),
{
    match setting {
        Some(value) => {
            if value.is_empty() {
                None
            } else {
                Some(value.to_owned())
            }
        },
        None => Some(default.to_owned()),
    }
}

/// The number of workers that a setting names, where it is a positive number.
pub open spec fn workers_of(setting: Option<Seq<char>>, default: usize) -> usize {
    match setting {
        Some(raw) => match parsed_number(raw, u64::MAX as nat) {
            Some(n) => if 0 < n <= usize::MAX {
                n as usize
            } else {
                default
            },
            None => default,
        },
        None => default,
    }
}

/// The number of workers that a setting names, where it is a positive number.
pub fn chosen_workers(setting: Option<&str>, default: usize) -> (r: usize)
    ensures
        r == workers_of(opt_str(setting), default),
{
    if let Some(raw) = setting {
        if let Some(n) = parse_number(raw, u64::MAX) {
            if n > 0 && n <= usize::MAX as u64 {
                return n as usize;
            }
        }
    }
    default
}

/// A command or a directory is the default one where nothing is set, the given one where
/// something is, and switched off where what is set is empty.
pub proof fn law_empty_settings_switch_off(value: Seq<char>, default: Seq<char>)
    ensures
        setting_or(None, default) == Some(default),
        value.len() == 0 ==> setting_or(Some(value), default) is None,
        value.len() > 0 ==> setting_or(Some(value), default) == Some(value),
{
}

/// A number of workers is the one that is set, where that is a positive number, and the
/// default one otherwise.
pub proof fn law_workers_are_what_is_set(n: usize, raw: Seq<char>, default: usize)
    ensures
        n > 0 ==> workers_of(Some(decimal(n as nat)), default) == n,
        workers_of(Some(decimal(0)), default) == default,
        workers_of(None, default) == default,
        raw.len() == 0 || raw.contains('-') || raw.contains('.') ==> workers_of(Some(raw), default)
            == default,
        default > 0 ==> workers_of(Some(raw), default) > 0,
{
    law_decimal_reads_back(n as nat, u64::MAX as nat);
    law_decimal_reads_back(0, u64::MAX as nat);
    if raw.contains('-') || raw.contains('.') {
        let c = if raw.contains('-') {
            '-'
        } else {
            '.'
        };
        let k = raw.index_of(c);
        let digits = if raw.len() > 0 && raw[0] == '+' {
            raw.skip(1)
        } else {
            raw
        };
        if raw[0] == '+' {
            assert(digits[k - 1] == c);
        } else {
            assert(digits[k] == c);
        }
    }
}

/// The new name of a setting wins over the old one, and the old one counts where the new
/// one is not there. The same holds of the default path, where only what exists counts.
pub proof fn law_new_names_win(
    primary: Setting,
    legacy: Setting,
    r: Setting,
    first: Option<String>,
    second: Option<String>,
    chosen: Option<String>,
    new_path: &str,
    old_path: &str,
    new_exists: bool,
    old_exists: bool,
    path: String,
)
    requires
        call_ensures(var, (primary, legacy), r),
        call_ensures(var_os, (first, second), chosen),
        call_ensures(default_path, (new_path, old_path, new_exists, old_exists), path),
    ensures
        !(primary is Missing) ==> r == primary,
        primary is Missing ==> r == legacy,
        first is Some ==> chosen == first,
        first is None ==> chosen == second,
        new_exists || !old_exists ==> path@ == new_path@,
        !new_exists && old_exists ==> path@ == old_path@,
{
}

} // verus!
