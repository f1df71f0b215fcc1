//! What the user has chosen.
use vstd::prelude::*;

verus! {

/// The choices that are kept between runs.
#[derive(Clone, Copy, Debug, PartialEq, Eq, Structural)]
pub struct UserSettings {
    pub clipboard_enabled: bool,
    pub lan_enabled: bool,
    pub lan_setup_decided: bool,
}

impl Default for UserSettings {
    /// The clipboard is shared, and the local network is not used until the user says so.
    fn default() -> (r: Self)
        ensures
            r.clipboard_enabled,
            !r.lan_enabled,
            !r.lan_setup_decided,
    {
        UserSettings { clipboard_enabled: true, lan_enabled: false, lan_setup_decided: false }
    }
}

/// The settings after a look at the file: those that it holds, or the defaults where it is
/// missing or cannot be read.
pub fn settings_or_default(stored: Option<UserSettings>) -> (r: UserSettings)
    ensures
        match stored {
            Some(settings) => r == settings,
            None => r.clipboard_enabled && !r.lan_enabled && !r.lan_setup_decided,
        },
{
    match stored {
        Some(settings) => settings,
        None => UserSettings::default(),
    }
}

/// What was stored is taken as it is; a new user shares the clipboard, is not in the local network,
/// and has yet to decide about it.
pub proof fn law_stored_settings_are_taken(stored: Option<UserSettings>, r: UserSettings)
    requires
        call_ensures(settings_or_default, (stored,), r),
    ensures
        stored matches Some(settings) ==> r.clipboard_enabled == settings.clipboard_enabled
            && r.lan_enabled == settings.lan_enabled && r.lan_setup_decided
            == settings.lan_setup_decided,
        stored is None ==> r.clipboard_enabled && !r.lan_enabled && !r.lan_setup_decided,
{
}

} // verus!
