//! Whether the connection service runs, and what the user has chosen.
use super::{AppState, ListenerHandle};
use crate::ids::Uuid;
use crate::models::ConnectionServiceState;
use crate::settings::UserSettings;
use vstd::prelude::*;

verus! {

impl AppState {
    /// The choices that are to be kept.
    pub open spec fn chosen(&self) -> UserSettings {
        UserSettings {
            clipboard_enabled: self.clipboard_enabled,
            lan_enabled: self.lan_enabled,
            lan_setup_decided: self.lan_setup_decided,
        }
    }

    /// The choices that are to be kept.
    pub fn user_settings(&self) -> (r: UserSettings)
        ensures
            r == self.chosen(),
    {
        UserSettings {
            clipboard_enabled: self.clipboard_enabled,
            lan_enabled: self.lan_enabled,
            lan_setup_decided: self.lan_setup_decided,
        }
    }

    /// Turns the sharing of the clipboard on or off, and gives the settings to be kept.
    pub fn set_clipboard_enabled(&mut self, enabled: bool) -> (r: UserSettings)
        ensures
            *final(self) == (AppState { clipboard_enabled: enabled, ..*old(self) }),
            r == final(self).chosen(),
    {
        self.clipboard_enabled = enabled;
        self.user_settings()
    }

    /// Whether the local network may be used.
    pub fn lan_enabled(&self) -> (r: bool)
        ensures
            r == self.lan_enabled,
    {
        self.lan_enabled
    }

    /// Turns the use of the local network on or off, and gives the settings to be kept.
    pub fn set_lan_enabled(&mut self, enabled: bool) -> (r: UserSettings)
        ensures
            *final(self) == (AppState {
                lan_enabled: enabled,
                lan_setup_decided: true,
                ..*old(self)
            }),
            r == final(self).chosen(),
    {
        self.lan_enabled = enabled;
        self.lan_setup_decided = true;
        self.user_settings()
    }

    /// Notes that the question about the local network was answered, and gives the settings to be
    /// kept.
    pub fn dismiss_lan_setup(&mut self) -> (r: UserSettings)
        ensures
            *final(self) == (AppState { lan_setup_decided: true, ..*old(self) }),
            r == final(self).chosen(),
    {
        self.lan_setup_decided = true;
        self.user_settings()
    }

    /// The state of the connection service.
    pub fn connection_service_state(&self) -> (r: ConnectionServiceState)
        ensures
            r == self.connection_service_state,
    {
        self.connection_service_state
    }

    /// Connections are accepted in this state.
    pub open spec fn accepts(value: ConnectionServiceState) -> bool {
        value is Starting || value is Running
    }

    /// Moves the connection service to a state.
    pub fn set_connection_service_state(&mut self, value: ConnectionServiceState)
        ensures
            *final(self) == (AppState {
                connection_service_state: value,
                listening: AppState::accepts(value),
                ..*old(self)
            }),
    {
        self.connection_service_state = value;
        self.listening = !matches!(
            value,
            ConnectionServiceState::Stopped | ConnectionServiceState::Stopping
        );
    }

    /// Starts a round of retries under a fresh token; an earlier round ends.
    pub fn begin_service_retry(&mut self) -> (r: Uuid)
        ensures
            r.is_random(),
            *final(self) == (AppState { service_retry_token: Some(r), ..*old(self) }),
    {
        let token = Uuid::new_v4();
        self.service_retry_token = Some(token);
        token
    }

    /// Whether the round of retries with this token goes on.
    pub fn service_retry_active(&self, token: Uuid) -> (r: bool)
        ensures
            r == (self.service_retry_token == Some(token) && self.listening),
    {
        let current = match self.service_retry_token {
            Some(active) => active == token,
            None => false,
        };
        current && self.receiver_enabled()
    }

    /// Ends the round of retries.
    pub fn cancel_service_retry(&mut self)
        ensures
            *final(self) == (AppState { service_retry_token: None, ..*old(self) }),
    {
        self.service_retry_token = None;
    }

    /// Notes whether the Bluetooth service runs.
    pub fn set_listener(&mut self, listener: Option<ListenerHandle>)
        ensures
            *final(self) == (AppState { listener, ..*old(self) }),
    {
        self.listener = listener;
    }

    /// Notes what is wrong with the Bluetooth service.
    pub fn set_bluetooth_error(&mut self, error: Option<String>)
        ensures
            *final(self) == (AppState { bluetooth_error: error, ..*old(self) }),
    {
        self.bluetooth_error = error;
    }

    /// Notes what is wrong with the discovery service.
    pub fn set_discovery_error(&mut self, error: Option<String>)
        ensures
            *final(self) == (AppState { discovery_error: error, ..*old(self) }),
    {
        self.discovery_error = error;
    }
}

/// What the user has chosen is what is chosen from then on, and one choice leaves the others.
pub proof fn law_choices_are_kept(
    app: &mut AppState,
    next: &mut AppState,
    clipboard: bool,
    lan: bool,
    first: UserSettings,
    second: UserSettings,
    read: UserSettings,
    lan_read: bool,
)
    requires
        call_ensures(AppState::set_clipboard_enabled, (app, clipboard), first),
        *next == *final(app),
        call_ensures(AppState::set_lan_enabled, (next, lan), second),
        call_ensures(AppState::user_settings, (final(next),), read),
        call_ensures(AppState::lan_enabled, (final(next),), lan_read),
    ensures
        first.clipboard_enabled == clipboard,
        first.lan_enabled == old(app).lan_enabled,
        first.lan_setup_decided == old(app).lan_setup_decided,
        read.clipboard_enabled == clipboard,
        read.lan_enabled == lan,
        read.lan_setup_decided,
        second == read,
        lan_read == lan,
        final(next).clipboard_enabled == clipboard,
{
}

/// To put off the choice about the local network leaves it as it is, and the user is not asked
/// again.
pub proof fn law_put_off_choice_is_not_asked_again(app: &mut AppState, r: UserSettings)
    requires
        call_ensures(AppState::dismiss_lan_setup, (app,), r),
    ensures
        r.lan_setup_decided,
        r.lan_enabled == old(app).lan_enabled,
        r.clipboard_enabled == old(app).clipboard_enabled,
        final(app).lan_enabled == old(app).lan_enabled,
{
}

/// The service takes connections exactly while it starts or runs.
pub proof fn law_running_service_listens(
    app: &mut AppState,
    value: ConnectionServiceState,
    listens: bool,
    read: ConnectionServiceState,
)
    requires
        call_ensures(AppState::set_connection_service_state, (app, value), ()),
        call_ensures(AppState::receiver_enabled, (final(app),), listens),
        call_ensures(AppState::connection_service_state, (final(app),), read),
    ensures
        listens <==> value is Starting || value is Running,
        read == value,
{
}

/// Only the latest attempt to start the service again goes on, and none after it was given up or
/// while nothing is listened for.
pub proof fn law_latest_retry_goes_on(
    app: &mut AppState,
    next: &mut AppState,
    token: Uuid,
    earlier: Uuid,
    now: bool,
    before: bool,
    after: bool,
)
    requires
        call_ensures(AppState::begin_service_retry, (app,), token),
        call_ensures(AppState::service_retry_active, (final(app), token), now),
        call_ensures(AppState::service_retry_active, (final(app), earlier), before),
        *next == *final(app),
        call_ensures(AppState::cancel_service_retry, (next,), ()),
        call_ensures(AppState::service_retry_active, (final(next), token), after),
        earlier != token,
    ensures
        now == old(app).listening,
        !before,
        !after,
{
}

} // verus!
