//! The values that the operations share: they are set once by the caller
//! and handed to every operation that reads them.

use crate::results::opt_text;
use vstd::prelude::*;

verus! {

/// The port of the dashboard's load balancer unless the caller names one.
pub const DEFAULT_DASHBOARD_PORT: u16 = 51515;

/// The shared settings of a session.
#[derive(Clone, Debug, PartialEq, Eq)]
pub struct Settings {
    /// The local port on which the dashboard's load balancer listens.
    pub dashboard_port: u16,
    /// The address that the cluster tunnel binds to, where one was set.
    pub bind_address: Option<String>,
    /// The host that new relays connect to unless told otherwise, where one
    /// was set.
    pub default_connect_host: Option<String>,
}

/// The mathematical value of [`Settings`].
pub struct SettingsView {
    pub dashboard_port: u16,
    pub bind_address: Option<Seq<char>>,
    pub default_connect_host: Option<Seq<char>>,
}

impl View for Settings {
    type V = SettingsView;

    open spec fn view(&self) -> SettingsView {
        SettingsView {
            dashboard_port: self.dashboard_port,
            bind_address: opt_text(self.bind_address),
            default_connect_host: opt_text(self.default_connect_host),
        }
    }
}

impl Settings {
    /// The settings of a fresh session: the default port, and no address or
    /// host set.
    pub fn new() -> (settings: Settings)
        ensures
            settings@ == (SettingsView {
                dashboard_port: DEFAULT_DASHBOARD_PORT,
                bind_address: None,
                default_connect_host: None,
            }),
    {
        Settings {
            dashboard_port: DEFAULT_DASHBOARD_PORT,
            bind_address: None,
            default_connect_host: None,
        }
    }
}

/// The value that stands where an optional setting was not set.
pub open spec fn or_default(value: Option<Seq<char>>, default: Seq<char>) -> Seq<char> {
    match value {
        Some(value) => value,
        None => default,
    }
}

/// The setting `value`, or `default` where it was not set.
pub fn setting_or(value: &Option<String>, default: &str) -> (text: String)
    ensures
        text@ == or_default(opt_text(*value), default@),
{
    match value {
        Some(value) => value.clone(),
        None => String::from_str(default),
    }
}

} // verus!
