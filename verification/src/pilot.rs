use vstd::prelude::*;
use vstd::string::*;

use crate::launch::{parsed_url2, try_parse_url2};

verus! {

/// Why the command-line arguments of the pilot app are refused.
#[derive(Clone, Copy, Debug, PartialEq, Eq)]
pub enum PilotArgsError {
    /// `--signal-url` was given without `--bootstrap-url`.
    SignalUrlWithoutBootstrapUrl,
    /// `--bootstrap-url` was given without `--signal-url`.
    BootstrapUrlWithoutSignalUrl,
}

impl PilotArgsError {
    /// The message with which the pilot app stops.
    pub fn message(&self) -> (m: String)
        ensures
            m@ == (match self {
                PilotArgsError::SignalUrlWithoutBootstrapUrl => "Invalid arguments: --signal-url was provided without --bootstrap-url"@,
                PilotArgsError::BootstrapUrlWithoutSignalUrl => "Invalid arguments: --bootstrap-url was provided without --signal-url"@,
            }),
    {
        match self {
            PilotArgsError::SignalUrlWithoutBootstrapUrl => String::from_str(
                "Invalid arguments: --signal-url was provided without --bootstrap-url",
            ),
            PilotArgsError::BootstrapUrlWithoutSignalUrl => String::from_str(
                "Invalid arguments: --bootstrap-url was provided without --signal-url",
            ),
        }
    }
}

/// The signal and bootstrap URLs that replace the default network: both or neither must be
/// given; `None` keeps the default network.
pub fn network_urls(signal_url: Option<String>, bootstrap_url: Option<String>) -> (r: Result<
    Option<(String, String)>,
    PilotArgsError,
>)
    ensures
        match (signal_url, bootstrap_url) {
            (Some(s), Some(b)) => r matches Ok(Some((s2, b2))) && s2@ == s@ && b2@ == b@,
            (Some(_), None) => r == Err::<Option<(String, String)>, _>(
                PilotArgsError::SignalUrlWithoutBootstrapUrl,
            ),
            (None, Some(_)) => r == Err::<Option<(String, String)>, _>(
                PilotArgsError::BootstrapUrlWithoutSignalUrl,
            ),
            (None, None) => r matches Ok(None),
        },
{
    match (signal_url, bootstrap_url) {
        (Some(s), Some(b)) => Ok(Some((s, b))),
        (Some(_), None) => Err(PilotArgsError::SignalUrlWithoutBootstrapUrl),
        (None, Some(_)) => Err(PilotArgsError::BootstrapUrlWithoutSignalUrl),
        (None, None) => Ok(None),
    }
}

/// The URL of the development server of the UI, on `localhost` at `ui_port`; `None` where
/// that text does not parse as a URL.
pub fn dev_url(ui_port: &String) -> (r: Option<String>)
    ensures
        match r {
            Some(u) => parsed_url2("http://localhost:"@ + ui_port@) == Some(u@),
            None => parsed_url2("http://localhost:"@ + ui_port@) is None,
        },
{
    let mut text = String::from_str("http://localhost:");
    text.append(ui_port.as_str());
    match try_parse_url2(text.as_str()) {
        Ok(u) => Some(u),
        Err(_) => None,
    }
}

} // verus!
