use vstd::prelude::*;

verus! {

/// Why updating the coordinator zomes of an installed app failed.
#[derive(Debug)]
pub enum UpdateAppError {
    /// No connection to the admin websocket could be made.
    WebsocketError,
    /// No app with the given id is installed.
    AppNotFound(String),
    /// A role of the new bundle is not a role of the installed app: the role, then the app.
    RoleNotFound(String, String),
}

/// Errors of the Holochain runtime.
#[derive(Debug)]
pub enum Error {
    /// No app with the given id has been installed.
    AppDoesNotExist(String),
    /// The app with the given id was installed without a UI.
    AppDoesNotHaveUIError(String),
    /// The admin websocket could not be reached.
    AdminWebsocketError(String),
    /// An update of an app failed.
    UpdateAppError(UpdateAppError),
}

} // verus!
