use vstd::prelude::*;

verus! {

/// The closed set of failures the library reports. Each variant is scoped to
/// the operation that failed; most carry the underlying cause as text so a
/// caller can render a user-facing message.
#[derive(Clone, Debug, PartialEq, Eq)]
pub enum Error {
    /// A remote locator held no path separator, so no display name can be derived.
    InvalidLocator,
    /// Network or authentication fault while connecting to a remote.
    RemoteConnectFailed(String),
    /// The remote produced a malformed reference listing.
    RemoteProtocolError(String),
    /// Cloning a repository failed; the destination is left as the clone left it.
    CloneFailed(String),
    /// Checking out a revision failed; the repository stays on its previous state.
    CheckoutFailed(String),
    /// Fetching from the governing remote failed.
    FetchFailed(String),
    /// Tags or HEAD could not be read from an opened repository.
    GitReadFailed(String),
    /// A repository exists at the path but could not be opened.
    RepositoryOpenFailed(String),
    /// The operation targets a path with no installed repository; carries the bundle name.
    NotInstalled(String),
    /// The dependency-install step failed; repository and checkout remain valid.
    DependencyInstallFailed(String),
    /// Removing an installation directory failed (permissions, in-use files).
    UninstallFailed(String),
    /// A start was requested while a live supervised process is already held.
    AlreadyRunning,
    /// A stop was requested but the termination signal failed; carries the cause.
    KillFailed(String),
}

/// The message text that `Error::message` renders for an error value.
pub open spec fn error_message(e: Error) -> Seq<char> {
    match e {
        Error::InvalidLocator => "Invalid bundle URL provided."@,
        Error::RemoteConnectFailed(c) => "Failed to connect to remote: "@ + c@,
        Error::RemoteProtocolError(c) => "Malformed reference listing from remote: "@ + c@,
        Error::CloneFailed(c) => "Failed to clone repository: "@ + c@,
        Error::CheckoutFailed(c) => "Failed to check out version: "@ + c@,
        Error::FetchFailed(c) => "Failed to fetch from remote: "@ + c@,
        Error::GitReadFailed(c) => "Failed to read repository state: "@ + c@,
        Error::RepositoryOpenFailed(c) => "Failed to open repository: "@ + c@,
        Error::NotInstalled(p) => "Bundle "@ + p@ + " is not installed."@,
        Error::DependencyInstallFailed(c) => "Error installing npm dependencies: "@ + c@,
        Error::UninstallFailed(c) => "Failed to uninstall bundle: "@ + c@,
        Error::AlreadyRunning => "NodeCG is already running."@,
        Error::KillFailed(c) => "Failed to stop NodeCG: "@ + c@,
    }
}

impl Error {
    /// Renders the error as display text, one fixed phrase per variant with
    /// the cause appended where one is carried.
    pub fn message(&self) -> (r: String)
        ensures
            r@ == error_message(*self),
    {
        match self {
            Error::InvalidLocator => "Invalid bundle URL provided.".to_owned(),
            Error::RemoteConnectFailed(c) => "Failed to connect to remote: ".to_owned().concat(
                c.as_str(),
            ),
            Error::RemoteProtocolError(c) => "Malformed reference listing from remote: "
                .to_owned()
                .concat(c.as_str()),
            Error::CloneFailed(c) => "Failed to clone repository: ".to_owned().concat(c.as_str()),
            Error::CheckoutFailed(c) => "Failed to check out version: ".to_owned().concat(
                c.as_str(),
            ),
            Error::FetchFailed(c) => "Failed to fetch from remote: ".to_owned().concat(c.as_str()),
            Error::GitReadFailed(c) => "Failed to read repository state: ".to_owned().concat(
                c.as_str(),
            ),
            Error::RepositoryOpenFailed(c) => "Failed to open repository: ".to_owned().concat(
                c.as_str(),
            ),
            Error::NotInstalled(p) => "Bundle ".to_owned().concat(p.as_str()).concat(
                " is not installed.",
            ),
            Error::DependencyInstallFailed(c) => "Error installing npm dependencies: "
                .to_owned()
                .concat(c.as_str()),
            Error::UninstallFailed(c) => "Failed to uninstall bundle: ".to_owned().concat(
                c.as_str(),
            ),
            Error::AlreadyRunning => "NodeCG is already running.".to_owned(),
            Error::KillFailed(c) => "Failed to stop NodeCG: ".to_owned().concat(c.as_str()),
        }
    }
}

} // verus!
