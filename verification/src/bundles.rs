use vstd::prelude::*;

use crate::error::Error;

verus! {

/// Whether the locator holds at least one path separator.
pub open spec fn contains_slash(s: Seq<char>) -> bool {
    exists|i: int| 0 <= i < s.len() && s[i] == '/'
}

/// The final path segment: everything after the last separator, or the whole
/// string when it has none.
pub open spec fn after_last_slash(s: Seq<char>) -> Seq<char>
    decreases s.len(),
{
    if s.len() == 0 {
        s
    } else if s.last() == '/' {
        Seq::empty()
    } else {
        after_last_slash(s.drop_last()).push(s.last())
    }
}

/// Whether the sequence ends with the given suffix.
pub open spec fn ends_with(s: Seq<char>, suffix: Seq<char>) -> bool {
    s.len() >= suffix.len() && s.skip(s.len() - suffix.len()) == suffix
}

/// The version-control suffix a clone URL carries.
pub open spec fn git_suffix() -> Seq<char> {
    ".git"@
}

/// The display name a locator yields: its final path segment with a trailing
/// version-control suffix stripped.
pub open spec fn locator_name(s: Seq<char>) -> Seq<char> {
    let seg = after_last_slash(s);
    if ends_with(seg, git_suffix()) {
        seg.take(seg.len() - 4)
    } else {
        seg
    }
}

/// The clone URL a locator yields: the locator itself when it already carries
/// the version-control suffix, else the locator expanded against the fixed
/// hosting template.
pub open spec fn locator_url(s: Seq<char>) -> Seq<char> {
    if ends_with(s, git_suffix()) {
        s
    } else {
        "https://github.com/"@ + s + git_suffix()
    }
}

/// A remote locator normalized into its display name and clone URL.
#[derive(Debug, Clone)]
pub struct ParsedBundleUrl {
    pub bundle_name: String,
    pub bundle_url: String,
}

impl PartialEq for ParsedBundleUrl {
    fn eq(&self, other: &ParsedBundleUrl) -> (r: bool) {
        self.bundle_name.eq(&other.bundle_name) && self.bundle_url.eq(&other.bundle_url)
    }
}

impl vstd::std_specs::cmp::PartialEqSpecImpl for ParsedBundleUrl {
    open spec fn obeys_eq_spec() -> bool {
        true
    }

    open spec fn eq_spec(&self, other: &ParsedBundleUrl) -> bool {
        self.bundle_name@ == other.bundle_name@ && self.bundle_url@ == other.bundle_url@
    }
}

proof fn lemma_after_last_slash(s: Seq<char>, q: int)
    requires
        0 <= q <= s.len(),
        forall|k: int| q <= k < s.len() ==> s[k] != '/',
        q > 0 ==> s[q - 1] == '/',
    ensures
        after_last_slash(s) == s.skip(q),
    decreases s.len(),
{
    if s.len() == 0 {
        assert(s.skip(0) =~= s);
    } else if q == s.len() {
        assert(s.last() == '/');
        assert(s.skip(q) =~= Seq::empty());
    } else {
        assert(s.last() != '/');
        lemma_after_last_slash(s.drop_last(), q);
        assert(s.drop_last().skip(q).push(s.last()) =~= s.skip(q));
    }
}

fn str_ends_with_git(url: &str, len: usize) -> (r: bool)
    requires
        len == url@.len(),
    ensures
        r == ends_with(url@, git_suffix()),
{
    proof {
        reveal_strlit(".git");
    }
    if len < 4 {
        return false;
    }
    let r = url.get_char(len - 4) == '.' && url.get_char(len - 3) == 'g' && url.get_char(len - 2)
        == 'i' && url.get_char(len - 1) == 't';
    proof {
        if r {
            assert(url@.skip(len - 4) =~= git_suffix());
        } else {
            if url@.skip(len - 4) == git_suffix() {
                assert(url@[len - 4] == git_suffix()[0]);
                assert(url@[len - 3] == git_suffix()[1]);
                assert(url@[len - 2] == git_suffix()[2]);
                assert(url@[len - 1] == git_suffix()[3]);
            }
        }
    }
    r
}

/// Normalizes a remote locator: derives the display name from the final path
/// segment and expands shorthand locators into full clone URLs. A locator
/// with no path separator is rejected: no display name can be derived.
pub fn parse_bundle_url(url: String) -> (r: Result<ParsedBundleUrl, Error>)
    ensures
        contains_slash(url@) ==> (r matches Ok(p) && p.bundle_name@ == locator_name(url@)
            && p.bundle_url@ == locator_url(url@)),
        !contains_slash(url@) ==> r == Err::<ParsedBundleUrl, Error>(Error::InvalidLocator),
{
    let len = url.as_str().unicode_len();
    let mut q: usize = len;
    while q > 0 && url.as_str().get_char(q - 1) != '/'
        invariant
            q <= len,
            len == url@.len(),
            forall|k: int| q <= k < len ==> url@[k] != '/',
        decreases q,
    {
        q = q - 1;
    }
    if q == 0 {
        proof {
            assert(!contains_slash(url@));
        }
        return Err(Error::InvalidLocator);
    }
    proof {
        assert(url@[q - 1] == '/');
        assert(contains_slash(url@));
        lemma_after_last_slash(url@, q as int);
    }
    let ghost seg = after_last_slash(url@);
    let has_git_suffix = str_ends_with_git(url.as_str(), len);
    proof {
        reveal_strlit(".git");
        if has_git_suffix {
            // the suffix holds no separator, so it lies inside the last segment
            assert(url@[len - 4] == '.' && url@[len - 3] == 'g' && url@[len - 2] == 'i' && url@[
                len - 1] == 't') by {
                assert(url@.skip(len - 4) == git_suffix());
                assert(url@.skip(len - 4)[0] == url@[len - 4]);
                assert(url@.skip(len - 4)[1] == url@[len - 3]);
                assert(url@.skip(len - 4)[2] == url@[len - 2]);
                assert(url@.skip(len - 4)[3] == url@[len - 1]);
            }
            assert(q <= len - 4) by {
                if q > len - 4 {
                    assert(url@[q - 1] == '/');
                }
            }
            assert(seg.len() == len - q);
            assert(ends_with(seg, git_suffix())) by {
                assert(seg.skip(seg.len() - 4) =~= url@.skip(len - 4));
            }
        } else {
            if ends_with(seg, git_suffix()) {
                assert(seg.skip(seg.len() - 4) =~= url@.skip(len - 4));
            }
            assert(!ends_with(seg, git_suffix()));
        }
    }
    let bundle_name = if has_git_suffix {
        let t = url.as_str().substring_char(q, len - 4);
        proof {
            assert(t@ =~= seg.take(seg.len() - 4));
        }
        t.to_owned()
    } else {
        let t = url.as_str().substring_char(q, len);
        proof {
            assert(t@ =~= seg);
        }
        t.to_owned()
    };
    let bundle_url = if has_git_suffix {
        url
    } else {
        "https://github.com/".to_owned().concat(url.as_str()).concat(".git")
    };
    Ok(ParsedBundleUrl { bundle_name, bundle_url })
}

/// Which tag an install checks out: the newest listed version, but only when
/// at least two versions were discovered; a single tag or none at all leaves
/// the clone on its default branch.
pub fn checkout_target(versions: &Vec<String>) -> (r: Option<String>)
    ensures
        versions@.len() > 1 ==> (r matches Some(v) && v == versions@[0]),
        versions@.len() <= 1 ==> r is None,
{
    if versions.len() > 1 {
        Some(versions[0].clone())
    } else {
        None
    }
}

/// A fault reported while listing a remote's references: either the remote's
/// listing was malformed, or the connection itself failed.
#[derive(Debug, Clone, PartialEq)]
pub struct RemoteFault {
    pub protocol: bool,
    pub message: String,
}

/// Where an install stands: which step runs next, or how it ended.
#[derive(Debug, Clone, PartialEq)]
pub enum InstallState {
    /// Listing the remote's versions, before anything touches the disk.
    ListingVersions,
    /// Cloning the repository; the checkout decision has been taken.
    Cloning { checkout: Option<String> },
    /// Checking out the chosen version of the fresh clone.
    CheckingOut { version: String },
    /// Installing the runtime dependencies of the checked-out tree.
    InstallingDependencies,
    Complete,
    Failed(Error),
}

/// The outcome of one install step, reported back to the flow.
#[derive(Debug, PartialEq)]
pub enum InstallEvent {
    VersionsListed(Result<Vec<String>, RemoteFault>),
    CloneFinished(Result<(), String>),
    CheckoutFinished(Result<(), String>),
    DependenciesInstalled(Result<(), String>),
}

/// How an install advances: steps run strictly in order; each step's failure
/// ends the flow with the error scoped to that step, and what earlier steps
/// built stays as it is. A version set of size two or more pins the clone to
/// its newest entry; a smaller set skips the checkout step entirely.
pub open spec fn install_next(s: InstallState, e: InstallEvent) -> InstallState {
    match (s, e) {
        (InstallState::ListingVersions, InstallEvent::VersionsListed(Ok(vs))) => {
            if vs@.len() > 1 {
                InstallState::Cloning { checkout: Some(vs@[0]) }
            } else {
                InstallState::Cloning { checkout: None }
            }
        },
        (InstallState::ListingVersions, InstallEvent::VersionsListed(Err(f))) => {
            if f.protocol {
                InstallState::Failed(Error::RemoteProtocolError(f.message))
            } else {
                InstallState::Failed(Error::RemoteConnectFailed(f.message))
            }
        },
        (InstallState::Cloning { checkout }, InstallEvent::CloneFinished(Ok(()))) => {
            match checkout {
                Some(v) => InstallState::CheckingOut { version: v },
                None => InstallState::InstallingDependencies,
            }
        },
        (InstallState::Cloning { .. }, InstallEvent::CloneFinished(Err(c))) => {
            InstallState::Failed(Error::CloneFailed(c))
        },
        (InstallState::CheckingOut { .. }, InstallEvent::CheckoutFinished(Ok(()))) => {
            InstallState::InstallingDependencies
        },
        (InstallState::CheckingOut { .. }, InstallEvent::CheckoutFinished(Err(c))) => {
            InstallState::Failed(Error::CheckoutFailed(c))
        },
        (InstallState::InstallingDependencies, InstallEvent::DependenciesInstalled(Ok(()))) => {
            InstallState::Complete
        },
        (InstallState::InstallingDependencies, InstallEvent::DependenciesInstalled(Err(c))) => {
            InstallState::Failed(Error::DependencyInstallFailed(c))
        },
        (s2, _) => s2,
    }
}

/// Advances an install by one reported step outcome. An event that does not
/// belong to the current step leaves the state unchanged.
pub fn install_advance(state: InstallState, event: InstallEvent) -> (r: InstallState)
    ensures
        r == install_next(state, event),
{
    match (state, event) {
        (InstallState::ListingVersions, InstallEvent::VersionsListed(Ok(vs))) => {
            InstallState::Cloning { checkout: checkout_target(&vs) }
        },
        (InstallState::ListingVersions, InstallEvent::VersionsListed(Err(f))) => {
            if f.protocol {
                InstallState::Failed(Error::RemoteProtocolError(f.message))
            } else {
                InstallState::Failed(Error::RemoteConnectFailed(f.message))
            }
        },
        (InstallState::Cloning { checkout }, InstallEvent::CloneFinished(Ok(()))) => {
            match checkout {
                Some(v) => InstallState::CheckingOut { version: v },
                None => InstallState::InstallingDependencies,
            }
        },
        (InstallState::Cloning { .. }, InstallEvent::CloneFinished(Err(c))) => {
            InstallState::Failed(Error::CloneFailed(c))
        },
        (InstallState::CheckingOut { .. }, InstallEvent::CheckoutFinished(Ok(()))) => {
            InstallState::InstallingDependencies
        },
        (InstallState::CheckingOut { .. }, InstallEvent::CheckoutFinished(Err(c))) => {
            InstallState::Failed(Error::CheckoutFailed(c))
        },
        (InstallState::InstallingDependencies, InstallEvent::DependenciesInstalled(Ok(()))) => {
            InstallState::Complete
        },
        (InstallState::InstallingDependencies, InstallEvent::DependenciesInstalled(Err(c))) => {
            InstallState::Failed(Error::DependencyInstallFailed(c))
        },
        (s2, _) => s2,
    }
}

/// The checkout threshold of an install: at most one listed version decides
/// against any checkout, and the clone then moves straight to dependency
/// installation, never entering the checking-out step; two or more versions
/// pin the checkout to the newest listed one.
pub proof fn lemma_install_checkout_rule(vs: Vec<String>)
    ensures
        vs@.len() <= 1 ==> install_next(
            InstallState::ListingVersions,
            InstallEvent::VersionsListed(Ok(vs)),
        ) == (InstallState::Cloning { checkout: None }),
        vs@.len() > 1 ==> install_next(
            InstallState::ListingVersions,
            InstallEvent::VersionsListed(Ok(vs)),
        ) == (InstallState::Cloning { checkout: Some(vs@[0]) }),
        install_next(
            InstallState::Cloning { checkout: None },
            InstallEvent::CloneFinished(Ok(())),
        ) == InstallState::InstallingDependencies,
{
}

/// Where a version change of an installed bundle stands.
#[derive(Debug, Clone, PartialEq)]
pub enum SetVersionState {
    /// Checking that the bundle is installed at all, before opening anything.
    CheckingInstalled,
    /// Opening the installed repository.
    Opening,
    /// Fetching from the governing remote, with all remote tags downloaded.
    Fetching,
    /// Checking out the requested version among the fetched refs.
    CheckingOut,
    /// Installing the runtime dependencies of the checked-out tree.
    InstallingDependencies,
    Complete,
    Failed(Error),
}

/// The outcome of one step of a version change, reported back to the flow.
#[derive(Debug, PartialEq)]
pub enum SetVersionEvent {
    /// Whether the bundle's installation path exists.
    InstallChecked(bool),
    Opened(Result<(), String>),
    Fetched(Result<(), String>),
    CheckedOut(Result<(), String>),
    DependenciesInstalled(Result<(), String>),
}

/// How a version change advances: the installation check comes first and a
/// missing installation is its own failure, distinct from a repository that
/// exists but cannot be opened; later steps fail with the error scoped to
/// them, and nothing already done is rolled back.
pub open spec fn set_version_next(
    s: SetVersionState,
    e: SetVersionEvent,
    bundle_name: String,
) -> SetVersionState {
    match (s, e) {
        (SetVersionState::CheckingInstalled, SetVersionEvent::InstallChecked(true)) => {
            SetVersionState::Opening
        },
        (SetVersionState::CheckingInstalled, SetVersionEvent::InstallChecked(false)) => {
            SetVersionState::Failed(Error::NotInstalled(bundle_name))
        },
        (SetVersionState::Opening, SetVersionEvent::Opened(Ok(()))) => SetVersionState::Fetching,
        (SetVersionState::Opening, SetVersionEvent::Opened(Err(c))) => {
            SetVersionState::Failed(Error::RepositoryOpenFailed(c))
        },
        (SetVersionState::Fetching, SetVersionEvent::Fetched(Ok(()))) => {
            SetVersionState::CheckingOut
        },
        (SetVersionState::Fetching, SetVersionEvent::Fetched(Err(c))) => {
            SetVersionState::Failed(Error::FetchFailed(c))
        },
        (SetVersionState::CheckingOut, SetVersionEvent::CheckedOut(Ok(()))) => {
            SetVersionState::InstallingDependencies
        },
        (SetVersionState::CheckingOut, SetVersionEvent::CheckedOut(Err(c))) => {
            SetVersionState::Failed(Error::CheckoutFailed(c))
        },
        (
            SetVersionState::InstallingDependencies,
            SetVersionEvent::DependenciesInstalled(Ok(())),
        ) => SetVersionState::Complete,
        (
            SetVersionState::InstallingDependencies,
            SetVersionEvent::DependenciesInstalled(Err(c)),
        ) => SetVersionState::Failed(Error::DependencyInstallFailed(c)),
        (s2, _) => s2,
    }
}

/// Advances a version change by one reported step outcome. An event that
/// does not belong to the current step leaves the state unchanged.
pub fn set_version_advance(
    state: SetVersionState,
    event: SetVersionEvent,
    bundle_name: &String,
) -> (r: SetVersionState)
    ensures
        r == set_version_next(state, event, *bundle_name),
{
    match (state, event) {
        (SetVersionState::CheckingInstalled, SetVersionEvent::InstallChecked(true)) => {
            SetVersionState::Opening
        },
        (SetVersionState::CheckingInstalled, SetVersionEvent::InstallChecked(false)) => {
            SetVersionState::Failed(Error::NotInstalled(bundle_name.clone()))
        },
        (SetVersionState::Opening, SetVersionEvent::Opened(Ok(()))) => SetVersionState::Fetching,
        (SetVersionState::Opening, SetVersionEvent::Opened(Err(c))) => {
            SetVersionState::Failed(Error::RepositoryOpenFailed(c))
        },
        (SetVersionState::Fetching, SetVersionEvent::Fetched(Ok(()))) => {
            SetVersionState::CheckingOut
        },
        (SetVersionState::Fetching, SetVersionEvent::Fetched(Err(c))) => {
            SetVersionState::Failed(Error::FetchFailed(c))
        },
        (SetVersionState::CheckingOut, SetVersionEvent::CheckedOut(Ok(()))) => {
            SetVersionState::InstallingDependencies
        },
        (SetVersionState::CheckingOut, SetVersionEvent::CheckedOut(Err(c))) => {
            SetVersionState::Failed(Error::CheckoutFailed(c))
        },
        (
            SetVersionState::InstallingDependencies,
            SetVersionEvent::DependenciesInstalled(Ok(())),
        ) => SetVersionState::Complete,
        (
            SetVersionState::InstallingDependencies,
            SetVersionEvent::DependenciesInstalled(Err(c)),
        ) => SetVersionState::Failed(Error::DependencyInstallFailed(c)),
        (s2, _) => s2,
    }
}

/// How a read-only query of an installed bundle (its version catalog, its
/// current tag) proceeds.
#[derive(Debug, PartialEq)]
pub enum BundleQuery {
    /// The query fails before any git work.
    Failed(Error),
    /// The path exists but holds no repository: the query's empty answer
    /// (an empty catalog, no tag).
    NoRepository,
    /// An opened repository: the query proceeds against it.
    Proceed,
}

/// How a bundle query begins, decided from the caller's checks.
pub open spec fn bundle_query_spec(
    bundle_name: String,
    path_exists: bool,
    opened: Result<bool, String>,
) -> BundleQuery {
    if !path_exists {
        BundleQuery::Failed(Error::NotInstalled(bundle_name))
    } else {
        match opened {
            Err(c) => BundleQuery::Failed(Error::RepositoryOpenFailed(c)),
            Ok(false) => BundleQuery::NoRepository,
            Ok(true) => BundleQuery::Proceed,
        }
    }
}

/// Decides a versions or tag query from the installation checks: a missing
/// path is `NotInstalled`; an existing path that cannot be opened fails as
/// `RepositoryOpenFailed`; one that holds no repository yields the query's
/// empty answer; an opened repository lets the query proceed. `opened`
/// reports the open attempt — whether a repository was found, or why the
/// open failed — and is consulted only when the path exists.
pub fn bundle_query(
    bundle_name: &String,
    path_exists: bool,
    opened: Result<bool, String>,
) -> (r: BundleQuery)
    ensures
        r == bundle_query_spec(*bundle_name, path_exists, opened),
{
    if !path_exists {
        BundleQuery::Failed(Error::NotInstalled(bundle_name.clone()))
    } else {
        match opened {
            Err(c) => BundleQuery::Failed(Error::RepositoryOpenFailed(c)),
            Ok(false) => BundleQuery::NoRepository,
            Ok(true) => BundleQuery::Proceed,
        }
    }
}

/// The outcome of removing an installation directory: a path that does not
/// exist counts as already uninstalled; a removal fault is surfaced with its
/// cause attached.
pub fn uninstall_outcome(path_missing: bool, removal_error: Option<String>) -> (r: Result<
    (),
    Error,
>)
    ensures
        path_missing ==> r is Ok,
        !path_missing ==> (match removal_error {
            None => r is Ok,
            Some(c) => r == Err::<(), Error>(Error::UninstallFailed(c)),
        }),
{
    if path_missing {
        Ok(())
    } else {
        match removal_error {
            None => Ok(()),
            Some(c) => Err(Error::UninstallFailed(c)),
        }
    }
}

} // verus!
