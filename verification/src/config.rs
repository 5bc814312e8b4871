use vstd::prelude::*;

verus! {

/// The persisted user configuration. The store that holds it lives outside
/// the library; callers hand the decoded value in and write the value back.
#[derive(Clone, Debug)]
pub struct UserConfig {
    /// Where NodeCG is installed, if the user has picked a directory yet.
    pub nodecg_install_path: Option<String>,
    /// Whether failures should additionally be written to an error log.
    pub enable_error_log: bool,
}

impl Default for UserConfig {
    /// A fresh configuration: no install directory chosen, error log off.
    fn default() -> (r: UserConfig)
        ensures
            r.nodecg_install_path is None,
            r.enable_error_log == false,
    {
        UserConfig { nodecg_install_path: None, enable_error_log: false }
    }
}

} // verus!
