//! Configuration of the delivery backend and the sidecar process.

use vstd::prelude::*;
use vstd::string::StringExecFns;

verus! {

/// The backend project identifier a configuration denotes.
pub open spec fn project_view(c: WeaveConfig) -> Seq<char> {
    c.entity@ + seq!['/'] + c.project@
}

/// Backend coordinates and sidecar paths. The caller assembles this from
/// its environment; the library only derives values from it.
pub struct WeaveConfig {
    pub entity: String,
    pub project: String,
    pub base_url: String,
    pub api_key: String,
    pub binary_path: String,
    pub socket_path: String,
}

impl WeaveConfig {
    /// The backend project identifier, `entity/project`.
    pub fn project_id(&self) -> (r: String)
        ensures
            r@ == project_view(*self),
    {
        let r = self.entity.clone().concat("/").concat(self.project.as_str());
        proof {
            reveal_strlit("/");
            assert("/"@ =~= seq!['/']);
        }
        r
    }
}

} // verus!
