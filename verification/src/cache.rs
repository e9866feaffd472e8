use vstd::prelude::*;
use vstd::string::StringExecFns;

verus! {

/// The cache root derived from the user's home directory, or the temporary
/// fallback when no home directory is known.
pub open spec fn spec_cache_root(home: Option<Seq<char>>) -> Seq<char> {
    match home {
        Some(h) => h + "/.cache/at/terraform"@,
        None => "/tmp/.cache/at/terraform"@,
    }
}

/// The fixed directory under which every version of the tool is cached:
/// `<home>/.cache/at/terraform`, or `/tmp/.cache/at/terraform` when the
/// home directory is unavailable.
pub fn get_cache_path(home: Option<String>) -> (r: String)
    ensures
        r@ == spec_cache_root(home.deep_view()),
{
    match home {
        Some(h) => {
            let mut s = h;
            s.append("/.cache/at/terraform");
            s
        },
        None => String::from_str("/tmp/.cache/at/terraform"),
    }
}

/// Relies on std::path::Path::exists: whether something exists on disk at
/// `path` right now.  The answer depends on the filesystem, so nothing is
/// promised of it.
#[verifier::external_body]
pub(crate) fn path_exists(path: &str) -> bool {
    std::path::Path::new(path).exists()
}

/// Relies on dirs::home_dir: the user's home directory, when the system
/// reports one whose path is valid text.  The answer depends on the
/// environment, so nothing is promised of it.
#[verifier::external_body]
fn home_dir_string() -> Option<String> {
    match dirs::home_dir() {
        Some(p) => p.into_os_string().into_string().ok(),
        None => None,
    }
}

/// The cache root of this machine: derived from the home directory the
/// environment reports, with the temporary fallback when there is none.
pub fn default_cache_path() -> (r: String)
    ensures
        exists|h: Option<Seq<char>>| r@ == spec_cache_root(h),
{
    let home = home_dir_string();
    let ghost h = home.deep_view();
    let r = get_cache_path(home);
    proof {
        assert(r@ == spec_cache_root(h));
    }
    r
}

/// The on-disk cache of installed binaries under one root directory.
///
/// The cache key is the resolved version string: version `v`'s binary lives
/// at `<root>/<v>/terraform`, created once by a successful install and never
/// mutated afterwards.
pub struct CacheStore {
    pub root: String,
}

impl CacheStore {
    /// The directory that holds version `v`'s install.
    pub open spec fn spec_version_dir(&self, v: Seq<char>) -> Seq<char> {
        self.root@ + "/"@ + v
    }

    /// The canonical path of version `v`'s binary.
    pub open spec fn spec_path_for(&self, v: Seq<char>) -> Seq<char> {
        self.spec_version_dir(v) + "/terraform"@
    }

    pub fn new(root: String) -> (r: CacheStore)
        ensures
            r.root@ == root@,
    {
        CacheStore { root }
    }

    /// The directory into which version `v` is installed: `<root>/<v>`.
    pub fn version_dir(&self, version: &str) -> (r: String)
        ensures
            r@ == self.spec_version_dir(version@),
    {
        let mut s = self.root.clone();
        s.append("/");
        s.append(version);
        s
    }

    /// The canonical binary path of version `v`: `<root>/<v>/terraform`.
    /// Pure path arithmetic; no filesystem access.
    pub fn path_for(&self, version: &str) -> (r: String)
        ensures
            r@ == self.spec_path_for(version@),
    {
        let mut s = self.version_dir(version);
        s.append("/terraform");
        s
    }

    /// Whether version `v`'s binary is already on disk: a fresh filesystem
    /// check on every call.
    pub fn is_cached(&self, version: &str) -> bool {
        let p = self.path_for(version);
        path_exists(p.as_str())
    }

    /// The cached binary's path when it is on disk, and nothing otherwise.
    pub fn locate(&self, version: &str) -> (r: Option<String>)
        ensures
            r matches Some(p) ==> p@ == self.spec_path_for(version@),
    {
        let p = self.path_for(version);
        if path_exists(p.as_str()) {
            Some(p)
        } else {
            None
        }
    }
}

} // verus!
