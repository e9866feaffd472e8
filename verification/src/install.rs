use vstd::prelude::*;
use vstd::string::StrSliceExecFns;
use vstd::string::StringExecFns;

use crate::cache::CacheStore;
use crate::errors::TerraError;

verus! {

/// Whether two pieces of text hold the same characters.
pub fn str_equal(a: &str, b: &str) -> (r: bool)
    ensures
        r == (a@ == b@),
{
    let na = a.unicode_len();
    let nb = b.unicode_len();
    if na != nb {
        return false;
    }
    let mut i: usize = 0;
    while i < na
        invariant
            0 <= i <= na,
            na == a@.len(),
            na == b@.len(),
            forall|j: int| 0 <= j < i ==> a@[j] == b@[j],
        decreases na - i,
    {
        if a.get_char(i) != b.get_char(i) {
            return false;
        }
        i = i + 1;
    }
    proof {
        assert(a@ =~= b@);
    }
    true
}

/// Whether the build's architecture has published release archives: only
/// the two 64-bit architectures do, and there is no fallback.
pub open spec fn valid_arch(arch: Seq<char>) -> bool {
    arch == "x86_64"@ || arch == "aarch64"@
}

/// The operating-system half of the platform identifier: `windows` and
/// `darwin` are recognized, everything else downloads the `linux` build.
pub open spec fn spec_os_token(os: Seq<char>) -> Seq<char> {
    if os == "windows"@ {
        "windows"@
    } else if os == "macos"@ {
        "darwin"@
    } else {
        "linux"@
    }
}

/// The architecture half of the platform identifier.
pub open spec fn spec_arch_token(arch: Seq<char>) -> Seq<char> {
    if arch == "x86_64"@ {
        "amd64"@
    } else {
        "arm64"@
    }
}

/// The `<os>_<arch>` identifier that selects a release archive.
pub open spec fn spec_platform(os: Seq<char>, arch: Seq<char>) -> Seq<char> {
    spec_os_token(os) + "_"@ + spec_arch_token(arch)
}

/// Maps the build's target operating system and architecture to the
/// `<os>_<arch>` identifier of the release archive to download.  An
/// architecture without published archives is a fatal
/// `UnsupportedArchitecture`.
pub fn get_platform_string(os: &str, arch: &str) -> (r: Result<String, TerraError>)
    ensures
        valid_arch(arch@) ==> (r matches Ok(p) && p@ == spec_platform(os@, arch@)),
        !valid_arch(arch@) ==> (r matches Err(e) && e matches TerraError::UnsupportedArchitecture(
            a,
        ) && a@ == arch@),
{
    let os_token: &str = if str_equal(os, "windows") {
        "windows"
    } else if str_equal(os, "macos") {
        "darwin"
    } else {
        "linux"
    };
    let arch_token: &str = if str_equal(arch, "x86_64") {
        "amd64"
    } else if str_equal(arch, "aarch64") {
        "arm64"
    } else {
        return Err(TerraError::UnsupportedArchitecture(String::from_str(arch)));
    };
    let mut s = String::from_str(os_token);
    s.append("_");
    s.append(arch_token);
    Ok(s)
}

/// The release archive's address for one version and platform.
pub open spec fn spec_download_url(version: Seq<char>, platform: Seq<char>) -> Seq<char> {
    "https://releases.hashicorp.com/terraform/"@ + version + "/terraform_"@ + version + "_"@
        + platform + ".zip"@
}

/// Builds the archive URL
/// `https://<release-host>/terraform/<v>/terraform_<v>_<platform>.zip`.
pub fn build_download_url(version: &str, platform: &str) -> (r: String)
    ensures
        r@ == spec_download_url(version@, platform@),
{
    let mut s = String::from_str("https://releases.hashicorp.com/terraform/");
    s.append(version);
    s.append("/terraform_");
    s.append(version);
    s.append("_");
    s.append(platform);
    s.append(".zip");
    s
}

#[verifier::external_type_specification]
#[verifier::external_body]
pub struct ExReqwestResponse(reqwest::blocking::Response);

#[verifier::external_type_specification]
#[verifier::external_body]
pub struct ExReqwestError(reqwest::Error);

#[verifier::external_type_specification]
#[verifier::external_body]
#[verifier::reject_recursive_types(R)]
pub struct ExZipArchive<R>(zip::ZipArchive<R>);

#[verifier::external_type_specification]
#[verifier::external_body]
pub struct ExZipError(zip::result::ZipError);

#[verifier::external_type_specification]
#[verifier::external_body]
#[verifier::reject_recursive_types(T)]
pub struct ExCursor<T>(std::io::Cursor<T>);

#[verifier::external_type_specification]
#[verifier::external_body]
pub struct ExTempDir(tempfile::TempDir);

/// Relies on tempfile::tempdir: creates a scoped temporary directory that
/// is removed from disk when its handle is dropped, on success and failure
/// alike.  Where it lands depends on the environment; nothing is promised.
#[verifier::external_body]
fn make_temp_dir() -> Option<tempfile::TempDir> {
    tempfile::tempdir().ok()
}

/// Relies on tempfile::TempDir::path: the temporary directory's location,
/// as text when the path is valid text.
#[verifier::external_body]
fn temp_dir_path(dir: &tempfile::TempDir) -> Option<String> {
    match dir.path().to_str() {
        Some(s) => Some(s.to_string()),
        None => None,
    }
}

/// Relies on reqwest::blocking::get: one blocking HTTP GET of the given
/// URL.  What comes back depends on the network; nothing is promised of it.
#[verifier::external_body]
fn http_get(url: &str) -> Result<reqwest::blocking::Response, reqwest::Error> {
    reqwest::blocking::get(url)
}

/// Relies on reqwest::blocking::Response::bytes: the response's whole body,
/// read to the end.
#[verifier::external_body]
fn response_bytes(r: reqwest::blocking::Response) -> Result<Vec<u8>, reqwest::Error> {
    match r.bytes() {
        Ok(b) => Ok(b.to_vec()),
        Err(e) => Err(e),
    }
}

/// Relies on zip::ZipArchive::new: opens a zip archive held in memory,
/// reading its central directory.
#[verifier::external_body]
fn zip_open(data: Vec<u8>) -> Result<
    zip::ZipArchive<std::io::Cursor<Vec<u8>>>,
    zip::result::ZipError,
> {
    zip::ZipArchive::new(std::io::Cursor::new(data))
}

/// Relies on zip::ZipArchive::extract: unpacks every entry of the archive
/// into the given directory, creating the directory first when it is
/// missing.
#[verifier::external_body]
fn zip_extract(archive: &mut zip::ZipArchive<std::io::Cursor<Vec<u8>>>, dir: &str) -> Result<
    (),
    zip::result::ZipError,
> {
    archive.extract(dir)
}

/// How a provisioning run obtained the binary.
#[derive(Debug)]
pub enum InstallOutcome {
    /// The binary was already cached; holds its path.  No network activity
    /// took place.
    AlreadyInstalled(String),
    /// The archive was fetched and unpacked into a scoped temporary
    /// directory; the binary is staged at `staged` and belongs at `target`,
    /// the version's canonical cache path.  The caller still has to copy it
    /// into place, mark it executable and verify it runs; dropping
    /// `scratch` removes the staging directory from disk.
    Fetched { scratch: tempfile::TempDir, staged: String, target: String },
}

/// Whether the outcome announces the binary's canonical path as `p`.
pub open spec fn announces_path(o: InstallOutcome, p: Seq<char>) -> bool {
    match o {
        InstallOutcome::AlreadyInstalled(q) => q@ == p,
        InstallOutcome::Fetched { target, .. } => target@ == p,
    }
}

/// The canonical path the outcome announces.
pub open spec fn installed_path(o: InstallOutcome) -> Seq<char> {
    match o {
        InstallOutcome::AlreadyInstalled(q) => q@,
        InstallOutcome::Fetched { target, .. } => target@,
    }
}

/// Provisioning is idempotent in its result: two runs for one version and
/// one store announce the same binary path, whatever mix of fresh install
/// and cache hit they take.  (That the second run fetches no second archive
/// is the cache hit itself: an install is never removed, so the repeat run
/// finds it on disk.)
pub proof fn lemma_install_idempotent(
    store: CacheStore,
    version: Seq<char>,
    o1: InstallOutcome,
    o2: InstallOutcome,
)
    requires
        announces_path(o1, store.spec_path_for(version)),
        announces_path(o2, store.spec_path_for(version)),
    ensures
        installed_path(o1) == installed_path(o2),
{
}

/// Ensures version `version` is available: a cache hit returns the cached
/// path at once; a miss downloads the release archive for the given target
/// platform into a scoped temporary directory and unpacks it there, so a
/// failed attempt leaves nothing behind once the outcome is dropped.  Every
/// outcome announces the version's canonical cache path.  An unsupported
/// architecture is rejected before any network activity, and the staged
/// binary is always the `terraform` entry of the unpacked archive.
pub fn install(store: &CacheStore, version: &str, os: &str, arch: &str) -> (r: Result<
    InstallOutcome,
    TerraError,
>)
    ensures
        r matches Ok(o) ==> announces_path(o, store.spec_path_for(version@)),
        r matches Ok(InstallOutcome::Fetched { .. }) ==> valid_arch(arch@),
        r matches Ok(InstallOutcome::Fetched { staged, .. }) ==> (exists|t: Seq<char>|
            staged@ == t + "/terraform"@),
        !valid_arch(arch@) ==> ((r matches Ok(o) && o is AlreadyInstalled) || (r matches Err(e) && e
            matches TerraError::UnsupportedArchitecture(_))),
        r matches Err(e) ==> (e matches TerraError::UnsupportedArchitecture(_) || e
            matches TerraError::DownloadError(_) || e == TerraError::ExtractionError || e
            matches TerraError::InstallIOError(_)),
        r matches Err(TerraError::UnsupportedArchitecture(a)) ==> (a@ == arch@ && !valid_arch(
            arch@,
        )),
        r matches Err(TerraError::DownloadError(u)) ==> u@ == spec_download_url(
            version@,
            spec_platform(os@, arch@),
        ),
{
    if store.is_cached(version) {
        return Ok(InstallOutcome::AlreadyInstalled(store.path_for(version)));
    }
    let platform = match get_platform_string(os, arch) {
        Ok(p) => p,
        Err(e) => {
            return Err(e);
        },
    };
    let url = build_download_url(version, platform.as_str());
    let scratch = match make_temp_dir() {
        Some(d) => d,
        None => {
            return Err(TerraError::InstallIOError(String::from_str(
                "could not create a temporary directory",
            )));
        },
    };
    let scratch_path = match temp_dir_path(&scratch) {
        Some(p) => p,
        None => {
            return Err(TerraError::InstallIOError(String::from_str(
                "temporary directory path is not valid text",
            )));
        },
    };
    let response = match http_get(url.as_str()) {
        Ok(resp) => resp,
        Err(_) => {
            return Err(TerraError::DownloadError(url));
        },
    };
    let data = match response_bytes(response) {
        Ok(d) => d,
        Err(_) => {
            return Err(TerraError::DownloadError(url));
        },
    };
    let mut archive = match zip_open(data) {
        Ok(a) => a,
        Err(_) => {
            return Err(TerraError::ExtractionError);
        },
    };
    match zip_extract(&mut archive, scratch_path.as_str()) {
        Ok(_) => {},
        Err(_) => {
            return Err(TerraError::ExtractionError);
        },
    }
    let ghost scratch_view = scratch_path@;
    let mut staged = scratch_path;
    staged.append("/terraform");
    proof {
        assert(staged@ == scratch_view + "/terraform"@);
    }
    Ok(
        InstallOutcome::Fetched {
            scratch,
            staged,
            target: store.path_for(version),
        },
    )
}

/// The decision after the install-verification run: a zero exit status
/// accepts the install; anything else is a fatal `VerificationFailed`
/// carrying the child's output.  The installed file stays on disk either
/// way.
pub fn check_verification(exit_success: bool, output: String) -> (r: Result<(), TerraError>)
    ensures
        exit_success <==> r == Ok::<(), TerraError>(()),
        !exit_success ==> (r matches Err(e) && e matches TerraError::VerificationFailed(o) && o@
            == output@),
{
    if exit_success {
        Ok(())
    } else {
        Err(TerraError::VerificationFailed(output))
    }
}

} // verus!
