use vstd::prelude::*;
use vstd::string::StringExecFns;

verus! {

/// The error taxonomy of the tool.
///
/// `NoVersionFound`, `UnsupportedArchitecture`, `DownloadError`,
/// `ExtractionError`, `InstallIOError` and `VerificationFailed` arise while
/// resolving and provisioning a version; `InvalidPath`, `InvalidArgs` and
/// `CommandFailed` arise while executing the provisioned binary.
/// `ConfigParseError` is the one non-fatal category: a single configuration
/// file that fails to parse is skipped.
#[derive(Debug, Clone, PartialEq, Eq)]
pub enum TerraError {
    /// No configuration file yielded a usable version constraint.
    NoVersionFound,
    /// One configuration file could not be parsed; scanning continues.
    ConfigParseError,
    /// The machine's architecture has no published build; holds the
    /// architecture name.
    UnsupportedArchitecture(String),
    /// The archive could not be fetched; holds the requested URL.
    DownloadError(String),
    /// The fetched archive could not be unpacked.
    ExtractionError,
    /// A filesystem step of the install failed; holds a description.
    InstallIOError(String),
    /// The freshly installed binary did not report its version with a zero
    /// exit status; holds the child's output.
    VerificationFailed(String),
    /// The binary does not exist at the given path; holds that path.
    InvalidPath(String),
    /// An empty argument list was given; no process was spawned.
    InvalidArgs,
    /// The child process exited with a non-zero status or could not be
    /// spawned; holds its merged output.
    CommandFailed(String),
}

/// The diagnostic text of each error, as a sequence of characters.
pub open spec fn spec_message(e: TerraError) -> Seq<char> {
    match e {
        TerraError::NoVersionFound => "No Terraform version found in any files"@,
        TerraError::ConfigParseError => "Failed to parse configuration file"@,
        TerraError::UnsupportedArchitecture(arch) => "Unsupported architecture: "@ + arch@,
        TerraError::DownloadError(url) => "Failed to download: "@ + url@,
        TerraError::ExtractionError => "Failed to extract archive"@,
        TerraError::InstallIOError(what) => "Install failed: "@ + what@,
        TerraError::VerificationFailed(output) => output@,
        TerraError::InvalidPath(path) => "Invalid Terraform path: "@ + path@,
        TerraError::InvalidArgs => "No arguments provided"@,
        TerraError::CommandFailed(output) => output@,
    }
}

impl TerraError {
    /// The human-readable description of the error.
    pub fn message(&self) -> (r: String)
        ensures
            r@ == spec_message(*self),
    {
        match self {
            TerraError::NoVersionFound => String::from_str(
                "No Terraform version found in any files",
            ),
            TerraError::ConfigParseError => String::from_str("Failed to parse configuration file"),
            TerraError::UnsupportedArchitecture(arch) => {
                let mut s = String::from_str("Unsupported architecture: ");
                s.append(arch.as_str());
                s
            },
            TerraError::DownloadError(url) => {
                let mut s = String::from_str("Failed to download: ");
                s.append(url.as_str());
                s
            },
            TerraError::ExtractionError => String::from_str("Failed to extract archive"),
            TerraError::InstallIOError(what) => {
                let mut s = String::from_str("Install failed: ");
                s.append(what.as_str());
                s
            },
            TerraError::VerificationFailed(output) => output.clone(),
            TerraError::InvalidPath(path) => {
                let mut s = String::from_str("Invalid Terraform path: ");
                s.append(path.as_str());
                s
            },
            TerraError::InvalidArgs => String::from_str("No arguments provided"),
            TerraError::CommandFailed(output) => output.clone(),
        }
    }
}

} // verus!
