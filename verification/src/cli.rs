//! The commands of the command-line interface, and the exit codes their
//! reports map to.
use vstd::prelude::*;

use crate::provenance::VerifyReport;
use crate::scan::StatusSummary;

verus! {

/// A parsed command line: a command and whether reports are JSON.
#[derive(Debug)]
pub struct Cli {
    pub json: bool,
    pub command: Command,
}

/// The commands of the tool. Paths are held as text.
#[derive(Debug)]
pub enum Command {
    /// Create the local identity, certificates, and profile.
    Init {
        name: Option<String>,
        organization: Option<String>,
        domain: Option<String>,
        uri: Option<String>,
        vendor: Option<String>,
        rotate_signer: bool,
    },
    /// Show the configured identity.
    Identity,
    /// Inspect an image and its Content Credentials.
    Inspect { image: String },
    /// List images that need the configured local signature.
    Status { paths: Vec<String>, recursive: bool, check: bool },
    /// Attest every pending image with one authentication prompt.
    Sign { paths: Vec<String>, recursive: bool, published: bool, description: Option<String>, force: bool },
    /// Sign an image without claiming that its pixels were edited.
    Attest { input: String, output: Option<String>, published: bool, description: Option<String>, force: bool },
    /// Sign an edited image as a derivative of a parent image.
    Derivative {
        parent: String,
        input: String,
        output: Option<String>,
        published: bool,
        description: Option<String>,
        force: bool,
    },
    /// Validate an image's manifest and report trust separately.
    Verify { image: String, trust_local_root: bool },
    /// Audit embedded credentials, checksums, or an evidence ZIP.
    Audit { paths: Vec<String>, recursive: bool, expect_sha256: Option<String> },
    /// Package locally signed images in an evidence ZIP.
    Package { paths: Vec<String>, recursive: bool, output: Option<String>, force: bool },
}

/// The exit code of `status`: 1 for unreadable images, otherwise 3 for
/// pending or invalid images when `check` asks for it, otherwise 0.
pub open spec fn spec_status_exit_code(s: StatusSummary, check: bool) -> u8 {
    if s.unreadable > 0 {
        1
    } else if check && (s.needs_signing > 0 || s.invalid > 0) {
        3
    } else {
        0
    }
}

/// The exit code of a `status` report.
pub fn status_exit_code(summary: &StatusSummary, check: bool) -> (code: u8)
    ensures
        code == spec_status_exit_code(*summary, check),
{
    if summary.has_runtime_issues() {
        1
    } else if check && summary.has_policy_issues() {
        3
    } else {
        0
    }
}

/// The exit code of `verify`: 3 when the signature is not valid.
pub fn verify_exit_code(report: &VerifyReport) -> (code: u8)
    ensures
        code == (if report.signature_valid { 0u8 } else { 3u8 }),
{
    if !report.signature_valid {
        3
    } else {
        0
    }
}

} // verus!
