//! Audit of embedded credentials in images and of evidence bundles.
use vstd::prelude::*;

use crate::bundle::BundleAuditReport;
use crate::container::{inspect_container, ContainerCredentialReport, ContainerView};
use crate::digest::{file_sha256, sha256_hex};
use crate::error::AppError;
use crate::paths::spec_extension;
use crate::provenance::{contains_text, is_parent, signature_valid, spec_contains_text, spec_signature_valid, spec_trusted, trusted, C2paReport, IngredientReport};
use crate::scan::{is_managed_output, spec_managed_output};
use crate::text::{decimal, pad_right, padding, push_decimal, push_str, 
    all_hex, chars_of, eq_ignore_ascii_case, is_hex_digit, join_texts, joined, lower, lower_chars, owned,
    string_of, texts, trim, trim_str,
};

verus! {

/// The verdict of an image audit.
#[derive(Clone, Copy, PartialEq, Eq, Structural, Debug)]
pub enum AuditState {
    ValidLocal,
    ValidExternal,
    MissingCredential,
    Invalid,
    HashMismatch,
}

/// The report name of an audit verdict.
pub open spec fn spec_audit_name(s: AuditState) -> Seq<char> {
    match s {
        AuditState::ValidLocal => "valid-local"@,
        AuditState::ValidExternal => "valid-external"@,
        AuditState::MissingCredential => "missing-credential"@,
        AuditState::Invalid => "invalid"@,
        AuditState::HashMismatch => "hash-mismatch"@,
    }
}

/// An audit passes when the credential is valid, whoever signed it.
pub open spec fn spec_audit_passed(s: AuditState) -> bool {
    s == AuditState::ValidLocal || s == AuditState::ValidExternal
}

impl AuditState {
    /// The report name of this verdict.
    pub fn as_str(self) -> (r: &'static str)
        ensures
            r@ == spec_audit_name(self),
    {
        match self {
            AuditState::ValidLocal => "valid-local",
            AuditState::ValidExternal => "valid-external",
            AuditState::MissingCredential => "missing-credential",
            AuditState::Invalid => "invalid",
            AuditState::HashMismatch => "hash-mismatch",
        }
    }

    /// Whether this verdict passes.
    pub fn passed(self) -> (b: bool)
        ensures
            b == spec_audit_passed(self),
    {
        match self {
            AuditState::ValidLocal | AuditState::ValidExternal => true,
            _ => false,
        }
    }
}

/// The audit of one image file.
#[derive(Debug)]
pub struct ImageAuditReport {
    pub path: String,
    pub state: AuditState,
    pub file_size: u64,
    pub file_sha256: String,
    pub expected_sha256: Option<String>,
    pub hash_matches: Option<bool>,
    pub container: ContainerCredentialReport,
    pub manifest_present: bool,
    pub manifest_count: usize,
    pub active_manifest: Option<String>,
    pub signer_common_name: Option<String>,
    pub signer_issuer: Option<String>,
    pub signature_valid: bool,
    pub local_trust: bool,
    pub published: bool,
    pub upstream_manifest_count: usize,
    pub upstream_preserved: bool,
    pub detail: String,
}

impl ImageAuditReport {
    /// Whether the image audit passed.
    pub fn passed(&self) -> (b: bool)
        ensures
            b == spec_audit_passed(self.state),
    {
        self.state.passed()
    }
}

/// One audited target: an image or an evidence bundle.
#[derive(Debug)]
pub enum AuditTargetReport {
    Image(ImageAuditReport),
    Bundle(BundleAuditReport),
}

/// Whether an audited target passed.
pub open spec fn spec_target_passed(t: AuditTargetReport) -> bool {
    match t {
        AuditTargetReport::Image(r) => spec_audit_passed(r.state),
        AuditTargetReport::Bundle(b) => b.passed,
    }
}

impl AuditTargetReport {
    /// Whether this target passed.
    pub fn passed(&self) -> (b: bool)
        ensures
            b == spec_target_passed(*self),
    {
        match self {
            AuditTargetReport::Image(report) => report.passed(),
            AuditTargetReport::Bundle(report) => report.passed,
        }
    }
}

/// Counts of audited targets.
#[derive(Debug)]
pub struct AuditSummary {
    pub targets: usize,
    pub images: usize,
    pub bundles: usize,
    pub passed: usize,
    pub failed: usize,
}

/// The audit of every requested target.
#[derive(Debug)]
pub struct AuditReport {
    pub status: &'static str,
    pub recursive: bool,
    pub targets: Vec<AuditTargetReport>,
    pub summary: AuditSummary,
}

impl AuditReport {
    /// Exit code 0 when every target passed, 3 otherwise.
    pub fn exit_code(&self) -> (code: u8)
        ensures
            code == (if self.summary.failed == 0 { 0u8 } else { 3u8 }),
    {
        if self.summary.failed == 0 { 0 } else { 3 }
    }
}

/// The number of images a target stands for.
pub open spec fn target_images(t: AuditTargetReport) -> nat {
    match t {
        AuditTargetReport::Image(_) => 1,
        AuditTargetReport::Bundle(b) => b.images@.len(),
    }
}

/// The number of images of a list of targets.
pub open spec fn count_images(ts: Seq<AuditTargetReport>) -> nat
    decreases ts.len(),
{
    if ts.len() == 0 { 0 } else { count_images(ts.drop_last()) + target_images(ts.last()) }
}

/// The number of bundles of a list of targets.
pub open spec fn count_bundles(ts: Seq<AuditTargetReport>) -> nat
    decreases ts.len(),
{
    if ts.len() == 0 { 0 } else { count_bundles(ts.drop_last()) + (if ts.last() is Bundle { 1nat } else { 0nat }) }
}

/// The number of passing targets.
pub open spec fn count_passed(ts: Seq<AuditTargetReport>) -> nat
    decreases ts.len(),
{
    if ts.len() == 0 { 0 } else { count_passed(ts.drop_last()) + (if spec_target_passed(ts.last()) { 1nat } else { 0nat }) }
}

proof fn lemma_target_counts(ts: Seq<AuditTargetReport>)
    ensures
        count_bundles(ts) <= ts.len(),
        count_passed(ts) <= ts.len(),
    decreases ts.len(),
{
    if ts.len() > 0 {
        lemma_target_counts(ts.drop_last());
    }
}

proof fn lemma_images_monotone(ts: Seq<AuditTargetReport>, i: int)
    requires
        0 <= i <= ts.len(),
    ensures
        count_images(ts.subrange(0, i)) <= count_images(ts),
    decreases ts.len() - i,
{
    if i < ts.len() {
        lemma_images_monotone(ts, i + 1);
        let pre = ts.subrange(0, i + 1);
        assert(pre.drop_last() =~= ts.subrange(0, i));
    } else {
        assert(ts.subrange(0, i) =~= ts);
    }
}

/// The audit report over audited targets. The number of images the targets
/// stand for must fit in a `usize`.
pub fn audit_paths(recursive: bool, targets: Vec<AuditTargetReport>) -> (r: AuditReport)
    requires
        count_images(targets@) <= usize::MAX,
    ensures
        r.recursive == recursive,
        r.targets == targets,
        r.summary.targets == targets@.len(),
        r.summary.images == count_images(targets@),
        r.summary.bundles == count_bundles(targets@),
        r.summary.passed == count_passed(targets@),
        r.summary.failed == targets@.len() - count_passed(targets@),
        r.status@ == (if r.summary.failed == 0 { "ok"@ } else { "invalid"@ }),
{
    let mut images: usize = 0;
    let mut bundles: usize = 0;
    let mut passed: usize = 0;
    let mut i: usize = 0;
    while i < targets.len()
        invariant
            i <= targets@.len(),
            count_images(targets@) <= usize::MAX,
            images == count_images(targets@.subrange(0, i as int)),
            bundles == count_bundles(targets@.subrange(0, i as int)),
            passed == count_passed(targets@.subrange(0, i as int)),
        decreases targets@.len() - i,
    {
        proof {
            let pre = targets@.subrange(0, i + 1);
            assert(pre.drop_last() =~= targets@.subrange(0, i as int));
            lemma_images_monotone(targets@, i + 1);
            lemma_target_counts(targets@.subrange(0, i as int));
        }
        match &targets[i] {
            AuditTargetReport::Image(_) => {
                images = images + 1;
            },
            AuditTargetReport::Bundle(b) => {
                images = images + b.images.len();
                bundles = bundles + 1;
            },
        }
        if targets[i].passed() {
            passed = passed + 1;
        }
        i = i + 1;
    }
    assert(targets@.subrange(0, targets@.len() as int) =~= targets@);
    proof {
        lemma_target_counts(targets@);
    }
    let n = targets.len();
    let failed = n - passed;
    AuditReport {
        status: if failed == 0 { "ok" } else { "invalid" },
        recursive,
        targets,
        summary: AuditSummary { targets: n, images, bundles, passed, failed },
    }
}

/// The checks made before any target is audited: something must have been
/// found, and an expected hash applies to exactly one target.
pub fn audit_preconditions(candidates: usize, expected_sha256: Option<&str>) -> (r: Result<Option<String>, AppError>)
    ensures
        candidates == 0 ==> (r matches Err(e) && e.exit_code == 1
            && e.message@ == "no PNG, JPEG, or evidence ZIP files found"@),
        candidates != 0 && expected_sha256.is_some() && candidates != 1 ==> (r matches Err(e)
            && e.exit_code == 1 && e.message@ == "--expect-sha256 requires exactly one image or bundle"@),
        candidates != 0 && !(expected_sha256.is_some() && candidates != 1) ==> match expected_sha256 {
            None => r == Ok::<Option<String>, AppError>(None),
            Some(v) => match spec_normalize_sha256(v@) {
                Some(n) => r matches Ok(Some(x)) && x@ == n,
                None => r matches Err(e) && e.exit_code == 1 && e.message@ == msg_bad_sha256(),
            },
        },
{
    if candidates == 0 {
        return Err(AppError::runtime(owned("no PNG, JPEG, or evidence ZIP files found")));
    }
    if expected_sha256.is_some() && candidates != 1 {
        return Err(AppError::runtime(owned("--expect-sha256 requires exactly one image or bundle")));
    }
    match expected_sha256 {
        Some(v) => match normalize_sha256(v) {
            Ok(n) => Ok(Some(n)),
            Err(e) => Err(e),
        },
        None => Ok(None),
    }
}

/// Records an expected hash on a bundle audit; a mismatch fails the bundle.
pub fn apply_expected_to_bundle(report: &mut BundleAuditReport, expected: &String)
    ensures
        final(report).expected_sha256 == Some(*expected),
        final(report).hash_matches == Some(lower(old(report).file_sha256@) == lower(expected@)),
        final(report).passed == (old(report).passed && lower(old(report).file_sha256@) == lower(expected@)),
        texts(final(report).issues@) == (if lower(old(report).file_sha256@) == lower(expected@) {
            texts(old(report).issues@)
        } else {
            texts(old(report).issues@).push("bundle SHA-256 does not match --expect-sha256"@)
        }),
        final(report).path == old(report).path,
        final(report).file_sha256 == old(report).file_sha256,
        final(report).images == old(report).images,
{
    report.expected_sha256 = Some(expected.clone());
    let matches = eq_ignore_ascii_case(report.file_sha256.as_str(), expected.as_str());
    report.hash_matches = Some(matches);
    if !matches {
        report.passed = false;
        crate::text::push_text(&mut report.issues, owned("bundle SHA-256 does not match --expect-sha256"));
    }
}

/// The message for a malformed expected hash.
pub open spec fn msg_bad_sha256() -> Seq<char> {
    "expected SHA-256 must contain exactly 64 hexadecimal characters"@
}

/// An expected SHA-256, trimmed and lowercased, when it is 64 hexadecimal digits.
pub open spec fn spec_normalize_sha256(v: Seq<char>) -> Option<Seq<char>> {
    let n = lower(trim(v));
    if n.len() == 64 && (forall|i: int| 0 <= i < n.len() ==> is_hex_digit(#[trigger] n[i])) {
        Some(n)
    } else {
        None
    }
}

/// Normalizes an expected SHA-256 to 64 lowercase hexadecimal digits.
pub fn normalize_sha256(value: &str) -> (r: Result<String, AppError>)
    ensures
        match spec_normalize_sha256(value@) {
            Some(n) => r matches Ok(s) && s@ == n,
            None => r matches Err(e) && e.exit_code == 1 && e.message@ == msg_bad_sha256(),
        },
{
    let t = trim_str(value);
    let cs = chars_of(t.as_str());
    let l = lower_chars(cs.as_slice());
    if l.len() != 64 || !all_hex(l.as_slice()) {
        return Err(AppError::runtime(owned("expected SHA-256 must contain exactly 64 hexadecimal characters")));
    }
    Ok(string_of(l.as_slice()))
}

/// PNG and JPEG files by extension.
pub open spec fn spec_is_supported_image(p: Seq<char>) -> bool {
    crate::scan::spec_supported_image_path(p)
}

/// Whether a path names a PNG or JPEG file.
pub fn is_supported_image(path: &str) -> (b: bool)
    ensures
        b == spec_is_supported_image(path@),
{
    crate::scan::is_supported_image_path(path)
}

/// Evidence bundles by extension.
pub open spec fn spec_is_zip(p: Seq<char>) -> bool {
    match spec_extension(p) {
        Some(e) => lower(e) == "zip"@,
        None => false,
    }
}

/// Whether a path names an evidence ZIP.
pub fn is_zip(path: &str) -> (b: bool)
    ensures
        b == spec_is_zip(path@),
{
    match crate::paths::extension(path) {
        Some(e) => {
            let r = eq_ignore_ascii_case(e.as_str(), "zip");
            proof {
                reveal_strlit("zip");
                assert(lower("zip"@) =~= "zip"@);
            }
            r
        },
        None => false,
    }
}

/// Whether the active manifest preserves an upstream manifest: there is one,
/// and a parent ingredient carries its own active manifest.
pub open spec fn spec_upstream_preserved(c: C2paReport) -> bool {
    c.manifest_count > 1 && exists|k: int| 0 <= k < c.ingredients@.len()
        && is_parent(#[trigger] c.ingredients@[k]) && c.ingredients@[k].active_manifest.is_some()
}

fn upstream_preserved(c: &C2paReport) -> (b: bool)
    ensures
        b == spec_upstream_preserved(*c),
{
    if c.manifest_count <= 1 {
        return false;
    }
    let mut i: usize = 0;
    while i < c.ingredients.len()
        invariant
            i <= c.ingredients@.len(),
            c.manifest_count > 1,
            forall|k: int| 0 <= k < i ==> !(is_parent(#[trigger] c.ingredients@[k]) && c.ingredients@[k].active_manifest.is_some()),
        decreases c.ingredients@.len() - i,
    {
        if crate::text::text_is(c.ingredients[i].relationship.as_str(), "parentOf") && c.ingredients[i].active_manifest.is_some() {
            assert(is_parent(c.ingredients@[i as int]) && c.ingredients@[i as int].active_manifest.is_some());
            return true;
        }
        i = i + 1;
    }
    false
}

/// The C2PA-derived fields of an image audit.
pub open spec fn spec_audit_c2pa_fields(r: ImageAuditReport, inspection: Result<C2paReport, AppError>) -> bool {
    match inspection {
        Ok(c) => {
            &&& r.manifest_present == c.present
            &&& r.manifest_count == c.manifest_count
            &&& r.active_manifest == c.active_manifest
            &&& r.signer_common_name == c.signer_common_name
            &&& r.signer_issuer == c.signer_issuer
            &&& r.signature_valid == spec_signature_valid(c)
            &&& r.local_trust == spec_trusted(c)
            &&& r.published == spec_contains_text(c.actions@, "c2pa.published"@)
            &&& r.upstream_manifest_count == (if c.manifest_count > 0 { c.manifest_count - 1 } else { 0 })
            &&& r.upstream_preserved == spec_upstream_preserved(c)
        },
        Err(_) => {
            &&& !r.manifest_present
            &&& r.manifest_count == 0
            &&& r.active_manifest.is_none()
            &&& r.signer_common_name.is_none()
            &&& r.signer_issuer.is_none()
            &&& !r.signature_valid
            &&& !r.local_trust
            &&& !r.published
            &&& r.upstream_manifest_count == 0
            &&& !r.upstream_preserved
        },
    }
}

/// An image audit reports local trust exactly when the validator's verdict
/// is "trusted": a present manifest that is merely "valid" has a valid
/// signature but no local trust, so it is never a valid local image.
pub proof fn law_audit_local_trust_is_the_trusted_verdict(
    r: ImageAuditReport,
    c: C2paReport,
    hash_matches: Option<bool>,
    container: ContainerView,
    managed: bool,
    local_root_present: bool,
    read_detail: Seq<char>,
)
    requires
        spec_audit_c2pa_fields(r, Ok(c)),
    ensures
        r.local_trust == (c.validation_state@ == "trusted"@),
        c.present && c.validation_state@ == "valid"@ ==> r.signature_valid && !r.local_trust
            && spec_audit_verdict(hash_matches, container, managed, local_root_present, r.manifest_present,
                r.signature_valid, r.local_trust, read_detail).0 != AuditState::ValidLocal,
{
    reveal_strlit("valid");
    reveal_strlit("trusted");
    reveal_strlit("invalid");
    assert("valid"@ != "trusted"@) by { assert("valid"@.len() != "trusted"@.len()); }
    assert("valid"@ != "invalid"@) by { assert("valid"@.len() != "invalid"@.len()); }
}

/// The audit verdict and its detail, from the collected facts. The detail
/// from reading the manifest (an error message, or empty) is kept when the
/// manifest is unreadable or invalid.
pub open spec fn spec_audit_verdict(
    hash_matches: Option<bool>,
    container: ContainerView,
    managed: bool,
    local_root_present: bool,
    manifest_present: bool,
    signature_valid: bool,
    local_trust: bool,
    read_detail: Seq<char>,
) -> (AuditState, Seq<char>) {
    if hash_matches == Some(false) {
        (AuditState::HashMismatch, "file SHA-256 does not match --expect-sha256"@)
    } else if !container.structure_valid {
        (AuditState::Invalid, joined(container.issues, "; "@))
    } else if !container.embedded {
        (AuditState::MissingCredential, if managed {
            "a .banksy-signed file has no embedded Content Credential; it was stripped or replaced"@
        } else {
            "no embedded Content Credential was found"@
        })
    } else if !manifest_present {
        (AuditState::Invalid, if read_detail.len() == 0 {
            "an embedded credential store was found, but it is not a readable C2PA manifest"@
        } else {
            read_detail
        })
    } else if !signature_valid {
        (AuditState::Invalid, if read_detail.len() == 0 {
            "the C2PA signature or asset binding is invalid"@
        } else {
            read_detail
        })
    } else if managed && local_root_present && !local_trust {
        (AuditState::Invalid, "the .banksy-signed file does not validate against the configured local identity"@)
    } else if local_trust {
        (AuditState::ValidLocal, "embedded credential and local signature are valid"@)
    } else {
        (AuditState::ValidExternal, "embedded credential and cryptographic signature are valid"@)
    }
}

/// Audits one image file held in memory. `inspection` is what the C2PA
/// validator read from the file, or the error it reported; `expected_sha256`
/// is an optional required hash. Errors come from a malformed expected hash and
/// from an unrecognized container, in that order.
pub fn audit_image(
    path: &str,
    bytes: &[u8],
    local_root_present: bool,
    expected_sha256: Option<&str>,
    inspection: Result<C2paReport, AppError>,
) -> (r: Result<ImageAuditReport, AppError>)
    ensures
        match expected_sha256 {
            Some(v) => spec_normalize_sha256(v@) is None ==> (r matches Err(e) && e.exit_code == 1 && e.message@ == msg_bad_sha256()),
            None => true,
        },
        r matches Ok(report) ==> {
            &&& report.path@ == path@
            &&& report.file_size == bytes@.len()
            &&& report.file_sha256@ == sha256_hex(bytes@)
            &&& match expected_sha256 {
                Some(v) => spec_normalize_sha256(v@) matches Some(n)
                    && report.expected_sha256 matches Some(x) && x@ == n
                    && report.hash_matches == Some(lower(sha256_hex(bytes@)) == lower(n)),
                None => report.expected_sha256.is_none() && report.hash_matches.is_none(),
            }
            &&& (crate::container::is_png(bytes@) ==> report.container@ == crate::container::png_report(bytes@))
            &&& (!crate::container::is_png(bytes@) ==> report.container@ == crate::container::jpeg_report(bytes@))
            &&& spec_audit_c2pa_fields(report, inspection)
            &&& (report.state, report.detail@) == spec_audit_verdict(
                report.hash_matches,
                report.container@,
                spec_managed_output(path@),
                local_root_present,
                report.manifest_present,
                report.signature_valid,
                report.local_trust,
                match inspection { Ok(_) => seq![], Err(e) => e.message@ },
            )
        },
        (expected_sha256 is None || spec_normalize_sha256(expected_sha256.unwrap()@) is Some)
            && (crate::container::is_png(bytes@) && !crate::container::png_walk(bytes@, crate::container::png_start()).overflow
                || !crate::container::is_png(bytes@) && crate::container::is_jpeg(bytes@)) ==> r is Ok,
        (expected_sha256 is None || spec_normalize_sha256(expected_sha256.unwrap()@) is Some)
            && crate::container::is_png(bytes@) && crate::container::png_walk(bytes@, crate::container::png_start()).overflow
            ==> (r matches Err(e) && e.exit_code == 3 && e.message@ == crate::container::msg_offset_overflow()),
        (expected_sha256 is None || spec_normalize_sha256(expected_sha256.unwrap()@) is Some)
            && !crate::container::is_png(bytes@) && !crate::container::is_jpeg(bytes@) ==> (r matches Err(e)
            && e.exit_code == 3 && e.message@ == "unsupported container format: "@ + path@),
{
    let file_size = bytes.len() as u64;
    let hash = file_sha256(bytes);
    let expected = match expected_sha256 {
        Some(v) => match normalize_sha256(v) {
            Ok(n) => Some(n),
            Err(e) => return Err(e),
        },
        None => None,
    };
    let hash_matches = match &expected {
        Some(x) => Some(eq_ignore_ascii_case(hash.as_str(), x.as_str())),
        None => None,
    };
    let container = match inspect_container(path, bytes) {
        Ok(c) => c,
        Err(e) => return Err(e),
    };
    let ghost read_detail = match &inspection { Ok(_) => seq![], Err(e) => e.message@ };
    let (manifest_present, manifest_count, active_manifest, signer_common_name, signer_issuer, sig_valid, local_trust, published, upstream_manifest_count, upstream, mut detail) =
        match inspection {
            Ok(c) => {
                let sv = signature_valid(&c);
                let lt = trusted(&c);
                let pb = contains_text(&c.actions, "c2pa.published");
                let up = upstream_preserved(&c);
                let uc = if c.manifest_count > 0 { c.manifest_count - 1 } else { 0 };
                (c.present, c.manifest_count, c.active_manifest, c.signer_common_name, c.signer_issuer, sv, lt, pb, uc, up, String::new())
            },
            Err(e) => (false, 0, None, None, None, false, false, false, 0, false, e.to_string()),
        };
    assert(detail@ == read_detail);
    let managed = is_managed_output(path);
    let state = if hash_matches == Some(false) {
        detail = owned("file SHA-256 does not match --expect-sha256");
        AuditState::HashMismatch
    } else if !container.structure_valid {
        detail = join_texts(&container.issues, "; ");
        AuditState::Invalid
    } else if !container.embedded {
        detail = if managed {
            owned("a .banksy-signed file has no embedded Content Credential; it was stripped or replaced")
        } else {
            owned("no embedded Content Credential was found")
        };
        AuditState::MissingCredential
    } else if !manifest_present {
        if detail.as_str().unicode_len() == 0 {
            detail = owned("an embedded credential store was found, but it is not a readable C2PA manifest");
        }
        AuditState::Invalid
    } else if !sig_valid {
        if detail.as_str().unicode_len() == 0 {
            detail = owned("the C2PA signature or asset binding is invalid");
        }
        AuditState::Invalid
    } else if managed && local_root_present && !local_trust {
        detail = owned("the .banksy-signed file does not validate against the configured local identity");
        AuditState::Invalid
    } else if local_trust {
        detail = owned("embedded credential and local signature are valid");
        AuditState::ValidLocal
    } else {
        detail = owned("embedded credential and cryptographic signature are valid");
        AuditState::ValidExternal
    };
    Ok(ImageAuditReport {
        path: owned(path),
        state,
        file_size,
        file_sha256: hash,
        expected_sha256: expected,
        hash_matches,
        container,
        manifest_present,
        manifest_count,
        active_manifest,
        signer_common_name,
        signer_issuer,
        signature_valid: sig_valid,
        local_trust,
        published,
        upstream_manifest_count,
        upstream_preserved: upstream,
        detail,
    })
}

/// "yes" or "no".
pub fn yes_no(value: bool) -> (r: &'static str)
    ensures
        r@ == (if value { "yes"@ } else { "no"@ }),
{
    if value { "yes" } else { "no" }
}

/// "valid" or "invalid".
pub fn valid_invalid(value: bool) -> (r: &'static str)
    ensures
        r@ == (if value { "valid"@ } else { "invalid"@ }),
{
    if value { "valid" } else { "invalid" }
}

/// An image audit passes only for a file with the expected hash (when one is
/// given) holding a structurally valid embedded credential that is readable
/// and validly signed; a managed output that fails the local identity never
/// passes when a local root is configured.
pub proof fn law_audit_pass_requires_valid_credential(
    hash_matches: Option<bool>,
    container: ContainerView,
    managed: bool,
    local_root_present: bool,
    manifest_present: bool,
    signature_valid: bool,
    local_trust: bool,
    read_detail: Seq<char>,
)
    requires
        spec_audit_passed(spec_audit_verdict(
            hash_matches,
            container,
            managed,
            local_root_present,
            manifest_present,
            signature_valid,
            local_trust,
            read_detail,
        ).0),
    ensures
        hash_matches != Some(false),
        container.structure_valid,
        container.embedded,
        manifest_present,
        signature_valid,
        managed && local_root_present ==> local_trust,
{
}

/// Normalizing an expected hash twice gives what normalizing once gave.
pub proof fn law_normalize_idempotent(v: Seq<char>)
    requires
        spec_normalize_sha256(v).is_some(),
    ensures
        spec_normalize_sha256(spec_normalize_sha256(v).unwrap()) == spec_normalize_sha256(v),
{
    let n = spec_normalize_sha256(v).unwrap();
    assert(n.len() == 64);
    assert forall|i: int| 0 <= i < n.len() implies !crate::text::is_space(#[trigger] n[i]) by {
        assert(is_hex_digit(n[i]));
    }
    assert(crate::text::trim_start(n) == n) by {
        assert(!crate::text::is_space(n[0]));
    }
    assert(crate::text::trim_end(n) == n) by {
        assert(!crate::text::is_space(n.last()));
    }
    assert(trim(n) == n);
    assert(lower(n) =~= n) by {
        assert forall|i: int| 0 <= i < n.len() implies lower(n)[i] == n[i] by {
            let c = trim(v)[i];
            assert(n[i] == crate::text::lower_char(c));
        }
    }
}

/// The issue lines of a bundle audit, each indented.
pub open spec fn issue_lines(v: Seq<String>) -> Seq<char>
    decreases v.len(),
{
    if v.len() == 0 {
        Seq::<char>::empty()
    } else {
        issue_lines(v.drop_last()) + "  "@ + v.last()@ + "\n"@
    }
}

/// The lines of one audited image.
pub open spec fn image_audit_text(i: ImageAuditReport) -> Seq<char> {
    let name = spec_audit_name(i.state);
    name + padding(name.len(), 19) + " "@ + i.path@ + "\n"@
        + "  SHA-256: "@ + i.file_sha256@ + "\n"@
        + "  embedded: "@ + (if i.container.embedded { "yes"@ } else { "no"@ }) + " ("@ + i.container.location@ + "; "@
            + decimal(i.container.store_bytes as nat) + " bytes)\n"@
        + "  signature: "@ + (if i.signature_valid { "valid"@ } else { "invalid"@ }) + "; local trust: "@
            + (if i.local_trust { "yes"@ } else { "no"@ }) + "; manifests: "@ + decimal(i.manifest_count as nat)
            + "; upstream preserved: "@ + (if i.upstream_preserved { "yes"@ } else { "no"@ }) + "\n"@
        + (if !spec_audit_passed(i.state) { "  "@ + i.detail@ + "\n"@ } else { Seq::<char>::empty() })
}

/// The lines of one audited bundle.
pub open spec fn bundle_audit_text(b: BundleAuditReport) -> Seq<char> {
    let name = if b.passed { "valid-bundle"@ } else { "invalid-bundle"@ };
    name + padding(name.len(), 19) + " "@ + b.path@ + "\n"@
        + "  SHA-256: "@ + b.file_sha256@ + "\n"@
        + "  "@ + decimal(b.images@.len()) + " image"@ + (if b.images@.len() == 1 { Seq::<char>::empty() } else { "s"@ })
            + "; trust basis: "@ + b.trust_basis@ + "; bundled root matches local identity: "@
            + (if b.local_root_match { "yes"@ } else { "no"@ }) + "\n"@
        + issue_lines(b.issues@)
}

/// The lines of one audited target.
pub open spec fn target_text(t: AuditTargetReport) -> Seq<char> {
    match t {
        AuditTargetReport::Image(i) => image_audit_text(i),
        AuditTargetReport::Bundle(b) => bundle_audit_text(b),
    }
}

/// The lines of all targets, in order.
pub open spec fn targets_text(ts: Seq<AuditTargetReport>) -> Seq<char>
    decreases ts.len(),
{
    if ts.len() == 0 {
        Seq::<char>::empty()
    } else {
        targets_text(ts.drop_last()) + target_text(ts.last())
    }
}

/// The human-readable text of an audit.
pub open spec fn spec_audit_text(r: AuditReport) -> Seq<char> {
    targets_text(r.targets@) + "\nSummary: "@ + decimal(r.summary.targets as nat) + " target"@
        + (if r.summary.targets == 1 { Seq::<char>::empty() } else { "s"@ }) + ", "@
        + decimal(r.summary.passed as nat) + " passed, "@ + decimal(r.summary.failed as nat) + " failed"@
}

fn image_text(i: &ImageAuditReport) -> (t: String)
    ensures
        t@ == image_audit_text(*i),
{
    let mut r = pad_right(i.state.as_str(), 19);
    push_str(&mut r, " ");
    push_str(&mut r, i.path.as_str());
    push_str(&mut r, "\n");
    push_str(&mut r, "  SHA-256: ");
    push_str(&mut r, i.file_sha256.as_str());
    push_str(&mut r, "\n");
    push_str(&mut r, "  embedded: ");
    push_str(&mut r, yes_no(i.container.embedded));
    push_str(&mut r, " (");
    push_str(&mut r, i.container.location);
    push_str(&mut r, "; ");
    push_decimal(&mut r, i.container.store_bytes);
    push_str(&mut r, " bytes)\n");
    push_str(&mut r, "  signature: ");
    push_str(&mut r, valid_invalid(i.signature_valid));
    push_str(&mut r, "; local trust: ");
    push_str(&mut r, yes_no(i.local_trust));
    push_str(&mut r, "; manifests: ");
    push_decimal(&mut r, i.manifest_count as u64);
    push_str(&mut r, "; upstream preserved: ");
    push_str(&mut r, yes_no(i.upstream_preserved));
    push_str(&mut r, "\n");
    if !i.passed() {
        push_str(&mut r, "  ");
        push_str(&mut r, i.detail.as_str());
        push_str(&mut r, "\n");
    }
    assert(r@ =~= image_audit_text(*i));
    r
}

fn bundle_text(b: &BundleAuditReport) -> (t: String)
    ensures
        t@ == bundle_audit_text(*b),
{
    let name = if b.passed { "valid-bundle" } else { "invalid-bundle" };
    let mut r = pad_right(name, 19);
    push_str(&mut r, " ");
    push_str(&mut r, b.path.as_str());
    push_str(&mut r, "\n");
    push_str(&mut r, "  SHA-256: ");
    push_str(&mut r, b.file_sha256.as_str());
    push_str(&mut r, "\n");
    push_str(&mut r, "  ");
    push_decimal(&mut r, b.images.len() as u64);
    push_str(&mut r, " image");
    if b.images.len() != 1 {
        push_str(&mut r, "s");
    }
    push_str(&mut r, "; trust basis: ");
    push_str(&mut r, b.trust_basis);
    push_str(&mut r, "; bundled root matches local identity: ");
    push_str(&mut r, yes_no(b.local_root_match));
    push_str(&mut r, "\n");
    let ghost head = r@;
    let mut k: usize = 0;
    while k < b.issues.len()
        invariant
            k <= b.issues@.len(),
            r@ == head + issue_lines(b.issues@.subrange(0, k as int)),
        decreases b.issues@.len() - k,
    {
        push_str(&mut r, "  ");
        push_str(&mut r, b.issues[k].as_str());
        push_str(&mut r, "\n");
        proof {
            let pre = b.issues@.subrange(0, k + 1);
            assert(pre.drop_last() =~= b.issues@.subrange(0, k as int));
        }
        k = k + 1;
        assert(r@ =~= head + issue_lines(b.issues@.subrange(0, k as int)));
    }
    assert(b.issues@.subrange(0, b.issues@.len() as int) =~= b.issues@);
    assert(r@ =~= bundle_audit_text(*b)) by {
        let name_s = if b.passed { "valid-bundle"@ } else { "invalid-bundle"@ };
        assert(head =~= name_s + padding(name_s.len(), 19) + " "@ + b.path@ + "\n"@
            + "  SHA-256: "@ + b.file_sha256@ + "\n"@
            + "  "@ + decimal(b.images@.len()) + " image"@ + (if b.images@.len() == 1 { Seq::<char>::empty() } else { "s"@ })
            + "; trust basis: "@ + b.trust_basis@ + "; bundled root matches local identity: "@
            + (if b.local_root_match { "yes"@ } else { "no"@ }) + "\n"@);
    }
    r
}

impl AuditReport {
    /// The human-readable text of this audit.
    pub fn render(&self) -> (t: String)
        ensures
            t@ == spec_audit_text(*self),
    {
        let mut r = String::new();
        let mut i: usize = 0;
        while i < self.targets.len()
            invariant
                i <= self.targets@.len(),
                r@ == targets_text(self.targets@.subrange(0, i as int)),
            decreases self.targets@.len() - i,
        {
            let t = match &self.targets[i] {
                AuditTargetReport::Image(img) => image_text(img),
                AuditTargetReport::Bundle(b) => bundle_text(b),
            };
            push_str(&mut r, t.as_str());
            proof {
                let pre = self.targets@.subrange(0, i + 1);
                assert(pre.drop_last() =~= self.targets@.subrange(0, i as int));
            }
            i = i + 1;
        }
        assert(self.targets@.subrange(0, self.targets@.len() as int) =~= self.targets@);
        push_str(&mut r, "\nSummary: ");
        push_decimal(&mut r, self.summary.targets as u64);
        push_str(&mut r, " target");
        if self.summary.targets != 1 {
            push_str(&mut r, "s");
        }
        push_str(&mut r, ", ");
        push_decimal(&mut r, self.summary.passed as u64);
        push_str(&mut r, " passed, ");
        push_decimal(&mut r, self.summary.failed as u64);
        push_str(&mut r, " failed");
        assert(r@ =~= spec_audit_text(*self));
        r
    }
}

} // verus!
