//! Signing: the checks made before a key is requested, what is handed to the
//! C2PA builder, the checks of the written output, and the signing report.
use vstd::prelude::*;

use crate::config::Profile;
use crate::container::{spec_valid_generated_embedding, ContainerCredentialReport};
use crate::error::AppError;
use crate::paths::{
    components, extension, file_name, file_stem, spec_file_name, is_absolute, join, parent, spec_components, spec_extension, spec_file_stem,
    spec_is_absolute, spec_join, spec_parent, PathPart,
};
use crate::image_info::{extension_for_mime, spec_extension_for_mime};
use crate::provenance::{contains_text, spec_contains_text, InspectionReport, IngredientReport, VerifyReport, is_parent};
use crate::text::{
    chars_of, chars_eq_str, concat2, concat3, joined, join_texts, lower, lower_chars, opt_eq, opt_text_eq, owned,
    push_decimal, push_str, push_text, text_is, texts, decimal, clone_opt,
};

verus! {

/// What a signature claims: an attestation of an original, or a derivative
/// work with a parent.
#[derive(Clone, Copy, PartialEq, Eq, Structural, Debug)]
pub enum SignMode {
    Attest,
    Derivative,
}

/// The report name of a signing mode.
pub open spec fn spec_mode_name(m: SignMode) -> Seq<char> {
    match m {
        SignMode::Attest => "attest"@,
        SignMode::Derivative => "derivative"@,
    }
}

/// The debug name of a signing mode, as used in messages.
pub open spec fn spec_mode_debug(m: SignMode) -> Seq<char> {
    match m {
        SignMode::Attest => "Attest"@,
        SignMode::Derivative => "Derivative"@,
    }
}

/// The primary C2PA action of a signing mode.
pub open spec fn spec_primary_action(m: SignMode) -> Seq<char> {
    match m {
        SignMode::Attest => "c2pa.edited.metadata"@,
        SignMode::Derivative => "c2pa.edited"@,
    }
}

impl SignMode {
    /// The report name of this mode.
    pub fn as_str(self) -> (r: &'static str)
        ensures
            r@ == spec_mode_name(self),
    {
        match self {
            SignMode::Attest => "attest",
            SignMode::Derivative => "derivative",
        }
    }

    /// The primary C2PA action recorded for this mode.
    pub fn primary_action(self) -> (r: &'static str)
        ensures
            r@ == spec_primary_action(self),
    {
        match self {
            SignMode::Attest => "c2pa.edited.metadata",
            SignMode::Derivative => "c2pa.edited",
        }
    }

    fn debug_name(self) -> (r: &'static str)
        ensures
            r@ == spec_mode_debug(self),
    {
        match self {
            SignMode::Attest => "Attest",
            SignMode::Derivative => "Derivative",
        }
    }
}

/// The identity recorded in a signature.
#[derive(Debug)]
pub struct SigningIdentityReport {
    pub claim_generator: &'static str,
    pub signer_name: String,
    pub organization: Option<String>,
    pub domain: Option<String>,
    pub uri: Option<String>,
    pub vendor: Option<String>,
}

/// What was verified of a committed signature.
#[derive(Debug)]
pub struct SigningValidationReport {
    pub signature_valid: bool,
    pub certificate_chain_valid: bool,
    pub local_trust: bool,
    pub public_trust: bool,
    pub public_trust_status: &'static str,
    pub trusted_timestamp: bool,
    pub embedded: bool,
    pub credential_location: &'static str,
    pub credential_bytes: u64,
    pub manifest_count: usize,
    pub upstream_manifest_count: usize,
    pub upstream_preserved: bool,
    pub post_commit_verified: bool,
}

/// The report of one signed output.
#[derive(Debug)]
pub struct SigningReport {
    pub status: &'static str,
    pub mode: &'static str,
    pub input: String,
    pub parent: Option<String>,
    pub output: String,
    pub output_sha256: String,
    pub description: String,
    pub pixels_changed_from_parent: Option<bool>,
    pub output_pixels_equal_input: bool,
    pub parent_relationship: &'static str,
    pub upstream_provenance: &'static str,
    pub actions: Vec<String>,
    pub identity: SigningIdentityReport,
    pub c2pa: SigningValidationReport,
    pub key_authentication: &'static str,
}

/// The file name of a default output: the input's stem, `.banksy-signed`,
/// and the input's extension when it has one.
pub open spec fn default_output_name(input: Seq<char>) -> Seq<char> {
    let stem = match spec_file_stem(input) {
        Some(s) => s,
        None => "image"@,
    };
    match spec_extension(input) {
        Some(e) => stem + ".banksy-signed."@ + e,
        None => stem + ".banksy-signed"@,
    }
}

/// The default output of an input: beside it, named by `default_output_name`.
pub open spec fn spec_default_output_path(input: Seq<char>) -> Seq<char> {
    let dir = match spec_parent(input) {
        Some(p) => p,
        None => Seq::<char>::empty(),
    };
    spec_join(dir, default_output_name(input))
}

/// The default output path of an input, beside it.
pub fn default_output_path(input: &str) -> (r: String)
    ensures
        r@ == spec_default_output_path(input@),
{
    let dir = match parent(input) {
        Some(p) => p,
        None => String::new(),
    };
    let stem = match file_stem(input) {
        Some(s) => s,
        None => owned("image"),
    };
    let name = match extension(input) {
        Some(e) => concat3(stem.as_str(), ".banksy-signed.", e.as_str()),
        None => concat2(stem.as_str(), ".banksy-signed"),
    };
    join(dir.as_str(), name.as_str())
}

/// The directory an output is written in: its parent, or `.` when it has
/// none.
pub open spec fn spec_output_directory(output: Seq<char>) -> Seq<char> {
    match spec_parent(output) {
        Some(p) => if p.len() == 0 { "."@ } else { p },
        None => "."@,
    }
}

/// The directory an output is written in.
pub fn output_directory(output: &str) -> (r: String)
    ensures
        r@ == spec_output_directory(output@),
{
    match parent(output) {
        Some(p) => {
            let cs = chars_of(p.as_str());
            if cs.len() == 0 {
                owned(".")
            } else {
                p
            }
        },
        None => owned("."),
    }
}

/// The message when the output directory is missing.
pub fn missing_output_directory(output: &str) -> (e: AppError)
    ensures
        e.exit_code == 1,
        e.message@ == "output directory does not exist: "@ + spec_output_directory(output@),
{
    let dir = output_directory(output);
    AppError::runtime(concat2("output directory does not exist: ", dir.as_str()))
}

/// Whether an output extension (lowercased) fits the source MIME type.
pub open spec fn extension_fits(mime: Seq<char>, output: Seq<char>) -> bool {
    let ext = match spec_extension(output) {
        Some(e) => lower(e),
        None => Seq::<char>::empty(),
    };
    if mime == "image/png"@ {
        ext == "png"@
    } else if mime == "image/jpeg"@ {
        ext == "jpg"@ || ext == "jpeg"@
    } else {
        false
    }
}

/// An output keeps its source's format exactly when its extension, in any
/// letter case, is one that format uses: `png` for a PNG source, and both
/// `jpg` and `jpeg` for a JPEG source; any other source format fits nothing.
pub proof fn law_output_extension_fits_its_format(mime: Seq<char>, output: Seq<char>, ext: Seq<char>)
    requires
        spec_extension(output) == Some(ext),
    ensures
        lower(ext) == "png"@ ==> extension_fits("image/png"@, output),
        lower(ext) == "jpg"@ ==> extension_fits("image/jpeg"@, output),
        lower(ext) == "jpeg"@ ==> extension_fits("image/jpeg"@, output),
        extension_fits("image/jpeg"@, output) ==> lower(ext) == "jpg"@ || lower(ext) == "jpeg"@,
        extension_fits("image/png"@, output) ==> lower(ext) == "png"@,
        mime != "image/png"@ && mime != "image/jpeg"@ ==> !extension_fits(mime, output),
{
    reveal_strlit("image/png");
    reveal_strlit("image/jpeg");
    assert("image/png"@[6] != "image/jpeg"@[6]);
    assert("image/png"@ != "image/jpeg"@);
}

/// The output must keep the source format: `.png` for PNG, `.jpg` or
/// `.jpeg` for JPEG, in any letter case.
pub fn validate_output_extension(output: &str, input_mime: &str) -> (r: Result<(), AppError>)
    ensures
        extension_fits(input_mime@, output@) <==> r is Ok,
        r matches Err(e) ==> e.exit_code == 1
            && e.message@ == "output extension must match the source format "@ + input_mime@,
{
    let ext = match extension(output) {
        Some(e) => {
            let cs = chars_of(e.as_str());
            lower_chars(cs.as_slice())
        },
        None => Vec::new(),
    };
    let valid = if text_is(input_mime, "image/png") {
        chars_eq_str(ext.as_slice(), "png")
    } else if text_is(input_mime, "image/jpeg") {
        chars_eq_str(ext.as_slice(), "jpg") || chars_eq_str(ext.as_slice(), "jpeg")
    } else {
        false
    };
    if !valid {
        return Err(AppError::runtime(concat2("output extension must match the source format ", input_mime)));
    }
    Ok(())
}

/// A source whose existing provenance is invalid is never extended.
pub fn reject_invalid_existing_provenance(report: &InspectionReport, role: &str) -> (r: Result<(), AppError>)
    ensures
        (report.c2pa.present && report.c2pa.validation_state@ == "invalid"@) <==> r is Err,
        r matches Err(e) ==> e.exit_code == 3
            && e.message@ == role@ + " has invalid C2PA provenance; refusing to extend a broken chain"@,
{
    if report.c2pa.present && text_is(report.c2pa.validation_state.as_str(), "invalid") {
        return Err(AppError::verification(concat2(role, " has invalid C2PA provenance; refusing to extend a broken chain")));
    }
    Ok(())
}

/// The detail of a failed embedding check.
pub open spec fn embedding_detail(c: ContainerCredentialReport) -> Seq<char> {
    if c.issues@.len() == 0 {
        "expected exactly one "@ + c.location@ + " credential before image data"@
    } else {
        joined(texts(c.issues@), "; "@)
    }
}

/// A signed output must hold exactly one well-placed credential store in a
/// structurally valid container.
pub fn require_generated_embedding(container: &ContainerCredentialReport) -> (r: Result<(), AppError>)
    ensures
        spec_valid_generated_embedding(container@) <==> r is Ok,
        r matches Err(e) ==> e.exit_code == 3
            && e.message@ == "output container credential validation failed: "@ + embedding_detail(*container),
{
    if container.valid_generated_embedding() {
        return Ok(());
    }
    let detail = if container.issues.len() == 0 {
        concat3("expected exactly one ", container.location, " credential before image data")
    } else {
        join_texts(&container.issues, "; ")
    };
    Err(AppError::verification(concat2("output container credential validation failed: ", detail.as_str())))
}

/// Whether some ingredient is a parent.
pub open spec fn has_parent_ingredient(ings: Seq<IngredientReport>) -> bool {
    exists|k: int| 0 <= k < ings.len() && is_parent(#[trigger] ings[k])
}

/// Whether some parent ingredient carries the given active manifest.
pub open spec fn has_parent_with(ings: Seq<IngredientReport>, active: Seq<char>) -> bool {
    exists|k: int| 0 <= k < ings.len() && is_parent(#[trigger] ings[k])
        && (ings[k].active_manifest matches Some(a) && a@ == active)
}

fn find_parent(ings: &Vec<IngredientReport>, active: Option<&str>) -> (b: bool)
    ensures
        match active {
            Some(a) => b == has_parent_with(ings@, a@),
            None => b == has_parent_ingredient(ings@),
        },
{
    let mut i: usize = 0;
    while i < ings.len()
        invariant
            i <= ings@.len(),
            forall|k: int| 0 <= k < i ==> !(is_parent(#[trigger] ings@[k]) && match active {
                Some(a) => ings@[k].active_manifest matches Some(m) && m@ == a@,
                None => true,
            }),
        decreases ings@.len() - i,
    {
        let ing = &ings[i];
        if text_is(ing.relationship.as_str(), "parentOf") {
            let hit = match active {
                Some(a) => match &ing.active_manifest {
                    Some(m) => text_is(m.as_str(), a),
                    None => false,
                },
                None => true,
            };
            if hit {
                return true;
            }
        }
        i = i + 1;
    }
    false
}

/// The first way a written output's manifest fails its request, as the
/// message reported for it.
pub open spec fn signed_semantics_error(mode: SignMode, report: InspectionReport, published: bool) -> Option<Seq<char>> {
    let c = report.c2pa;
    if !c.present || c.validation_state@ == "invalid"@ {
        Some("the temporary output has no valid active C2PA manifest"@)
    } else if !spec_contains_text(c.actions@, spec_primary_action(mode)) || !spec_contains_text(c.actions@, "c2pa.opened"@) {
        Some("the temporary output is missing required "@ + spec_mode_debug(mode) + " actions"@)
    } else if mode == SignMode::Attest && spec_contains_text(c.actions@, "c2pa.edited"@) {
        Some("attestation output falsely contains c2pa.edited"@)
    } else if published != spec_contains_text(c.actions@, "c2pa.published"@) {
        Some("publication action in temporary output does not match the request"@)
    } else if !has_parent_ingredient(c.ingredients@) {
        Some("the temporary output is missing its parentOf ingredient"@)
    } else {
        None
    }
}

/// Checks that a written output has a valid active manifest with the actions
/// of its mode (an attestation never claims an edit), a publication action
/// exactly when one was requested, and a parent ingredient.
pub fn validate_signed_semantics(mode: SignMode, report: &InspectionReport, published: bool) -> (r: Result<(), AppError>)
    ensures
        match signed_semantics_error(mode, *report, published) {
            None => r is Ok,
            Some(m) => r matches Err(e) && e.exit_code == 3 && e.message@ == m,
        },
{
    let c = &report.c2pa;
    if !c.present || text_is(c.validation_state.as_str(), "invalid") {
        return Err(AppError::verification(owned("the temporary output has no valid active C2PA manifest")));
    }
    if !contains_text(&c.actions, mode.primary_action()) || !contains_text(&c.actions, "c2pa.opened") {
        return Err(AppError::verification(concat3("the temporary output is missing required ", mode.debug_name(), " actions")));
    }
    let attest = match mode {
        SignMode::Attest => true,
        SignMode::Derivative => false,
    };
    if attest && contains_text(&c.actions, "c2pa.edited") {
        return Err(AppError::verification(owned("attestation output falsely contains c2pa.edited")));
    }
    if published != contains_text(&c.actions, "c2pa.published") {
        return Err(AppError::verification(owned("publication action in temporary output does not match the request")));
    }
    if !find_parent(&c.ingredients, None) {
        return Err(AppError::verification(owned("the temporary output is missing its parentOf ingredient")));
    }
    Ok(())
}

/// The manifest count expected after signing: one more than the source's,
/// saturating.
pub open spec fn expected_manifest_count(source: nat) -> nat {
    if source + 1 > usize::MAX { usize::MAX as nat } else { source + 1 }
}

/// Whether the signed output links its parent: a parent ingredient carrying
/// the source's active manifest, or any parent ingredient when the source had
/// none.
pub open spec fn parent_linked(source: InspectionReport, signed: InspectionReport) -> bool {
    match source.c2pa.active_manifest {
        Some(a) => has_parent_with(signed.c2pa.ingredients@, a@),
        None => has_parent_ingredient(signed.c2pa.ingredients@),
    }
}

/// Checks that signing added exactly one manifest on top of the source's and
/// linked the source's active manifest as the parent.
pub fn validate_upstream_semantics(source: &InspectionReport, signed: &InspectionReport) -> (r: Result<(), AppError>)
    ensures
        signed.c2pa.manifest_count != expected_manifest_count(source.c2pa.manifest_count as nat) ==> (r matches Err(e)
            && e.exit_code == 3 && e.message@ == "signed output has "@ + decimal(signed.c2pa.manifest_count as nat)
                + " manifests; expected "@ + decimal(expected_manifest_count(source.c2pa.manifest_count as nat))
                + " after preserving "@ + decimal(source.c2pa.manifest_count as nat) + " upstream manifests"@),
        signed.c2pa.manifest_count == expected_manifest_count(source.c2pa.manifest_count as nat) ==> (
            parent_linked(*source, *signed) <==> r is Ok),
        signed.c2pa.manifest_count == expected_manifest_count(source.c2pa.manifest_count as nat) && r is Err ==> (r matches Err(e)
            && e.exit_code == 3
            && e.message@ == "signed output does not reference the source active manifest as its parent ingredient"@),
{
    let expected = source.c2pa.manifest_count.saturating_add(1);
    if signed.c2pa.manifest_count != expected {
        let mut m = String::from_str("signed output has ");
        push_decimal(&mut m, signed.c2pa.manifest_count as u64);
        push_str(&mut m, " manifests; expected ");
        push_decimal(&mut m, expected as u64);
        push_str(&mut m, " after preserving ");
        push_decimal(&mut m, source.c2pa.manifest_count as u64);
        push_str(&mut m, " upstream manifests");
        return Err(AppError::verification(m));
    }
    let linked = match &source.c2pa.active_manifest {
        Some(a) => find_parent(&signed.c2pa.ingredients, Some(a.as_str())),
        None => find_parent(&signed.c2pa.ingredients, None),
    };
    if !linked {
        return Err(AppError::verification(owned("signed output does not reference the source active manifest as its parent ingredient")));
    }
    Ok(())
}

/// Whether the source's active manifest is preserved as the parent of the
/// signed output.
pub open spec fn spec_upstream_is_preserved(source: InspectionReport, signed: InspectionReport) -> bool {
    match source.c2pa.active_manifest {
        Some(a) => has_parent_with(signed.c2pa.ingredients@, a@),
        None => false,
    }
}

/// Whether the source's active manifest is preserved as the parent.
pub fn upstream_is_preserved(source: &InspectionReport, signed: &InspectionReport) -> (b: bool)
    ensures
        b == spec_upstream_is_preserved(*source, *signed),
{
    match &source.c2pa.active_manifest {
        Some(a) => find_parent(&signed.c2pa.ingredients, Some(a.as_str())),
        None => false,
    }
}

/// A derivative input must be unsigned and differ in pixels from its parent.
pub fn check_derivative_input(input: &InspectionReport, pixels_identical: bool) -> (r: Result<(), AppError>)
    ensures
        input.c2pa.present ==> (r matches Err(e) && e.exit_code == 3 && e.message@
            == "the derivative input already has an active C2PA manifest. Refusing to create an ambiguous second parent chain; use that signed asset as --parent or provide the unsigned edited result"@),
        !input.c2pa.present && pixels_identical ==> (r matches Err(e) && e.exit_code == 3
            && e.message@ == "parent and derivative pixels are identical. Use `attest` instead"@),
        !input.c2pa.present && !pixels_identical ==> r is Ok,
{
    if input.c2pa.present {
        return Err(AppError::verification(owned(
            "the derivative input already has an active C2PA manifest. Refusing to create an ambiguous second parent chain; use that signed asset as --parent or provide the unsigned edited result",
        )));
    }
    if pixels_identical {
        return Err(AppError::verification(owned("parent and derivative pixels are identical. Use `attest` instead")));
    }
    Ok(())
}

/// Two path components are the same.
pub open spec fn same_part(a: PathPart, b: PathPart) -> bool {
    match (a, b) {
        (PathPart::Normal(x), PathPart::Normal(y)) => x@ == y@,
        (PathPart::Prefix, PathPart::Prefix) => true,
        (PathPart::Root, PathPart::Root) => true,
        (PathPart::CurDir, PathPart::CurDir) => true,
        (PathPart::ParentDir, PathPart::ParentDir) => true,
        _ => false,
    }
}

/// Path equality, which compares components (`impl PartialEq for Path`).
pub open spec fn spec_same_path(a: Seq<char>, b: Seq<char>) -> bool {
    let x = spec_components(a);
    let y = spec_components(b);
    x.len() == y.len() && forall|i: int| 0 <= i < x.len() ==> same_part(#[trigger] x[i], y[i])
}

fn part_eq(a: &PathPart, b: &PathPart) -> (r: bool)
    ensures
        r == same_part(*a, *b),
{
    match (a, b) {
        (PathPart::Normal(x), PathPart::Normal(y)) => text_is(x.as_str(), y.as_str()),
        (PathPart::Prefix, PathPart::Prefix) => true,
        (PathPart::Root, PathPart::Root) => true,
        (PathPart::CurDir, PathPart::CurDir) => true,
        (PathPart::ParentDir, PathPart::ParentDir) => true,
        _ => false,
    }
}

/// Whether two paths are equal component by component.
pub fn same_path(a: &str, b: &str) -> (r: bool)
    ensures
        r == spec_same_path(a@, b@),
{
    let x = components(a);
    let y = components(b);
    if x.len() != y.len() {
        return false;
    }
    let mut i: usize = 0;
    while i < x.len()
        invariant
            x@ == spec_components(a@),
            y@ == spec_components(b@),
            x@.len() == y@.len(),
            i <= x@.len(),
            forall|j: int| 0 <= j < i ==> same_part(#[trigger] x@[j], y@[j]),
        decreases x@.len() - i,
    {
        if !part_eq(&x[i], &y[i]) {
            return false;
        }
        i = i + 1;
    }
    true
}

/// A path made absolute against the working directory.
pub open spec fn spec_absolute(p: Seq<char>, cwd: Seq<char>) -> Seq<char> {
    if spec_is_absolute(p) { p } else { spec_join(cwd, p) }
}

/// Whether two paths name the same file: equal, equal once made absolute,
/// or, when both exist, with equal canonical forms (`canonical` holds those
/// forms, `None` for one that could not be resolved).
pub open spec fn spec_paths_equivalent(
    left: Seq<char>,
    right: Seq<char>,
    cwd: Seq<char>,
    canonical: Option<(Option<String>, Option<String>)>,
) -> bool {
    if spec_same_path(left, right) {
        true
    } else if spec_same_path(spec_absolute(left, cwd), spec_absolute(right, cwd)) {
        true
    } else {
        match canonical {
            Some((a, b)) => opt_text_eq(a, b),
            None => false,
        }
    }
}

/// Whether two paths name the same file (see `spec_paths_equivalent`).
pub fn paths_equivalent(
    left: &str,
    right: &str,
    cwd: &str,
    canonical: Option<(Option<String>, Option<String>)>,
) -> (r: bool)
    ensures
        r == spec_paths_equivalent(left@, right@, cwd@, canonical),
{
    if same_path(left, right) {
        return true;
    }
    let la = if is_absolute(left) { owned(left) } else { join(cwd, left) };
    let ra = if is_absolute(right) { owned(right) } else { join(cwd, right) };
    if same_path(la.as_str(), ra.as_str()) {
        return true;
    }
    match &canonical {
        Some((a, b)) => opt_eq(a, b),
        None => false,
    }
}

/// What the file system says about the paths of a signing request.
#[derive(Debug)]
pub struct PreflightFacts {
    pub input_is_file: bool,
    pub parent_is_file: bool,
    pub output_is_input: bool,
    pub output_is_parent: bool,
    pub output_exists: bool,
}

/// The first refusal of a signing destination, as the message reported.
pub open spec fn preflight_error(input: Seq<char>, parent: Option<Seq<char>>, output: Seq<char>, force: bool, f: PreflightFacts) -> Option<Seq<char>> {
    if !f.input_is_file {
        Some("input is not a regular file: "@ + input)
    } else if parent.is_some() && !f.parent_is_file {
        Some("parent is not a regular file: "@ + parent.unwrap())
    } else if f.output_is_input || (parent.is_some() && f.output_is_parent) {
        Some("refusing to overwrite an input or parent asset; choose a separate output path"@)
    } else if f.output_exists && !force {
        Some("existing output file found: "@ + output + ". Use --force to replace it"@)
    } else {
        None
    }
}

/// The optional text of an optional string slice.
pub open spec fn opt_str(s: Option<&str>) -> Option<Seq<char>> {
    match s {
        Some(t) => Some(t@),
        None => None,
    }
}

/// Checks a signing destination before anything is read: the input (and
/// parent) are regular files, the output is neither of them, and an
/// existing output is replaced only with `force`.
pub fn preflight_output(input: &str, parent: Option<&str>, output: &str, force: bool, facts: &PreflightFacts) -> (r: Result<(), AppError>)
    ensures
        match preflight_error(input@, opt_str(parent), output@, force, *facts) {
            None => r is Ok,
            Some(m) => r matches Err(e) && e.exit_code == 1 && e.message@ == m,
        },
{
    if !facts.input_is_file {
        return Err(AppError::runtime(concat2("input is not a regular file: ", input)));
    }
    if let Some(p) = parent {
        if !facts.parent_is_file {
            return Err(AppError::runtime(concat2("parent is not a regular file: ", p)));
        }
    }
    if facts.output_is_input || (parent.is_some() && facts.output_is_parent) {
        return Err(AppError::runtime(owned("refusing to overwrite an input or parent asset; choose a separate output path")));
    }
    if facts.output_exists && !force {
        return Err(AppError::runtime(concat3("existing output file found: ", output, ". Use --force to replace it")));
    }
    Ok(())
}

/// What the C2PA builder is given for one signature.
#[derive(Debug)]
pub struct ManifestPlan {
    /// The manifest title: the input's file name, or `image`.
    pub title: String,
    /// The MIME type of the input.
    pub format: String,
    /// The manifest vendor, when the identity names one.
    pub vendor: Option<String>,
    /// The claim generator name.
    pub generator: &'static str,
    /// The C2PA specification version recorded with the generator.
    pub spec_version: &'static str,
    /// The generator's domain and URI, when the identity names them.
    pub domain: Option<String>,
    pub uri: Option<String>,
    /// The primary action and its description.
    pub primary_action: &'static str,
    pub description: String,
    /// Whether a publication action is added.
    pub published: bool,
    /// Whether the source's existing manifest is updated rather than edited.
    pub update_intent: bool,
    /// The title of the parent ingredient of a derivative.
    pub parent_title: Option<String>,
    /// The file name of the temporary output: `signed.` and the format's
    /// extension.
    pub temp_name: String,
}

/// The title of a file in a manifest: its name, or the given fallback.
pub open spec fn title_of(path: Seq<char>, fallback: Seq<char>) -> Seq<char> {
    match spec_file_name(path) {
        Some(n) => n,
        None => fallback,
    }
}

/// Decides what the C2PA builder is given. An attestation updates an
/// existing manifest and edits an unsigned source; a derivative always edits
/// and names its parent.
pub fn plan_manifest(
    profile: &Profile,
    mode: SignMode,
    input: &str,
    parent: Option<&str>,
    mime: &str,
    description: &str,
    published: bool,
    source: &InspectionReport,
) -> (p: ManifestPlan)
    ensures
        p.title@ == title_of(input@, "image"@),
        p.format@ == mime@,
        p.vendor == profile.identity.vendor,
        p.generator@ == "banksy-c2pa"@,
        p.spec_version@ == "2.4.0"@,
        p.domain == profile.identity.domain,
        p.uri == profile.identity.uri,
        p.primary_action@ == spec_primary_action(mode),
        p.description@ == description@,
        p.published == published,
        p.update_intent == (mode == SignMode::Attest && source.c2pa.present),
        match (mode, parent) {
            (SignMode::Derivative, Some(q)) => p.parent_title matches Some(t) && t@ == title_of(q@, "parent"@),
            _ => p.parent_title.is_none(),
        },
        p.temp_name@ == "signed."@ + spec_extension_for_mime(mime@),
{
    let title = match file_name(input) {
        Some(n) => n,
        None => owned("image"),
    };
    let update_intent = match mode {
        SignMode::Attest => source.c2pa.present,
        SignMode::Derivative => false,
    };
    let parent_title = match (mode, parent) {
        (SignMode::Derivative, Some(q)) => match file_name(q) {
            Some(n) => Some(n),
            None => Some(owned("parent")),
        },
        _ => None,
    };
    ManifestPlan {
        title,
        format: owned(mime),
        vendor: clone_opt(&profile.identity.vendor),
        generator: "banksy-c2pa",
        spec_version: "2.4.0",
        domain: clone_opt(&profile.identity.domain),
        uri: clone_opt(&profile.identity.uri),
        primary_action: mode.primary_action(),
        description: owned(description),
        published,
        update_intent,
        parent_title,
        temp_name: concat2("signed.", extension_for_mime(mime)),
    }
}

/// The message of a signature that failed validation after it was written.
pub open spec fn msg_invalid_after_write(v: VerifyReport) -> Seq<char> {
    "C2PA manifest validation failed after write; output was not committed ("@ + v.validation_state@ + ")"@
        + if v.validation_failures@.len() == 0 { Seq::<char>::empty() } else { ": "@ + joined(texts(v.validation_failures@), ", "@) }
}

/// Refuses a freshly written temporary output whose decoded pixels differ
/// from the input's.
pub fn check_written_pixels(pixels_equal: bool) -> (r: Result<(), AppError>)
    ensures
        pixels_equal <==> r is Ok,
        r matches Err(e) ==> e.exit_code == 3
            && e.message@ == "C2PA embedding changed decoded pixels; output was not committed"@,
{
    if !pixels_equal {
        return Err(AppError::verification(owned("C2PA embedding changed decoded pixels; output was not committed")));
    }
    Ok(())
}

/// Checks a freshly written temporary output: its decoded pixels equal the
/// input's, and its signature is valid and trusted by the local root.
pub fn check_written_output(pixels_equal: bool, validation: &VerifyReport) -> (r: Result<(), AppError>)
    ensures
        !pixels_equal ==> (r matches Err(e) && e.exit_code == 3
            && e.message@ == "C2PA embedding changed decoded pixels; output was not committed"@),
        pixels_equal && !(validation.signature_valid && validation.local_trust) ==> (r matches Err(e)
            && e.exit_code == 3 && e.message@ == msg_invalid_after_write(*validation)),
        pixels_equal && validation.signature_valid && validation.local_trust ==> r is Ok,
{
    check_written_pixels(pixels_equal)?;
    if !validation.signature_valid || !validation.local_trust {
        let mut m = concat3(
            "C2PA manifest validation failed after write; output was not committed (",
            validation.validation_state.as_str(),
            ")",
        );
        if validation.validation_failures.len() != 0 {
            push_str(&mut m, ": ");
            let joined_failures = join_texts(&validation.validation_failures, ", ");
            push_str(&mut m, joined_failures.as_str());
        }
        return Err(AppError::verification(m));
    }
    Ok(())
}

/// Checks a committed output: the bytes are those that were validated, the
/// embedding is well formed, and the signature is valid and locally trusted.
pub fn check_committed_output(
    temp_sha256: &str,
    output_sha256: &str,
    container: &ContainerCredentialReport,
    validation: &VerifyReport,
) -> (r: Result<(), AppError>)
    ensures
        temp_sha256@ != output_sha256@ ==> (r matches Err(e) && e.exit_code == 3
            && e.message@ == "committed output SHA-256 differs from the validated temporary output"@),
        temp_sha256@ == output_sha256@ && !spec_valid_generated_embedding(container@) ==> (r matches Err(e)
            && e.exit_code == 3
            && e.message@ == "output container credential validation failed: "@ + embedding_detail(*container)),
        temp_sha256@ == output_sha256@ && spec_valid_generated_embedding(container@)
            && !(validation.signature_valid && validation.local_trust) ==> (r matches Err(e) && e.exit_code == 3
            && e.message@ == "committed output failed local C2PA signature validation"@),
        temp_sha256@ == output_sha256@ && spec_valid_generated_embedding(container@) && validation.signature_valid
            && validation.local_trust ==> r is Ok,
{
    if !text_is(temp_sha256, output_sha256) {
        return Err(AppError::verification(owned("committed output SHA-256 differs from the validated temporary output")));
    }
    require_generated_embedding(container)?;
    if !validation.signature_valid || !validation.local_trust {
        return Err(AppError::verification(owned("committed output failed local C2PA signature validation")));
    }
    Ok(())
}

/// The actions reported for a signature: opened, the mode's primary action,
/// and a publication action when requested.
pub open spec fn report_actions(mode: SignMode, published: bool) -> Seq<Seq<char>> {
    let base = seq!["c2pa.opened"@, spec_primary_action(mode)];
    if published { base.push("c2pa.published"@) } else { base }
}

/// The signing report of a committed, verified output.
pub fn signing_report(
    profile: &Profile,
    mode: SignMode,
    input: String,
    parent: Option<String>,
    output: String,
    output_sha256: String,
    description: &str,
    published: bool,
    source: &InspectionReport,
    container: &ContainerCredentialReport,
    committed: &InspectionReport,
) -> (r: SigningReport)
    ensures
        r.status@ == "ok"@,
        r.mode@ == spec_mode_name(mode),
        r.input == input,
        r.output == output,
        r.output_sha256 == output_sha256,
        r.description@ == description@,
        r.pixels_changed_from_parent == (if parent.is_some() { Some(true) } else { None }),
        r.parent == parent,
        r.output_pixels_equal_input,
        r.parent_relationship@ == "parentOf"@,
        r.upstream_provenance@ == (if source.c2pa.present {
            "preserved and reachable through the parent ingredient"@
        } else {
            "source recorded as a parent ingredient; no upstream manifest was present"@
        }),
        texts(r.actions@) == report_actions(mode, published),
        r.identity.claim_generator@ == "banksy-c2pa"@,
        r.identity.signer_name@ == profile.identity.signer_name@,
        r.identity.organization == profile.identity.organization,
        r.identity.domain == profile.identity.domain,
        r.identity.uri == profile.identity.uri,
        r.identity.vendor == profile.identity.vendor,
        r.c2pa.signature_valid && r.c2pa.certificate_chain_valid && r.c2pa.local_trust,
        !r.c2pa.public_trust && !r.c2pa.trusted_timestamp,
        r.c2pa.public_trust_status@ == "not-established"@,
        r.c2pa.embedded && r.c2pa.post_commit_verified,
        r.c2pa.credential_location == container.location,
        r.c2pa.credential_bytes == container.store_bytes,
        r.c2pa.manifest_count == committed.c2pa.manifest_count,
        r.c2pa.upstream_manifest_count == source.c2pa.manifest_count,
        r.c2pa.upstream_preserved == spec_upstream_is_preserved(*source, *committed),
        r.key_authentication@ == "macOS user authentication immediately before retrieval; Touch ID is offered when available, with login-password fallback"@,
{
    let mut actions: Vec<String> = Vec::new();
    push_text(&mut actions, owned("c2pa.opened"));
    push_text(&mut actions, owned(mode.primary_action()));
    if published {
        push_text(&mut actions, owned("c2pa.published"));
    }
    let upstream_preserved = upstream_is_preserved(source, committed);
    let changed = match &parent {
        Some(_) => Some(true),
        None => None,
    };
    SigningReport {
        status: "ok",
        mode: mode.as_str(),
        input,
        parent,
        output,
        output_sha256,
        description: owned(description),
        pixels_changed_from_parent: changed,
        output_pixels_equal_input: true,
        parent_relationship: "parentOf",
        upstream_provenance: if source.c2pa.present {
            "preserved and reachable through the parent ingredient"
        } else {
            "source recorded as a parent ingredient; no upstream manifest was present"
        },
        actions,
        identity: SigningIdentityReport {
            claim_generator: "banksy-c2pa",
            signer_name: profile.identity.signer_name.clone(),
            organization: clone_opt(&profile.identity.organization),
            domain: clone_opt(&profile.identity.domain),
            uri: clone_opt(&profile.identity.uri),
            vendor: clone_opt(&profile.identity.vendor),
        },
        c2pa: SigningValidationReport {
            signature_valid: true,
            certificate_chain_valid: true,
            local_trust: true,
            public_trust: false,
            public_trust_status: "not-established",
            trusted_timestamp: false,
            embedded: true,
            credential_location: container.location,
            credential_bytes: container.store_bytes,
            manifest_count: committed.c2pa.manifest_count,
            upstream_manifest_count: source.c2pa.manifest_count,
            upstream_preserved,
            post_commit_verified: true,
        },
        key_authentication: profile.credential.keychain_backend.authentication_description(),
    }
}

/// The outcome of the attestation checks that run before a signing key is
/// requested (see `preflight_attest`).
pub open spec fn spec_preflight_attest(
    input: Seq<char>,
    output: Seq<char>,
    force: bool,
    facts: PreflightFacts,
    source: Result<InspectionReport, AppError>,
    mime: Result<&'static str, AppError>,
    output_dir_exists: bool,
    r: Result<InspectionReport, AppError>,
) -> bool {
    match preflight_error(input, None, output, force, facts) {
        Some(m) => r matches Err(e) && e.exit_code == 1 && e.message@ == m,
        None => match source {
            Err(e0) => r == Err::<InspectionReport, AppError>(e0),
            Ok(s) => if s.c2pa.present && s.c2pa.validation_state@ == "invalid"@ {
                r matches Err(e) && e.exit_code == 3
                    && e.message@ == "input has invalid C2PA provenance; refusing to extend a broken chain"@
            } else {
                match mime {
                    Err(e1) => r == Err::<InspectionReport, AppError>(e1),
                    Ok(m) => if !extension_fits(m@, output) {
                        r matches Err(e) && e.exit_code == 1
                            && e.message@ == "output extension must match the source format "@ + m@
                    } else if !output_dir_exists {
                        r matches Err(e) && e.exit_code == 1
                            && e.message@ == "output directory does not exist: "@ + spec_output_directory(output)
                    } else {
                        r == Ok::<InspectionReport, AppError>(s)
                    },
                }
            },
        },
    }
}

/// Every attestation check that runs before a signing key is requested, in
/// order: the destination (`facts`), the source's C2PA inspection (or the
/// error reading it), its existing provenance, its format (`mime`, or the
/// error detecting it), the output extension, and the output directory.
pub fn preflight_attest(
    input: &str,
    output: &str,
    force: bool,
    facts: &PreflightFacts,
    source: Result<InspectionReport, AppError>,
    mime: Result<&'static str, AppError>,
    output_dir_exists: bool,
) -> (r: Result<InspectionReport, AppError>)
    ensures
        spec_preflight_attest(input@, output@, force, *facts, source, mime, output_dir_exists, r),
{
    preflight_output(input, None, output, force, facts)?;
    let s = match source {
        Ok(s) => s,
        Err(e) => return Err(e),
    };
    if s.c2pa.present && text_is(s.c2pa.validation_state.as_str(), "invalid") {
        return Err(AppError::verification(owned("input has invalid C2PA provenance; refusing to extend a broken chain")));
    }
    let m = match mime {
        Ok(m) => m,
        Err(e) => return Err(e),
    };
    validate_output_extension(output, m)?;
    if !output_dir_exists {
        return Err(missing_output_directory(output));
    }
    Ok(s)
}

/// The outcome of the derivative checks that run before a signing key is
/// requested (see `preflight_derivative`).
pub open spec fn spec_preflight_derivative(
    input: Seq<char>,
    parent: Seq<char>,
    output: Seq<char>,
    force: bool,
    facts: PreflightFacts,
    parent_report: Result<InspectionReport, AppError>,
    input_report: Result<InspectionReport, AppError>,
    pixels_identical: Result<bool, AppError>,
    r: Result<InspectionReport, AppError>,
) -> bool {
    match preflight_error(input, Some(parent), output, force, facts) {
        Some(m) => r matches Err(e) && e.exit_code == 1 && e.message@ == m,
        None => match parent_report {
            Err(e0) => r == Err::<InspectionReport, AppError>(e0),
            Ok(p) => if p.c2pa.present && p.c2pa.validation_state@ == "invalid"@ {
                r matches Err(e) && e.exit_code == 3
                    && e.message@ == "parent has invalid C2PA provenance; refusing to extend a broken chain"@
            } else {
                match input_report {
                    Err(e1) => r == Err::<InspectionReport, AppError>(e1),
                    Ok(i) => if i.c2pa.present {
                        r matches Err(e) && e.exit_code == 3 && e.message@
                            == "the derivative input already has an active C2PA manifest. Refusing to create an ambiguous second parent chain; use that signed asset as --parent or provide the unsigned edited result"@
                    } else {
                        match pixels_identical {
                            Err(e2) => r == Err::<InspectionReport, AppError>(e2),
                            Ok(true) => r matches Err(e) && e.exit_code == 3
                                && e.message@ == "parent and derivative pixels are identical. Use `attest` instead"@,
                            Ok(false) => r == Ok::<InspectionReport, AppError>(p),
                        }
                    },
                }
            },
        },
    }
}

/// Every derivative check that runs before a signing key is requested, in
/// order: the destination (`facts`), the parent's inspection and existing
/// provenance, the input's inspection, and the derivative rules (an unsigned
/// input whose pixels differ from the parent's). The parent's inspection is
/// returned.
pub fn preflight_derivative(
    input: &str,
    parent: &str,
    output: &str,
    force: bool,
    facts: &PreflightFacts,
    parent_report: Result<InspectionReport, AppError>,
    input_report: Result<InspectionReport, AppError>,
    pixels_identical: Result<bool, AppError>,
) -> (r: Result<InspectionReport, AppError>)
    ensures
        spec_preflight_derivative(input@, parent@, output@, force, *facts, parent_report, input_report, pixels_identical, r),
{
    preflight_output(input, Some(parent), output, force, facts)?;
    let p = match parent_report {
        Ok(p) => p,
        Err(e) => return Err(e),
    };
    if p.c2pa.present && text_is(p.c2pa.validation_state.as_str(), "invalid") {
        return Err(AppError::verification(owned("parent has invalid C2PA provenance; refusing to extend a broken chain")));
    }
    let i = match input_report {
        Ok(i) => i,
        Err(e) => return Err(e),
    };
    if i.c2pa.present {
        return Err(AppError::verification(owned(
            "the derivative input already has an active C2PA manifest. Refusing to create an ambiguous second parent chain; use that signed asset as --parent or provide the unsigned edited result",
        )));
    }
    let same = match pixels_identical {
        Ok(b) => b,
        Err(e) => return Err(e),
    };
    if same {
        return Err(AppError::verification(owned("parent and derivative pixels are identical. Use `attest` instead")));
    }
    Ok(p)
}

/// The claim description: the one given, or the profile's default for the
/// mode.
pub fn sign_description(profile: &Profile, mode: SignMode, description: Option<&str>) -> (r: String)
    ensures
        match description {
            Some(d) => r@ == d@,
            None => r@ == (if mode == SignMode::Attest {
                profile.manifest.attest_description@
            } else {
                profile.manifest.default_description@
            }),
        },
{
    match description {
        Some(d) => owned(d),
        None => match mode {
            SignMode::Attest => profile.manifest.attest_description.clone(),
            SignMode::Derivative => profile.manifest.default_description.clone(),
        },
    }
}

/// A signing request is refused before anything is written when its output
/// is its input or its parent, and when the output exists and `force` was
/// not given.
pub proof fn law_preflight_protects_sources(
    input: Seq<char>,
    parent: Option<Seq<char>>,
    output: Seq<char>,
    force: bool,
    facts: PreflightFacts,
)
    ensures
        facts.output_is_input ==> preflight_error(input, parent, output, force, facts) is Some,
        parent.is_some() && facts.output_is_parent ==> preflight_error(input, parent, output, force, facts) is Some,
        facts.output_exists && !force ==> preflight_error(input, parent, output, force, facts) is Some,
{
}

/// The manifest an attestation is signed with: the claim records the
/// metadata edit of the input, in its format (`mime`), with the given or
/// default description; it updates an existing history.
pub open spec fn spec_attest_plan(profile: Profile, input: Seq<char>, description: Option<Seq<char>>, published: bool,
    mime: Seq<char>, source: InspectionReport, p: ManifestPlan) -> bool {
    &&& p.primary_action@ == "c2pa.edited.metadata"@
    &&& p.title@ == title_of(input, "image"@)
    &&& p.format@ == mime
    &&& p.published == published
    &&& p.update_intent == source.c2pa.present
    &&& p.parent_title.is_none()
    &&& p.description@ == (match description { Some(d) => d, None => profile.manifest.attest_description@ })
}

/// The manifest an attestation is signed with; the output must keep the
/// input's format.
pub fn attest_plan(
    profile: &Profile,
    input: &str,
    output: &str,
    description: Option<&str>,
    published: bool,
    mime: &str,
    source: &InspectionReport,
) -> (r: Result<ManifestPlan, AppError>)
    ensures
        !extension_fits(mime@, output@) ==> (r matches Err(e) && e.exit_code == 1
            && e.message@ == "output extension must match the source format "@ + mime@),
        extension_fits(mime@, output@) ==> (r matches Ok(p)
            && spec_attest_plan(*profile, input@, opt_str(description), published, mime@, *source, p)),
{
    validate_output_extension(output, mime)?;
    let d = sign_description(profile, SignMode::Attest, description);
    Ok(plan_manifest(profile, SignMode::Attest, input, None, mime, d.as_str(), published, source))
}

/// The source inspection of a checked request.
pub open spec fn checked_source<P>(r: Result<(InspectionReport, P), AppError>) -> Result<InspectionReport, AppError> {
    match r {
        Ok((s, _)) => Ok(s),
        Err(e) => Err(e),
    }
}

/// An attestation request up to the point where the signing key is needed:
/// every check of `preflight_attest` first, in its order, and only when they
/// all pass, the manifest to sign. A refused request is refused before any
/// key is asked for.
pub fn attest(
    profile: &Profile,
    input: &str,
    output: &str,
    description: Option<&str>,
    published: bool,
    force: bool,
    facts: &PreflightFacts,
    source: Result<InspectionReport, AppError>,
    mime: Result<&'static str, AppError>,
    output_dir_exists: bool,
) -> (r: Result<(InspectionReport, ManifestPlan), AppError>)
    ensures
        spec_preflight_attest(input@, output@, force, *facts, source, mime, output_dir_exists, checked_source(r)),
        r matches Ok((s, p)) ==> (mime matches Ok(m)
            && spec_attest_plan(*profile, input@, opt_str(description), published, m@, s, p)),
{
    let m: &'static str = match &mime {
        Ok(m) => *m,
        Err(_) => "",
    };
    let ghost mime0 = mime;
    let s = match preflight_attest(input, output, force, facts, source, mime, output_dir_exists) {
        Ok(s) => s,
        Err(e) => return Err(e),
    };
    assert(mime0 matches Ok(mm) && mm == m);
    let plan = match attest_plan(profile, input, output, description, published, m, &s) {
        Ok(p) => p,
        Err(e) => return Err(e),
    };
    Ok((s, plan))
}

/// The manifest a derivative is signed with: the claim records an edit of
/// the input, in its format (`mime`), with the given or default description,
/// and the parent becomes its ingredient.
pub open spec fn spec_derivative_plan(profile: Profile, parent: Seq<char>, input: Seq<char>, description: Option<Seq<char>>,
    published: bool, mime: Seq<char>, p: ManifestPlan) -> bool {
    &&& p.primary_action@ == "c2pa.edited"@
    &&& p.title@ == title_of(input, "image"@)
    &&& p.format@ == mime
    &&& p.published == published
    &&& !p.update_intent
    &&& p.parent_title matches Some(t) && t@ == title_of(parent, "parent"@)
    &&& p.description@ == (match description { Some(d) => d, None => profile.manifest.default_description@ })
}

/// The manifest a derivative is signed with; the output must keep the
/// input's format.
pub fn derivative_plan(
    profile: &Profile,
    parent: &str,
    input: &str,
    output: &str,
    description: Option<&str>,
    published: bool,
    mime: &str,
    parent_report: &InspectionReport,
) -> (r: Result<ManifestPlan, AppError>)
    ensures
        !extension_fits(mime@, output@) ==> (r matches Err(e) && e.exit_code == 1
            && e.message@ == "output extension must match the source format "@ + mime@),
        extension_fits(mime@, output@) ==> (r matches Ok(p)
            && spec_derivative_plan(*profile, parent@, input@, opt_str(description), published, mime@, p)),
{
    validate_output_extension(output, mime)?;
    let d = sign_description(profile, SignMode::Derivative, description);
    Ok(plan_manifest(profile, SignMode::Derivative, input, Some(parent), mime, d.as_str(), published, parent_report))
}

/// A derivative request up to the point where the signing key is needed:
/// every check of `preflight_derivative` first, in its order; only when they
/// all pass, the input's format (`mime`, or the error detecting it), the
/// output extension, and the manifest to sign. A refused request is refused
/// before any key is asked for.
pub fn derivative(
    profile: &Profile,
    parent: &str,
    input: &str,
    output: &str,
    description: Option<&str>,
    published: bool,
    force: bool,
    facts: &PreflightFacts,
    parent_report: Result<InspectionReport, AppError>,
    input_report: Result<InspectionReport, AppError>,
    pixels_identical: Result<bool, AppError>,
    mime: Result<&'static str, AppError>,
) -> (r: Result<(InspectionReport, ManifestPlan), AppError>)
    ensures
        exists|pre: Result<InspectionReport, AppError>|
            #[trigger] spec_preflight_derivative(input@, parent@, output@, force, *facts, parent_report, input_report, pixels_identical, pre)
            && match pre {
                Err(e) => r == Err::<(InspectionReport, ManifestPlan), AppError>(e),
                Ok(p) => match mime {
                    Err(e1) => r == Err::<(InspectionReport, ManifestPlan), AppError>(e1),
                    Ok(m) => if !extension_fits(m@, output@) {
                        r matches Err(e) && e.exit_code == 1
                            && e.message@ == "output extension must match the source format "@ + m@
                    } else {
                        r matches Ok((s, plan)) && s == p
                            && spec_derivative_plan(*profile, parent@, input@, opt_str(description), published, m@, plan)
                    },
                },
            },
{
    let pre = preflight_derivative(input, parent, output, force, facts, parent_report, input_report, pixels_identical);
    let ghost pre0 = pre;
    let p = match pre {
        Ok(p) => p,
        Err(e) => return Err(e),
    };
    let m = match mime {
        Ok(m) => m,
        Err(e) => return Err(e),
    };
    let plan = match derivative_plan(profile, parent, input, output, description, published, m, &p) {
        Ok(plan) => plan,
        Err(e) => {
            assert(spec_preflight_derivative(input@, parent@, output@, force, *facts, parent_report, input_report, pixels_identical, pre0));
            return Err(e);
        },
    };
    Ok((p, plan))
}

/// An attestation never claims an edit: its actions are the opening and the
/// metadata action, and the publication action exactly when it is asked for.
pub proof fn law_attestation_claims_no_edit(published: bool)
    ensures
        !report_actions(SignMode::Attest, published).contains("c2pa.edited"@),
        report_actions(SignMode::Attest, published).contains("c2pa.edited.metadata"@),
        report_actions(SignMode::Attest, published).contains("c2pa.published"@) == published,
{
    reveal_strlit("c2pa.edited");
    reveal_strlit("c2pa.edited.metadata");
    reveal_strlit("c2pa.opened");
    reveal_strlit("c2pa.published");
    let a = report_actions(SignMode::Attest, published);
    assert(a[1] == "c2pa.edited.metadata"@);
    assert(a[0] != "c2pa.edited"@) by {
        assert(a[0][5] != "c2pa.edited"@[5]);
    }
    assert(a[1] != "c2pa.edited"@) by {
        assert(a[1].len() != "c2pa.edited"@.len());
    }
    if published {
        assert(a[2] == "c2pa.published"@);
        assert(a[2] != "c2pa.edited"@) by {
            assert(a[2].len() != "c2pa.edited"@.len());
        }
    } else {
        assert(a[0] != "c2pa.published"@) by {
            assert(a[0][5] != "c2pa.published"@[5]);
        }
        assert(a[1] != "c2pa.published"@) by {
            assert(a[1].len() != "c2pa.published"@.len());
        }
    }
}

/// A written output whose manifest passes the semantic checks holds the
/// actions of its mode, a parent ingredient, and a publication action exactly
/// when one was asked for; an attestation never holds an edit action.
pub proof fn law_checked_output_semantics(mode: SignMode, report: InspectionReport, published: bool)
    requires
        signed_semantics_error(mode, report, published).is_none(),
    ensures
        report.c2pa.present,
        spec_contains_text(report.c2pa.actions@, spec_primary_action(mode)),
        spec_contains_text(report.c2pa.actions@, "c2pa.opened"@),
        spec_contains_text(report.c2pa.actions@, "c2pa.published"@) == published,
        mode == SignMode::Attest ==> !spec_contains_text(report.c2pa.actions@, "c2pa.edited"@),
        has_parent_ingredient(report.c2pa.ingredients@),
{
}

/// Whether a freshly signed temporary output is accepted: its decoded pixels
/// equal the input's, its signature is valid and trusted by the local root,
/// its claim has the requested semantics, it holds one manifest more than the
/// source and links the source as its parent, and its container holds the
/// single generated credential store.
pub open spec fn spec_signed_output_accepted(
    mode: SignMode,
    published: bool,
    source: InspectionReport,
    pixels_equal: Result<bool, AppError>,
    validation: Result<VerifyReport, AppError>,
    signed: Result<InspectionReport, AppError>,
    container: Result<ContainerCredentialReport, AppError>,
) -> bool {
    &&& pixels_equal == Ok::<bool, AppError>(true)
    &&& validation matches Ok(v) && v.signature_valid && v.local_trust
    &&& signed matches Ok(s) && signed_semantics_error(mode, s, published) is None
        && s.c2pa.manifest_count == expected_manifest_count(source.c2pa.manifest_count as nat)
        && parent_linked(source, s)
    &&& container matches Ok(c) && spec_valid_generated_embedding(c@)
}

/// Checks a freshly signed temporary output before it is committed, in
/// order: the pixel comparison (or the error making it), the signature
/// validation, the claim semantics, the upstream history, and the container.
/// The output is accepted exactly when every check passes; otherwise the
/// first failure is reported.
pub fn check_signed_output(
    mode: SignMode,
    published: bool,
    source: &InspectionReport,
    pixels_equal: Result<bool, AppError>,
    validation: Result<VerifyReport, AppError>,
    signed: Result<InspectionReport, AppError>,
    container: Result<ContainerCredentialReport, AppError>,
) -> (r: Result<(), AppError>)
    ensures
        r is Ok <==> spec_signed_output_accepted(mode, published, *source, pixels_equal, validation, signed, container),
        pixels_equal matches Err(e) ==> r == Err::<(), AppError>(e),
{
    let same = match pixels_equal {
        Ok(b) => b,
        Err(e) => return Err(e),
    };
    check_written_pixels(same)?;
    let v = match validation {
        Ok(v) => v,
        Err(e) => return Err(e),
    };
    check_written_output(true, &v)?;
    let s = match signed {
        Ok(s) => s,
        Err(e) => return Err(e),
    };
    validate_signed_semantics(mode, &s, published)?;
    validate_upstream_semantics(source, &s)?;
    let c = match container {
        Ok(c) => c,
        Err(e) => return Err(e),
    };
    require_generated_embedding(&c)?;
    Ok(())
}

/// What an accepted signature guarantees of the signed output: the claim is
/// present with the mode's primary action and the opening action, an
/// attestation claims no edit, the publication action appears exactly when
/// requested, the output holds one manifest more than its source, links the
/// source's active manifest (or some parent) as its parent ingredient, its
/// signature is valid and locally trusted, its decoded pixels equal the
/// input's, and its container holds the single generated store.
pub proof fn law_accepted_signature(
    mode: SignMode,
    published: bool,
    source: InspectionReport,
    pixels_equal: Result<bool, AppError>,
    validation: Result<VerifyReport, AppError>,
    signed: Result<InspectionReport, AppError>,
    container: Result<ContainerCredentialReport, AppError>,
)
    requires
        spec_signed_output_accepted(mode, published, source, pixels_equal, validation, signed, container),
    ensures
        pixels_equal == Ok::<bool, AppError>(true),
        validation matches Ok(v) && v.signature_valid && v.local_trust,
        signed matches Ok(s) && {
            &&& s.c2pa.present
            &&& spec_contains_text(s.c2pa.actions@, spec_primary_action(mode))
            &&& spec_contains_text(s.c2pa.actions@, "c2pa.opened"@)
            &&& spec_contains_text(s.c2pa.actions@, "c2pa.published"@) == published
            &&& (mode == SignMode::Attest ==> !spec_contains_text(s.c2pa.actions@, "c2pa.edited"@))
            &&& (source.c2pa.manifest_count < usize::MAX ==> s.c2pa.manifest_count == source.c2pa.manifest_count + 1)
            &&& (source.c2pa.active_manifest matches Some(a) ==> has_parent_with(s.c2pa.ingredients@, a@))
        },
        container matches Ok(c) && spec_valid_generated_embedding(c@),
{
    if let Ok(s) = signed {
        law_checked_output_semantics(mode, s, published);
    }
}

/// An optional value as shown in a report.
pub open spec fn shown_or_not_configured(v: Option<String>) -> Seq<char> {
    match v {
        Some(s) => s@,
        None => "not configured"@,
    }
}

/// The identity part of a signing report's text.
pub open spec fn signing_text_identity(r: SigningReport) -> Seq<char> {
    "Signed successfully\n"@
        + "\nMode\n  "@ + r.mode@ + "\n"@
        + "\nClaim generator\n  "@ + r.identity.claim_generator@ + "\n"@
        + "\nSigner name\n  "@ + r.identity.signer_name@ + "\n"@
        + "\nOrganization\n  "@ + shown_or_not_configured(r.identity.organization) + "\n"@
        + "\nIdentity URI\n  "@ + shown_or_not_configured(r.identity.uri) + "\n"@
        + "\nEditorial description\n  "@ + r.description@ + "\n"@
        + "\nActions\n  "@ + joined(texts(r.actions@), ", "@) + "\n"@
}

/// The content part of a signing report's text.
pub open spec fn signing_text_content(r: SigningReport) -> Seq<char> {
    "\nOutput pixels equal input\n  "@ + (if r.output_pixels_equal_input { "yes"@ } else { "no"@ }) + "\n"@
        + (match r.pixels_changed_from_parent {
            Some(c) => "\nPixels differ from parent\n  "@ + (if c { "yes"@ } else { "no"@ }) + "\n"@,
            None => Seq::<char>::empty(),
        })
        + "\nParent provenance\n  "@ + r.upstream_provenance@ + "\n"@
        + "\nEmbedded credential\n  "@ + r.c2pa.credential_location@ + "\n"@
        + "\nManifest store bytes\n  "@ + decimal(r.c2pa.credential_bytes as nat) + "\n"@
        + "\nManifest count\n  "@ + decimal(r.c2pa.manifest_count as nat) + "\n"@
        + "\nUpstream manifests preserved\n  "@ + (if r.c2pa.upstream_preserved { "yes"@ } else { "no"@ }) + "\n"@
}

/// The closing part of a signing report's text.
pub open spec fn signing_text_tail(r: SigningReport) -> Seq<char> {
    "\nC2PA claim signature and asset binding\n  valid\n"@
        + "\nSigning credential\n  locally valid\n"@
        + "\nPublic C2PA trust\n  not established\n"@
        + "\nTimestamp\n  local claim time; RFC 3161 TSA not configured\n"@
        + "\nPost-commit verification\n  passed\n"@
        + "\nOutput SHA-256\n  "@ + r.output_sha256@ + "\n"@
        + "\nOutput\n  "@ + r.output@
}

fn push_shown(r: &mut String, v: &Option<String>)
    ensures
        final(r)@ == old(r)@ + shown_or_not_configured(*v),
{
    match v {
        Some(s) => push_str(r, s.as_str()),
        None => push_str(r, "not configured"),
    }
}

fn identity_text(r: &SigningReport) -> (t: String)
    ensures
        t@ == signing_text_identity(*r),
{
    let mut t = owned("Signed successfully\n");
    push_str(&mut t, "\nMode\n  ");
    push_str(&mut t, r.mode);
    push_str(&mut t, "\n");
    push_str(&mut t, "\nClaim generator\n  ");
    push_str(&mut t, r.identity.claim_generator);
    push_str(&mut t, "\n");
    push_str(&mut t, "\nSigner name\n  ");
    push_str(&mut t, r.identity.signer_name.as_str());
    push_str(&mut t, "\n");
    push_str(&mut t, "\nOrganization\n  ");
    push_shown(&mut t, &r.identity.organization);
    push_str(&mut t, "\n");
    push_str(&mut t, "\nIdentity URI\n  ");
    push_shown(&mut t, &r.identity.uri);
    push_str(&mut t, "\n");
    push_str(&mut t, "\nEditorial description\n  ");
    push_str(&mut t, r.description.as_str());
    push_str(&mut t, "\n");
    push_str(&mut t, "\nActions\n  ");
    let a = join_texts(&r.actions, ", ");
    push_str(&mut t, a.as_str());
    push_str(&mut t, "\n");
    assert(t@ =~= signing_text_identity(*r));
    t
}

fn content_text(r: &SigningReport) -> (t: String)
    ensures
        t@ == signing_text_content(*r),
{
    let mut t = owned("\nOutput pixels equal input\n  ");
    push_str(&mut t, if r.output_pixels_equal_input { "yes" } else { "no" });
    push_str(&mut t, "\n");
    if let Some(c) = r.pixels_changed_from_parent {
        push_str(&mut t, "\nPixels differ from parent\n  ");
        push_str(&mut t, if c { "yes" } else { "no" });
        push_str(&mut t, "\n");
    }
    push_str(&mut t, "\nParent provenance\n  ");
    push_str(&mut t, r.upstream_provenance);
    push_str(&mut t, "\n");
    push_str(&mut t, "\nEmbedded credential\n  ");
    push_str(&mut t, r.c2pa.credential_location);
    push_str(&mut t, "\n");
    push_str(&mut t, "\nManifest store bytes\n  ");
    push_decimal(&mut t, r.c2pa.credential_bytes);
    push_str(&mut t, "\n");
    push_str(&mut t, "\nManifest count\n  ");
    push_decimal(&mut t, r.c2pa.manifest_count as u64);
    push_str(&mut t, "\n");
    push_str(&mut t, "\nUpstream manifests preserved\n  ");
    push_str(&mut t, if r.c2pa.upstream_preserved { "yes" } else { "no" });
    push_str(&mut t, "\n");
    assert(t@ =~= signing_text_content(*r));
    t
}

impl SigningReport {
    /// The human-readable text of this report.
    pub fn render(&self) -> (t: String)
        ensures
            t@ == signing_text_identity(*self) + signing_text_content(*self) + signing_text_tail(*self),
    {
        let mut t = identity_text(self);
        let c = content_text(self);
        push_str(&mut t, c.as_str());
        let ghost head = t@;
        push_str(&mut t, "\nC2PA claim signature and asset binding\n  valid\n");
        push_str(&mut t, "\nSigning credential\n  locally valid\n");
        push_str(&mut t, "\nPublic C2PA trust\n  not established\n");
        push_str(&mut t, "\nTimestamp\n  local claim time; RFC 3161 TSA not configured\n");
        push_str(&mut t, "\nPost-commit verification\n  passed\n");
        push_str(&mut t, "\nOutput SHA-256\n  ");
        push_str(&mut t, self.output_sha256.as_str());
        push_str(&mut t, "\n");
        push_str(&mut t, "\nOutput\n  ");
        push_str(&mut t, self.output.as_str());
        assert(t@ =~= head + signing_text_tail(*self));
        t
    }
}

} // verus!
