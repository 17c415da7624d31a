//! Content Credential facts as read from an asset, and the verification
//! verdict derived from them.
use vstd::prelude::*;

use crate::image_info::ImageInfo;
use crate::error::AppError;
use crate::text::{clone_opt, concat2, concat3, decimal, join_texts, joined, owned, push_decimal, push_str, text_is, texts};

verus! {

/// One ingredient of the active manifest.
#[derive(Debug)]
pub struct IngredientReport {
    pub title: Option<String>,
    pub format: Option<String>,
    pub relationship: String,
    pub active_manifest: Option<String>,
}

/// The C2PA facts read from an asset by the C2PA validator.
#[derive(Debug)]
pub struct C2paReport {
    pub present: bool,
    pub active_manifest: Option<String>,
    pub claim_version: Option<u8>,
    pub claim_generator: Option<String>,
    pub actions: Vec<String>,
    pub all_actions_included: Option<bool>,
    pub ingredients: Vec<IngredientReport>,
    pub manifest_count: usize,
    pub existing_parent_chain_depth: usize,
    pub signer_common_name: Option<String>,
    pub signer_issuer: Option<String>,
    pub signature_time: Option<String>,
    pub validation_state: String,
    pub validation_failures: Vec<String>,
    pub timestamp_trusted: bool,
}

/// An image and its Content Credential facts.
#[derive(Debug)]
pub struct InspectionReport {
    pub status: &'static str,
    pub file: ImageInfo,
    pub c2pa: C2paReport,
}

/// The verification verdict for one asset.
#[derive(Debug)]
pub struct VerifyReport {
    pub status: &'static str,
    pub file: String,
    pub manifest_present: bool,
    pub signature_valid: bool,
    pub certificate_chain_valid: bool,
    pub validation_state: String,
    pub validation_failures: Vec<String>,
    pub local_trust_requested: bool,
    pub local_trust: bool,
    pub public_trust: bool,
    pub public_trust_status: &'static str,
    pub timestamp_trusted: bool,
}

/// The report for an asset that carries no manifest.
pub open spec fn spec_no_manifest(r: C2paReport) -> bool {
    &&& !r.present
    &&& r.active_manifest.is_none()
    &&& r.claim_version.is_none()
    &&& r.claim_generator.is_none()
    &&& r.actions@.len() == 0
    &&& r.all_actions_included.is_none()
    &&& r.ingredients@.len() == 0
    &&& r.manifest_count == 0
    &&& r.existing_parent_chain_depth == 0
    &&& r.signer_common_name.is_none()
    &&& r.signer_issuer.is_none()
    &&& r.signature_time.is_none()
    &&& r.validation_state@ == "absent"@
    &&& r.validation_failures@.len() == 0
    &&& !r.timestamp_trusted
}

/// The C2PA report of an asset without an embedded manifest.
pub fn no_manifest_report() -> (r: C2paReport)
    ensures
        spec_no_manifest(r),
{
    C2paReport {
        present: false,
        active_manifest: None,
        claim_version: None,
        claim_generator: None,
        actions: Vec::new(),
        all_actions_included: None,
        ingredients: Vec::new(),
        manifest_count: 0,
        existing_parent_chain_depth: 0,
        signer_common_name: None,
        signer_issuer: None,
        signature_time: None,
        validation_state: owned("absent"),
        validation_failures: Vec::new(),
        timestamp_trusted: false,
    }
}

/// The claim signature and asset binding are valid: a manifest is present and
/// the validator did not find it invalid.
pub open spec fn spec_signature_valid(c: C2paReport) -> bool {
    c.present && c.validation_state@ != "invalid"@
}

/// The manifest validated against a configured trust anchor.
pub open spec fn spec_trusted(c: C2paReport) -> bool {
    c.validation_state@ == "trusted"@
}

/// Whether the signature and asset binding are valid.
pub fn signature_valid(c: &C2paReport) -> (b: bool)
    ensures
        b == spec_signature_valid(*c),
{
    c.present && !text_is(c.validation_state.as_str(), "invalid")
}

/// Whether the manifest is trusted by the configured local root.
pub fn trusted(c: &C2paReport) -> (b: bool)
    ensures
        b == spec_trusted(*c),
{
    text_is(c.validation_state.as_str(), "trusted")
}

/// The inspection report of an image and its C2PA facts.
pub fn inspect_asset(file: ImageInfo, c2pa: C2paReport) -> (r: InspectionReport)
    ensures
        r.status@ == "ok"@,
        r.file == file,
        r.c2pa == c2pa,
{
    InspectionReport { status: "ok", file, c2pa }
}

/// The verification verdict for an asset whose image decoded and whose C2PA
/// facts were read. Local trust is reported only when it was requested, and
/// public trust is never claimed.
pub fn verify_asset(path: String, c2pa: C2paReport, local_trust_requested: bool) -> (r: VerifyReport)
    ensures
        r.signature_valid == spec_signature_valid(c2pa),
        r.status@ == (if r.signature_valid { "ok"@ } else { "invalid"@ }),
        r.file@ == path@,
        r.manifest_present == c2pa.present,
        r.certificate_chain_valid == r.signature_valid,
        r.validation_state == c2pa.validation_state,
        r.validation_failures == c2pa.validation_failures,
        r.local_trust_requested == local_trust_requested,
        r.local_trust == (local_trust_requested && spec_trusted(c2pa)),
        !r.public_trust,
        r.public_trust_status@ == "not-established-offline"@,
        r.timestamp_trusted == c2pa.timestamp_trusted,
{
    let signature_valid = signature_valid(&c2pa);
    let local_trust = local_trust_requested && trusted(&c2pa);
    VerifyReport {
        status: if signature_valid { "ok" } else { "invalid" },
        file: path,
        manifest_present: c2pa.present,
        signature_valid,
        certificate_chain_valid: signature_valid,
        validation_state: c2pa.validation_state,
        validation_failures: c2pa.validation_failures,
        local_trust_requested,
        local_trust,
        public_trust: false,
        public_trust_status: "not-established-offline",
        timestamp_trusted: c2pa.timestamp_trusted,
    }
}

/// Whether an ingredient is the parent of the manifest.
pub open spec fn is_parent(i: IngredientReport) -> bool {
    i.relationship@ == "parentOf"@
}

/// Whether some ingredient is a parent.
pub open spec fn spec_has_parent(ingredients: Seq<IngredientReport>) -> bool {
    exists|k: int| 0 <= k < ingredients.len() && is_parent(#[trigger] ingredients[k])
}

/// Whether the ingredient list holds a parent.
pub fn has_parent(ingredients: &Vec<IngredientReport>) -> (b: bool)
    ensures
        b == spec_has_parent(ingredients@),
{
    let mut i: usize = 0;
    while i < ingredients.len()
        invariant
            i <= ingredients@.len(),
            forall|k: int| 0 <= k < i ==> !is_parent(#[trigger] ingredients@[k]),
        decreases ingredients@.len() - i,
    {
        if text_is(ingredients[i].relationship.as_str(), "parentOf") {
            return true;
        }
        i = i + 1;
    }
    false
}

/// Whether some text in a list equals `t`.
pub open spec fn spec_contains_text(v: Seq<String>, t: Seq<char>) -> bool {
    exists|k: int| 0 <= k < v.len() && (#[trigger] v[k])@ == t
}

/// Whether a list of strings contains the text `t`.
pub fn contains_text(v: &Vec<String>, t: &str) -> (b: bool)
    ensures
        b == spec_contains_text(v@, t@),
{
    let mut i: usize = 0;
    while i < v.len()
        invariant
            i <= v@.len(),
            forall|k: int| 0 <= k < i ==> (#[trigger] v@[k])@ != t@,
        decreases v@.len() - i,
    {
        if text_is(v[i].as_str(), t) {
            return true;
        }
        i = i + 1;
    }
    false
}

/// The validation verdict of a manifest store.
#[derive(Clone, Copy, PartialEq, Eq, Structural, Debug)]
pub enum ValidationVerdict {
    Invalid,
    Valid,
    Trusted,
}

/// The report name of a validation verdict.
pub open spec fn spec_verdict_name(v: ValidationVerdict) -> Seq<char> {
    match v {
        ValidationVerdict::Invalid => "invalid"@,
        ValidationVerdict::Valid => "valid"@,
        ValidationVerdict::Trusted => "trusted"@,
    }
}

/// The report name of a validation verdict.
pub fn state_name(v: ValidationVerdict) -> (r: &'static str)
    ensures
        r@ == spec_verdict_name(v),
{
    match v {
        ValidationVerdict::Invalid => "invalid",
        ValidationVerdict::Valid => "valid",
        ValidationVerdict::Trusted => "trusted",
    }
}

/// One claim-generator entry of a manifest.
#[derive(Debug)]
pub struct GeneratorEntry {
    pub name: String,
    pub version: Option<String>,
}

/// One validation status: its code, optional explanation, and whether it
/// passed.
#[derive(Debug)]
pub struct StatusEntry {
    pub code: String,
    pub explanation: Option<String>,
    pub passed: bool,
}

/// What the C2PA reader shows of the active manifest.
#[derive(Debug)]
pub struct ManifestFacts {
    pub claim_version: Option<u8>,
    pub generator_info: Vec<GeneratorEntry>,
    pub claim_generator: Option<String>,
    /// The actions assertion, when the manifest has one: the action names in
    /// order, and its `all_actions_included` flag.
    pub actions: Option<(Vec<String>, Option<bool>)>,
    pub ingredients: Vec<IngredientReport>,
    pub common_name: Option<String>,
    pub issuer: Option<String>,
    pub time: Option<String>,
}

/// What the C2PA reader shows of an asset's manifest store.
#[derive(Debug)]
pub struct C2paFacts {
    pub verdict: ValidationVerdict,
    pub active_label: Option<String>,
    pub manifest: Option<ManifestFacts>,
    pub manifest_count: usize,
    /// The validation results of the active manifest, when there are any:
    /// success, informational, and failure statuses.
    pub active_results: Option<(Vec<StatusEntry>, Vec<StatusEntry>, Vec<StatusEntry>)>,
    /// The legacy validation status list, when there is one.
    pub legacy_statuses: Option<Vec<StatusEntry>>,
}

/// A status as reported: its code, and its explanation after a colon.
pub open spec fn spec_format_status(s: StatusEntry) -> Seq<char> {
    match s.explanation {
        Some(e) => s.code@ + ": "@ + e@,
        None => s.code@,
    }
}

/// A status as reported.
pub fn format_status(s: &StatusEntry) -> (r: String)
    ensures
        r@ == spec_format_status(*s),
{
    match &s.explanation {
        Some(e) => concat3(s.code.as_str(), ": ", e.as_str()),
        None => s.code.clone(),
    }
}

/// The formatted statuses of a list, in order; only those that did not pass
/// when `only_failed`.
pub open spec fn formatted_statuses(v: Seq<StatusEntry>, only_failed: bool) -> Seq<Seq<char>>
    decreases v.len(),
{
    if v.len() == 0 {
        seq![]
    } else if !only_failed || !v.last().passed {
        formatted_statuses(v.drop_last(), only_failed).push(spec_format_status(v.last()))
    } else {
        formatted_statuses(v.drop_last(), only_failed)
    }
}

/// The failures reported for a manifest store, before sorting: the active
/// manifest's failure statuses, then the legacy statuses that did not pass.
pub open spec fn failure_list(f: C2paFacts) -> Seq<Seq<char>> {
    (match f.active_results {
        Some((_, _, fails)) => formatted_statuses(fails@, false),
        None => seq![],
    }) + (match f.legacy_statuses {
        Some(legacy) => formatted_statuses(legacy@, true),
        None => seq![],
    })
}

/// The set of failures reported for a manifest store.
pub open spec fn failure_texts(f: C2paFacts) -> Set<Seq<char>> {
    failure_list(f).to_set()
}

/// Whether a status list holds a code.
pub open spec fn has_code(v: Seq<StatusEntry>, code: Seq<char>) -> bool {
    exists|k: int| 0 <= k < v.len() && (#[trigger] v[k]).code@ == code
}

/// Whether a trusted RFC 3161 timestamp was reported for the store.
pub open spec fn spec_timestamp_trusted(f: C2paFacts) -> bool {
    let c = "timeStamp.trusted"@;
    ||| (f.active_results matches Some((ok, info, fails)) && (has_code(ok@, c) || has_code(info@, c) || has_code(fails@, c)))
    ||| (f.legacy_statuses matches Some(legacy) && has_code(legacy@, c))
}

/// The claim generator of a manifest: its first generator entry (with its
/// version after a space), else its claim-generator text.
pub open spec fn spec_generator(m: ManifestFacts) -> Option<Seq<char>> {
    if m.generator_info@.len() > 0 {
        let g = m.generator_info@[0];
        match g.version {
            Some(v) => Some(g.name@ + " "@ + v@),
            None => Some(g.name@),
        }
    } else {
        match m.claim_generator {
            Some(c) => Some(c@),
            None => None,
        }
    }
}

fn has_status_code(v: &Vec<StatusEntry>, code: &str) -> (b: bool)
    ensures
        b == has_code(v@, code@),
{
    let mut i: usize = 0;
    while i < v.len()
        invariant
            i <= v@.len(),
            forall|k: int| 0 <= k < i ==> (#[trigger] v@[k]).code@ != code@,
        decreases v@.len() - i,
    {
        if text_is(v[i].code.as_str(), code) {
            return true;
        }
        i = i + 1;
    }
    false
}

fn push_failures(out: &mut Vec<String>, v: &Vec<StatusEntry>, only_failed: bool)
    ensures
        texts(final(out)@) == texts(old(out)@) + formatted_statuses(v@, only_failed),
{
    let ghost base = texts(out@);
    let mut i: usize = 0;
    assert(base =~= base + formatted_statuses(v@.subrange(0, 0), only_failed));
    while i < v.len()
        invariant
            i <= v@.len(),
            texts(out@) == base + formatted_statuses(v@.subrange(0, i as int), only_failed),
        decreases v@.len() - i,
    {
        let ghost pre = v@.subrange(0, i + 1);
        proof {
            assert(pre.drop_last() =~= v@.subrange(0, i as int));
            assert(pre.last() == v@[i as int]);
        }
        if !only_failed || !v[i].passed {
            let t = format_status(&v[i]);
            crate::text::push_text(out, t);
        }
        assert(texts(out@) =~= base + formatted_statuses(pre, only_failed));
        i = i + 1;
    }
    assert(v@.subrange(0, v@.len() as int) =~= v@);
}

/// The validation failures of a manifest store, sorted and without repeats.
pub fn failures(facts: &C2paFacts) -> (r: Vec<String>)
    ensures
        crate::order::strictly_sorted(texts(r@)),
        texts(r@).to_set() == failure_texts(*facts),
{
    let mut all: Vec<String> = Vec::new();
    if let Some((_, _, fails)) = &facts.active_results {
        push_failures(&mut all, fails, false);
    }
    if let Some(legacy) = &facts.legacy_statuses {
        push_failures(&mut all, legacy, true);
    }
    assert(texts(all@) =~= failure_list(*facts));
    crate::order::sort_dedup(all)
}

/// The C2PA report of an asset from what the reader shows. The actions and
/// ingredients come from the active manifest, the failures are sorted without
/// repeats, and the parent chain is one shorter than the manifest count.
pub open spec fn spec_c2pa_report(facts: C2paFacts, r: C2paReport) -> bool {
    &&& (r.present == facts.manifest.is_some())
    &&& (r.active_manifest == facts.active_label)
    &&& (r.claim_version == (match facts.manifest { Some(m) => m.claim_version, None => None }))
    &&& (crate::setup::opt_view(r.claim_generator) == (match facts.manifest { Some(m) => spec_generator(m), None => None }))
    &&& (match facts.manifest {
            Some(m) => match m.actions {
                Some((names, all)) => r.actions == names && r.all_actions_included == all,
                None => r.actions@.len() == 0 && r.all_actions_included.is_none(),
            },
            None => r.actions@.len() == 0 && r.all_actions_included.is_none(),
        })
    &&& (match facts.manifest {
            Some(m) => r.ingredients == m.ingredients && r.signer_common_name == m.common_name
                && r.signer_issuer == m.issuer && r.signature_time == m.time,
            None => r.ingredients@.len() == 0 && r.signer_common_name.is_none() && r.signer_issuer.is_none()
                && r.signature_time.is_none(),
        })
    &&& (r.manifest_count == facts.manifest_count)
    &&& (r.existing_parent_chain_depth == (if facts.manifest_count > 0 { facts.manifest_count - 1 } else { 0 }))
    &&& (r.validation_state@ == spec_verdict_name(facts.verdict))
    &&& (crate::order::strictly_sorted(texts(r.validation_failures@)))
    &&& (texts(r.validation_failures@).to_set() == failure_texts(facts))
    &&& (r.timestamp_trusted == spec_timestamp_trusted(facts))
}

/// The C2PA report of an asset from what the reader shows.
pub fn c2pa_report(facts: C2paFacts) -> (r: C2paReport)
    ensures
        spec_c2pa_report(facts, r),
{
    let validation_failures = failures(&facts);
    let code = "timeStamp.trusted";
    let mut timestamp_trusted = false;
    if let Some((ok, info, fails)) = &facts.active_results {
        timestamp_trusted = has_status_code(ok, code) || has_status_code(info, code) || has_status_code(fails, code);
    }
    if let Some(legacy) = &facts.legacy_statuses {
        timestamp_trusted = timestamp_trusted || has_status_code(legacy, code);
    }
    let depth = facts.manifest_count.saturating_sub(1);
    let validation_state = owned(state_name(facts.verdict));
    let manifest_count = facts.manifest_count;
    let active_manifest = facts.active_label;
    match facts.manifest {
        Some(m) => {
            let claim_generator = if m.generator_info.len() > 0 {
                let g = &m.generator_info[0];
                match &g.version {
                    Some(v) => Some(concat3(g.name.as_str(), " ", v.as_str())),
                    None => Some(g.name.clone()),
                }
            } else {
                clone_opt(&m.claim_generator)
            };
            let (actions, all_actions_included) = match m.actions {
                Some((names, all)) => (names, all),
                None => (Vec::new(), None),
            };
            C2paReport {
                present: true,
                active_manifest,
                claim_version: m.claim_version,
                claim_generator,
                actions,
                all_actions_included,
                ingredients: m.ingredients,
                manifest_count,
                existing_parent_chain_depth: depth,
                signer_common_name: m.common_name,
                signer_issuer: m.issuer,
                signature_time: m.time,
                validation_state,
                validation_failures,
                timestamp_trusted,
            }
        },
        None => C2paReport {
            present: false,
            active_manifest,
            claim_version: None,
            claim_generator: None,
            actions: Vec::new(),
            all_actions_included: None,
            ingredients: Vec::new(),
            manifest_count,
            existing_parent_chain_depth: depth,
            signer_common_name: None,
            signer_issuer: None,
            signature_time: None,
            validation_state,
            validation_failures,
            timestamp_trusted,
        },
    }
}

/// Why the C2PA reader could not read a manifest store.
#[derive(Debug)]
pub enum C2paReadError {
    /// The asset holds no manifest store.
    NotFound,
    /// Any other reader error, by its text.
    Other(String),
}

/// The C2PA report of an asset from the reader's outcome: an asset without a
/// manifest store reports no manifest; any other read error is a
/// verification error.
pub fn load_c2pa_report(path: &str, outcome: Result<C2paFacts, C2paReadError>) -> (r: Result<C2paReport, AppError>)
    ensures
        match outcome {
            Err(C2paReadError::NotFound) => r matches Ok(c) && spec_no_manifest(c),
            Err(C2paReadError::Other(m)) => r matches Err(e) && e.exit_code == 3
                && e.message@ == "cannot read C2PA provenance from "@ + path@ + ": "@ + m@,
            Ok(f) => r matches Ok(c) && spec_c2pa_report(f, c),
        },
{
    match outcome {
        Err(C2paReadError::NotFound) => Ok(no_manifest_report()),
        Err(C2paReadError::Other(m)) => {
            let p = concat3("cannot read C2PA provenance from ", path, ": ");
            Err(AppError::verification(concat2(p.as_str(), m.as_str())))
        },
        Ok(f) => Ok(c2pa_report(f)),
    }
}

/// The text of an optional string, or a fallback.
pub open spec fn text_or(v: Option<String>, fallback: Seq<char>) -> Seq<char> {
    match v {
        Some(s) => s@,
        None => fallback,
    }
}

fn push_or(r: &mut String, v: &Option<String>, fallback: &str)
    ensures
        final(r)@ == old(r)@ + text_or(*v, fallback@),
{
    match v {
        Some(s) => push_str(r, s.as_str()),
        None => push_str(r, fallback),
    }
}

/// The failure lines of a verification, each as `  - FAILURE`.
pub open spec fn failure_lines(v: Seq<String>) -> Seq<char>
    decreases v.len(),
{
    if v.len() == 0 {
        Seq::<char>::empty()
    } else {
        failure_lines(v.drop_last()) + "  - "@ + v.last()@ + "\n"@
    }
}

/// The human-readable text of a verification verdict.
pub open spec fn spec_verify_text(r: VerifyReport) -> Seq<char> {
    "C2PA manifest\n  "@ + (if r.manifest_present { "yes"@ } else { "no"@ }) + "\n"@
        + "\nClaim signature and asset binding\n  "@ + (if r.signature_valid { "valid"@ } else { "invalid"@ }) + "\n"@
        + "\nCertificate chain\n  "@
        + (if r.certificate_chain_valid { "cryptographically valid"@ } else { "invalid or unavailable"@ }) + "\n"@
        + (if r.local_trust_requested {
            "\nLocal trust\n  "@ + (if r.local_trust {
                "valid against the configured private root"@
            } else {
                "not established"@
            }) + "\n"@
        } else {
            "\nLocal trust\n  not requested\n"@
        })
        + "\nPublic C2PA trust\n  not claimed or established\n"@
        + "\nTrusted RFC 3161 timestamp\n  "@ + (if r.timestamp_trusted { "yes"@ } else { "no"@ }) + "\n"@
        + (if r.validation_failures@.len() == 0 {
            Seq::<char>::empty()
        } else {
            "\nValidation failures\n"@ + failure_lines(r.validation_failures@)
        })
}

impl VerifyReport {
    /// The human-readable text of this verdict.
    pub fn render(&self) -> (t: String)
        ensures
            t@ == spec_verify_text(*self),
    {
        let mut r = owned("C2PA manifest\n  ");
        push_str(&mut r, crate::audit::yes_no(self.manifest_present));
        push_str(&mut r, "\n");
        push_str(&mut r, "\nClaim signature and asset binding\n  ");
        push_str(&mut r, if self.signature_valid { "valid" } else { "invalid" });
        push_str(&mut r, "\n");
        push_str(&mut r, "\nCertificate chain\n  ");
        push_str(&mut r, if self.certificate_chain_valid { "cryptographically valid" } else { "invalid or unavailable" });
        push_str(&mut r, "\n");
        if self.local_trust_requested {
            push_str(&mut r, "\nLocal trust\n  ");
            push_str(&mut r, if self.local_trust { "valid against the configured private root" } else { "not established" });
            push_str(&mut r, "\n");
        } else {
            push_str(&mut r, "\nLocal trust\n  not requested\n");
        }
        push_str(&mut r, "\nPublic C2PA trust\n  not claimed or established\n");
        push_str(&mut r, "\nTrusted RFC 3161 timestamp\n  ");
        push_str(&mut r, crate::audit::yes_no(self.timestamp_trusted));
        push_str(&mut r, "\n");
        let ghost before_failures = r@;
        if self.validation_failures.len() != 0 {
            push_str(&mut r, "\nValidation failures\n");
            let ghost head = r@;
            let mut i: usize = 0;
            while i < self.validation_failures.len()
                invariant
                    i <= self.validation_failures@.len(),
                    r@ == head + failure_lines(self.validation_failures@.subrange(0, i as int)),
                decreases self.validation_failures@.len() - i,
            {
                push_str(&mut r, "  - ");
                push_str(&mut r, self.validation_failures[i].as_str());
                push_str(&mut r, "\n");
                proof {
                    let pre = self.validation_failures@.subrange(0, i + 1);
                    assert(pre.drop_last() =~= self.validation_failures@.subrange(0, i as int));
                }
                i = i + 1;
                assert(r@ =~= head + failure_lines(self.validation_failures@.subrange(0, i as int)));
            }
            assert(self.validation_failures@.subrange(0, self.validation_failures@.len() as int) =~= self.validation_failures@);
        }
        assert(r@ =~= spec_verify_text(*self));
        r
    }
}

/// The opening lines of an inspection: the file facts.
pub open spec fn spec_file_text(f: ImageInfo) -> Seq<char> {
    "File\n  "@ + f.path@ + "\n"@
        + "\nFormat\n  "@ + f.format@ + "\n"@
        + "\nDimensions\n  "@ + decimal(f.width as nat) + " x "@ + decimal(f.height as nat) + "\n"@
        + "\nFile SHA-256\n  "@ + f.file_sha256@ + "\n"@
        + "\nPixel SHA-256\n  "@ + f.pixel_sha256@ + "\n"@
}

/// The manifest lines of an inspection of a signed asset.
pub open spec fn spec_manifest_text(c: C2paReport) -> Seq<char> {
    "\nC2PA active manifest\n  "@ + text_or(c.active_manifest, "unknown"@) + "\n"@
        + "\nClaim generator\n  "@ + text_or(c.claim_generator, "not reported"@) + "\n"@
        + "\nSigner\n  "@ + text_or(c.signer_common_name, "not reported"@) + "\n"@
        + "\nActions\n  "@ + (if c.actions@.len() == 0 {
            "none reported"@
        } else {
            joined(texts(c.actions@), ", "@)
        }) + "\n"@
        + "\nIngredients\n  "@ + decimal(c.ingredients@.len()) + "\n"@
        + "\nValidation\n  "@ + c.validation_state@ + "\n"@
        + "\nPublic C2PA trust\n  not evaluated by this offline, local-trust tool"@
}

/// The human-readable text of an inspection.
pub open spec fn spec_inspection_text(r: InspectionReport) -> Seq<char> {
    spec_file_text(r.file) + if !r.c2pa.present {
        "\nC2PA\n  no embedded manifest"@
    } else {
        spec_manifest_text(r.c2pa)
    }
}

fn file_text(f: &ImageInfo) -> (t: String)
    ensures
        t@ == spec_file_text(*f),
{
    let mut r = owned("File\n  ");
    push_str(&mut r, f.path.as_str());
    push_str(&mut r, "\n");
    push_str(&mut r, "\nFormat\n  ");
    push_str(&mut r, f.format.as_str());
    push_str(&mut r, "\n");
    push_str(&mut r, "\nDimensions\n  ");
    let d = f.dimensions();
    push_str(&mut r, d.as_str());
    push_str(&mut r, "\n");
    push_str(&mut r, "\nFile SHA-256\n  ");
    push_str(&mut r, f.file_sha256.as_str());
    push_str(&mut r, "\n");
    push_str(&mut r, "\nPixel SHA-256\n  ");
    push_str(&mut r, f.pixel_sha256.as_str());
    push_str(&mut r, "\n");
    assert(r@ =~= spec_file_text(*f));
    r
}

fn manifest_text(c: &C2paReport) -> (t: String)
    ensures
        t@ == spec_manifest_text(*c),
{
    let mut r = owned("\nC2PA active manifest\n  ");
    push_or(&mut r, &c.active_manifest, "unknown");
    push_str(&mut r, "\n");
    push_str(&mut r, "\nClaim generator\n  ");
    push_or(&mut r, &c.claim_generator, "not reported");
    push_str(&mut r, "\n");
    push_str(&mut r, "\nSigner\n  ");
    push_or(&mut r, &c.signer_common_name, "not reported");
    push_str(&mut r, "\n");
    let ghost part1 = r@;
    push_str(&mut r, "\nActions\n  ");
    if c.actions.len() == 0 {
        push_str(&mut r, "none reported");
    } else {
        let a = join_texts(&c.actions, ", ");
        push_str(&mut r, a.as_str());
    }
    push_str(&mut r, "\n");
    push_str(&mut r, "\nIngredients\n  ");
    push_decimal(&mut r, c.ingredients.len() as u64);
    push_str(&mut r, "\n");
    push_str(&mut r, "\nValidation\n  ");
    push_str(&mut r, c.validation_state.as_str());
    push_str(&mut r, "\n");
    push_str(&mut r, "\nPublic C2PA trust\n  not evaluated by this offline, local-trust tool");
    assert(r@ =~= spec_manifest_text(*c));
    r
}

impl InspectionReport {
    /// The human-readable text of this inspection.
    pub fn render(&self) -> (t: String)
        ensures
            t@ == spec_inspection_text(*self),
    {
        let mut r = file_text(&self.file);
        if !self.c2pa.present {
            push_str(&mut r, "\nC2PA\n  no embedded manifest");
        } else {
            let m = manifest_text(&self.c2pa);
            push_str(&mut r, m.as_str());
        }
        r
    }
}

} // verus!
