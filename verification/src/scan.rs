//! Classification of images by their signing state, and detection of
//! originals already covered by a valid signed sibling.
use vstd::prelude::*;

use crate::error::AppError;
use crate::paths::{extension, file_stem, spec_extension, spec_file_stem};
use crate::provenance::{
    has_parent, signature_valid, spec_has_parent, spec_signature_valid, spec_trusted, trusted,
    C2paReport, InspectionReport,
};
use crate::text::{pad_right, padding, push_decimal, decimal, push_str, chars_end_with, chars_eq_str, chars_of, clone_opt, ends_with, lower, lower_chars, owned, text_is};

verus! {

/// The signing state of one image.
#[derive(Clone, Copy, PartialEq, Eq, Structural, Debug)]
pub enum AssetState {
    Unsigned,
    SignedExternal,
    SignedLocal,
    Covered,
    Invalid,
    Unreadable,
}

/// The report name of a state.
pub open spec fn spec_state_name(s: AssetState) -> Seq<char> {
    match s {
        AssetState::Unsigned => "unsigned"@,
        AssetState::SignedExternal => "signed-external"@,
        AssetState::SignedLocal => "signed-local"@,
        AssetState::Covered => "covered"@,
        AssetState::Invalid => "invalid"@,
        AssetState::Unreadable => "unreadable"@,
    }
}

/// An image needs the local signature when it has none or only a foreign one.
pub open spec fn spec_needs_signing(s: AssetState) -> bool {
    s == AssetState::Unsigned || s == AssetState::SignedExternal
}

impl AssetState {
    /// The report name of this state.
    pub fn as_str(self) -> (r: &'static str)
        ensures
            r@ == spec_state_name(self),
    {
        match self {
            AssetState::Unsigned => "unsigned",
            AssetState::SignedExternal => "signed-external",
            AssetState::SignedLocal => "signed-local",
            AssetState::Covered => "covered",
            AssetState::Invalid => "invalid",
            AssetState::Unreadable => "unreadable",
        }
    }

    /// Whether an image in this state needs the local signature.
    pub fn needs_signing(self) -> (b: bool)
        ensures
            b == spec_needs_signing(self),
    {
        match self {
            AssetState::Unsigned | AssetState::SignedExternal => true,
            _ => false,
        }
    }
}

/// The status of one image.
#[derive(Debug)]
pub struct StatusItem {
    pub path: String,
    pub state: AssetState,
    pub needs_signing: bool,
    pub signature_present: bool,
    pub signature_valid: bool,
    pub local_trust: bool,
    pub covered_by: Option<String>,
    pub detail: String,
}

/// Counts of images by state.
#[derive(Debug)]
pub struct StatusSummary {
    pub total: usize,
    pub needs_signing: usize,
    pub unsigned: usize,
    pub signed_external: usize,
    pub signed_local: usize,
    pub covered: usize,
    pub invalid: usize,
    pub unreadable: usize,
}

impl Default for StatusSummary {
    fn default() -> (s: Self)
        ensures
            s.total == 0 && s.needs_signing == 0 && s.unsigned == 0 && s.signed_external == 0
                && s.signed_local == 0 && s.covered == 0 && s.invalid == 0 && s.unreadable == 0,
    {
        StatusSummary {
            total: 0,
            needs_signing: 0,
            unsigned: 0,
            signed_external: 0,
            signed_local: 0,
            covered: 0,
            invalid: 0,
            unreadable: 0,
        }
    }
}

impl StatusSummary {
    /// Pending or invalid images are a policy issue.
    pub fn has_policy_issues(&self) -> (b: bool)
        ensures
            b == (self.needs_signing > 0 || self.invalid > 0),
    {
        self.needs_signing > 0 || self.invalid > 0
    }

    /// Unreadable images are a runtime issue.
    pub fn has_runtime_issues(&self) -> (b: bool)
        ensures
            b == (self.unreadable > 0),
    {
        self.unreadable > 0
    }
}

/// The status of every scanned image.
#[derive(Debug)]
pub struct StatusReport {
    pub status: &'static str,
    pub roots: Vec<String>,
    pub recursive: bool,
    pub local_identity_configured: bool,
    pub items: Vec<StatusItem>,
    pub summary: StatusSummary,
}

/// PNG and JPEG files are recognized by extension, in any letter case.
pub open spec fn spec_supported_image_path(p: Seq<char>) -> bool {
    match spec_extension(p) {
        Some(e) => lower(e) == "png"@ || lower(e) == "jpg"@ || lower(e) == "jpeg"@,
        None => false,
    }
}

/// Whether a path names a PNG or JPEG file.
pub fn is_supported_image_path(path: &str) -> (b: bool)
    ensures
        b == spec_supported_image_path(path@),
{
    match extension(path) {
        Some(e) => {
            let cs = chars_of(e.as_str());
            let l = lower_chars(cs.as_slice());
            chars_eq_str(l.as_slice(), "png") || chars_eq_str(l.as_slice(), "jpg") || chars_eq_str(l.as_slice(), "jpeg")
        },
        None => false,
    }
}

/// A managed output is a file whose stem ends in `.banksy-signed`.
pub open spec fn spec_managed_output(p: Seq<char>) -> bool {
    match spec_file_stem(p) {
        Some(s) => ends_with(s, ".banksy-signed"@),
        None => false,
    }
}

/// Whether a path names a managed `.banksy-signed` output.
pub fn is_managed_output(path: &str) -> (b: bool)
    ensures
        b == spec_managed_output(path@),
{
    match file_stem(path) {
        Some(s) => {
            let cs = chars_of(s.as_str());
            chars_end_with(cs.as_slice(), ".banksy-signed")
        },
        None => false,
    }
}

/// The state of an image from its C2PA facts.
pub open spec fn spec_state_of(c: C2paReport) -> AssetState {
    if !c.present {
        AssetState::Unsigned
    } else if c.validation_state@ == "invalid"@ {
        AssetState::Invalid
    } else if spec_trusted(c) {
        AssetState::SignedLocal
    } else {
        AssetState::SignedExternal
    }
}

/// The detail text for a state derived from C2PA facts.
pub open spec fn spec_detail_of(c: C2paReport) -> Seq<char> {
    if !c.present {
        "no embedded C2PA manifest"@
    } else if c.validation_state@ == "invalid"@ {
        "the active C2PA manifest is invalid"@
    } else if spec_trusted(c) {
        "valid active manifest trusted by the configured local root"@
    } else {
        "valid C2PA provenance without the configured local signature"@
    }
}

/// The status item of an image from its C2PA facts.
pub open spec fn spec_item_from_inspection(path: Seq<char>, c: C2paReport, item: StatusItem) -> bool {
    &&& item.path@ == path
    &&& item.state == spec_state_of(c)
    &&& item.needs_signing == spec_needs_signing(spec_state_of(c))
    &&& item.signature_present == c.present
    &&& item.signature_valid == spec_signature_valid(c)
    &&& item.local_trust == spec_trusted(c)
    &&& item.covered_by.is_none()
    &&& item.detail@ == spec_detail_of(c)
}

/// The status item of an image from its C2PA facts.
pub fn item_from_inspection(path: &str, c: &C2paReport) -> (item: StatusItem)
    ensures
        spec_item_from_inspection(path@, *c, item),
{
    let (state, detail) = if !c.present {
        (AssetState::Unsigned, "no embedded C2PA manifest")
    } else if text_is(c.validation_state.as_str(), "invalid") {
        (AssetState::Invalid, "the active C2PA manifest is invalid")
    } else if trusted(c) {
        (AssetState::SignedLocal, "valid active manifest trusted by the configured local root")
    } else {
        (AssetState::SignedExternal, "valid C2PA provenance without the configured local signature")
    };
    StatusItem {
        path: owned(path),
        state,
        needs_signing: state.needs_signing(),
        signature_present: c.present,
        signature_valid: signature_valid(c),
        local_trust: trusted(c),
        covered_by: None,
        detail: owned(detail),
    }
}

/// The status item of a path that could not be inspected.
pub fn unreadable_item(path: &str, detail: String) -> (item: StatusItem)
    ensures
        item.path@ == path@,
        item.state == AssetState::Unreadable,
        !item.needs_signing && !item.signature_present && !item.signature_valid && !item.local_trust,
        item.covered_by.is_none(),
        item.detail == detail,
{
    StatusItem {
        path: owned(path),
        state: AssetState::Unreadable,
        needs_signing: false,
        signature_present: false,
        signature_valid: false,
        local_trust: false,
        covered_by: None,
        detail,
    }
}

/// An image's status together with the facts needed to decide coverage.
#[derive(Debug)]
pub struct Classified {
    pub item: StatusItem,
    pub pixel_sha256: Option<String>,
    pub has_parent: bool,
}

/// A signed copy covers an original when it is locally signed, records a
/// parent, and has the same decoded pixels.
pub open spec fn spec_covers(signed: Classified, original: Classified) -> bool {
    &&& signed.item.state == AssetState::SignedLocal
    &&& signed.has_parent
    &&& signed.pixel_sha256.is_some()
    &&& crate::text::opt_text_eq(signed.pixel_sha256, original.pixel_sha256)
}

impl Classified {
    /// A path that could not be inspected.
    pub fn unreadable(path: &str, detail: String) -> (c: Classified)
        ensures
            c.item.path@ == path@,
            c.item.state == AssetState::Unreadable,
            !c.item.needs_signing && !c.item.signature_present && !c.item.signature_valid && !c.item.local_trust,
            c.item.covered_by.is_none(),
            c.item.detail == detail,
            c.pixel_sha256.is_none(),
            !c.has_parent,
    {
        Classified { item: unreadable_item(path, detail), pixel_sha256: None, has_parent: false }
    }

    /// Whether this signed copy covers `original`.
    pub fn covers(&self, original: &Classified) -> (b: bool)
        ensures
            b == spec_covers(*self, *original),
    {
        self.item.state == AssetState::SignedLocal && self.has_parent && self.pixel_sha256.is_some()
            && crate::text::opt_eq(&self.pixel_sha256, &original.pixel_sha256)
    }
}

/// The classification of an inspected image. A managed output without a
/// credential, or one without the local signature while a local identity is
/// configured, is invalid; an inspection failure is invalid when it is a
/// verification failure (exit code 3) and unreadable otherwise.
pub open spec fn spec_classify(path: Seq<char>, inspection: Result<InspectionReport, AppError>, local_root_present: bool, c: Classified) -> bool {
    match inspection {
        Ok(report) => {
            let state = spec_state_of(report.c2pa);
            let managed = spec_managed_output(path);
            let stripped = managed && state == AssetState::Unsigned;
            let foreign = managed && !stripped && local_root_present && state == AssetState::SignedExternal;
            &&& c.item.path@ == path
            &&& c.item.state == (if stripped || foreign { AssetState::Invalid } else { state })
            &&& c.item.needs_signing == (if stripped || foreign { false } else { spec_needs_signing(state) })
            &&& c.item.signature_present == report.c2pa.present
            &&& c.item.signature_valid == spec_signature_valid(report.c2pa)
            &&& c.item.local_trust == spec_trusted(report.c2pa)
            &&& c.item.covered_by.is_none()
            &&& c.item.detail@ == (if stripped {
                "a .banksy-signed file has no embedded Content Credential; it was stripped or replaced"@
            } else if foreign {
                "the .banksy-signed file does not validate against the configured local identity"@
            } else {
                spec_detail_of(report.c2pa)
            })
            &&& c.pixel_sha256 == Some(report.file.pixel_sha256)
            &&& c.has_parent == spec_has_parent(report.c2pa.ingredients@)
        },
        Err(e) => {
            &&& c.item.path@ == path
            &&& c.item.state == (if e.exit_code == 3 { AssetState::Invalid } else { AssetState::Unreadable })
            &&& !c.item.needs_signing
            &&& c.item.signature_present == (e.exit_code == 3)
            &&& !c.item.signature_valid
            &&& !c.item.local_trust
            &&& c.item.covered_by.is_none()
            &&& c.item.detail@ == e.message@
            &&& c.pixel_sha256.is_none()
            &&& !c.has_parent
        },
    }
}

/// Local trust is the validator's "trusted" verdict and nothing else: an
/// image whose manifest is present and merely "valid" (its chain does not
/// reach the configured local root, as with an upstream credential) is
/// signed by someone else and still needs the local signature; a "trusted"
/// manifest is signed locally and needs nothing. A managed output that is
/// only "valid" while a local root is configured is invalid.
pub proof fn law_local_trust_is_the_trusted_verdict(
    path: Seq<char>,
    report: InspectionReport,
    local_root_present: bool,
    c: Classified,
)
    requires
        spec_classify(path, Ok(report), local_root_present, c),
        report.c2pa.present,
    ensures
        c.item.local_trust == (report.c2pa.validation_state@ == "trusted"@),
        report.c2pa.validation_state@ == "valid"@ && !spec_managed_output(path) ==> {
            &&& c.item.state == AssetState::SignedExternal
            &&& c.item.needs_signing
            &&& !c.item.local_trust
            &&& c.item.signature_valid
            &&& c.item.detail@ == "valid C2PA provenance without the configured local signature"@
        },
        report.c2pa.validation_state@ == "valid"@ && spec_managed_output(path) && local_root_present
            ==> c.item.state == AssetState::Invalid && !c.item.needs_signing,
        report.c2pa.validation_state@ == "trusted"@ ==> c.item.state == AssetState::SignedLocal
            && !c.item.needs_signing && c.item.local_trust,
{
    reveal_strlit("valid");
    reveal_strlit("trusted");
    reveal_strlit("invalid");
    assert("valid"@ != "trusted"@) by { assert("valid"@.len() != "trusted"@.len()); }
    assert("valid"@ != "invalid"@) by { assert("valid"@.len() != "invalid"@.len()); }
    assert("trusted"@ != "invalid"@) by { assert("trusted"@[0] != "invalid"@[0]); }
}

/// Classifies an image from the result of inspecting it.
pub fn classify_image(path: &str, inspection: Result<InspectionReport, AppError>, local_root_present: bool) -> (c: Classified)
    ensures
        spec_classify(path@, inspection, local_root_present, c),
{
    match inspection {
        Ok(report) => {
            let mut item = item_from_inspection(path, &report.c2pa);
            if is_managed_output(path) {
                if item.state == AssetState::Unsigned {
                    item.state = AssetState::Invalid;
                    item.needs_signing = false;
                    item.detail = owned("a .banksy-signed file has no embedded Content Credential; it was stripped or replaced");
                } else if local_root_present && item.state == AssetState::SignedExternal {
                    item.state = AssetState::Invalid;
                    item.needs_signing = false;
                    item.detail = owned("the .banksy-signed file does not validate against the configured local identity");
                }
            }
            let hp = has_parent(&report.c2pa.ingredients);
            Classified { item, pixel_sha256: Some(report.file.pixel_sha256), has_parent: hp }
        },
        Err(error) => {
            let code = error.exit_code();
            Classified {
                item: StatusItem {
                    path: owned(path),
                    state: if code == 3 { AssetState::Invalid } else { AssetState::Unreadable },
                    needs_signing: false,
                    signature_present: code == 3,
                    signature_valid: false,
                    local_trust: false,
                    covered_by: None,
                    detail: error.to_string(),
                },
                pixel_sha256: None,
                has_parent: false,
            }
        },
    }
}

/// The number of items in a given state.
pub open spec fn count_state(items: Seq<StatusItem>, s: AssetState) -> nat
    decreases items.len(),
{
    if items.len() == 0 {
        0
    } else {
        count_state(items.drop_last(), s) + (if items.last().state == s { 1nat } else { 0nat })
    }
}

/// The number of items that need signing.
pub open spec fn count_needs_signing(items: Seq<StatusItem>) -> nat
    decreases items.len(),
{
    if items.len() == 0 {
        0
    } else {
        count_needs_signing(items.drop_last()) + (if items.last().needs_signing { 1nat } else { 0nat })
    }
}

/// The summary of a list of items.
pub open spec fn spec_summary(items: Seq<StatusItem>, s: StatusSummary) -> bool {
    &&& s.total == items.len()
    &&& s.needs_signing == count_needs_signing(items)
    &&& s.unsigned == count_state(items, AssetState::Unsigned)
    &&& s.signed_external == count_state(items, AssetState::SignedExternal)
    &&& s.signed_local == count_state(items, AssetState::SignedLocal)
    &&& s.covered == count_state(items, AssetState::Covered)
    &&& s.invalid == count_state(items, AssetState::Invalid)
    &&& s.unreadable == count_state(items, AssetState::Unreadable)
}

proof fn lemma_counts_bounded(items: Seq<StatusItem>, s: AssetState)
    ensures
        count_state(items, s) <= items.len(),
        count_needs_signing(items) <= items.len(),
    decreases items.len(),
{
    if items.len() > 0 {
        lemma_counts_bounded(items.drop_last(), s);
    }
}

/// Counts the items by state.
pub fn summarize(items: &Vec<StatusItem>) -> (s: StatusSummary)
    ensures
        spec_summary(items@, s),
{
    let mut s = StatusSummary::default();
    let mut i: usize = 0;
    while i < items.len()
        invariant
            i <= items@.len(),
            s.total == 0,
            s.needs_signing == count_needs_signing(items@.subrange(0, i as int)),
            s.unsigned == count_state(items@.subrange(0, i as int), AssetState::Unsigned),
            s.signed_external == count_state(items@.subrange(0, i as int), AssetState::SignedExternal),
            s.signed_local == count_state(items@.subrange(0, i as int), AssetState::SignedLocal),
            s.covered == count_state(items@.subrange(0, i as int), AssetState::Covered),
            s.invalid == count_state(items@.subrange(0, i as int), AssetState::Invalid),
            s.unreadable == count_state(items@.subrange(0, i as int), AssetState::Unreadable),
        decreases items@.len() - i,
    {
        let ghost pre = items@.subrange(0, i + 1);
        proof {
            assert(pre.drop_last() =~= items@.subrange(0, i as int));
            lemma_counts_bounded(items@.subrange(0, i as int), AssetState::Unsigned);
            lemma_counts_bounded(items@.subrange(0, i as int), AssetState::SignedExternal);
            lemma_counts_bounded(items@.subrange(0, i as int), AssetState::SignedLocal);
            lemma_counts_bounded(items@.subrange(0, i as int), AssetState::Covered);
            lemma_counts_bounded(items@.subrange(0, i as int), AssetState::Invalid);
            lemma_counts_bounded(items@.subrange(0, i as int), AssetState::Unreadable);
        }
        if items[i].needs_signing {
            s.needs_signing = s.needs_signing + 1;
        }
        match items[i].state {
            AssetState::Unsigned => s.unsigned = s.unsigned + 1,
            AssetState::SignedExternal => s.signed_external = s.signed_external + 1,
            AssetState::SignedLocal => s.signed_local = s.signed_local + 1,
            AssetState::Covered => s.covered = s.covered + 1,
            AssetState::Invalid => s.invalid = s.invalid + 1,
            AssetState::Unreadable => s.unreadable = s.unreadable + 1,
        }
        i = i + 1;
    }
    assert(items@.subrange(0, items@.len() as int) =~= items@);
    s.total = items.len();
    s
}

/// Where the classification of a signed sibling comes from: the scanned list
/// itself, or a separate inspection of the sibling file.
#[derive(Debug)]
pub enum SiblingSource {
    Listed(usize),
    Fresh(Classified),
}

/// The classification that a sibling source refers to.
pub open spec fn sibling_class(cands: Seq<(String, Classified)>, src: SiblingSource) -> Option<Classified> {
    match src {
        SiblingSource::Listed(k) => if k < cands.len() { Some(cands[k as int].1) } else { None },
        SiblingSource::Fresh(c) => Some(c),
    }
}

/// An item marked as covered by a signed copy.
pub open spec fn spec_covered_item(item: StatusItem, sibling_path: Seq<char>, r: StatusItem) -> bool {
    &&& r.path == item.path
    &&& r.state == AssetState::Covered
    &&& !r.needs_signing
    &&& r.signature_present == item.signature_present
    &&& r.signature_valid == item.signature_valid
    &&& r.local_trust == item.local_trust
    &&& r.covered_by matches Some(c) && c@ == sibling_path
    &&& r.detail@ == "a valid, locally trusted, pixel-identical signed copy exists"@
}

/// Whether the candidate at `i` is covered by its signed sibling.
pub open spec fn spec_is_covered(cands: Seq<(String, Classified)>, sibs: Seq<Option<(String, SiblingSource)>>, i: int) -> bool {
    let (path, cur) = cands[i];
    &&& spec_needs_signing(cur.item.state)
    &&& !spec_managed_output(path@)
    &&& i < sibs.len()
    &&& sibs[i] matches Some((sp, src))
    &&& sibling_class(cands, src) matches Some(sc)
    &&& spec_covers(sc, cur)
}

/// The final status item of the candidate at `i`.
pub open spec fn spec_scanned_item(cands: Seq<(String, Classified)>, sibs: Seq<Option<(String, SiblingSource)>>, i: int, r: StatusItem) -> bool {
    if spec_is_covered(cands, sibs, i) {
        spec_covered_item(cands[i].1.item, sibs[i].unwrap().0@, r)
    } else {
        r == cands[i].1.item
    }
}

fn copy_item(it: &StatusItem) -> (r: StatusItem)
    ensures
        r == *it,
{
    StatusItem {
        path: it.path.clone(),
        state: it.state,
        needs_signing: it.needs_signing,
        signature_present: it.signature_present,
        signature_valid: it.signature_valid,
        local_trust: it.local_trust,
        covered_by: clone_opt(&it.covered_by),
        detail: it.detail.clone(),
    }
}

fn sibling_covers(cur: &Classified, listed: &Vec<Classified>, src: &SiblingSource) -> (b: Option<bool>)
    ensures
        match src {
            SiblingSource::Listed(k) => if *k < listed@.len() { b == Some(spec_covers(listed@[*k as int], *cur)) } else { b.is_none() },
            SiblingSource::Fresh(c) => b == Some(spec_covers(*c, *cur)),
        },
{
    match src {
        SiblingSource::Listed(k) => if *k < listed.len() { Some(listed[*k].covers(cur)) } else { None },
        SiblingSource::Fresh(c) => Some(c.covers(cur)),
    }
}

/// Whether a scanned image can be covered by a signed copy: it needs
/// signing and is not itself a managed output.
pub fn may_be_covered(path: &str, state: AssetState) -> (b: bool)
    ensures
        b == (spec_needs_signing(state) && !spec_managed_output(path@)),
{
    state.needs_signing() && !is_managed_output(path)
}

/// Assembles the status report of scanned candidates. Each candidate that
/// needs signing and is not itself a managed output is marked as covered when
/// its `.banksy-signed` sibling is a valid, locally trusted, pixel-identical
/// signed copy.
pub fn scan_paths(
    roots: Vec<String>,
    recursive: bool,
    local_identity_configured: bool,
    candidates: Vec<(String, Classified)>,
    siblings: Vec<Option<(String, SiblingSource)>>,
) -> (r: StatusReport)
    ensures
        r.status@ == "ok"@,
        r.roots == roots,
        r.recursive == recursive,
        r.local_identity_configured == local_identity_configured,
        r.items@.len() == candidates@.len(),
        forall|i: int| 0 <= i < candidates@.len() ==> spec_scanned_item(candidates@, siblings@, i, #[trigger] r.items@[i]),
        spec_summary(r.items@, r.summary),
{
    let n = candidates.len();
    let mut listed: Vec<Classified> = Vec::new();
    let mut k: usize = 0;
    while k < n
        invariant
            n == candidates@.len(),
            k <= n,
            listed@.len() == k,
            forall|j: int| 0 <= j < k ==> #[trigger] listed@[j] == candidates@[j].1,
        decreases n - k,
    {
        let c = &candidates[k].1;
        listed.push(Classified {
            item: copy_item(&c.item),
            pixel_sha256: clone_opt(&c.pixel_sha256),
            has_parent: c.has_parent,
        });
        k = k + 1;
    }
    let ghost orig = listed@;
    let mut items: Vec<StatusItem> = Vec::new();
    let mut i: usize = 0;
    while i < n
        invariant
            n == candidates@.len(),
            i <= n,
            listed@.len() == n,
            orig.len() == n,
            forall|j: int| 0 <= j < n ==> #[trigger] orig[j] == candidates@[j].1,
            forall|j: int| 0 <= j < n ==> (#[trigger] listed@[j]).has_parent == orig[j].has_parent
                && listed@[j].pixel_sha256 == orig[j].pixel_sha256
                && (listed@[j].item.state == orig[j].item.state
                    || (listed@[j].item.state == AssetState::Covered && spec_needs_signing(orig[j].item.state))),
            items@.len() == i,
            forall|j: int| 0 <= j < i ==> spec_scanned_item(candidates@, siblings@, j, #[trigger] items@[j]),
            forall|j: int| i <= j < n ==> (#[trigger] listed@[j]) == orig[j],
        decreases n - i,
    {
        let path = &candidates[i].0;
        let cur = &candidates[i].1;
        let mut item = copy_item(&cur.item);
        let mut covered = false;
        if cur.item.state.needs_signing() && !is_managed_output(path.as_str()) && i < siblings.len() {
            match &siblings[i] {
                Some((sp, src)) => {
                    let b = sibling_covers(cur, &listed, src);
                    proof {
                        match src {
                            SiblingSource::Listed(kk) => {
                                if (*kk as int) < n {
                                    let j = *kk as int;
                                    assert(listed@[j].has_parent == orig[j].has_parent);
                                    assert(spec_covers(listed@[j], *cur) == spec_covers(orig[j], *cur));
                                }
                            },
                            _ => {},
                        }
                    }
                    if b == Some(true) {
                        item.state = AssetState::Covered;
                        item.needs_signing = false;
                        item.covered_by = Some(sp.clone());
                        item.detail = owned("a valid, locally trusted, pixel-identical signed copy exists");
                        covered = true;
                    }
                },
                None => {},
            }
        }
        proof {
            assert(covered == spec_is_covered(candidates@, siblings@, i as int));
        }
        if covered {
            let updated = Classified {
                item: copy_item(&item),
                pixel_sha256: clone_opt(&listed[i].pixel_sha256),
                has_parent: listed[i].has_parent,
            };
            listed.set(i, updated);
        }
        items.push(item);
        i = i + 1;
    }
    let summary = summarize(&items);
    StatusReport {
        status: "ok",
        roots,
        recursive,
        local_identity_configured,
        items,
        summary,
    }
}

/// What was read of one scanned path: nothing, with the reason it could not
/// be inspected, or the outcome of inspecting it.
#[derive(Debug)]
pub enum ScanRead {
    Unreadable(String),
    Read(Result<InspectionReport, AppError>),
}

/// The classification of one scanned path from what was read of it.
pub open spec fn spec_read_class(path: Seq<char>, read: ScanRead, local_root_present: bool, c: Classified) -> bool {
    match read {
        ScanRead::Unreadable(d) => {
            &&& c.item.path@ == path
            &&& c.item.state == AssetState::Unreadable
            &&& !c.item.needs_signing && !c.item.signature_present && !c.item.signature_valid && !c.item.local_trust
            &&& c.item.covered_by.is_none()
            &&& c.item.detail == d
            &&& c.pixel_sha256.is_none()
            &&& !c.has_parent
        },
        ScanRead::Read(i) => spec_classify(path, i, local_root_present, c),
    }
}

/// Whether a scanned path can be covered by a signed sibling, decided from
/// what was read of it: its classification needs signing and the path is not
/// itself a managed output.
pub fn read_may_be_covered(path: &str, read: &ScanRead, local_root_present: bool) -> (b: bool)
    ensures
        forall|c: Classified| #[trigger] spec_read_class(path@, *read, local_root_present, c)
            ==> b == (spec_needs_signing(c.item.state) && !spec_managed_output(path@)),
{
    match read {
        ScanRead::Unreadable(_) => false,
        ScanRead::Read(Err(_)) => false,
        ScanRead::Read(Ok(rep)) => {
            if is_managed_output(path) {
                false
            } else {
                let item = item_from_inspection(path, &rep.c2pa);
                item.state.needs_signing()
            }
        },
    }
}

/// The classifications of scanned paths, one per path and in order.
pub open spec fn scan_classes(inspected: Seq<(String, ScanRead)>, local_root_present: bool, cands: Seq<(String, Classified)>) -> bool {
    &&& cands.len() == inspected.len()
    &&& forall|i: int| 0 <= i < cands.len() ==> (#[trigger] cands[i]).0 == inspected[i].0
        && spec_read_class(inspected[i].0@, inspected[i].1, local_root_present, cands[i].1)
}

/// The status report of scanned paths from what was read of each: every path
/// is classified (a path that could not be inspected is unreadable), then
/// `scan_paths` marks the originals covered by their signed siblings.
pub fn scan_inspected(
    roots: Vec<String>,
    recursive: bool,
    local_root_present: bool,
    inspected: Vec<(String, ScanRead)>,
    siblings: Vec<Option<(String, SiblingSource)>>,
) -> (r: StatusReport)
    ensures
        r.status@ == "ok"@,
        r.roots == roots,
        r.recursive == recursive,
        r.local_identity_configured == local_root_present,
        r.items@.len() == inspected@.len(),
        exists|cands: Seq<(String, Classified)>| #[trigger] scan_classes(inspected@, local_root_present, cands)
            && forall|i: int| 0 <= i < cands.len() ==> spec_scanned_item(cands, siblings@, i, #[trigger] r.items@[i]),
        forall|i: int| 0 <= i < inspected@.len() ==> ((#[trigger] inspected@[i]).1 matches ScanRead::Unreadable(d)
            ==> r.items@[i].state == AssetState::Unreadable && !r.items@[i].needs_signing && r.items@[i].detail == d),
        forall|i: int| 0 <= i < inspected@.len() ==> ((#[trigger] inspected@[i]).1 matches ScanRead::Read(Err(e))
            ==> !r.items@[i].needs_signing && r.items@[i].state == (if e.exit_code == 3 { AssetState::Invalid } else { AssetState::Unreadable })),
        forall|i: int| 0 <= i < inspected@.len() ==> ((#[trigger] inspected@[i]).1 matches ScanRead::Read(Ok(rep))
            ==> (spec_managed_output(inspected@[i].0@) && spec_state_of(rep.c2pa) == AssetState::Unsigned
            ==> r.items@[i].state == AssetState::Invalid && !r.items@[i].needs_signing
                && r.items@[i].detail@ == "a .banksy-signed file has no embedded Content Credential; it was stripped or replaced"@)),
        spec_summary(r.items@, r.summary),
{
    let n = inspected.len();
    let ghost ins = inspected@;
    let mut rest = inspected;
    let mut cands: Vec<(String, Classified)> = Vec::new();
    let mut i: usize = 0;
    while i < n
        invariant
            n == ins.len(),
            i <= n,
            rest@ == ins.subrange(i as int, n as int),
            cands@.len() == i,
            forall|j: int| 0 <= j < i ==> (#[trigger] cands@[j]).0 == ins[j].0
                && spec_read_class(ins[j].0@, ins[j].1, local_root_present, cands@[j].1),
        decreases n - i,
    {
        let pair = rest.remove(0);
        assert(pair == ins[i as int]);
        let ghost old_cands = cands@;
        let (path, read) = pair;
        let c = match read {
            ScanRead::Unreadable(d) => Classified::unreadable(path.as_str(), d),
            ScanRead::Read(inspection) => classify_image(path.as_str(), inspection, local_root_present),
        };
        cands.push((path, c));
        assert forall|j: int| 0 <= j < i + 1 implies (#[trigger] cands@[j]).0 == ins[j].0
            && spec_read_class(ins[j].0@, ins[j].1, local_root_present, cands@[j].1) by {
            if j < i {
                assert(cands@[j] == old_cands[j]);
            }
        }
        i = i + 1;
    }
    let ghost cs = cands@;
    let r = scan_paths(roots, recursive, local_root_present, cands, siblings);
    proof {
        assert(scan_classes(ins, local_root_present, cs));
        assert forall|i: int| 0 <= i < ins.len() implies !spec_is_covered(cs, siblings@, i)
            || spec_needs_signing(cs[i].1.item.state) by {}
        assert forall|i: int| 0 <= i < ins.len() && !spec_needs_signing(cs[i].1.item.state)
            implies r.items@[i] == cs[i].1.item by {
            assert(spec_scanned_item(cs, siblings@, i, r.items@[i]));
        }
    }
    r
}

/// An item's flag agrees with its state: it needs signing exactly when it is
/// unsigned or signed by someone else.
pub open spec fn item_consistent(item: StatusItem) -> bool {
    item.needs_signing == spec_needs_signing(item.state)
}

/// Every classification gives a consistent item.
pub proof fn law_classified_item_consistent(
    path: Seq<char>,
    inspection: Result<InspectionReport, AppError>,
    local_root_present: bool,
    c: Classified,
)
    requires
        spec_classify(path, inspection, local_root_present, c),
    ensures
        item_consistent(c.item),
{
}

/// A managed `.banksy-signed` output is never an unsigned image waiting to be
/// signed: without a credential it is invalid, and with a local identity
/// configured it must carry the local signature or be invalid.
pub proof fn law_managed_output_never_pending(
    path: Seq<char>,
    inspection: Result<InspectionReport, AppError>,
    local_root_present: bool,
    c: Classified,
)
    requires
        spec_classify(path, inspection, local_root_present, c),
        spec_managed_output(path),
    ensures
        c.item.state != AssetState::Unsigned,
        local_root_present ==> !c.item.needs_signing,
{
}

/// The states partition the scanned images, and the pending count is the
/// number of unsigned and externally signed images when every item is
/// consistent.
pub proof fn law_summary_partition(items: Seq<StatusItem>)
    requires
        forall|k: int| 0 <= k < items.len() ==> item_consistent(#[trigger] items[k]),
    ensures
        count_state(items, AssetState::Unsigned) + count_state(items, AssetState::SignedExternal)
            + count_state(items, AssetState::SignedLocal) + count_state(items, AssetState::Covered)
            + count_state(items, AssetState::Invalid) + count_state(items, AssetState::Unreadable) == items.len(),
        count_needs_signing(items) == count_state(items, AssetState::Unsigned)
            + count_state(items, AssetState::SignedExternal),
    decreases items.len(),
{
    if items.len() > 0 {
        let rest = items.drop_last();
        assert forall|k: int| 0 <= k < rest.len() implies item_consistent(#[trigger] rest[k]) by {
            assert(rest[k] == items[k]);
        }
        law_summary_partition(rest);
        assert(item_consistent(items[items.len() - 1]));
    }
}

/// Scanning keeps items consistent: a covered original no longer needs
/// signing, and every other item is its classification.
pub proof fn law_scan_keeps_items_consistent(
    candidates: Seq<(String, Classified)>,
    siblings: Seq<Option<(String, SiblingSource)>>,
    items: Seq<StatusItem>,
)
    requires
        items.len() == candidates.len(),
        forall|i: int| 0 <= i < candidates.len() ==> item_consistent((#[trigger] candidates[i]).1.item),
        forall|i: int| 0 <= i < candidates.len() ==> spec_scanned_item(candidates, siblings, i, #[trigger] items[i]),
    ensures
        forall|i: int| 0 <= i < items.len() ==> item_consistent(#[trigger] items[i]),
{
    assert forall|i: int| 0 <= i < items.len() implies item_consistent(#[trigger] items[i]) by {
        assert(spec_scanned_item(candidates, siblings, i, items[i]));
        assert(item_consistent(candidates[i].1.item));
    }
}

/// A status report of scanned paths (see `scan_inspected`) partitions its
/// images by state: every item agrees with its state, the counts of the six
/// states add up to the total, the pending count is the number of unsigned
/// and externally signed images, and an item names a covering copy exactly
/// when it is covered.
pub proof fn law_scan_report_partition(
    inspected: Seq<(String, ScanRead)>,
    local_root_present: bool,
    siblings: Seq<Option<(String, SiblingSource)>>,
    r: StatusReport,
)
    requires
        r.items@.len() == inspected.len(),
        exists|cands: Seq<(String, Classified)>| #[trigger] scan_classes(inspected, local_root_present, cands)
            && forall|i: int| 0 <= i < cands.len() ==> spec_scanned_item(cands, siblings, i, #[trigger] r.items@[i]),
        spec_summary(r.items@, r.summary),
    ensures
        forall|i: int| 0 <= i < r.items@.len() ==> item_consistent(#[trigger] r.items@[i]),
        forall|i: int| 0 <= i < r.items@.len() ==> ((#[trigger] r.items@[i]).covered_by.is_some()
            <==> r.items@[i].state == AssetState::Covered),
        r.summary.unsigned + r.summary.signed_external + r.summary.signed_local + r.summary.covered
            + r.summary.invalid + r.summary.unreadable == r.summary.total,
        r.summary.needs_signing == r.summary.unsigned + r.summary.signed_external,
{
    let cands = choose|cands: Seq<(String, Classified)>| #[trigger] scan_classes(inspected, local_root_present, cands)
        && forall|i: int| 0 <= i < cands.len() ==> spec_scanned_item(cands, siblings, i, #[trigger] r.items@[i]);
    assert forall|i: int| 0 <= i < r.items@.len() implies item_consistent(#[trigger] r.items@[i])
        && (r.items@[i].covered_by.is_some() <==> r.items@[i].state == AssetState::Covered) by {
        assert(spec_scanned_item(cands, siblings, i, r.items@[i]));
        assert(cands[i].0 == inspected[i].0);
        match inspected[i].1 {
            ScanRead::Read(inspection) => {
                law_classified_item_consistent(inspected[i].0@, inspection, local_root_present, cands[i].1);
            },
            ScanRead::Unreadable(_) => {},
        }
    }
    law_summary_partition(r.items@);
}

/// One item of the status listing.
pub open spec fn status_line(item: StatusItem) -> Seq<char> {
    let name = spec_state_name(item.state);
    let action = if item.needs_signing { "sign"@ } else { "-"@ };
    name + padding(name.len(), 18) + " "@ + action + padding(action.len(), 7) + " "@ + item.path@ + "\n"@
        + (match item.covered_by {
            Some(c) => "  covered by "@ + c@ + "\n"@,
            None => Seq::<char>::empty(),
        })
        + (if item.state == AssetState::Invalid || item.state == AssetState::Unreadable {
            "  "@ + item.detail@ + "\n"@
        } else {
            Seq::<char>::empty()
        })
}

/// The lines of all items, in order.
pub open spec fn status_lines(items: Seq<StatusItem>) -> Seq<char>
    decreases items.len(),
{
    if items.len() == 0 {
        Seq::<char>::empty()
    } else {
        status_lines(items.drop_last()) + status_line(items.last())
    }
}

/// The summary line of a status report.
pub open spec fn status_summary_text(s: StatusSummary) -> Seq<char> {
    "\nSummary: "@ + decimal(s.total as nat) + " total, "@ + decimal(s.needs_signing as nat) + " need signing, "@
        + decimal(s.signed_local as nat) + " locally signed, "@ + decimal(s.covered as nat) + " covered, "@
        + decimal(s.invalid as nat) + " invalid, "@ + decimal(s.unreadable as nat) + " unreadable"@
}

/// The human-readable text of a status report.
pub open spec fn spec_status_report_text(r: StatusReport) -> Seq<char> {
    (if r.items@.len() == 0 {
        "No supported images found\n"@
    } else {
        "STATE              ACTION  FILE\n"@ + status_lines(r.items@)
    }) + status_summary_text(r.summary)
}

fn status_line_text(item: &StatusItem) -> (t: String)
    ensures
        t@ == status_line(*item),
{
    let mut r = pad_right(item.state.as_str(), 18);
    push_str(&mut r, " ");
    let action = if item.needs_signing { "sign" } else { "-" };
    let a = pad_right(action, 7);
    push_str(&mut r, a.as_str());
    push_str(&mut r, " ");
    push_str(&mut r, item.path.as_str());
    push_str(&mut r, "\n");
    if let Some(c) = &item.covered_by {
        push_str(&mut r, "  covered by ");
        push_str(&mut r, c.as_str());
        push_str(&mut r, "\n");
    }
    match item.state {
        AssetState::Invalid | AssetState::Unreadable => {
            push_str(&mut r, "  ");
            push_str(&mut r, item.detail.as_str());
            push_str(&mut r, "\n");
        },
        _ => {},
    }
    assert(r@ =~= status_line(*item));
    r
}

fn summary_text(s: &StatusSummary) -> (t: String)
    ensures
        t@ == status_summary_text(*s),
{
    let mut r = owned("\nSummary: ");
    push_decimal(&mut r, s.total as u64);
    push_str(&mut r, " total, ");
    push_decimal(&mut r, s.needs_signing as u64);
    push_str(&mut r, " need signing, ");
    push_decimal(&mut r, s.signed_local as u64);
    push_str(&mut r, " locally signed, ");
    push_decimal(&mut r, s.covered as u64);
    push_str(&mut r, " covered, ");
    push_decimal(&mut r, s.invalid as u64);
    push_str(&mut r, " invalid, ");
    push_decimal(&mut r, s.unreadable as u64);
    push_str(&mut r, " unreadable");
    assert(r@ =~= status_summary_text(*s));
    r
}

impl StatusReport {
    /// The human-readable text of this report.
    pub fn render(&self) -> (t: String)
        ensures
            t@ == spec_status_report_text(*self),
    {
        let mut r = String::new();
        if self.items.len() == 0 {
            push_str(&mut r, "No supported images found\n");
        } else {
            push_str(&mut r, "STATE              ACTION  FILE\n");
            let ghost head = r@;
            let mut i: usize = 0;
            while i < self.items.len()
                invariant
                    i <= self.items@.len(),
                    r@ == head + status_lines(self.items@.subrange(0, i as int)),
                decreases self.items@.len() - i,
            {
                let line = status_line_text(&self.items[i]);
                push_str(&mut r, line.as_str());
                proof {
                    let pre = self.items@.subrange(0, i + 1);
                    assert(pre.drop_last() =~= self.items@.subrange(0, i as int));
                }
                i = i + 1;
                assert(r@ =~= head + status_lines(self.items@.subrange(0, i as int)));
            }
            assert(self.items@.subrange(0, self.items@.len() as int) =~= self.items@);
        }
        let s = summary_text(&self.summary);
        push_str(&mut r, s.as_str());
        assert(r@ =~= spec_status_report_text(*self));
        r
    }
}

} // verus!
