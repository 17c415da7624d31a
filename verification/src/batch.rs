//! Batch signing of every image that needs it, with one key authentication
//! for the whole batch: what is done with each scanned image, how results are
//! recorded, and the summary and exit code.
use vstd::prelude::*;

use crate::error::AppError;
use crate::provenance::InspectionReport;
use crate::scan::{
    spec_needs_signing, item_consistent, spec_is_covered, spec_scanned_item, spec_state_name, is_managed_output, spec_managed_output,
    AssetState, Classified, SiblingSource, StatusItem,
};
use crate::signing::{default_output_path, spec_default_output_path, SigningReport};
use crate::text::{clone_opt, decimal, owned, pad_right, padding, push_decimal, push_str};

verus! {

/// What happened to one image of a batch.
#[derive(Clone, Copy, PartialEq, Eq, Structural, Debug)]
pub enum BatchItemResult {
    Signed,
    Skipped,
    Failed,
}

/// The report name of a batch result.
pub open spec fn spec_result_name(r: BatchItemResult) -> Seq<char> {
    match r {
        BatchItemResult::Signed => "signed"@,
        BatchItemResult::Skipped => "skipped"@,
        BatchItemResult::Failed => "failed"@,
    }
}

impl BatchItemResult {
    /// The report name of this result.
    pub fn as_str(self) -> (r: &'static str)
        ensures
            r@ == spec_result_name(self),
    {
        match self {
            BatchItemResult::Signed => "signed",
            BatchItemResult::Skipped => "skipped",
            BatchItemResult::Failed => "failed",
        }
    }
}

/// One image of a batch.
#[derive(Debug)]
pub struct BatchItem {
    pub input: String,
    pub source_state: AssetState,
    pub result: BatchItemResult,
    pub output: Option<String>,
    pub output_sha256: Option<String>,
    pub credential_location: Option<String>,
    pub credential_bytes: Option<u64>,
    pub manifest_count: Option<usize>,
    pub upstream_preserved: Option<bool>,
    pub post_commit_verified: Option<bool>,
    pub detail: String,
    pub error_exit_code: Option<u8>,
}

/// Counts of a batch by result.
#[derive(Debug)]
pub struct BatchSummary {
    pub scanned: usize,
    pub signed: usize,
    pub skipped: usize,
    pub failed: usize,
}

impl Default for BatchSummary {
    fn default() -> (s: BatchSummary)
        ensures
            s.scanned == 0 && s.signed == 0 && s.skipped == 0 && s.failed == 0,
    {
        BatchSummary { scanned: 0, signed: 0, skipped: 0, failed: 0 }
    }
}

/// The report of a batch.
#[derive(Debug)]
pub struct BatchSigningReport {
    pub status: &'static str,
    pub recursive: bool,
    pub authentication_prompts: usize,
    pub items: Vec<BatchItem>,
    pub summary: BatchSummary,
}

/// Whether some item failed with a runtime error (exit code 1).
pub open spec fn has_runtime_failure(items: Seq<BatchItem>) -> bool {
    exists|k: int| 0 <= k < items.len() && (#[trigger] items[k]).error_exit_code == Some(1u8)
}

/// The exit code of a batch: 1 when an item failed at runtime, otherwise 3
/// when any item failed, otherwise 0.
pub open spec fn spec_batch_exit_code(r: BatchSigningReport) -> u8 {
    if has_runtime_failure(r.items@) { 1 } else if r.summary.failed > 0 { 3 } else { 0 }
}

impl BatchSigningReport {
    /// The process exit code of this batch.
    pub fn exit_code(&self) -> (code: u8)
        ensures
            code == spec_batch_exit_code(*self),
    {
        let mut i: usize = 0;
        while i < self.items.len()
            invariant
                i <= self.items@.len(),
                forall|k: int| 0 <= k < i ==> (#[trigger] self.items@[k]).error_exit_code != Some(1u8),
            decreases self.items@.len() - i,
        {
            if self.items[i].error_exit_code == Some(1u8) {
                return 1;
            }
            i = i + 1;
        }
        if self.summary.failed > 0 {
            3
        } else {
            0
        }
    }
}

/// An item with the given outcome and no signing facts.
pub open spec fn plain_item(
    b: BatchItem,
    input: Seq<char>,
    state: AssetState,
    result: BatchItemResult,
    output: Option<Seq<char>>,
    detail: Seq<char>,
    code: Option<u8>,
) -> bool {
    &&& b.input@ == input
    &&& b.source_state == state
    &&& b.result == result
    &&& crate::setup::opt_view(b.output) == output
    &&& b.output_sha256.is_none()
    &&& b.credential_location.is_none()
    &&& b.credential_bytes.is_none()
    &&& b.manifest_count.is_none()
    &&& b.upstream_preserved.is_none()
    &&& b.post_commit_verified.is_none()
    &&& b.detail@ == detail
    &&& b.error_exit_code == code
}

/// What a batch does with one scanned image.
#[derive(Debug)]
pub enum BatchEntry {
    /// The image's outcome is already known.
    Done(BatchItem),
    /// The image needs signing into the given output, once the checks made
    /// before key access pass.
    Preflight(String),
}

/// The message for an image that needs signing but has a managed name.
pub open spec fn msg_managed_name() -> Seq<char> {
    "refusing to sign a managed output name; audit or restore the original signed bytes"@
}

/// What a batch does with one scanned image: an image that needs signing is
/// signed into its default output, unless its own name is a managed output
/// name (a failure); invalid and unreadable images fail; every other image is
/// skipped, with the signed copy that covers it.
pub open spec fn spec_batch_entry(item: StatusItem, r: BatchEntry) -> bool {
    if item.needs_signing {
        if spec_managed_output(item.path@) {
            r matches BatchEntry::Done(b)
                && plain_item(b, item.path@, AssetState::Invalid, BatchItemResult::Failed, None, msg_managed_name(), Some(3u8))
        } else {
            r matches BatchEntry::Preflight(o) && o@ == spec_default_output_path(item.path@)
        }
    } else if item.state == AssetState::Invalid || item.state == AssetState::Unreadable {
        r matches BatchEntry::Done(b) && plain_item(b, item.path@, item.state, BatchItemResult::Failed, None,
            item.detail@, Some(if item.state == AssetState::Unreadable { 1u8 } else { 3u8 }))
    } else {
        r matches BatchEntry::Done(b) && plain_item(b, item.path@, item.state, BatchItemResult::Skipped,
            crate::setup::opt_view(item.covered_by), item.detail@, None)
    }
}

/// Decides what a batch does with one scanned image.
pub fn batch_entry(item: &StatusItem) -> (r: BatchEntry)
    ensures
        spec_batch_entry(*item, r),
{
    if item.needs_signing {
        if is_managed_output(item.path.as_str()) {
            return BatchEntry::Done(BatchItem {
                input: item.path.clone(),
                source_state: AssetState::Invalid,
                result: BatchItemResult::Failed,
                output: None,
                output_sha256: None,
                credential_location: None,
                credential_bytes: None,
                manifest_count: None,
                upstream_preserved: None,
                post_commit_verified: None,
                detail: owned("refusing to sign a managed output name; audit or restore the original signed bytes"),
                error_exit_code: Some(3),
            });
        }
        return BatchEntry::Preflight(default_output_path(item.path.as_str()));
    }
    match item.state {
        AssetState::Invalid | AssetState::Unreadable => {
            let code: u8 = match item.state {
                AssetState::Unreadable => 1,
                _ => 3,
            };
            BatchEntry::Done(BatchItem {
                input: item.path.clone(),
                source_state: item.state,
                result: BatchItemResult::Failed,
                output: None,
                output_sha256: None,
                credential_location: None,
                credential_bytes: None,
                manifest_count: None,
                upstream_preserved: None,
                post_commit_verified: None,
                detail: item.detail.clone(),
                error_exit_code: Some(code),
            })
        },
        _ => BatchEntry::Done(BatchItem {
            input: item.path.clone(),
            source_state: item.state,
            result: BatchItemResult::Skipped,
            output: clone_opt(&item.covered_by),
            output_sha256: None,
            credential_location: None,
            credential_bytes: None,
            manifest_count: None,
            upstream_preserved: None,
            post_commit_verified: None,
            detail: item.detail.clone(),
            error_exit_code: None,
        }),
    }
}

/// Records the checks made before key access for an image to sign. When
/// they pass, the image waits to be signed (skipped until it is); otherwise
/// it fails with the error, naming its intended output.
pub fn preflight_item(item: &StatusItem, output: &String, checks: Result<InspectionReport, AppError>) -> (b: BatchItem)
    ensures
        checks is Ok ==> plain_item(b, item.path@, item.state, BatchItemResult::Skipped, None, "ready to sign"@, None),
        checks matches Err(e) ==> plain_item(b, item.path@, item.state, BatchItemResult::Failed, Some(output@),
            e.message@, Some(e.exit_code)),
{
    match checks {
        Ok(_) => BatchItem {
            input: item.path.clone(),
            source_state: item.state,
            result: BatchItemResult::Skipped,
            output: None,
            output_sha256: None,
            credential_location: None,
            credential_bytes: None,
            manifest_count: None,
            upstream_preserved: None,
            post_commit_verified: None,
            detail: owned("ready to sign"),
            error_exit_code: None,
        },
        Err(e) => BatchItem {
            input: item.path.clone(),
            source_state: item.state,
            result: BatchItemResult::Failed,
            output: Some(output.clone()),
            output_sha256: None,
            credential_location: None,
            credential_bytes: None,
            manifest_count: None,
            upstream_preserved: None,
            post_commit_verified: None,
            detail: e.message,
            error_exit_code: Some(e.exit_code),
        },
    }
}

/// The record of a waiting image once signing was tried: its output and the
/// verified signing facts, or the error.
pub open spec fn spec_recorded(b: BatchItem, output: Seq<char>, outcome: Result<SigningReport, AppError>, n: BatchItem) -> bool {
    &&& n.input == b.input
    &&& n.source_state == b.source_state
    &&& crate::setup::opt_view(n.output) == Some(output)
    &&& match outcome {
        Ok(rep) => {
            &&& n.result == BatchItemResult::Signed
            &&& n.output_sha256 == Some(rep.output_sha256)
            &&& n.credential_location matches Some(l) && l@ == rep.c2pa.credential_location@
            &&& n.credential_bytes == Some(rep.c2pa.credential_bytes)
            &&& n.manifest_count == Some(rep.c2pa.manifest_count)
            &&& n.upstream_preserved == Some(rep.c2pa.upstream_preserved)
            &&& n.post_commit_verified == Some(rep.c2pa.post_commit_verified)
            &&& n.detail@ == "signed and validated"@
            &&& n.error_exit_code == b.error_exit_code
        },
        Err(e) => {
            &&& n.result == BatchItemResult::Failed
            &&& n.detail@ == e.message@
            &&& n.error_exit_code == Some(e.exit_code)
            &&& n.output_sha256 == b.output_sha256
            &&& n.credential_location == b.credential_location
            &&& n.credential_bytes == b.credential_bytes
            &&& n.manifest_count == b.manifest_count
            &&& n.upstream_preserved == b.upstream_preserved
            &&& n.post_commit_verified == b.post_commit_verified
        },
    }
}

/// Records the signing of a waiting image.
pub fn record_signing(item: &mut BatchItem, output: &String, outcome: Result<SigningReport, AppError>)
    ensures
        spec_recorded(*old(item), output@, outcome, *final(item)),
{
    match outcome {
        Ok(rep) => {
            item.result = BatchItemResult::Signed;
            item.output = Some(output.clone());
            item.output_sha256 = Some(rep.output_sha256);
            item.credential_location = Some(owned(rep.c2pa.credential_location));
            item.credential_bytes = Some(rep.c2pa.credential_bytes);
            item.manifest_count = Some(rep.c2pa.manifest_count);
            item.upstream_preserved = Some(rep.c2pa.upstream_preserved);
            item.post_commit_verified = Some(rep.c2pa.post_commit_verified);
            item.detail = owned("signed and validated");
        },
        Err(e) => {
            item.result = BatchItemResult::Failed;
            item.output = Some(output.clone());
            item.detail = e.message;
            item.error_exit_code = Some(e.exit_code);
        },
    }
}

/// The number of items with a given result.
pub open spec fn count_result(items: Seq<BatchItem>, r: BatchItemResult) -> nat
    decreases items.len(),
{
    if items.len() == 0 {
        0
    } else {
        count_result(items.drop_last(), r) + if items.last().result == r { 1nat } else { 0nat }
    }
}

proof fn lemma_count_result_bound(items: Seq<BatchItem>, r: BatchItemResult)
    ensures
        count_result(items, r) <= items.len(),
    decreases items.len(),
{
    if items.len() > 0 {
        lemma_count_result_bound(items.drop_last(), r);
    }
}

fn count_items(items: &Vec<BatchItem>, r: BatchItemResult) -> (n: usize)
    ensures
        n == count_result(items@, r),
{
    let mut n: usize = 0;
    let mut i: usize = 0;
    while i < items.len()
        invariant
            i <= items@.len(),
            n == count_result(items@.subrange(0, i as int), r),
            n <= i,
        decreases items@.len() - i,
    {
        proof {
            let pre = items@.subrange(0, i + 1);
            assert(pre.drop_last() =~= items@.subrange(0, i as int));
        }
        if items[i].result == r {
            n = n + 1;
        }
        i = i + 1;
    }
    assert(items@.subrange(0, items@.len() as int) =~= items@);
    n
}

/// The status of a batch: `ok` without failures, `failed` when nothing was
/// signed, else `partial`.
pub open spec fn spec_batch_status(failed: nat, signed: nat) -> Seq<char> {
    if failed == 0 { "ok"@ } else if signed == 0 { "failed"@ } else { "partial"@ }
}

/// The report of a batch from its items: counts by result, and one
/// authentication prompt when anything was ready to sign.
pub fn batch_report(recursive: bool, items: Vec<BatchItem>, any_ready: bool) -> (r: BatchSigningReport)
    ensures
        r.recursive == recursive,
        r.authentication_prompts == (if any_ready { 1usize } else { 0usize }),
        r.items == items,
        r.summary.scanned == items@.len(),
        r.summary.signed == count_result(items@, BatchItemResult::Signed),
        r.summary.skipped == count_result(items@, BatchItemResult::Skipped),
        r.summary.failed == count_result(items@, BatchItemResult::Failed),
        r.status@ == spec_batch_status(r.summary.failed as nat, r.summary.signed as nat),
{
    let signed = count_items(&items, BatchItemResult::Signed);
    let skipped = count_items(&items, BatchItemResult::Skipped);
    let failed = count_items(&items, BatchItemResult::Failed);
    let status = if failed == 0 {
        "ok"
    } else if signed == 0 {
        "failed"
    } else {
        "partial"
    };
    let summary = BatchSummary { scanned: items.len(), signed, skipped, failed };
    BatchSigningReport {
        status,
        recursive,
        authentication_prompts: if any_ready { 1 } else { 0 },
        items,
        summary,
    }
}

/// An image waiting to be signed: it passed the checks made before key
/// access, so it is skipped for now while its state still needs signing.
pub open spec fn spec_ready(b: BatchItem) -> bool {
    b.result == BatchItemResult::Skipped && spec_needs_signing(b.source_state)
}

/// The number of images waiting to be signed.
pub open spec fn count_ready(items: Seq<BatchItem>) -> nat
    decreases items.len(),
{
    if items.len() == 0 {
        0
    } else {
        count_ready(items.drop_last()) + if spec_ready(items.last()) { 1nat } else { 0nat }
    }
}

proof fn lemma_count_ready_prefix(items: Seq<BatchItem>, i: int)
    requires
        0 <= i < items.len(),
    ensures
        count_ready(items.take(i + 1)) == count_ready(items.take(i)) + if spec_ready(items[i]) { 1nat } else { 0nat },
{
    assert(items.take(i + 1).drop_last() =~= items.take(i));
}

proof fn lemma_count_ready_mono(items: Seq<BatchItem>, i: int)
    requires
        0 <= i <= items.len(),
    ensures
        count_ready(items.take(i)) <= count_ready(items),
    decreases items.len() - i,
{
    if i < items.len() {
        lemma_count_ready_mono(items.drop_last(), if i < items.len() { i } else { i - 1 });
        assert(items.drop_last().take(i) =~= items.take(i));
        assert(items.take(items.len() as int) =~= items);
    } else {
        assert(items.take(i) =~= items);
    }
}

proof fn lemma_count_ready_exists(items: Seq<BatchItem>)
    ensures
        count_ready(items) > 0 <==> exists|k: int| 0 <= k < items.len() && spec_ready(#[trigger] items[k]),
    decreases items.len(),
{
    if items.len() > 0 {
        let rest = items.drop_last();
        lemma_count_ready_exists(rest);
        if exists|k: int| 0 <= k < rest.len() && spec_ready(#[trigger] rest[k]) {
            let k = choose|k: int| 0 <= k < rest.len() && spec_ready(#[trigger] rest[k]);
            assert(items[k] == rest[k]);
        }
        if exists|k: int| 0 <= k < items.len() && spec_ready(#[trigger] items[k]) {
            let k = choose|k: int| 0 <= k < items.len() && spec_ready(#[trigger] items[k]);
            if k < rest.len() {
                assert(rest[k] == items[k]);
            }
        }
    }
}

/// Whether an image is waiting to be signed.
pub fn is_ready(b: &BatchItem) -> (r: bool)
    ensures
        r == spec_ready(*b),
{
    b.result == BatchItemResult::Skipped && b.source_state.needs_signing()
}

/// The number of images waiting to be signed.
pub fn ready_count(items: &Vec<BatchItem>) -> (n: usize)
    ensures
        n == count_ready(items@),
{
    let mut n: usize = 0;
    let mut i: usize = 0;
    while i < items.len()
        invariant
            i <= items@.len(),
            n == count_ready(items@.take(i as int)),
            n <= i,
        decreases items@.len() - i,
    {
        proof {
            lemma_count_ready_prefix(items@, i as int);
        }
        if is_ready(&items[i]) {
            n = n + 1;
        }
        i = i + 1;
    }
    assert(items@.take(items@.len() as int) =~= items@);
    n
}

/// Whether the batch needs the signing key: some image is waiting to be
/// signed. The key is fetched, and the user asked to authenticate, exactly
/// then, and once.
pub fn needs_signing_key(items: &Vec<BatchItem>) -> (b: bool)
    ensures
        b <==> exists|i: int| 0 <= i < items@.len() && spec_ready(#[trigger] items@[i]),
{
    proof {
        lemma_count_ready_exists(items@);
    }
    ready_count(items) > 0
}

/// Completes a batch after signing: the `k`-th waiting image takes the `k`-th
/// signing outcome, into its default output; every other image stays as it
/// was. The report counts one authentication prompt exactly when some image
/// was waiting.
pub fn finish_batch(recursive: bool, items: Vec<BatchItem>, outcomes: Vec<Result<SigningReport, AppError>>) -> (r: BatchSigningReport)
    requires
        outcomes@.len() == count_ready(items@),
    ensures
        r.recursive == recursive,
        r.authentication_prompts == (if exists|i: int| 0 <= i < items@.len() && spec_ready(#[trigger] items@[i]) { 1usize } else { 0usize }),
        r.items@.len() == items@.len(),
        forall|i: int| 0 <= i < items@.len() ==> (if spec_ready(items@[i]) {
            spec_recorded(items@[i], spec_default_output_path(items@[i].input@),
                outcomes@[count_ready(items@.take(i)) as int], #[trigger] r.items@[i])
        } else {
            r.items@[i] == items@[i]
        }),
        r.summary.scanned == r.items@.len(),
        r.summary.signed == count_result(r.items@, BatchItemResult::Signed),
        r.summary.skipped == count_result(r.items@, BatchItemResult::Skipped),
        r.summary.failed == count_result(r.items@, BatchItemResult::Failed),
        r.status@ == spec_batch_status(r.summary.failed as nat, r.summary.signed as nat),
{
    let any = needs_signing_key(&items);
    let ghost orig = items@;
    let ghost outs0 = outcomes@;
    let n = items.len();
    let mut rest = items;
    let mut outs = outcomes;
    let mut done: Vec<BatchItem> = Vec::new();
    let mut i: usize = 0;
    while i < n
        invariant
            n == orig.len(),
            i <= n,
            rest@ == orig.subrange(i as int, n as int),
            outs0.len() == count_ready(orig),
            outs@ == outs0.subrange(count_ready(orig.take(i as int)) as int, outs0.len() as int),
            count_ready(orig.take(i as int)) <= count_ready(orig),
            done@.len() == i,
            forall|j: int| 0 <= j < i ==> (if spec_ready(orig[j]) {
                spec_recorded(orig[j], spec_default_output_path(orig[j].input@),
                    outs0[count_ready(orig.take(j)) as int], #[trigger] done@[j])
            } else {
                done@[j] == orig[j]
            }),
        decreases n - i,
    {
        proof {
            lemma_count_ready_prefix(orig, i as int);
            lemma_count_ready_mono(orig, i as int + 1);
        }
        let mut b = rest.remove(0);
        assert(b == orig[i as int]);
        if is_ready(&b) {
            let output = default_output_path(b.input.as_str());
            let outcome = outs.remove(0);
            record_signing(&mut b, &output, outcome);
        }
        done.push(b);
        i = i + 1;
    }
    batch_report(recursive, done, any)
}

/// A batch never signs a managed output name: an image whose own name is a
/// `.banksy-signed` output is never sent to preflight, and every image that
/// is not sent to preflight is already done, never left waiting for the key.
pub proof fn law_batch_never_signs_managed_names(item: StatusItem, entry: BatchEntry)
    requires
        item_consistent(item),
        spec_batch_entry(item, entry),
    ensures
        entry is Preflight ==> !spec_managed_output(item.path@),
        entry matches BatchEntry::Done(b) ==> !spec_ready(b),
        spec_managed_output(item.path@) ==> (entry matches BatchEntry::Done(b) && b.result != BatchItemResult::Signed
            && !spec_ready(b)),
{
}

proof fn lemma_count_result_witness(items: Seq<BatchItem>, res: BatchItemResult)
    requires
        count_result(items, res) > 0,
    ensures
        exists|k: int| 0 <= k < items.len() && (#[trigger] items[k]).result == res,
    decreases items.len(),
{
    if items.last().result != res {
        lemma_count_result_witness(items.drop_last(), res);
        let k = choose|k: int| 0 <= k < items.drop_last().len() && (#[trigger] items.drop_last()[k]).result == res;
        assert(items[k] == items.drop_last()[k]);
    } else {
        assert(items[items.len() - 1].result == res);
    }
}

/// A batch signs nothing without asking for the key: when no image came in
/// already signed, a completed batch (see `finish_batch`) that signed some
/// image asked for authentication exactly once, and it never asks more than
/// once.
pub proof fn law_no_signature_without_prompt(
    items: Seq<BatchItem>,
    outcomes: Seq<Result<SigningReport, AppError>>,
    r: BatchSigningReport,
)
    requires
        forall|i: int| 0 <= i < items.len() ==> (#[trigger] items[i]).result != BatchItemResult::Signed,
        r.authentication_prompts == (if exists|i: int| 0 <= i < items.len() && spec_ready(#[trigger] items[i]) { 1usize } else { 0usize }),
        r.items@.len() == items.len(),
        forall|i: int| 0 <= i < items.len() ==> (if spec_ready(items[i]) {
            spec_recorded(items[i], spec_default_output_path(items[i].input@),
                outcomes[count_ready(items.take(i)) as int], #[trigger] r.items@[i])
        } else {
            r.items@[i] == items[i]
        }),
        r.summary.signed == count_result(r.items@, BatchItemResult::Signed),
    ensures
        r.authentication_prompts <= 1,
        r.summary.signed > 0 ==> r.authentication_prompts == 1,
{
    if r.summary.signed > 0 {
        lemma_count_result_witness(r.items@, BatchItemResult::Signed);
        let k = choose|k: int| 0 <= k < r.items@.len() && (#[trigger] r.items@[k]).result == BatchItemResult::Signed;
        assert(spec_ready(items[k]));
    }
}

/// Every item of a batch is signed, skipped, or failed: the three counts add
/// up to the number scanned.
pub proof fn law_batch_partition(items: Seq<BatchItem>)
    ensures
        count_result(items, BatchItemResult::Signed) + count_result(items, BatchItemResult::Skipped)
            + count_result(items, BatchItemResult::Failed) == items.len(),
    decreases items.len(),
{
    if items.len() > 0 {
        law_batch_partition(items.drop_last());
    }
}

/// A batch is `ok` exactly when nothing failed, and its exit code is 0
/// exactly then too.
pub proof fn law_batch_ok_iff_no_failure(r: BatchSigningReport)
    requires
        r.summary.failed == count_result(r.items@, BatchItemResult::Failed),
        r.status@ == spec_batch_status(r.summary.failed as nat, r.summary.signed as nat),
        forall|k: int| 0 <= k < r.items@.len() && (#[trigger] r.items@[k]).error_exit_code.is_some()
            ==> r.items@[k].result == BatchItemResult::Failed,
    ensures
        (r.status@ == "ok"@) == (r.summary.failed == 0),
        (spec_batch_exit_code(r) == 0) == (r.summary.failed == 0),
{
    reveal_strlit("ok");
    reveal_strlit("failed");
    reveal_strlit("partial");
    assert("failed"@ != "ok"@) by {
        assert("failed"@.len() != "ok"@.len());
    }
    assert("partial"@ != "ok"@) by {
        assert("partial"@.len() != "ok"@.len());
    }
    if has_runtime_failure(r.items@) {
        let k = choose|k: int| 0 <= k < r.items@.len() && (#[trigger] r.items@[k]).error_exit_code == Some(1u8);
        lemma_failed_counted(r.items@, k);
    }
}

/// Running a batch again skips what an earlier run produced: a locally signed
/// image, such as a managed output, is skipped, and an original that the scan
/// finds covered by a valid, pixel-identical signed sibling is skipped too,
/// naming that sibling. Neither fails nor is signed again.
pub proof fn law_rerun_skips_signed_and_covered(
    candidates: Seq<(String, Classified)>,
    siblings: Seq<Option<(String, SiblingSource)>>,
    i: int,
    item: StatusItem,
    entry: BatchEntry,
)
    requires
        0 <= i < candidates.len(),
        item_consistent(candidates[i].1.item),
        candidates[i].1.item.state == AssetState::SignedLocal || spec_is_covered(candidates, siblings, i),
        spec_scanned_item(candidates, siblings, i, item),
        spec_batch_entry(item, entry),
    ensures
        entry matches BatchEntry::Done(b) && b.result == BatchItemResult::Skipped && b.error_exit_code.is_none(),
        spec_is_covered(candidates, siblings, i) ==> (entry matches BatchEntry::Done(b)
            && b.source_state == AssetState::Covered
            && crate::setup::opt_view(b.output) == Some(siblings[i].unwrap().0@)),
{
}

proof fn lemma_failed_counted(items: Seq<BatchItem>, k: int)
    requires
        0 <= k < items.len(),
        items[k].result == BatchItemResult::Failed,
    ensures
        count_result(items, BatchItemResult::Failed) > 0,
    decreases items.len(),
{
    if k < items.len() - 1 {
        lemma_failed_counted(items.drop_last(), k);
    }
}

/// The first line of a batch item: result, source state, input.
pub open spec fn batch_item_head(item: BatchItem) -> Seq<char> {
    let res = spec_result_name(item.result);
    let st = spec_state_name(item.source_state);
    res + padding(res.len(), 8) + " "@ + st + padding(st.len(), 18) + " "@ + item.input@ + "\n"@
}

/// The output and hash lines of a batch item.
pub open spec fn batch_item_outputs(item: BatchItem) -> Seq<char> {
    (match item.output { Some(o) => "  output: "@ + o@ + "\n"@, None => Seq::<char>::empty() })
        + (match item.output_sha256 { Some(h) => "  SHA-256: "@ + h@ + "\n"@, None => Seq::<char>::empty() })
}

/// The verification line of a signed batch item.
pub open spec fn batch_item_verified(item: BatchItem) -> Seq<char> {
    if item.post_commit_verified == Some(true) {
        "  embedded credential verified; "@
            + decimal(match item.manifest_count { Some(n) => n as nat, None => 0 })
            + " manifest"@ + (if item.manifest_count == Some(1usize) { Seq::<char>::empty() } else { "s"@ })
            + "; upstream: "@
            + (if item.upstream_preserved == Some(true) { "preserved"@ } else { "no source credential"@ }) + "\n"@
    } else {
        Seq::<char>::empty()
    }
}

/// The lines of one batch item.
pub open spec fn batch_item_text(item: BatchItem) -> Seq<char> {
    batch_item_head(item) + batch_item_outputs(item) + batch_item_verified(item)
        + (if item.result == BatchItemResult::Failed { "  "@ + item.detail@ + "\n"@ } else { Seq::<char>::empty() })
}

/// The lines of all items, in order.
pub open spec fn batch_items_text(items: Seq<BatchItem>) -> Seq<char>
    decreases items.len(),
{
    if items.len() == 0 {
        Seq::<char>::empty()
    } else {
        batch_items_text(items.drop_last()) + batch_item_text(items.last())
    }
}

/// The human-readable text of a batch.
pub open spec fn spec_batch_text(r: BatchSigningReport) -> Seq<char> {
    batch_items_text(r.items@) + "\nSummary: "@ + decimal(r.summary.scanned as nat) + " scanned, "@
        + decimal(r.summary.signed as nat) + " signed, "@ + decimal(r.summary.skipped as nat) + " skipped, "@
        + decimal(r.summary.failed as nat) + " failed; "@ + decimal(r.authentication_prompts as nat)
        + " authentication prompt"@ + (if r.authentication_prompts == 1 { Seq::<char>::empty() } else { "s"@ })
}

fn item_head(item: &BatchItem) -> (t: String)
    ensures
        t@ == batch_item_head(*item),
{
    let mut r = pad_right(item.result.as_str(), 8);
    push_str(&mut r, " ");
    let st = pad_right(item.source_state.as_str(), 18);
    push_str(&mut r, st.as_str());
    push_str(&mut r, " ");
    push_str(&mut r, item.input.as_str());
    push_str(&mut r, "\n");
    r
}

fn item_outputs(item: &BatchItem) -> (t: String)
    ensures
        t@ == batch_item_outputs(*item),
{
    let mut r = String::new();
    if let Some(o) = &item.output {
        push_str(&mut r, "  output: ");
        push_str(&mut r, o.as_str());
        push_str(&mut r, "\n");
    }
    let ghost first = r@;
    if let Some(h) = &item.output_sha256 {
        push_str(&mut r, "  SHA-256: ");
        push_str(&mut r, h.as_str());
        push_str(&mut r, "\n");
    }
    assert(r@ =~= batch_item_outputs(*item));
    r
}

fn item_verified(item: &BatchItem) -> (t: String)
    ensures
        t@ == batch_item_verified(*item),
{
    let mut r = String::new();
    if item.post_commit_verified == Some(true) {
        push_str(&mut r, "  embedded credential verified; ");
        let n: usize = match item.manifest_count {
            Some(n) => n,
            None => 0,
        };
        push_decimal(&mut r, n as u64);
        push_str(&mut r, " manifest");
        if item.manifest_count != Some(1usize) {
            push_str(&mut r, "s");
        }
        push_str(&mut r, "; upstream: ");
        push_str(&mut r, if item.upstream_preserved == Some(true) { "preserved" } else { "no source credential" });
        push_str(&mut r, "\n");
    }
    assert(r@ =~= batch_item_verified(*item));
    r
}

fn item_text(item: &BatchItem) -> (t: String)
    ensures
        t@ == batch_item_text(*item),
{
    let mut r = item_head(item);
    let o = item_outputs(item);
    push_str(&mut r, o.as_str());
    let v = item_verified(item);
    push_str(&mut r, v.as_str());
    let failed = match item.result {
        BatchItemResult::Failed => true,
        _ => false,
    };
    if failed {
        push_str(&mut r, "  ");
        push_str(&mut r, item.detail.as_str());
        push_str(&mut r, "\n");
    }
    assert(r@ =~= batch_item_text(*item));
    r
}

impl BatchSigningReport {
    /// The human-readable text of this batch.
    pub fn render(&self) -> (t: String)
        ensures
            t@ == spec_batch_text(*self),
    {
        let mut r = String::new();
        let mut i: usize = 0;
        while i < self.items.len()
            invariant
                i <= self.items@.len(),
                r@ == batch_items_text(self.items@.subrange(0, i as int)),
            decreases self.items@.len() - i,
        {
            let t = item_text(&self.items[i]);
            push_str(&mut r, t.as_str());
            proof {
                let pre = self.items@.subrange(0, i + 1);
                assert(pre.drop_last() =~= self.items@.subrange(0, i as int));
            }
            i = i + 1;
        }
        assert(self.items@.subrange(0, self.items@.len() as int) =~= self.items@);
        push_str(&mut r, "\nSummary: ");
        push_decimal(&mut r, self.summary.scanned as u64);
        push_str(&mut r, " scanned, ");
        push_decimal(&mut r, self.summary.signed as u64);
        push_str(&mut r, " signed, ");
        push_decimal(&mut r, self.summary.skipped as u64);
        push_str(&mut r, " skipped, ");
        push_decimal(&mut r, self.summary.failed as u64);
        push_str(&mut r, " failed; ");
        push_decimal(&mut r, self.authentication_prompts as u64);
        push_str(&mut r, " authentication prompt");
        if self.authentication_prompts != 1 {
            push_str(&mut r, "s");
        }
        assert(r@ =~= spec_batch_text(*self));
        r
    }
}

} // verus!
