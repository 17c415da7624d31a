//! Reading and writing evidence ZIP archives held in memory: the entry
//! listing, the size limits checked before an entry is read, and the
//! archive written for a new bundle.
use vstd::prelude::*;

use crate::bundle::{
    bundle_readme, bundle_readme_text, check_entry_count, check_metadata_entry, checksums_text, image_entry_extractable, spec_checksums_text,
    ArchiveEntry, BundleManifest, MAX_ARCHIVE_ENTRIES, MAX_IMAGE_SIZE, MAX_METADATA_SIZE,
};
use vstd::utf8::{decode_utf8, encode_utf8, valid_utf8};
use crate::audit::{audit_image, ImageAuditReport};
use crate::bundle::{
    check_bundled_root, check_entry_sets, check_manifest, checksum_fold, entry_set_issues, finish_bundle_audit,
    local_root_matches, manifest_issues, opt_bytes, parse_checksums, root_issues, scan_archive_entries, spec_trust_basis, entry_fold, is_image_entry, is_symlink_mode, spec_safe_archive_path, EntryFold, MAX_TOTAL_SIZE, ArchiveScan, BundleAuditReport, BundleFileRecord,
    RecordFetch,
};
use crate::digest::{file_sha256, sha256_hex};
use crate::pki::pem_fingerprint;
use crate::text::{split_lines, starts_with, texts};
use crate::image_info::inspect_image;
use crate::paths::extension;
use crate::provenance::{load_c2pa_report, C2paReport};
use crate::reader::c2pa_read;
use crate::error::AppError;
use crate::text::{concat2, concat3, owned};

verus! {

/// The number of entries of a ZIP archive, or `None` when its central
/// directory cannot be read (`zip::ZipArchive::new`).
pub uninterp spec fn zip_entry_count(archive: Seq<u8>) -> Option<nat>;

/// The name, Unix mode and uncompressed size of entry `index` of a ZIP
/// archive, or `None` when the archive or that entry cannot be read
/// (`ZipArchive::by_index`, `ZipFile::name`).
pub uninterp spec fn zip_entry_meta(archive: Seq<u8>, index: nat) -> Option<(Seq<char>, Option<u32>, u64)>;

/// The uncompressed size of the entry of a ZIP archive with a given name, or
/// `None` when the archive has no such entry (`ZipArchive::by_name`).
pub uninterp spec fn zip_named_size(archive: Seq<u8>, name: Seq<char>) -> Option<u64>;

/// The decompressed bytes of the entry of a ZIP archive with a given name,
/// or `None` when it cannot be found or read (`ZipArchive::by_name`,
/// `Read::read_to_end`).
pub uninterp spec fn zip_named_data(archive: Seq<u8>, name: Seq<char>) -> Option<Seq<u8>>;

/// The bytes of a ZIP archive that stores the given entries, in order,
/// uncompressed and with Unix mode 0644, or `None` when writing fails
/// (`zip::ZipWriter` over memory). This build enables no clock feature of
/// the `zip` crate, so every entry carries the crate's fixed default time
/// and the bytes are a function of the entries alone.
pub uninterp spec fn zip_stored(entries: Seq<(Seq<char>, Seq<u8>)>) -> Option<Seq<u8>>;

/// Opens a ZIP archive held in memory and counts its entries, with
/// `zip::ZipArchive::new` and `ZipArchive::len`. The result is the entry
/// count, or the reader's error text; nothing is stated of that text.
#[verifier::external_body]
fn zip_open(archive: &[u8]) -> (r: Result<usize, String>)
    ensures
        match r {
            Ok(n) => zip_entry_count(archive@) == Some(n as nat),
            Err(_) => zip_entry_count(archive@) is None,
        },
{
    match zip::ZipArchive::new(std::io::Cursor::new(archive)) {
        Ok(a) => Ok(a.len()),
        Err(e) => Err(e.to_string()),
    }
}

/// The name, Unix mode and size of one entry, with `ZipArchive::by_index`,
/// `ZipFile::name`, `ZipFile::unix_mode` and `ZipFile::size`, or the
/// reader's error text.
#[verifier::external_body]
fn zip_entry(archive: &[u8], index: usize) -> (r: Result<ArchiveEntry, String>)
    ensures
        match r {
            Ok(e) => zip_entry_meta(archive@, index as nat) == Some((e.name@, e.unix_mode, e.size)),
            Err(_) => zip_entry_meta(archive@, index as nat) is None,
        },
{
    let mut a = zip::ZipArchive::new(std::io::Cursor::new(archive)).map_err(|e| e.to_string())?;
    let entry = a.by_index(index).map_err(|e| e.to_string())?;
    let name = entry.name().map_err(|e| e.to_string())?.to_string();
    Ok(ArchiveEntry { name, unix_mode: entry.unix_mode(), size: entry.size() })
}

/// The size of the entry with a given name, with `ZipArchive::by_name` and
/// `ZipFile::size`; `None` when the archive or the entry cannot be found.
#[verifier::external_body]
fn zip_size_by_name(archive: &[u8], name: &str) -> (r: Option<u64>)
    ensures
        r == zip_named_size(archive@, name@),
{
    let mut a = zip::ZipArchive::new(std::io::Cursor::new(archive)).ok()?;
    let entry = a.by_name(name).ok()?;
    Some(entry.size())
}

/// The bytes of the entry with a given name, with `ZipArchive::by_name` and
/// `Read::read_to_end`, or the reader's error text.
#[verifier::external_body]
fn zip_read_by_name(archive: &[u8], name: &str) -> (r: Result<Vec<u8>, String>)
    ensures
        match r {
            Ok(v) => zip_named_data(archive@, name@) == Some(v@),
            Err(_) => zip_named_data(archive@, name@) is None,
        },
{
    let mut a = zip::ZipArchive::new(std::io::Cursor::new(archive)).map_err(|e| e.to_string())?;
    let mut entry = a.by_name(name).map_err(|e| e.to_string())?;
    let mut bytes = Vec::new();
    std::io::Read::read_to_end(&mut entry, &mut bytes).map_err(|e| e.to_string())?;
    Ok(bytes)
}

/// Writes the given entries, in order, into a ZIP archive in memory with
/// `zip::ZipWriter`: each stored uncompressed with Unix mode 0644. The result
/// is the archive's bytes, or the writer's error text.
#[verifier::external_body]
fn zip_store(entries: &Vec<(String, Vec<u8>)>) -> (r: Result<Vec<u8>, String>)
    ensures
        match r {
            Ok(v) => zip_stored(entries@.map_values(|e: (String, Vec<u8>)| (e.0@, e.1@))) == Some(v@),
            Err(_) => zip_stored(entries@.map_values(|e: (String, Vec<u8>)| (e.0@, e.1@))) is None,
        },
{
    let options = zip::write::SimpleFileOptions::default()
        .compression_method(zip::CompressionMethod::Stored)
        .unix_permissions(0o644);
    let mut writer = zip::ZipWriter::new(std::io::Cursor::new(Vec::new()));
    for (name, bytes) in entries {
        writer.start_file(name.as_str(), options).map_err(|e| e.to_string())?;
        std::io::Write::write_all(&mut writer, bytes).map_err(|e| e.to_string())?;
    }
    writer.finish().map(|c| c.into_inner()).map_err(|e| e.to_string())
}

/// The name, Unix mode and size of an archive entry.
pub open spec fn entry_view(e: ArchiveEntry) -> (Seq<char>, Option<u32>, u64) {
    (e.name@, e.unix_mode, e.size)
}

/// The error of a failed archive read: a verification failure whose message
/// starts with the given text (the rest is the reader's own).
pub open spec fn read_failure(r: AppError, prefix: Seq<char>) -> bool {
    r.exit_code == 3 && crate::text::starts_with(r.message@, prefix)
}

fn failure(prefix: &str, detail: String) -> (e: AppError)
    ensures
        read_failure(e, prefix@),
        e.message@ == prefix@ + detail@,
{
    let e = AppError::verification(concat2(prefix, detail.as_str()));
    assert(e.message@.subrange(0, prefix@.len() as int) =~= prefix@);
    e
}

/// The listing of an evidence archive: an unreadable archive, more than
/// `MAX_ARCHIVE_ENTRIES` entries, and an unreadable entry are errors, in
/// that order; otherwise every entry, in archive order.
pub open spec fn spec_archive_entries(archive: Seq<u8>, r: Result<Vec<ArchiveEntry>, AppError>) -> bool {
    match zip_entry_count(archive) {
        None => r matches Err(e) && read_failure(e, "cannot read evidence ZIP: "@),
        Some(n) => if n > MAX_ARCHIVE_ENTRIES {
            r matches Err(e) && e.exit_code == 3 && e.message@ == "archive has more than 512 entries"@
        } else if forall|i: nat| i < n ==> (#[trigger] zip_entry_meta(archive, i)) is Some {
            r matches Ok(v) && v@.len() == n
                && forall|i: int| 0 <= i < n ==> zip_entry_meta(archive, i as nat) == Some(entry_view(#[trigger] v@[i]))
        } else {
            r matches Err(e) && read_failure(e, "cannot inspect ZIP entry: "@)
        },
    }
}

/// Lists the entries of an evidence archive held in memory.
pub fn archive_entries(archive: &[u8]) -> (r: Result<Vec<ArchiveEntry>, AppError>)
    ensures
        spec_archive_entries(archive@, r),
{
    let n = match zip_open(archive) {
        Ok(n) => n,
        Err(m) => return Err(failure("cannot read evidence ZIP: ", m)),
    };
    match check_entry_count(n) {
        Ok(()) => {},
        Err(e) => return Err(e),
    }
    let mut v: Vec<ArchiveEntry> = Vec::new();
    let mut i: usize = 0;
    while i < n
        invariant
            zip_entry_count(archive@) == Some(n as nat),
            n <= MAX_ARCHIVE_ENTRIES,
            i <= n,
            v@.len() == i,
            forall|j: int| 0 <= j < i ==> zip_entry_meta(archive@, j as nat) == Some(entry_view(#[trigger] v@[j])),
        decreases n - i,
    {
        match zip_entry(archive, i) {
            Ok(e) => v.push(e),
            Err(m) => {
                assert(!(zip_entry_meta(archive@, i as nat) is Some));
                return Err(failure("cannot inspect ZIP entry: ", m));
            },
        }
        i = i + 1;
    }
    assert forall|k: nat| k < n implies (#[trigger] zip_entry_meta(archive@, k)) is Some by {
        assert(zip_entry_meta(archive@, k as int as nat) == Some(entry_view(v@[k as int])));
    }
    Ok(v)
}

/// A metadata entry of an evidence archive: missing and oversized entries
/// are errors (see `check_metadata_entry`), and so is an entry that cannot
/// be read; otherwise its bytes.
pub open spec fn spec_metadata_entry(archive: Seq<u8>, name: Seq<char>, r: Result<Vec<u8>, AppError>) -> bool {
    match zip_named_size(archive, name) {
        None => r matches Err(e) && e.exit_code == 3 && e.message@ == "missing bundle entry: "@ + name,
        Some(size) => if size > MAX_METADATA_SIZE {
            r matches Err(e) && e.exit_code == 3 && e.message@ == "bundle metadata entry is too large: "@ + name
        } else {
            match zip_named_data(archive, name) {
                Some(d) => r matches Ok(v) && v@ == d,
                None => r matches Err(e) && read_failure(e, "cannot read bundle entry "@ + name + ": "@),
            }
        },
    }
}

/// Reads a metadata entry of an evidence archive held in memory, after its
/// declared size was checked.
pub fn metadata_entry(archive: &[u8], name: &str) -> (r: Result<Vec<u8>, AppError>)
    ensures
        spec_metadata_entry(archive@, name@, r),
{
    let size = zip_size_by_name(archive, name);
    match check_metadata_entry(name, size) {
        Ok(()) => {},
        Err(e) => return Err(e),
    }
    match zip_read_by_name(archive, name) {
        Ok(v) => Ok(v),
        Err(m) => {
            let p = concat3("cannot read bundle entry ", name, ": ");
            Err(failure(p.as_str(), m))
        },
    }
}

/// What was taken from an evidence archive for one image record.
#[derive(Debug)]
pub enum ImageFetch {
    /// The archive has no entry of that name.
    Missing,
    /// The entry is larger than `MAX_IMAGE_SIZE` and was not read.
    NotExtracted,
    /// Reading the entry failed.
    Failed(AppError),
    /// The entry's bytes.
    Extracted(Vec<u8>),
}

/// What is taken for an image record: nothing for a missing entry or one
/// above `MAX_IMAGE_SIZE`, else its bytes or the read error.
pub open spec fn spec_image_fetch(archive: Seq<u8>, name: Seq<char>, r: ImageFetch) -> bool {
    match zip_named_size(archive, name) {
        None => r is Missing,
        Some(size) => if size > MAX_IMAGE_SIZE {
            r is NotExtracted
        } else {
            match zip_named_data(archive, name) {
                Some(d) => r matches ImageFetch::Extracted(v) && v@ == d,
                None => r matches ImageFetch::Failed(e) && read_failure(e, "cannot extract bundle image: "@),
            }
        },
    }
}

/// Takes the image entry named by a record from an evidence archive held in
/// memory.
pub fn image_fetch(archive: &[u8], name: &str) -> (r: ImageFetch)
    ensures
        spec_image_fetch(archive@, name@, r),
{
    let size = match zip_size_by_name(archive, name) {
        None => return ImageFetch::Missing,
        Some(s) => s,
    };
    if !image_entry_extractable(size) {
        return ImageFetch::NotExtracted;
    }
    match zip_read_by_name(archive, name) {
        Ok(v) => ImageFetch::Extracted(v),
        Err(m) => ImageFetch::Failed(failure("cannot extract bundle image: ", m)),
    }
}

/// The entries of a new evidence archive, in order: `evidence.json`,
/// `SHA256SUMS`, `README.txt`, the root certificate at `trust/root-ca.pem`,
/// then each record's image under its archive path.
pub open spec fn bundle_entries(manifest_json: Seq<u8>, manifest: BundleManifest, root_pem: Seq<char>, images: Seq<Seq<u8>>)
    -> Seq<(Seq<char>, Seq<u8>)> {
    seq![
        ("evidence.json"@, manifest_json),
        ("SHA256SUMS"@, encode_utf8(spec_checksums_text(manifest.files@))),
        ("README.txt"@, encode_utf8(bundle_readme_text())),
        ("trust/root-ca.pem"@, encode_utf8(root_pem)),
    ] + Seq::new(manifest.files@.len(), |k: int| (manifest.files@[k].archive_path@, images[k]))
}

/// Writes a new evidence archive in memory: the manifest document (as
/// serialized), its checksums, the README, the root certificate, and the
/// images of its records, in that order. A write failure is a runtime error.
pub fn bundle_archive(manifest_json: Vec<u8>, manifest: &BundleManifest, root_pem: &str, images: Vec<Vec<u8>>)
    -> (r: Result<Vec<u8>, AppError>)
    requires
        images@.len() == manifest.files@.len(),
    ensures
        match zip_stored(bundle_entries(manifest_json@, *manifest, root_pem@, images@.map_values(|v: Vec<u8>| v@))) {
            Some(z) => r matches Ok(v) && v@ == z,
            None => r matches Err(e) && e.exit_code == 1
                && crate::text::starts_with(e.message@, "cannot write evidence bundle: "@),
        },
{
    let ghost json = manifest_json@;
    let ghost imgs = images@.map_values(|v: Vec<u8>| v@);
    let mut entries: Vec<(String, Vec<u8>)> = Vec::new();
    entries.push((owned("evidence.json"), manifest_json));
    let sums = checksums_text(&manifest.files);
    entries.push((owned("SHA256SUMS"), vstd::slice::slice_to_vec(sums.as_str().as_bytes())));
    entries.push((owned("README.txt"), vstd::slice::slice_to_vec(bundle_readme().as_bytes())));
    entries.push((owned("trust/root-ca.pem"), vstd::slice::slice_to_vec(root_pem.as_bytes())));
    let n = images.len();
    let mut rest = images;
    let mut k: usize = 0;
    while k < n
        invariant
            n == manifest.files@.len(),
            n == imgs.len(),
            k <= n,
            rest@.len() == n - k,
            rest@.map_values(|v: Vec<u8>| v@) == imgs.subrange(k as int, n as int),
            entries@.len() == 4 + k,
            entries@.map_values(|e: (String, Vec<u8>)| (e.0@, e.1@))
                == bundle_entries(json, *manifest, root_pem@, imgs).subrange(0, 4 + k),
        decreases n - k,
    {
        let ghost before = rest@;
        let img = rest.remove(0);
        assert(img == before[0]);
        assert(img@ == before.map_values(|v: Vec<u8>| v@)[0]);
        entries.push((manifest.files[k].archive_path.clone(), img));
        proof {
            let bm = before.map_values(|v: Vec<u8>| v@);
            let rm = rest@.map_values(|v: Vec<u8>| v@);
            assert forall|j: int| 0 <= j < rest@.len() implies #[trigger] rm[j] == imgs[k + 1 + j] by {
                assert(rest@[j] == before[j + 1]);
                assert(bm[j + 1] == imgs.subrange(k as int, n as int)[j + 1]);
            }
            assert(rm =~= imgs.subrange(k + 1, n as int));
            assert(entries@.map_values(|e: (String, Vec<u8>)| (e.0@, e.1@))
                =~= bundle_entries(json, *manifest, root_pem@, imgs).subrange(0, 4 + k + 1));
        }
        k = k + 1;
    }
    assert(bundle_entries(json, *manifest, root_pem@, imgs).subrange(0, 4 + n as int)
        =~= bundle_entries(json, *manifest, root_pem@, imgs));
    match zip_store(&entries) {
        Ok(v) => Ok(v),
        Err(m) => {
            let e = AppError::runtime(concat2("cannot write evidence bundle: ", m.as_str()));
            assert(e.message@.subrange(0, "cannot write evidence bundle: "@.len() as int) =~= "cannot write evidence bundle: "@);
            Err(e)
        },
    }
}

/// Decodes UTF-8 text with `String::from_utf8`: the text the bytes encode,
/// or, when they are not valid UTF-8, the error's text (not stated).
#[verifier::external_body]
fn utf8_text(bytes: Vec<u8>) -> (r: Result<String, String>)
    ensures
        match r {
            Ok(s) => valid_utf8(bytes@) && s@ == decode_utf8(bytes@),
            Err(_) => !valid_utf8(bytes@),
        },
{
    String::from_utf8(bytes).map_err(|e| e.to_string())
}

/// A metadata entry read as UTF-8 text; text that is not UTF-8 is a
/// verification failure starting with `what`.
pub open spec fn spec_text_entry(archive: Seq<u8>, name: Seq<char>, what: Seq<char>, r: Result<String, AppError>) -> bool {
    exists|m: Result<Vec<u8>, AppError>| #[trigger] spec_metadata_entry(archive, name, m) && match m {
        Err(e) => r == Err::<String, AppError>(e),
        Ok(v) => if valid_utf8(v@) {
            r matches Ok(t) && t@ == decode_utf8(v@)
        } else {
            r matches Err(e) && read_failure(e, what + ": "@)
        },
    }
}

/// Whether a metadata entry of an archive can be read as text: it exists,
/// is within `MAX_METADATA_SIZE`, reads, and is valid UTF-8.
pub open spec fn text_readable(archive: Seq<u8>, name: Seq<char>) -> bool {
    &&& zip_named_size(archive, name) matches Some(size) && size <= MAX_METADATA_SIZE
    &&& zip_named_data(archive, name) matches Some(d) && valid_utf8(d)
}

/// The text of a readable metadata entry.
pub open spec fn entry_text(archive: Seq<u8>, name: Seq<char>) -> Seq<char> {
    decode_utf8(zip_named_data(archive, name).unwrap())
}

/// Reads a metadata entry of an evidence archive as UTF-8 text.
pub fn text_entry(archive: &[u8], name: &str, what: &str) -> (r: Result<String, AppError>)
    ensures
        spec_text_entry(archive@, name@, what@, r),
        text_readable(archive@, name@) ==> (r matches Ok(t) && t@ == entry_text(archive@, name@)),
        !text_readable(archive@, name@) ==> (r matches Err(e) && e.exit_code == 3),
{
    let m = metadata_entry(archive, name);
    let ghost m0 = m;
    match m {
        Err(e) => Err(e),
        Ok(v) => match utf8_text(v) {
            Ok(t) => Ok(t),
            Err(detail) => {
                let p = concat2(what, ": ");
                let e = failure(p.as_str(), detail);
                assert(spec_metadata_entry(archive@, name@, m0));
                Err(e)
            },
        },
    }
}

/// `entry_step` over the name, Unix mode and size of an entry.
pub open spec fn view_step(acc: EntryFold, e: (Seq<char>, Option<u32>, u64)) -> EntryFold {
    let (names, images, total, issues) = acc;
    let name = e.0;
    let i1 = if !spec_safe_archive_path(name) { issues.push("unsafe archive entry path: "@ + name) } else { issues };
    let i2 = if names.contains(name) { i1.push("duplicate archive entry: "@ + name) } else { i1 };
    let i3 = if is_symlink_mode(e.1) { i2.push("symbolic-link archive entry is not allowed: "@ + name) } else { i2 };
    let t = if total + e.2 > u64::MAX { u64::MAX } else { (total + e.2) as u64 };
    if is_image_entry(name) {
        let i4 = if e.2 > MAX_IMAGE_SIZE { i3.push("image entry exceeds 536870912 bytes"@) } else { i3 };
        (names.push(name), images.push(name), t, i4)
    } else {
        (names.push(name), images, t, i3)
    }
}

/// The entry scan over the listed entries of an archive, in order.
pub open spec fn view_fold(entries: Seq<(Seq<char>, Option<u32>, u64)>) -> EntryFold
    decreases entries.len(),
{
    if entries.len() == 0 {
        (seq![], seq![], 0u64, seq![])
    } else {
        view_step(view_fold(entries.drop_last()), entries.last())
    }
}

proof fn lemma_entry_fold_views(entries: Seq<ArchiveEntry>)
    ensures
        entry_fold(entries) == view_fold(entries.map_values(|e: ArchiveEntry| entry_view(e))),
    decreases entries.len(),
{
    if entries.len() > 0 {
        lemma_entry_fold_views(entries.drop_last());
        assert(entries.drop_last().map_values(|e: ArchiveEntry| entry_view(e))
            =~= entries.map_values(|e: ArchiveEntry| entry_view(e)).drop_last());
    }
}

/// Whether every entry of an archive is listed: the archive opens, has at
/// most `MAX_ARCHIVE_ENTRIES` entries, and each reads.
pub open spec fn fully_listed(archive: Seq<u8>) -> bool {
    zip_entry_count(archive) matches Some(n) && n <= MAX_ARCHIVE_ENTRIES
        && forall|i: nat| i < n ==> (#[trigger] zip_entry_meta(archive, i)) is Some
}

/// The listed entries of a fully listed archive, in order.
pub open spec fn listing(archive: Seq<u8>) -> Seq<(Seq<char>, Option<u32>, u64)> {
    Seq::new(zip_entry_count(archive).unwrap(), |i: int| zip_entry_meta(archive, i as nat).unwrap())
}

/// The header of an evidence archive: its entries and their scan (with the
/// issues found), and the bytes of `evidence.json`. An archive that does not
/// open, has more than `MAX_ARCHIVE_ENTRIES` entries, has an unreadable
/// entry, expands beyond `MAX_TOTAL_SIZE`, or lacks a readable
/// `evidence.json` within `MAX_METADATA_SIZE` is an error; otherwise the scan
/// of its listed entries and the document's bytes come back.
pub fn bundle_header(archive: &[u8]) -> (r: Result<(ArchiveScan, Vec<String>, Vec<u8>), AppError>)
    ensures
        zip_entry_count(archive@) is None ==> (r matches Err(e) && read_failure(e, "cannot read evidence ZIP: "@)),
        zip_entry_count(archive@) matches Some(n) && n > MAX_ARCHIVE_ENTRIES ==> (r matches Err(e)
            && e.exit_code == 3 && e.message@ == "archive has more than 512 entries"@),
        zip_entry_count(archive@) matches Some(n) && n <= MAX_ARCHIVE_ENTRIES && !fully_listed(archive@)
            ==> (r matches Err(e) && read_failure(e, "cannot inspect ZIP entry: "@)),
        fully_listed(archive@) ==> ({
            let (names, images, total, found) = view_fold(listing(archive@));
            &&& total > MAX_TOTAL_SIZE ==> (r matches Err(e) && e.exit_code == 3
                && e.message@ == "archive expands beyond 2147483648 bytes"@)
            &&& total <= MAX_TOTAL_SIZE ==> match spec_metadata_entry_ok(archive@, "evidence.json"@) {
                Some(json) => r matches Ok((scan, issues, j)) && j@ == json && texts(scan.names@) == names
                    && texts(scan.image_entries@) == images && scan.total_size == total && texts(issues@) == found,
                None => r matches Err(e) && e.exit_code == 3,
            }
        }),
        r matches Ok((_, _, json)) ==> zip_named_data(archive@, "evidence.json"@) == Some(json@),
{
    let entries = archive_entries(archive);
    let entries = match entries {
        Ok(v) => v,
        Err(e) => return Err(e),
    };
    proof {
        let n = zip_entry_count(archive@).unwrap();
        lemma_entry_fold_views(entries@);
        assert(entries@.map_values(|e: ArchiveEntry| entry_view(e)) =~= listing(archive@));
    }
    let mut issues: Vec<String> = Vec::new();
    assert(texts(issues@) =~= Seq::<Seq<char>>::empty());
    let scan = match scan_archive_entries(&entries, &mut issues) {
        Ok(s) => s,
        Err(e) => return Err(e),
    };
    assert(texts(issues@) =~= entry_fold(entries@).3);
    let json = match metadata_entry(archive, "evidence.json") {
        Ok(j) => j,
        Err(e) => return Err(e),
    };
    Ok((scan, issues, json))
}

/// The bytes of a metadata entry that exists, is within
/// `MAX_METADATA_SIZE`, and reads.
pub open spec fn spec_metadata_entry_ok(archive: Seq<u8>, name: Seq<char>) -> Option<Seq<u8>> {
    match zip_named_size(archive, name) {
        Some(size) => if size <= MAX_METADATA_SIZE { zip_named_data(archive, name) } else { None },
        None => None,
    }
}

/// The audit of one image extracted from an evidence archive: it is decoded,
/// its manifest store is read with the bundled root as the only trust anchor,
/// and it is audited against its record's hash. The C2PA reader's verdict
/// depends on the time and is not stated.
fn audit_extracted(path: &str, bytes: &[u8], root_pem: &str, expected_sha256: &str)
    -> (r: Result<ImageAuditReport, AppError>)
    ensures
        r matches Ok(a) ==> a.path@ == path@ && a.file_size == bytes@.len() && a.file_sha256@ == sha256_hex(bytes@),
{
    let inspection: Result<C2paReport, AppError> = match inspect_image(path, bytes, true) {
        Err(e) => Err(e),
        Ok(_) => {
            let format = match extension(path) {
                Some(x) => x,
                None => String::new(),
            };
            match c2pa_read(format.as_str(), bytes, Some(root_pem), None) {
                Err(m) => Err(AppError::runtime(concat2("cannot configure the C2PA validator: ", m.as_str()))),
                Ok(outcome) => load_c2pa_report(path, outcome),
            }
        },
    };
    audit_image(path, bytes, true, Some(expected_sha256), inspection)
}

/// What is taken and audited for one image record: nothing for a missing
/// entry or one above `MAX_IMAGE_SIZE`, the read error, or the entry's size
/// and the audit of exactly the entry's bytes (against the record's hash, with
/// the bundled root as trust anchor).
pub fn record_fetch(archive: &[u8], record: &BundleFileRecord, root_pem: &str) -> (r: RecordFetch)
    ensures
        match zip_named_size(archive@, record.archive_path@) {
            None => r is Missing,
            Some(size) => if size > MAX_IMAGE_SIZE {
                r is NotExtracted
            } else {
                match zip_named_data(archive@, record.archive_path@) {
                    Some(d) => r matches RecordFetch::Extracted(n, a) && n == d.len()
                        && (a matches Ok(rep) ==> rep.path@ == record.archive_path@ && rep.file_size == d.len()
                            && rep.file_sha256@ == sha256_hex(d)),
                    None => r matches RecordFetch::Failed(e) && read_failure(e, "cannot extract bundle image: "@),
                }
            },
        },
{
    match image_fetch(archive, record.archive_path.as_str()) {
        ImageFetch::Missing => RecordFetch::Missing,
        ImageFetch::NotExtracted => RecordFetch::NotExtracted,
        ImageFetch::Failed(e) => RecordFetch::Failed(e),
        ImageFetch::Extracted(bytes) => {
            let n = bytes.len() as u64;
            let audit = audit_extracted(record.archive_path.as_str(), bytes.as_slice(), root_pem, record.sha256.as_str());
            RecordFetch::Extracted(n, audit)
        },
    }
}

/// The fingerprint of the bundled root named by a manifest, when its entry
/// holds a PEM certificate.
pub open spec fn bundled_root_fingerprint(archive: Seq<u8>, m: BundleManifest) -> Option<Seq<char>> {
    pem_fingerprint(encode_utf8(entry_text(archive, m.trust.root_certificate@)))
}

/// Whether the checks of a bundle audit that read the archive's metadata
/// succeed: at most `MAX_ARCHIVE_ENTRIES` listed images, a readable
/// `SHA256SUMS`, and a readable bundled root that holds a PEM certificate.
pub open spec fn bundle_metadata_ok(archive: Seq<u8>, m: BundleManifest) -> bool {
    &&& m.files@.len() <= MAX_ARCHIVE_ENTRIES
    &&& text_readable(archive, "SHA256SUMS"@)
    &&& text_readable(archive, m.trust.root_certificate@)
    &&& bundled_root_fingerprint(archive, m) is Some
}

/// The issues a bundle audit finds before it looks at the image records, in
/// order: those already found (`issues`, from the entry scan), the manifest
/// header's, the `SHA256SUMS` lines', the bundled root's (its fingerprint
/// against the declared one and against the configured local root), and the
/// entry sets'.
pub open spec fn spec_bundle_issues(
    archive: Seq<u8>,
    scan: ArchiveScan,
    issues: Seq<Seq<char>>,
    m: BundleManifest,
    local_root_pem: Option<Seq<u8>>,
) -> Seq<Seq<char>> {
    let sums = checksum_fold(split_lines(entry_text(archive, "SHA256SUMS"@)));
    issues + manifest_issues(m) + sums.1
        + root_issues(m.trust.root_fingerprint_sha256@, bundled_root_fingerprint(archive, m).unwrap(), local_root_pem)
        + entry_set_issues(m, texts(scan.names@), texts(scan.image_entries@), sums.0)
}

/// Audits an evidence archive held in memory, once its `evidence.json` was
/// read (`bundle_header`) and parsed into `manifest`: the manifest header,
/// `SHA256SUMS`, the bundled root and its fingerprint, the entry sets, and
/// each image record, in that order, then the report.
///
/// The audit errors when more than `MAX_ARCHIVE_ENTRIES` images are listed,
/// when `SHA256SUMS` or the bundled root cannot be read as text, and when the
/// root is not a PEM certificate; it completes when none of these happen and
/// no image is listed. A completed audit reports every issue found before the
/// image records (`spec_bundle_issues`), followed by those of the records
/// (which rest on the C2PA reader and are not stated), and passes exactly when
/// there is none: any scan, checksum, root or entry-set issue, and a
/// configured local root that does not match the bundled one, fail it.
pub fn audit_bundle_archive(
    bundle_path: &str,
    archive: &[u8],
    scan: &ArchiveScan,
    issues: Vec<String>,
    manifest: BundleManifest,
    local_root_pem: Option<&str>,
) -> (r: Result<BundleAuditReport, AppError>)
    ensures
        manifest.files@.len() > MAX_ARCHIVE_ENTRIES ==> (r matches Err(e) && e.exit_code == 3
            && e.message@ == "evidence.json lists more than 512 images"@),
        manifest.files@.len() <= MAX_ARCHIVE_ENTRIES && !text_readable(archive@, "SHA256SUMS"@)
            ==> (r matches Err(e) && e.exit_code == 3),
        manifest.files@.len() <= MAX_ARCHIVE_ENTRIES && text_readable(archive@, "SHA256SUMS"@)
            && !text_readable(archive@, manifest.trust.root_certificate@) ==> (r matches Err(e) && e.exit_code == 3),
        manifest.files@.len() <= MAX_ARCHIVE_ENTRIES && text_readable(archive@, "SHA256SUMS"@)
            && text_readable(archive@, manifest.trust.root_certificate@) && bundled_root_fingerprint(archive@, manifest) is None
            ==> (r matches Err(e) && e.exit_code == 3
                && starts_with(e.message@, "invalid bundled root certificate: "@)),
        bundle_metadata_ok(archive@, manifest) && manifest.files@.len() == 0 ==> r is Ok,
        r matches Ok(report) ==> {
            let pre = spec_bundle_issues(archive@, *scan, texts(issues@), manifest,
                opt_bytes(local_root_pem));
            &&& bundle_metadata_ok(archive@, manifest)
            &&& report.path@ == bundle_path@
            &&& report.file_sha256@ == sha256_hex(archive@)
            &&& report.expected_sha256.is_none()
            &&& report.hash_matches.is_none()
            &&& pre.len() <= texts(report.issues@).len()
            &&& texts(report.issues@).subrange(0, pre.len() as int) == pre
            &&& report.passed == (report.issues@.len() == 0)
            &&& (pre.len() > 0 ==> !report.passed)
            &&& report.local_root_match == local_root_matches(
                opt_bytes(local_root_pem),
                bundled_root_fingerprint(archive@, manifest).unwrap())
            &&& report.trust_basis@ == spec_trust_basis(report.local_root_match, local_root_pem.is_some())
            &&& (local_root_pem.is_none() ==> !report.local_root_match)
            &&& (local_root_pem.is_some() && !report.local_root_match ==> !report.passed)
            &&& (bundled_root_fingerprint(archive@, manifest).unwrap() != manifest.trust.root_fingerprint_sha256@
                ==> !report.passed)
        },
{
    let ghost local = opt_bytes(local_root_pem);
    let ghost pre = spec_bundle_issues(archive@, *scan, texts(issues@), manifest, local);
    let mut issues = issues;
    match check_manifest(&manifest, &mut issues) {
        Ok(()) => {},
        Err(e) => return Err(e),
    }
    let checksum_text = match text_entry(archive, "SHA256SUMS", "SHA256SUMS is not UTF-8") {
        Ok(t) => t,
        Err(e) => return Err(e),
    };
    let checksums = parse_checksums(checksum_text.as_str(), &mut issues);
    let root_pem = match text_entry(archive, manifest.trust.root_certificate.as_str(), "bundled root is not UTF-8 PEM") {
        Ok(t) => t,
        Err(e) => return Err(e),
    };

    let (fingerprint, local_root_match) = match check_bundled_root(&manifest, root_pem.as_str(), local_root_pem, &mut issues) {
        Ok(x) => x,
        Err(e) => {
            proof {
                let p = "invalid bundled root certificate: "@;
                let q = p + crate::pki::msg_bad_pem();
                assert(e.message@.subrange(0, q.len() as int) == q);
                assert(e.message@.subrange(0, p.len() as int) =~= q.subrange(0, p.len() as int));
                assert(q.subrange(0, p.len() as int) =~= p);
            }
            return Err(e);
        },
    };
    check_entry_sets(&manifest, scan, &checksums, &mut issues);
    assert(texts(issues@) =~= pre);
    let mut fetches: Vec<RecordFetch> = Vec::new();
    let mut k: usize = 0;
    while k < manifest.files.len()
        invariant
            k <= manifest.files@.len(),
            fetches@.len() == k,
        decreases manifest.files@.len() - k,
    {
        fetches.push(record_fetch(archive, &manifest.files[k], root_pem.as_str()));
        k = k + 1;
    }
    proof {
        if local_root_pem.is_none() {
            assert(!local_root_matches(opt_bytes(local_root_pem), fingerprint@));
        }
        let ri = root_issues(manifest.trust.root_fingerprint_sha256@, fingerprint@, local);
        if (local_root_pem.is_some() && !local_root_match) || fingerprint@ != manifest.trust.root_fingerprint_sha256@ {
            assert(ri.len() > 0);
            assert(pre.len() > 0);
        }
    }
    let ghost before = texts(issues@);
    let r = finish_bundle_audit(
        bundle_path,
        file_sha256(archive),
        manifest,
        &checksums,
        fetches,
        fingerprint,
        local_root_match,
        local_root_pem.is_some(),
        issues,
    );
    proof {
        if r is Ok {
            let report = r->Ok_0;
            let all = texts(report.issues@);
            assert(all.subrange(0, pre.len() as int) =~= pre);
            if pre.len() > 0 {
                assert(all.len() > 0);
            }
        }
    }
    r
}


} // verus!
