//! Byte-preserving evidence bundles: their records, archive layout rules, and
//! the checks made when a bundle is audited.
use vstd::prelude::*;
use vstd::string::StringSliceAdditionalSpecFns;

use crate::scan::{AssetState, StatusItem};
use crate::audit::{AuditState, spec_audit_passed, spec_is_zip, is_zip, ImageAuditReport};
use crate::container::spec_valid_generated_embedding;
use crate::error::AppError;
use crate::pki::{certificate_fingerprint, msg_bad_pem, pem_fingerprint};
use crate::order::{key_lt, key_view, key_views, keys_sorted, sort_keyed, text_lt};
use crate::paths::{join, spec_join, parent, spec_parent, file_name, spec_file_name, spec_strip_prefix, strip_prefix, components, is_absolute, spec_components, spec_is_absolute, PathPart};
use crate::text::{
    all_hex, chars_eq, chars_eq_str, chars_of, chars_start_with, chars_end_with, concat2, decimal, is_hex_digit,
    has_text, lines_of, lower, lower_chars, owned, push_decimal, push_str, push_text, split_lines, starts_with,
    ends_with, string_of, text_is, texts, opt_eq, opt_text_eq, concat3, joined,
};

verus! {

/// The evidence record of one packaged image.
#[derive(Debug)]
pub struct BundleFileRecord {
    pub archive_path: String,
    pub source_name: String,
    pub size: u64,
    pub sha256: String,
    pub format: String,
    pub credential_location: String,
    pub credential_bytes: u64,
    pub manifest_count: usize,
    pub active_manifest: Option<String>,
    pub signer_common_name: Option<String>,
    pub signer_issuer: Option<String>,
    pub published: bool,
    pub upstream_manifest_count: usize,
    pub upstream_preserved: bool,
}

/// The trust declaration of a bundle.
#[derive(Debug)]
pub struct BundleTrustRecord {
    pub mode: String,
    pub public_trust: bool,
    pub root_certificate: String,
    pub root_fingerprint_sha256: String,
}

/// The `evidence.json` document of a bundle.
#[derive(Debug)]
pub struct BundleManifest {
    pub schema: String,
    pub created_at: String,
    pub tool: String,
    pub trust: BundleTrustRecord,
    pub files: Vec<BundleFileRecord>,
}

/// The result of creating a bundle.
#[derive(Debug)]
pub struct BundleCreationReport {
    pub status: &'static str,
    pub output: String,
    pub file_sha256: String,
    pub images: usize,
    pub root_fingerprint_sha256: String,
    pub verified: bool,
}

/// The audit of one evidence bundle.
#[derive(Debug)]
pub struct BundleAuditReport {
    pub path: String,
    pub passed: bool,
    pub file_sha256: String,
    pub expected_sha256: Option<String>,
    pub hash_matches: Option<bool>,
    pub schema: Option<String>,
    pub bundled_root_fingerprint_sha256: Option<String>,
    pub local_root_match: bool,
    pub trust_basis: &'static str,
    pub images: Vec<ImageAuditReport>,
    pub issues: Vec<String>,
}

/// The schema name of an evidence bundle.
pub fn bundle_schema() -> (r: &'static str)
    ensures
        r@ == "banksy-c2pa-evidence/v1"@,
{
    "banksy-c2pa-evidence/v1"
}
/// The most entries an evidence archive may have.
pub const MAX_ARCHIVE_ENTRIES: usize = 512;
/// The largest image an evidence archive may hold.
pub const MAX_IMAGE_SIZE: u64 = 536870912;
/// The largest expanded size of an evidence archive.
pub const MAX_TOTAL_SIZE: u64 = 2147483648;
/// The largest metadata entry of an evidence archive.
pub const MAX_METADATA_SIZE: u64 = 2097152;

/// The text of the README placed in every evidence bundle.
pub open spec fn bundle_readme_text() -> Seq<char> {
    "Banksy C2PA evidence bundle\n\nThe images in this ZIP contain embedded C2PA Content Credentials. Send the ZIP as an opaque file or document. Uploading an extracted image through an image-processing service can re-encode it and remove its credential.\n\nSHA256SUMS detects changed bytes. The bundled root certificate is private/local verification material, not public C2PA trust. A recipient must compare its fingerprint through a separately trusted channel. evidence.json and SHA256SUMS are supporting metadata; the embedded image signatures provide the cryptographic asset binding.\n"@
}

/// The README placed in every evidence bundle.
pub fn bundle_readme() -> (r: &'static str)
    ensures
        r@ == bundle_readme_text(),
{
    "Banksy C2PA evidence bundle\n\nThe images in this ZIP contain embedded C2PA Content Credentials. Send the ZIP as an opaque file or document. Uploading an extracted image through an image-processing service can re-encode it and remove its credential.\n\nSHA256SUMS detects changed bytes. The bundled root certificate is private/local verification material, not public C2PA trust. A recipient must compare its fingerprint through a separately trusted channel. evidence.json and SHA256SUMS are supporting metadata; the embedded image signatures provide the cryptographic asset binding.\n"
}

/// A bundle destination must carry the `.zip` extension.
pub fn check_bundle_output(output: &str) -> (r: Result<(), AppError>)
    ensures
        spec_is_zip(output@) <==> r is Ok,
        r matches Err(e) ==> e.exit_code == 1 && e.message@ == "evidence bundle output must use the .zip extension"@,
{
    if !is_zip(output) {
        return Err(AppError::runtime(owned("evidence bundle output must use the .zip extension")));
    }
    Ok(())
}

/// Whether a component is a plain name.
pub open spec fn is_normal(c: PathPart) -> bool {
    c is Normal
}

/// A safe archive entry path: not empty, relative, no backslash, and made of
/// plain names only (no `.`, `..`, or root).
pub open spec fn spec_safe_archive_path(name: Seq<char>) -> bool {
    &&& !name.contains('\\')
    &&& name.len() > 0
    &&& !spec_is_absolute(name)
    &&& forall|i: int| 0 <= i < spec_components(name).len() ==> is_normal(#[trigger] spec_components(name)[i])
}

fn has_backslash(cs: &[char]) -> (r: bool)
    ensures
        r == cs@.contains('\\'),
{
    let mut i: usize = 0;
    while i < cs.len()
        invariant
            i <= cs@.len(),
            forall|j: int| 0 <= j < i ==> cs@[j] != '\\',
        decreases cs@.len() - i,
    {
        if cs[i] == '\\' {
            assert(cs@[i as int] == '\\');
            return true;
        }
        i = i + 1;
    }
    false
}

fn all_normal(parts: &Vec<PathPart>) -> (r: bool)
    ensures
        r == (forall|i: int| 0 <= i < parts@.len() ==> is_normal(#[trigger] parts@[i])),
{
    let mut i: usize = 0;
    while i < parts.len()
        invariant
            i <= parts@.len(),
            forall|j: int| 0 <= j < i ==> is_normal(#[trigger] parts@[j]),
        decreases parts@.len() - i,
    {
        match &parts[i] {
            PathPart::Normal(_) => {},
            _ => {
                assert(!is_normal(parts@[i as int]));
                return false;
            },
        }
        i = i + 1;
    }
    true
}

/// Whether an archive entry path is safe to extract.
pub fn safe_archive_path(name: &str) -> (b: bool)
    ensures
        b == spec_safe_archive_path(name@),
{
    let cs = chars_of(name);
    if has_backslash(cs.as_slice()) || cs.len() == 0 || is_absolute(name) {
        return false;
    }
    let parts = components(name);
    all_normal(&parts)
}

/// The plain names of a relative source path, or `None` when it has a root,
/// a `..`, or a prefix; `.` components are dropped.
pub open spec fn relative_names(parts: Seq<PathPart>) -> Option<Seq<Seq<char>>>
    decreases parts.len(),
{
    if parts.len() == 0 {
        Some(seq![])
    } else {
        match relative_names(parts.drop_last()) {
            None => None,
            Some(names) => match parts.last() {
                PathPart::Normal(n) => Some(names.push(n@)),
                PathPart::CurDir => Some(names),
                _ => None,
            },
        }
    }
}

/// Names joined with '/'.
pub open spec fn slash_joined(names: Seq<Seq<char>>) -> Seq<char> {
    crate::text::joined(names, "/"@)
}

/// A two-digit, zero-padded decimal.
pub open spec fn two_digits(n: nat) -> Seq<char> {
    if n < 10 { "0"@ + decimal(n) } else { decimal(n) }
}

/// The archive path of a packaged image: `images/` and its relative path,
/// with a `root-NN/` directory per input root when there are several.
pub open spec fn spec_archive_image_path(index: nat, multiple_roots: bool, relative: Seq<char>) -> Result<Seq<char>, Seq<char>> {
    match relative_names(spec_components(relative)) {
        None => Err("unsafe archive source path: "@ + relative),
        Some(names) => if names.len() == 0 {
            Err("empty archive image path"@)
        } else if multiple_roots {
            Ok("images/root-"@ + two_digits(index + 1) + "/"@ + slash_joined(names))
        } else {
            Ok("images/"@ + slash_joined(names))
        },
    }
}

/// The archive path of the image at `relative` under input root `index`.
pub fn archive_image_path(index: usize, multiple_roots: bool, relative: &str) -> (r: Result<String, AppError>)
    requires
        index < usize::MAX,
    ensures
        match spec_archive_image_path(index as nat, multiple_roots, relative@) {
            Ok(p) => r matches Ok(s) && s@ == p,
            Err(m) => r matches Err(e) && e.exit_code == 1 && e.message@ == m,
        },
{
    let parts = components(relative);
    let mut names: Vec<String> = Vec::new();
    let mut i: usize = 0;
    while i < parts.len()
        invariant
            i <= parts@.len(),
            parts@ == spec_components(relative@),
            relative_names(parts@.subrange(0, i as int)) == Some(texts(names@)),
        decreases parts@.len() - i,
    {
        proof {
            let pre = parts@.subrange(0, i + 1);
            assert(pre.drop_last() =~= parts@.subrange(0, i as int));
        }
        match &parts[i] {
            PathPart::Normal(n) => {
                push_text(&mut names, n.clone());
            },
            PathPart::CurDir => {},
            _ => {
                proof {
                    lemma_relative_names_none(parts@, i as int);
                }
                return Err(AppError::runtime(concat2("unsafe archive source path: ", relative)));
            },
        }
        i = i + 1;
    }
    assert(parts@.subrange(0, parts@.len() as int) =~= parts@);
    if names.len() == 0 {
        return Err(AppError::runtime(owned("empty archive image path")));
    }
    let joined = crate::text::join_texts(&names, "/");
    let mut out = String::from_str("images/");
    if multiple_roots {
        push_str(&mut out, "root-");
        let n = index + 1;
        if n < 10 {
            push_str(&mut out, "0");
        }
        push_decimal(&mut out, n as u64);
        push_str(&mut out, "/");
    }
    push_str(&mut out, joined.as_str());
    proof {
        reveal_strlit("images/");
        reveal_strlit("root-");
        reveal_strlit("images/root-");
        assert("images/"@ + "root-"@ =~= "images/root-"@);
    }
    assert(out@ =~= spec_archive_image_path(index as nat, multiple_roots, relative@) ->Ok_0);
    Ok(out)
}

/// No character of `s` is a '/'.
pub open spec fn slash_free(s: Seq<char>) -> bool {
    forall|i: int| 0 <= i < s.len() ==> s[i] != '/'
}

/// Joining two or more names puts a '/' right after the join of all but the last.
proof fn lemma_joined_separator(v: Seq<Seq<char>>)
    requires
        v.len() >= 2,
    ensures
        joined(v, "/"@) =~= joined(v.drop_last(), "/"@) + "/"@ + v.last(),
        joined(v, "/"@)[joined(v.drop_last(), "/"@).len() as int] == '/',
{
    reveal_strlit("/");
}

/// A single name joins to itself.
proof fn lemma_joined_slash_free(v: Seq<Seq<char>>)
    requires
        v.len() == 1,
    ensures
        joined(v, "/"@) == v[0],
{
}

/// Text that splits at a '/' holds a '/'.
proof fn lemma_split_has_slash(head: Seq<char>, tail: Seq<char>)
    ensures
        !slash_free(head + "/"@ + tail),
{
    reveal_strlit("/");
    assert((head + "/"@ + tail)[head.len() as int] == '/');
}

/// Splitting at the last '/' is unique: a head, a '/', and a tail with no
/// '/' are determined by the whole.
proof fn lemma_split_last_slash(pa: Seq<char>, la: Seq<char>, pb: Seq<char>, lb: Seq<char>)
    requires
        slash_free(la),
        slash_free(lb),
        pa + "/"@ + la == pb + "/"@ + lb,
    ensures
        pa == pb,
        la == lb,
{
    reveal_strlit("/");
    let w = pa + "/"@ + la;
    let n = w.len() as int;
    if la.len() < lb.len() {
        let p = pa.len() as int;
        assert(w[p] == '/');
        assert((pb + "/"@ + lb)[p] == lb[p - (pb.len() + 1)]);
        assert(false);
    } else if lb.len() < la.len() {
        let p = pb.len() as int;
        assert((pb + "/"@ + lb)[p] == '/');
        assert(w[p] == la[p - (pa.len() + 1)]);
        assert(false);
    }
    assert(la =~= w.subrange(n - la.len(), n));
    assert(lb =~= (pb + "/"@ + lb).subrange(n - lb.len(), n));
    assert(pa =~= w.subrange(0, pa.len() as int));
    assert(pb =~= (pb + "/"@ + lb).subrange(0, pb.len() as int));
}

/// Joining names that hold no '/' with '/' loses nothing: equal joins come
/// from equal name lists.
proof fn lemma_joined_injective(a: Seq<Seq<char>>, b: Seq<Seq<char>>)
    requires
        a.len() > 0,
        b.len() > 0,
        forall|k: int| 0 <= k < a.len() ==> slash_free(#[trigger] a[k]),
        forall|k: int| 0 <= k < b.len() ==> slash_free(#[trigger] b[k]),
        joined(a, "/"@) == joined(b, "/"@),
    ensures
        a == b,
    decreases a.len() + b.len(),
{
    if a.len() == 1 && b.len() == 1 {
        lemma_joined_slash_free(a);
        lemma_joined_slash_free(b);
        assert(a =~= b);
    } else if a.len() == 1 {
        lemma_joined_slash_free(a);
        lemma_joined_separator(b);
        lemma_split_has_slash(joined(b.drop_last(), "/"@), b.last());
        assert(slash_free(a[0]));
    } else if b.len() == 1 {
        lemma_joined_slash_free(b);
        lemma_joined_separator(a);
        lemma_split_has_slash(joined(a.drop_last(), "/"@), a.last());
        assert(slash_free(b[0]));
    } else {
        lemma_joined_separator(a);
        lemma_joined_separator(b);
        assert(slash_free(a[a.len() - 1]));
        assert(slash_free(b[b.len() - 1]));
        lemma_split_last_slash(joined(a.drop_last(), "/"@), a.last(), joined(b.drop_last(), "/"@), b.last());
        assert forall|k: int| 0 <= k < a.drop_last().len() implies slash_free(#[trigger] a.drop_last()[k]) by {
            assert(a.drop_last()[k] == a[k]);
        }
        assert forall|k: int| 0 <= k < b.drop_last().len() implies slash_free(#[trigger] b.drop_last()[k]) by {
            assert(b.drop_last()[k] == b[k]);
        }
        lemma_joined_injective(a.drop_last(), b.drop_last());
        assert(a =~= a.drop_last().push(a.last()));
        assert(b =~= b.drop_last().push(b.last()));
    }
}

/// Two images whose relative paths name different folders or files get
/// different archive paths: every component of the relative path is kept,
/// joined with '/', so images with one file name in different subfolders
/// never collide.
pub proof fn law_archive_paths_keep_folders(
    index: nat,
    multiple_roots: bool,
    first: Seq<char>,
    second: Seq<char>,
    first_names: Seq<Seq<char>>,
    second_names: Seq<Seq<char>>,
)
    requires
        relative_names(spec_components(first)) == Some(first_names),
        relative_names(spec_components(second)) == Some(second_names),
        first_names.len() > 0,
        second_names.len() > 0,
        forall|k: int| 0 <= k < first_names.len() ==> slash_free(#[trigger] first_names[k]),
        forall|k: int| 0 <= k < second_names.len() ==> slash_free(#[trigger] second_names[k]),
        first_names != second_names,
    ensures
        spec_archive_image_path(index, multiple_roots, first) is Ok,
        spec_archive_image_path(index, multiple_roots, second) is Ok,
        spec_archive_image_path(index, multiple_roots, first)->Ok_0
            != spec_archive_image_path(index, multiple_roots, second)->Ok_0,
{
    let pre = if multiple_roots { "images/root-"@ + two_digits(index + 1) + "/"@ } else { "images/"@ };
    let p1 = spec_archive_image_path(index, multiple_roots, first)->Ok_0;
    let p2 = spec_archive_image_path(index, multiple_roots, second)->Ok_0;
    assert(p1 =~= pre + slash_joined(first_names));
    assert(p2 =~= pre + slash_joined(second_names));
    if p1 == p2 {
        assert(slash_joined(first_names) =~= p1.subrange(pre.len() as int, p1.len() as int));
        assert(slash_joined(second_names) =~= p2.subrange(pre.len() as int, p2.len() as int));
        lemma_joined_injective(first_names, second_names);
    }
}

proof fn lemma_relative_names_none(parts: Seq<PathPart>, i: int)
    requires
        0 <= i < parts.len(),
        !(parts[i] is Normal) && !(parts[i] is CurDir),
    ensures
        relative_names(parts) is None,
    decreases parts.len() - i,
{
    lemma_relative_names_prefix_none(parts, i + 1);
    let pre = parts.subrange(0, i + 1);
    assert(pre.drop_last() =~= parts.subrange(0, i));
    assert(pre.last() == parts[i]);
    assert(relative_names(pre) is None);
    lemma_none_extends(parts, i + 1);
}

proof fn lemma_relative_names_prefix_none(parts: Seq<PathPart>, k: int)
    requires
        0 <= k <= parts.len(),
{
}

proof fn lemma_none_extends(parts: Seq<PathPart>, k: int)
    requires
        0 <= k <= parts.len(),
        relative_names(parts.subrange(0, k)) is None,
    ensures
        relative_names(parts) is None,
    decreases parts.len() - k,
{
    if k < parts.len() {
        let pre = parts.subrange(0, k + 1);
        assert(pre.drop_last() =~= parts.subrange(0, k));
        lemma_none_extends(parts, k + 1);
    } else {
        assert(parts.subrange(0, k) =~= parts);
    }
}

/// The index of the first pair of spaces at or after `from`, or -1.
pub open spec fn find_two_spaces(s: Seq<char>, from: int) -> int
    decreases s.len() - from,
{
    if from + 1 >= s.len() {
        -1
    } else if s[from] == ' ' && s[from + 1] == ' ' {
        from
    } else {
        find_two_spaces(s, from + 1)
    }
}

proof fn lemma_two_spaces_bounds(s: Seq<char>, from: int)
    requires
        0 <= from,
    ensures
        find_two_spaces(s, from) == -1 || (from <= find_two_spaces(s, from) && find_two_spaces(s, from) + 1 < s.len()),
    decreases s.len() - from,
{
    if from + 1 < s.len() && !(s[from] == ' ' && s[from + 1] == ' ') {
        lemma_two_spaces_bounds(s, from + 1);
    }
}

/// Whether a key occurs among the parsed pairs.
pub open spec fn has_key(pairs: Seq<(Seq<char>, Seq<char>)>, k: Seq<char>) -> bool {
    exists|i: int| 0 <= i < pairs.len() && (#[trigger] pairs[i]).0 == k
}

/// One `SHA256SUMS` line, numbered `n` from one: `HASH  PATH` with 64
/// hexadecimal digits. Well-formed lines add a pair (hash lowercased); a later
/// pair for the same path replaces the earlier one and is reported.
pub open spec fn checksum_step(
    acc: (Seq<(Seq<char>, Seq<char>)>, Seq<Seq<char>>),
    line: Seq<char>,
    n: nat,
) -> (Seq<(Seq<char>, Seq<char>)>, Seq<Seq<char>>) {
    let (pairs, issues) = acc;
    let k = find_two_spaces(line, 0);
    if k < 0 {
        (pairs, issues.push("invalid SHA256SUMS line "@ + decimal(n)))
    } else {
        let hash = line.subrange(0, k);
        let path = line.subrange(k + 2, line.len() as int);
        if !(hash.len() == 64 && (forall|i: int| 0 <= i < hash.len() ==> is_hex_digit(#[trigger] hash[i]))) {
            (pairs, issues.push("invalid checksum on SHA256SUMS line "@ + decimal(n)))
        } else if has_key(pairs, path) {
            (pairs.push((path, lower(hash))), issues.push("duplicate checksum entry: "@ + path))
        } else {
            (pairs.push((path, lower(hash))), issues)
        }
    }
}

/// All lines of a `SHA256SUMS` text, in order.
pub open spec fn checksum_fold(lines: Seq<Seq<char>>) -> (Seq<(Seq<char>, Seq<char>)>, Seq<Seq<char>>)
    decreases lines.len(),
{
    if lines.len() == 0 {
        (seq![], seq![])
    } else {
        checksum_step(checksum_fold(lines.drop_last()), lines.last(), lines.len())
    }
}

/// The pairs of a parsed checksum list as texts.
pub open spec fn pair_texts(v: Seq<(String, String)>) -> Seq<(Seq<char>, Seq<char>)> {
    v.map_values(|p: (String, String)| (p.0@, p.1@))
}

fn find_two_spaces_exec(s: &[char]) -> (k: Option<usize>)
    ensures
        match k {
            Some(i) => find_two_spaces(s@, 0) == i,
            None => find_two_spaces(s@, 0) == -1,
        },
{
    if s.len() < 2 {
        return None;
    }
    let mut i: usize = 0;
    while i < s.len() - 1
        invariant
            s@.len() >= 2,
            i <= s@.len(),
            find_two_spaces(s@, i as int) == find_two_spaces(s@, 0),
        decreases s@.len() - i,
    {
        if s[i] == ' ' && s[i + 1] == ' ' {
            return Some(i);
        }
        i = i + 1;
    }
    None
}

fn has_key_exec(pairs: &Vec<(String, String)>, k: &[char]) -> (b: bool)
    ensures
        b == has_key(pair_texts(pairs@), k@),
{
    let mut i: usize = 0;
    while i < pairs.len()
        invariant
            i <= pairs@.len(),
            forall|j: int| 0 <= j < i ==> (#[trigger] pairs@[j]).0@ != k@,
        decreases pairs@.len() - i,
    {
        let key = chars_of(pairs[i].0.as_str());
        if chars_eq(key.as_slice(), k) {
            assert(pair_texts(pairs@)[i as int].0 == k@);
            return true;
        }
        i = i + 1;
    }
    assert forall|j: int| 0 <= j < pair_texts(pairs@).len() implies (#[trigger] pair_texts(pairs@)[j]).0 != k@ by {
        assert(pair_texts(pairs@)[j].0 == pairs@[j].0@);
    }
    false
}

/// Parses a `SHA256SUMS` text into (path, lowercase hash) pairs, appending
/// an issue for every malformed or repeated line. A later pair for a path
/// overrides an earlier one.
pub fn parse_checksums(contents: &str, issues: &mut Vec<String>) -> (pairs: Vec<(String, String)>)
    ensures
        pair_texts(pairs@) == checksum_fold(split_lines(contents@)).0,
        texts(final(issues)@) == texts(old(issues)@) + checksum_fold(split_lines(contents@)).1,
{
    let lines = lines_of(contents);
    let ghost all = split_lines(contents@);
    let ghost base = texts(issues@);
    let mut pairs: Vec<(String, String)> = Vec::new();
    let mut i: usize = 0;
    assert(all.subrange(0, 0) =~= Seq::<Seq<char>>::empty());
    assert(pair_texts(pairs@) =~= Seq::<(Seq<char>, Seq<char>)>::empty());
    assert(texts(issues@) =~= base + Seq::<Seq<char>>::empty());
    while i < lines.len()
        invariant
            i <= lines@.len(),
            lines@.len() == all.len(),
            forall|j: int| 0 <= j < lines@.len() ==> (#[trigger] lines@[j])@ == all[j],
            pair_texts(pairs@) == checksum_fold(all.subrange(0, i as int)).0,
            texts(issues@) == base + checksum_fold(all.subrange(0, i as int)).1,
        decreases lines@.len() - i,
    {
        let line = &lines[i];
        let n = i + 1;
        let ghost pre = all.subrange(0, i + 1);
        let ghost acc = checksum_fold(all.subrange(0, i as int));
        proof {
            assert(pre.drop_last() =~= all.subrange(0, i as int));
            assert(pre.last() == line@);
            lemma_two_spaces_bounds(line@, 0);
        }
        match find_two_spaces_exec(line.as_slice()) {
            None => {
                let mut m = String::from_str("invalid SHA256SUMS line ");
                push_decimal(&mut m, n as u64);
                push_text(issues, m);
                assert(texts(issues@) =~= base + checksum_fold(pre).1);
            },
            Some(k) => {
                assert(k + 1 < line@.len());
                assert(k + 2 <= line.len());
                let hash = vstd::slice::slice_subrange(line.as_slice(), 0, k);
                let path = vstd::slice::slice_subrange(line.as_slice(), k + 2, line.len());
                if hash.len() != 64 || !all_hex(hash) {
                    let mut m = String::from_str("invalid checksum on SHA256SUMS line ");
                    push_decimal(&mut m, n as u64);
                    push_text(issues, m);
                    assert(texts(issues@) =~= base + checksum_fold(pre).1);
                } else {
                    let dup = has_key_exec(&pairs, path);
                    let lh = lower_chars(hash);
                    let entry = (string_of(path), string_of(lh.as_slice()));
                    proof {
                        let ghost np = pairs@.push(entry);
                        assert(pair_texts(np) =~= pair_texts(pairs@).push((path@, lower(hash@))));
                    }
                    pairs.push(entry);
                    if dup {
                        push_text(issues, concat2("duplicate checksum entry: ", string_of(path).as_str()));
                    }
                    assert(texts(issues@) =~= base + checksum_fold(pre).1);
                }
            },
        }
        i = i + 1;
    }
    assert(all.subrange(0, all.len() as int) =~= all);
    pairs
}

/// One entry of an evidence archive, as listed by the ZIP reader.
#[derive(Debug)]
pub struct ArchiveEntry {
    pub name: String,
    pub unix_mode: Option<u32>,
    pub size: u64,
}

/// What the scan of the archive entries found: every entry name in order,
/// the names under `images/` that are not directories, and the expanded size
/// (saturating).
#[derive(Debug)]
pub struct ArchiveScan {
    pub names: Vec<String>,
    pub image_entries: Vec<String>,
    pub total_size: u64,
}

/// A Unix mode that marks a symbolic link.
pub open spec fn is_symlink_mode(mode: Option<u32>) -> bool {
    match mode {
        Some(m) => m & 0o170000u32 == 0o120000u32,
        None => false,
    }
}

/// An entry that holds a packaged image: under `images/` and not a directory.
pub open spec fn is_image_entry(name: Seq<char>) -> bool {
    starts_with(name, "images/"@) && !ends_with(name, "/"@)
}

/// The state of the entry scan: names seen, image entries, total size, issues.
pub type EntryFold = (Seq<Seq<char>>, Seq<Seq<char>>, u64, Seq<Seq<char>>);

/// The issues and state after one more archive entry.
pub open spec fn entry_step(acc: EntryFold, e: ArchiveEntry) -> EntryFold {
    let (names, images, total, issues) = acc;
    let name = e.name@;
    let i1 = if !spec_safe_archive_path(name) { issues.push("unsafe archive entry path: "@ + name) } else { issues };
    let i2 = if names.contains(name) { i1.push("duplicate archive entry: "@ + name) } else { i1 };
    let i3 = if is_symlink_mode(e.unix_mode) { i2.push("symbolic-link archive entry is not allowed: "@ + name) } else { i2 };
    let t = if total + e.size > u64::MAX { u64::MAX } else { (total + e.size) as u64 };
    if is_image_entry(name) {
        let i4 = if e.size > MAX_IMAGE_SIZE { i3.push("image entry exceeds 536870912 bytes"@) } else { i3 };
        (names.push(name), images.push(name), t, i4)
    } else {
        (names.push(name), images, t, i3)
    }
}

/// The entry scan over a list of archive entries, in order.
pub open spec fn entry_fold(entries: Seq<ArchiveEntry>) -> EntryFold
    decreases entries.len(),
{
    if entries.len() == 0 {
        (seq![], seq![], 0u64, seq![])
    } else {
        entry_step(entry_fold(entries.drop_last()), entries.last())
    }
}

/// Checks the entries of an evidence archive: at most `MAX_ARCHIVE_ENTRIES`
/// of them, and at most `MAX_TOTAL_SIZE` bytes once expanded (both errors).
/// Unsafe, repeated and symbolic-link entries and oversized images are
/// reported as issues.
pub fn scan_archive_entries(entries: &Vec<ArchiveEntry>, issues: &mut Vec<String>) -> (r: Result<ArchiveScan, AppError>)
    ensures
        entries@.len() > MAX_ARCHIVE_ENTRIES ==> (r matches Err(e) && e.exit_code == 3
            && e.message@ == "archive has more than 512 entries"@),
        entries@.len() <= MAX_ARCHIVE_ENTRIES ==> ({
            let (names, images, total, found) = entry_fold(entries@);
            &&& texts(final(issues)@) == texts(old(issues)@) + found
            &&& total > MAX_TOTAL_SIZE ==> (r matches Err(e) && e.exit_code == 3
                && e.message@ == "archive expands beyond 2147483648 bytes"@)
            &&& total <= MAX_TOTAL_SIZE ==> (r matches Ok(scan) && texts(scan.names@) == names
                && texts(scan.image_entries@) == images && scan.total_size == total)
        }),
{
    if entries.len() > MAX_ARCHIVE_ENTRIES {
        return Err(AppError::verification(owned("archive has more than 512 entries")));
    }
    let ghost base = texts(issues@);
    let mut names: Vec<String> = Vec::new();
    let mut images: Vec<String> = Vec::new();
    let mut total: u64 = 0;
    let mut i: usize = 0;
    assert(texts(issues@) =~= base + Seq::<Seq<char>>::empty());
    assert(texts(names@) =~= Seq::<Seq<char>>::empty());
    assert(texts(images@) =~= Seq::<Seq<char>>::empty());
    while i < entries.len()
        invariant
            i <= entries@.len(),
            ({
                let (n, im, t, found) = entry_fold(entries@.subrange(0, i as int));
                &&& texts(names@) == n
                &&& texts(images@) == im
                &&& total == t
                &&& texts(issues@) == base + found
            }),
        decreases entries@.len() - i,
    {
        let e = &entries[i];
        let ghost pre = entries@.subrange(0, i + 1);
        proof {
            assert(pre.drop_last() =~= entries@.subrange(0, i as int));
            assert(pre.last() == *e);
        }
        let name = e.name.as_str();
        if !safe_archive_path(name) {
            push_text(issues, concat2("unsafe archive entry path: ", name));
        }
        if has_text(&names, name) {
            push_text(issues, concat2("duplicate archive entry: ", name));
        }
        let link = match e.unix_mode {
            Some(m) => m & 0o170000u32 == 0o120000u32,
            None => false,
        };
        if link {
            push_text(issues, concat2("symbolic-link archive entry is not allowed: ", name));
        }
        total = total.saturating_add(e.size);
        let cs = chars_of(name);
        let image = chars_start_with(cs.as_slice(), "images/") && !chars_end_with(cs.as_slice(), "/");
        push_text(&mut names, e.name.clone());
        if image {
            push_text(&mut images, e.name.clone());
            if e.size > MAX_IMAGE_SIZE {
                push_text(issues, owned("image entry exceeds 536870912 bytes"));
            }
        }
        proof {
            assert(texts(issues@) =~= base + entry_fold(pre).3);
        }
        i = i + 1;
    }
    assert(entries@.subrange(0, entries@.len() as int) =~= entries@);
    if total > MAX_TOTAL_SIZE {
        return Err(AppError::verification(owned("archive expands beyond 2147483648 bytes")));
    }
    Ok(ArchiveScan { names, image_entries: images, total_size: total })
}

/// The issues found in the header of `evidence.json`.
pub open spec fn manifest_issues(m: BundleManifest) -> Seq<Seq<char>> {
    let i1 = if m.schema@ != "banksy-c2pa-evidence/v1"@ { seq!["unsupported bundle schema: "@ + m.schema@] } else { seq![] };
    let i2 = if m.files@.len() == 0 { i1.push("evidence.json contains no image records"@) } else { i1 };
    let i3 = if m.trust.mode@ != "local-private"@ || m.trust.public_trust {
        i2.push("unsupported or misleading bundle trust declaration"@)
    } else {
        i2
    };
    if !spec_safe_archive_path(m.trust.root_certificate@) || starts_with(m.trust.root_certificate@, "images/"@) {
        i3.push("invalid bundled root certificate path"@)
    } else {
        i3
    }
}

/// Checks the header of `evidence.json`: more than `MAX_ARCHIVE_ENTRIES`
/// image records is an error; a foreign schema, no records, a trust
/// declaration other than private/local, and an unsafe root path are issues.
pub fn check_manifest(manifest: &BundleManifest, issues: &mut Vec<String>) -> (r: Result<(), AppError>)
    ensures
        manifest.files@.len() > MAX_ARCHIVE_ENTRIES ==> (r matches Err(e) && e.exit_code == 3
            && e.message@ == "evidence.json lists more than 512 images"@),
        manifest.files@.len() <= MAX_ARCHIVE_ENTRIES ==> (r is Ok
            && texts(final(issues)@) == texts(old(issues)@) + manifest_issues(*manifest)),
{
    let ghost base = texts(issues@);
    let ghost m = *manifest;
    if !text_is(manifest.schema.as_str(), "banksy-c2pa-evidence/v1") {
        push_text(issues, concat2("unsupported bundle schema: ", manifest.schema.as_str()));
    }
    if manifest.files.len() > MAX_ARCHIVE_ENTRIES {
        return Err(AppError::verification(owned("evidence.json lists more than 512 images")));
    }
    if manifest.files.len() == 0 {
        push_text(issues, owned("evidence.json contains no image records"));
    }
    if !text_is(manifest.trust.mode.as_str(), "local-private") || manifest.trust.public_trust {
        push_text(issues, owned("unsupported or misleading bundle trust declaration"));
    }
    let root = manifest.trust.root_certificate.as_str();
    let rcs = chars_of(root);
    if !safe_archive_path(root) || chars_start_with(rcs.as_slice(), "images/") {
        push_text(issues, owned("invalid bundled root certificate path"));
    }
    assert(texts(issues@) =~= base + manifest_issues(m));
    Ok(())
}

/// Whether the configured local root, when given, has the given fingerprint.
pub open spec fn local_root_matches(local_root_pem: Option<Seq<u8>>, fingerprint: Seq<char>) -> bool {
    match local_root_pem {
        Some(pem) => pem_fingerprint(pem) == Some(fingerprint),
        None => false,
    }
}

/// The issues raised by the bundled root: its fingerprint against the one
/// declared in `evidence.json`, and against the configured local root.
pub open spec fn root_issues(declared: Seq<char>, fingerprint: Seq<char>, local_root_pem: Option<Seq<u8>>) -> Seq<Seq<char>> {
    let i1 = if fingerprint != declared { seq!["bundled root fingerprint does not match evidence.json"@] } else { seq![] };
    if local_root_pem.is_some() && !local_root_matches(local_root_pem, fingerprint) {
        i1.push("bundled root does not match the configured local identity"@)
    } else {
        i1
    }
}

/// The bytes of an optional text.
pub open spec fn opt_bytes(s: Option<&str>) -> Option<Seq<u8>> {
    match s {
        Some(t) => Some(t.spec_bytes()),
        None => None,
    }
}

/// Fingerprints the bundled root certificate and compares it with the
/// declaration in `evidence.json` and with the configured local root. An
/// unreadable bundled root is an error; the result is the bundled fingerprint
/// and whether the local root matches it.
pub fn check_bundled_root(
    manifest: &BundleManifest,
    root_pem: &str,
    local_root_pem: Option<&str>,
    issues: &mut Vec<String>,
) -> (r: Result<(String, bool), AppError>)
    ensures
        match pem_fingerprint(root_pem.spec_bytes()) {
            None => r matches Err(e) && e.exit_code == 3
                && starts_with(e.message@, "invalid bundled root certificate: "@ + msg_bad_pem()),
            Some(fp) => r matches Ok((s, m)) && s@ == fp
                && m == local_root_matches(opt_bytes(local_root_pem), fp)
                && texts(final(issues)@) == texts(old(issues)@)
                    + root_issues(manifest.trust.root_fingerprint_sha256@, fp, opt_bytes(local_root_pem)),
        },
{
    let ghost base = texts(issues@);
    let bundled = match certificate_fingerprint(root_pem.as_bytes()) {
        Ok(f) => f,
        Err(e) => {
            let m = concat2("invalid bundled root certificate: ", e.message.as_str());
            proof {
                reveal_strlit("invalid bundled root certificate: ");
                let pre = "invalid bundled root certificate: "@;
                assert(m@.subrange(0, pre.len() as int) =~= pre);
                assert(e.message@.subrange(0, msg_bad_pem().len() as int) == msg_bad_pem());
                assert(m@.subrange(0, (pre + msg_bad_pem()).len() as int) =~= pre + msg_bad_pem());
            }
            return Err(AppError::verification(m));
        },
    };
    if !text_is(bundled.as_str(), manifest.trust.root_fingerprint_sha256.as_str()) {
        push_text(issues, owned("bundled root fingerprint does not match evidence.json"));
    }
    let local_match = match local_root_pem {
        Some(l) => match certificate_fingerprint(l.as_bytes()) {
            Ok(f) => text_is(f.as_str(), bundled.as_str()),
            Err(_) => false,
        },
        None => false,
    };
    if local_root_pem.is_some() && !local_match {
        push_text(issues, owned("bundled root does not match the configured local identity"));
    }
    assert(texts(issues@) =~= base + root_issues(manifest.trust.root_fingerprint_sha256@, bundled@, opt_bytes(local_root_pem)));
    Ok((bundled, local_match))
}

/// The archive paths of the image records, in order.
pub open spec fn record_paths(files: Seq<BundleFileRecord>) -> Seq<Seq<char>> {
    files.map_values(|f: BundleFileRecord| f.archive_path@)
}

/// The paths of the parsed checksum pairs, in order.
pub open spec fn checksum_paths(pairs: Seq<(Seq<char>, Seq<char>)>) -> Seq<Seq<char>> {
    pairs.map_values(|p: (Seq<char>, Seq<char>)| p.0)
}

/// The entries a bundle may hold: its images and four metadata files.
pub open spec fn allowed_entries(m: BundleManifest) -> Seq<Seq<char>> {
    record_paths(m.files@) + seq!["evidence.json"@, "SHA256SUMS"@, "README.txt"@, m.trust.root_certificate@]
}

/// The issues from comparing the image records with the archive entries and
/// with the checksum list, as sets.
pub open spec fn entry_set_issues(
    m: BundleManifest,
    names: Seq<Seq<char>>,
    images: Seq<Seq<char>>,
    pairs: Seq<(Seq<char>, Seq<char>)>,
) -> Seq<Seq<char>> {
    let paths = record_paths(m.files@);
    let i1 = if !paths.no_duplicates() { seq!["evidence.json contains duplicate image paths"@] } else { seq![] };
    let i2 = if paths.to_set() != images.to_set() { i1.push("images/ entries do not exactly match evidence.json"@) } else { i1 };
    let i3 = if checksum_paths(pairs).to_set() != paths.to_set() {
        i2.push("SHA256SUMS entries do not exactly match evidence.json"@)
    } else {
        i2
    };
    if names.to_set() != allowed_entries(m).to_set() {
        i3.push("archive entries do not exactly match the evidence bundle format"@)
    } else {
        i3
    }
}

/// Compares the image records of `evidence.json` with the archive entries
/// and with `SHA256SUMS`: every image path listed once, the same images in
/// the archive and in the checksum list, and nothing else in the archive but
/// the four metadata files.
pub fn check_entry_sets(
    manifest: &BundleManifest,
    scan: &ArchiveScan,
    checksums: &Vec<(String, String)>,
    issues: &mut Vec<String>,
)
    ensures
        texts(final(issues)@) == texts(old(issues)@) + entry_set_issues(
            *manifest,
            texts(scan.names@),
            texts(scan.image_entries@),
            pair_texts(checksums@),
        ),
{
    let ghost base = texts(issues@);
    let mut paths: Vec<String> = Vec::new();
    let mut i: usize = 0;
    while i < manifest.files.len()
        invariant
            i <= manifest.files@.len(),
            texts(paths@) == record_paths(manifest.files@.subrange(0, i as int)),
        decreases manifest.files@.len() - i,
    {
        push_text(&mut paths, manifest.files[i].archive_path.clone());
        assert(record_paths(manifest.files@.subrange(0, i + 1)) =~= record_paths(manifest.files@.subrange(0, i as int)).push(manifest.files@[i as int].archive_path@));
        i = i + 1;
    }
    assert(manifest.files@.subrange(0, manifest.files@.len() as int) =~= manifest.files@);
    let mut keys: Vec<String> = Vec::new();
    let mut j: usize = 0;
    while j < checksums.len()
        invariant
            j <= checksums@.len(),
            texts(keys@) == checksum_paths(pair_texts(checksums@.subrange(0, j as int))),
        decreases checksums@.len() - j,
    {
        push_text(&mut keys, checksums[j].0.clone());
        assert(checksum_paths(pair_texts(checksums@.subrange(0, j + 1))) =~= checksum_paths(pair_texts(checksums@.subrange(0, j as int))).push(checksums@[j as int].0@));
        j = j + 1;
    }
    assert(checksums@.subrange(0, checksums@.len() as int) =~= checksums@);
    if !crate::text::texts_distinct(&paths) {
        push_text(issues, owned("evidence.json contains duplicate image paths"));
    }
    if !crate::text::same_text_set(&paths, &scan.image_entries) {
        push_text(issues, owned("images/ entries do not exactly match evidence.json"));
    }
    if !crate::text::same_text_set(&keys, &paths) {
        push_text(issues, owned("SHA256SUMS entries do not exactly match evidence.json"));
    }
    let mut allowed = paths.clone();
    let ghost p0 = texts(paths@);
    assert(texts(allowed@) == p0);
    push_text(&mut allowed, owned("evidence.json"));
    push_text(&mut allowed, owned("SHA256SUMS"));
    push_text(&mut allowed, owned("README.txt"));
    push_text(&mut allowed, manifest.trust.root_certificate.clone());
    assert(texts(allowed@) =~= allowed_entries(*manifest));
    if !crate::text::same_text_set(&scan.names, &allowed) {
        push_text(issues, owned("archive entries do not exactly match the evidence bundle format"));
    }
    assert(texts(issues@) =~= base + entry_set_issues(*manifest, texts(scan.names@), texts(scan.image_entries@), pair_texts(checksums@)));
}

/// The hash recorded for a path in a parsed checksum list: the last pair for
/// that path wins, as when the pairs are inserted into a map in order.
pub open spec fn checksum_for(pairs: Seq<(Seq<char>, Seq<char>)>, path: Seq<char>) -> Option<Seq<char>>
    decreases pairs.len(),
{
    if pairs.len() == 0 {
        None
    } else if pairs.last().0 == path {
        Some(pairs.last().1)
    } else {
        checksum_for(pairs.drop_last(), path)
    }
}

/// Looks up the hash recorded for a path in a parsed checksum list.
pub fn checksum_lookup(pairs: &Vec<(String, String)>, path: &str) -> (r: Option<String>)
    ensures
        match checksum_for(pair_texts(pairs@), path@) {
            Some(h) => r matches Some(s) && s@ == h,
            None => r is None,
        },
{
    let mut i: usize = pairs.len();
    assert(pairs@.subrange(0, i as int) =~= pairs@);
    while i > 0
        invariant
            i <= pairs@.len(),
            checksum_for(pair_texts(pairs@), path@) == checksum_for(pair_texts(pairs@.subrange(0, i as int)), path@),
        decreases i,
    {
        let ghost pre = pair_texts(pairs@.subrange(0, i as int));
        proof {
            assert(pre.drop_last() =~= pair_texts(pairs@.subrange(0, i - 1)));
            assert(pre.last() == (pairs@[i - 1].0@, pairs@[i - 1].1@));
        }
        if text_is(pairs[i - 1].0.as_str(), path) {
            return Some(pairs[i - 1].1.clone());
        }
        i = i - 1;
    }
    None
}

/// What the archive reader found for one image record of `evidence.json`.
#[derive(Debug)]
pub enum RecordFetch {
    /// The archive has no entry of that name.
    Missing,
    /// The entry exists but was not extracted: it is larger than
    /// `MAX_IMAGE_SIZE` (see `image_entry_extractable`).
    NotExtracted,
    /// Extracting the entry failed.
    Failed(AppError),
    /// The entry was extracted: the bytes copied, and the audit of the copy.
    Extracted(u64, Result<ImageAuditReport, AppError>),
}

/// Whether an image entry of the given size is extracted and audited.
pub fn image_entry_extractable(size: u64) -> (b: bool)
    ensures
        b == (size <= MAX_IMAGE_SIZE),
{
    size <= MAX_IMAGE_SIZE
}

/// The audit of a packaged image agrees with its evidence record.
pub open spec fn metadata_matches(a: ImageAuditReport, r: BundleFileRecord) -> bool {
    &&& a.file_size == r.size
    &&& a.container.format@ == r.format@
    &&& a.container.location@ == r.credential_location@
    &&& a.container.store_bytes == r.credential_bytes
    &&& a.manifest_count == r.manifest_count
    &&& opt_text_eq(a.active_manifest, r.active_manifest)
    &&& opt_text_eq(a.signer_common_name, r.signer_common_name)
    &&& opt_text_eq(a.signer_issuer, r.signer_issuer)
    &&& a.published == r.published
    &&& a.upstream_manifest_count == r.upstream_manifest_count
    &&& a.upstream_preserved == r.upstream_preserved
}

fn metadata_agrees(a: &ImageAuditReport, r: &BundleFileRecord) -> (b: bool)
    ensures
        b == metadata_matches(*a, *r),
{
    a.file_size == r.size && text_is(a.container.format, r.format.as_str())
        && text_is(a.container.location, r.credential_location.as_str())
        && a.container.store_bytes == r.credential_bytes && a.manifest_count == r.manifest_count
        && opt_eq(&a.active_manifest, &r.active_manifest)
        && opt_eq(&a.signer_common_name, &r.signer_common_name)
        && opt_eq(&a.signer_issuer, &r.signer_issuer) && a.published == r.published
        && a.upstream_manifest_count == r.upstream_manifest_count
        && a.upstream_preserved == r.upstream_preserved
}

/// The state of the record checks: the records whose audits are kept, the
/// issues, and the error that stopped the checks, if any.
pub type RecordFold = (Seq<int>, Seq<Seq<char>>, Option<(u8, Seq<char>)>);

/// The checks of one image record (number `idx`) against what was fetched.
pub open spec fn record_step(
    acc: RecordFold,
    idx: int,
    r: BundleFileRecord,
    f: RecordFetch,
    pairs: Seq<(Seq<char>, Seq<char>)>,
) -> RecordFold {
    let (kept, issues, stop) = acc;
    let p = r.archive_path@;
    if stop.is_some() {
        acc
    } else if !(spec_safe_archive_path(p) && starts_with(p, "images/"@)) {
        (kept, issues.push("invalid image archive path: "@ + p), None)
    } else {
        let i1 = if checksum_for(pairs, p) != Some(r.sha256@) {
            issues.push("SHA256SUMS does not match evidence.json for "@ + p)
        } else {
            issues
        };
        match f {
            RecordFetch::Missing => (kept, i1.push("missing image entry: "@ + p), None),
            RecordFetch::NotExtracted => (kept, i1, None),
            RecordFetch::Failed(e) => (kept, i1, Some((e.exit_code, e.message@))),
            RecordFetch::Extracted(copied, audit) => {
                let i2 = if copied != r.size || copied > MAX_IMAGE_SIZE { i1.push("image size mismatch for "@ + p) } else { i1 };
                match audit {
                    Err(e) => (kept, i2, Some((3u8, "cannot audit bundled image "@ + p + ": "@ + e.message@))),
                    Ok(a) => {
                        let i3 = if !spec_audit_passed(a.state) { i2.push("image audit failed for "@ + p + ": "@ + a.detail@) } else { i2 };
                        let i4 = if !metadata_matches(a, r) { i3.push("evidence metadata mismatch for "@ + p) } else { i3 };
                        (kept.push(idx), i4, None)
                    },
                }
            },
        }
    }
}

/// The record checks over the first `n` records, in order.
pub open spec fn record_fold(
    records: Seq<BundleFileRecord>,
    fetches: Seq<RecordFetch>,
    pairs: Seq<(Seq<char>, Seq<char>)>,
    n: int,
) -> RecordFold
    decreases n,
{
    if n <= 0 {
        (seq![], seq![], None)
    } else {
        record_step(record_fold(records, fetches, pairs, n - 1), n - 1, records[n - 1], fetches[n - 1], pairs)
    }
}

/// Once the record checks stop with an error, later records change nothing.
proof fn lemma_record_fold_stays(
    records: Seq<BundleFileRecord>,
    fetches: Seq<RecordFetch>,
    pairs: Seq<(Seq<char>, Seq<char>)>,
    i: int,
    n: int,
)
    requires
        0 <= i <= n,
        record_fold(records, fetches, pairs, i).2.is_some(),
    ensures
        record_fold(records, fetches, pairs, n) == record_fold(records, fetches, pairs, i),
    decreases n - i,
{
    if n > i {
        lemma_record_fold_stays(records, fetches, pairs, i, n - 1);
    }
}

/// The audit kept for a fetched record.
pub open spec fn fetched_audit(f: RecordFetch) -> ImageAuditReport {
    match f {
        RecordFetch::Extracted(_, Ok(a)) => a,
        _ => arbitrary(),
    }
}

/// The trust basis of a bundle audit.
pub open spec fn spec_trust_basis(local_root_match: bool, local_root_given: bool) -> Seq<char> {
    if local_root_match {
        "configured-local-root"@
    } else if local_root_given {
        "configured-local-root-mismatch"@
    } else {
        "bundled-self-declared-root"@
    }
}

/// One record step from any state without an error equals the step from the
/// empty state, appended.
proof fn lemma_step_from_empty(
    acc: RecordFold,
    idx: int,
    r: BundleFileRecord,
    f: RecordFetch,
    pairs: Seq<(Seq<char>, Seq<char>)>,
)
    requires
        acc.2.is_none(),
    ensures
        ({
            let s = record_step((seq![], seq![], None), idx, r, f, pairs);
            record_step(acc, idx, r, f, pairs) == (acc.0 + s.0, acc.1 + s.1, s.2)
        }),
{
    let s = record_step((seq![], seq![], None), idx, r, f, pairs);
    let t = record_step(acc, idx, r, f, pairs);
    assert(t.0 =~= acc.0 + s.0);
    assert(t.1 =~= acc.1 + s.1);
}

/// Checks one image record against its checksum and what was fetched for it:
/// the issues found are appended, and the audit of an extracted image is
/// kept (under the path `bundle!entry`); the result says whether it was.
fn check_record(
    idx: usize,
    record: &BundleFileRecord,
    f: RecordFetch,
    bundle_path: &str,
    checksums: &Vec<(String, String)>,
    issues: &mut Vec<String>,
    images: &mut Vec<ImageAuditReport>,
) -> (r: Result<bool, AppError>)
    ensures
        ({
            let s = record_step((seq![], seq![], None), idx as int, *record, f, pair_texts(checksums@));
            match s.2 {
                Some((code, msg)) => r matches Err(e) && e.exit_code == code && e.message@ == msg,
                None => r matches Ok(k) && {
                    &&& texts(final(issues)@) == texts(old(issues)@) + s.1
                    &&& k == (s.0.len() == 1)
                    &&& s.0.len() <= 1
                    &&& k ==> s.0 == seq![idx as int]
                    &&& !k ==> final(images)@ == old(images)@
                    &&& k ==> {
                        let a = final(images)@.last();
                        &&& final(images)@ == old(images)@.push(a)
                        &&& a == ImageAuditReport { path: a.path, ..fetched_audit(f) }
                        &&& a.path@ == bundle_path@ + "!"@ + record.archive_path@
                    }
                },
            }
        }),
{
    let ghost base = texts(issues@);
    let p = record.archive_path.as_str();
    let pcs = chars_of(p);
    if !safe_archive_path(p) || !chars_start_with(pcs.as_slice(), "images/") {
        push_text(issues, concat2("invalid image archive path: ", p));
        return Ok(false);
    }
    let expected = checksum_lookup(checksums, p);
    let agrees = match &expected {
        Some(h) => text_is(h.as_str(), record.sha256.as_str()),
        None => false,
    };
    if !agrees {
        push_text(issues, concat2("SHA256SUMS does not match evidence.json for ", p));
    }
    match f {
        RecordFetch::Missing => {
            push_text(issues, concat2("missing image entry: ", p));
            Ok(false)
        },
        RecordFetch::NotExtracted => Ok(false),
        RecordFetch::Failed(e) => Err(e),
        RecordFetch::Extracted(copied, audit) => {
            if copied != record.size || copied > MAX_IMAGE_SIZE {
                push_text(issues, concat2("image size mismatch for ", p));
            }
            match audit {
                Err(e) => {
                    let m = concat3("cannot audit bundled image ", p, ": ");
                    let m2 = concat2(m.as_str(), e.message.as_str());
                    Err(AppError::verification(m2))
                },
                Ok(a) => {
                    let mut a = a;
                    let ghost orig = a;
                    a.path = concat3(bundle_path, "!", p);
                    if !a.passed() {
                        let m = concat3("image audit failed for ", p, ": ");
                        push_text(issues, concat2(m.as_str(), a.detail.as_str()));
                    }
                    if !metadata_agrees(&a, record) {
                        push_text(issues, concat2("evidence metadata mismatch for ", p));
                    }
                    assert(a == ImageAuditReport { path: a.path, ..orig });
                    images.push(a);
                    Ok(true)
                },
            }
        },
    }
}

/// Checks every image record of `evidence.json` against its checksum and
/// against what was fetched for it (`fetches`, one per record), and assembles
/// the bundle audit. The audit passes when no issue was found in any phase
/// (`issues` holds those of the earlier phases). A failed extraction or an
/// image that cannot be audited stops the checks with an error.
pub fn finish_bundle_audit(
    bundle_path: &str,
    file_sha256: String,
    manifest: BundleManifest,
    checksums: &Vec<(String, String)>,
    fetches: Vec<RecordFetch>,
    bundled_fingerprint: String,
    local_root_match: bool,
    local_root_given: bool,
    issues: Vec<String>,
) -> (r: Result<BundleAuditReport, AppError>)
    requires
        fetches@.len() == manifest.files@.len(),
    ensures
        ({
            let (kept, found, stop) = record_fold(manifest.files@, fetches@, pair_texts(checksums@), manifest.files@.len() as int);
            match stop {
                Some((code, msg)) => r matches Err(e) && e.exit_code == code && e.message@ == msg,
                None => r matches Ok(report) && {
                    &&& report.path@ == bundle_path@
                    &&& report.file_sha256 == file_sha256
                    &&& report.expected_sha256.is_none()
                    &&& report.hash_matches.is_none()
                    &&& report.schema == Some(manifest.schema)
                    &&& report.bundled_root_fingerprint_sha256 == Some(bundled_fingerprint)
                    &&& report.local_root_match == local_root_match
                    &&& report.trust_basis@ == spec_trust_basis(local_root_match, local_root_given)
                    &&& texts(report.issues@) == texts(issues@) + found
                    &&& report.passed == (report.issues@.len() == 0)
                    &&& report.images@.len() == kept.len()
                    &&& forall|k: int| 0 <= k < kept.len() ==> {
                        let a = #[trigger] report.images@[k];
                        &&& 0 <= kept[k] < manifest.files@.len()
                        &&& a == ImageAuditReport { path: a.path, ..fetched_audit(fetches@[kept[k]]) }
                        &&& a.path@ == bundle_path@ + "!"@ + manifest.files@[kept[k]].archive_path@
                    }
                },
            }
        }),
{
    let ghost pairs = pair_texts(checksums@);
    let ghost records = manifest.files@;
    let ghost all = fetches@;
    let ghost base = texts(issues@);
    let mut issues = issues;
    let mut rest = fetches;
    let mut images: Vec<ImageAuditReport> = Vec::new();
    let ghost mut kept: Seq<int> = seq![];
    let mut i: usize = 0;
    assert(texts(issues@) =~= base + Seq::<Seq<char>>::empty());
    while i < manifest.files.len()
        invariant
            i <= records.len(),
            records == manifest.files@,
            all == fetches@,
            all.len() == records.len(),
            rest@ == all.subrange(i as int, all.len() as int),
            pairs == pair_texts(checksums@),
            record_fold(records, all, pairs, i as int) == (kept, record_fold(records, all, pairs, i as int).1, None::<(u8, Seq<char>)>),
            texts(issues@) == base + record_fold(records, all, pairs, i as int).1,
            images@.len() == kept.len(),
            forall|k: int| 0 <= k < kept.len() ==> {
                let a = #[trigger] images@[k];
                &&& 0 <= kept[k] < i
                &&& a == ImageAuditReport { path: a.path, ..fetched_audit(all[kept[k]]) }
                &&& a.path@ == bundle_path@ + "!"@ + records[kept[k]].archive_path@
            },
        decreases records.len() - i,
    {
        let ghost acc = record_fold(records, all, pairs, i as int);
        let ghost old_images = images@;
        let f = rest.remove(0);
        assert(f == all[i as int]);
        let ghost step = record_step((seq![], seq![], None), i as int, records[i as int], f, pairs);
        proof {
            lemma_step_from_empty(acc, i as int, records[i as int], f, pairs);
            assert(record_fold(records, all, pairs, i + 1) == record_step(acc, i as int, records[i as int], all[i as int], pairs));
        }
        let outcome = check_record(i, &manifest.files[i], f, bundle_path, checksums, &mut issues, &mut images);
        match outcome {
            Err(e) => {
                proof {
                    lemma_record_fold_stays(records, all, pairs, i + 1, records.len() as int);
                }
                return Err(e);
            },
            Ok(_) => {},
        }
        proof {
            kept = kept + step.0;
            assert(texts(issues@) =~= base + record_fold(records, all, pairs, i + 1).1);
            assert forall|k: int| 0 <= k < kept.len() implies {
                let a = #[trigger] images@[k];
                &&& 0 <= kept[k] < i + 1
                &&& a == ImageAuditReport { path: a.path, ..fetched_audit(all[kept[k]]) }
                &&& a.path@ == bundle_path@ + "!"@ + records[kept[k]].archive_path@
            } by {
                if k < old_images.len() {
                    assert(images@[k] == old_images[k]);
                }
            }
        }
        i = i + 1;
    }
    let passed = issues.len() == 0;
    let trust_basis = if local_root_match {
        "configured-local-root"
    } else if local_root_given {
        "configured-local-root-mismatch"
    } else {
        "bundled-self-declared-root"
    };
    proof {
        assert(texts(issues@) =~= base + texts(issues@).subrange(base.len() as int, texts(issues@).len() as int));
    }
    Ok(BundleAuditReport {
        path: owned(bundle_path),
        passed,
        file_sha256,
        expected_sha256: None,
        hash_matches: None,
        schema: Some(manifest.schema),
        bundled_root_fingerprint_sha256: Some(bundled_fingerprint),
        local_root_match,
        trust_basis,
        images,
        issues,
    })
}

/// The name recorded for a packaged source: its file name, or `image`.
pub open spec fn source_name_of(source: Seq<char>) -> Seq<char> {
    match spec_file_name(source) {
        Some(n) => n,
        None => "image"@,
    }
}

/// The evidence record of one packaged image, from its audit. Only images
/// that validate against the local identity with exactly one well-placed
/// credential store are packaged.
pub fn package_record(source: &str, archive_path: String, audit: ImageAuditReport) -> (r: Result<BundleFileRecord, AppError>)
    ensures
        !(audit.state == AuditState::ValidLocal && spec_valid_generated_embedding(audit.container@)) ==> (r matches Err(e)
            && e.exit_code == 3 && e.message@ == "refusing to package "@ + source@ + ": "@ + audit.detail@),
        (audit.state == AuditState::ValidLocal && spec_valid_generated_embedding(audit.container@)) ==> (r matches Ok(rec) && {
            &&& rec.archive_path == archive_path
            &&& rec.source_name@ == source_name_of(source@)
            &&& rec.size == audit.file_size
            &&& rec.sha256 == audit.file_sha256
            &&& rec.format@ == audit.container.format@
            &&& rec.credential_location@ == audit.container.location@
            &&& rec.credential_bytes == audit.container.store_bytes
            &&& rec.manifest_count == audit.manifest_count
            &&& rec.active_manifest == audit.active_manifest
            &&& rec.signer_common_name == audit.signer_common_name
            &&& rec.signer_issuer == audit.signer_issuer
            &&& rec.published == audit.published
            &&& rec.upstream_manifest_count == audit.upstream_manifest_count
            &&& rec.upstream_preserved == audit.upstream_preserved
        }),
{
    let local = match audit.state {
        AuditState::ValidLocal => true,
        _ => false,
    };
    if !local || !audit.container.valid_generated_embedding() {
        let m = concat3("refusing to package ", source, ": ");
        return Err(AppError::verification(concat2(m.as_str(), audit.detail.as_str())));
    }
    let source_name = match file_name(source) {
        Some(n) => n,
        None => owned("image"),
    };
    Ok(BundleFileRecord {
        archive_path,
        source_name,
        size: audit.file_size,
        sha256: audit.file_sha256,
        format: owned(audit.container.format),
        credential_location: owned(audit.container.location),
        credential_bytes: audit.container.store_bytes,
        manifest_count: audit.manifest_count,
        active_manifest: audit.active_manifest,
        signer_common_name: audit.signer_common_name,
        signer_issuer: audit.signer_issuer,
        published: audit.published,
        upstream_manifest_count: audit.upstream_manifest_count,
        upstream_preserved: audit.upstream_preserved,
    })
}

/// The `evidence.json` document of a new bundle: this schema, a private/local
/// trust declaration with the root at `trust/root-ca.pem`, and the records.
pub fn bundle_manifest(created_at: String, tool_version: &str, root_fingerprint: String, files: Vec<BundleFileRecord>) -> (m: BundleManifest)
    ensures
        m.schema@ == "banksy-c2pa-evidence/v1"@,
        m.created_at == created_at,
        m.tool@ == "banksy-c2pa "@ + tool_version@,
        m.trust.mode@ == "local-private"@,
        !m.trust.public_trust,
        m.trust.root_certificate@ == "trust/root-ca.pem"@,
        m.trust.root_fingerprint_sha256 == root_fingerprint,
        m.files == files,
{
    BundleManifest {
        schema: owned(bundle_schema()),
        created_at,
        tool: concat2("banksy-c2pa ", tool_version),
        trust: BundleTrustRecord {
            mode: owned("local-private"),
            public_trust: false,
            root_certificate: owned("trust/root-ca.pem"),
            root_fingerprint_sha256: root_fingerprint,
        },
        files,
    }
}

/// One `SHA256SUMS` line of a record: its hash, two spaces, its archive path.
pub open spec fn checksum_line(r: BundleFileRecord) -> Seq<char> {
    r.sha256@ + "  "@ + r.archive_path@
}

/// The `SHA256SUMS` text of a list of records: one line each, in order, each
/// ended by a newline.
pub open spec fn spec_checksums_text(files: Seq<BundleFileRecord>) -> Seq<char> {
    joined(files.map_values(|r: BundleFileRecord| checksum_line(r)), "\n"@) + "\n"@
}

/// The `SHA256SUMS` text of a list of records.
pub fn checksums_text(files: &Vec<BundleFileRecord>) -> (r: String)
    ensures
        r@ == spec_checksums_text(files@),
{
    let mut lines: Vec<String> = Vec::new();
    let mut i: usize = 0;
    while i < files.len()
        invariant
            i <= files@.len(),
            texts(lines@) == files@.subrange(0, i as int).map_values(|r: BundleFileRecord| checksum_line(r)),
        decreases files@.len() - i,
    {
        let line = concat3(files[i].sha256.as_str(), "  ", files[i].archive_path.as_str());
        push_text(&mut lines, line);
        assert(files@.subrange(0, i + 1).map_values(|r: BundleFileRecord| checksum_line(r))
            =~= files@.subrange(0, i as int).map_values(|r: BundleFileRecord| checksum_line(r)).push(checksum_line(files@[i as int])));
        i = i + 1;
    }
    assert(files@.subrange(0, files@.len() as int) =~= files@);
    let mut text = crate::text::join_texts(&lines, "\n");
    push_str(&mut text, "\n");
    text
}

/// A freshly written bundle must pass its own audit with every image present.
pub fn check_temporary_bundle(report: &BundleAuditReport, images: usize) -> (r: Result<(), AppError>)
    ensures
        (report.passed && report.images@.len() == images) <==> r is Ok,
        r matches Err(e) ==> e.exit_code == 3 && e.message@
            == "temporary evidence bundle failed validation: "@ + joined(texts(report.issues@), "; "@),
{
    if !report.passed || report.images.len() != images {
        let detail = crate::text::join_texts(&report.issues, "; ");
        return Err(AppError::verification(concat2("temporary evidence bundle failed validation: ", detail.as_str())));
    }
    Ok(())
}

/// The report of a created bundle, once the committed file passed its audit.
pub fn creation_report(output: String, committed: &BundleAuditReport, root_fingerprint: String) -> (r: Result<BundleCreationReport, AppError>)
    ensures
        !committed.passed ==> (r matches Err(e) && e.exit_code == 3
            && e.message@ == "committed evidence bundle failed verification"@),
        committed.passed ==> (r matches Ok(c) && c.status@ == "ok"@ && c.output == output
            && c.file_sha256@ == committed.file_sha256@ && c.images == committed.images@.len()
            && c.root_fingerprint_sha256 == root_fingerprint && c.verified),
{
    if !committed.passed {
        return Err(AppError::verification(owned("committed evidence bundle failed verification")));
    }
    Ok(BundleCreationReport {
        status: "ok",
        output,
        file_sha256: committed.file_sha256.clone(),
        images: committed.images.len(),
        root_fingerprint_sha256: root_fingerprint,
        verified: true,
    })
}

/// An image chosen for a bundle: its path, its path in the archive, and the
/// file it resolves to (its canonical path, or its path when that cannot be
/// resolved).
#[derive(Debug)]
pub struct PackageFile {
    pub source: String,
    pub archive_path: String,
    pub identity: String,
}

/// A single image named as a bundle input: it must validate against the
/// local identity (`state` is its audit verdict), and it is stored under its
/// file name.
pub fn package_image_input(
    index: usize,
    multiple_roots: bool,
    root: &str,
    state: AuditState,
    identity: String,
) -> (r: Result<PackageFile, AppError>)
    requires
        index < usize::MAX,
    ensures
        state != AuditState::ValidLocal ==> (r matches Err(e) && e.exit_code == 3
            && e.message@ == root@ + " is not signed by the configured local identity"@),
        state == AuditState::ValidLocal ==> match spec_file_name(root@) {
            None => r matches Err(e) && e.exit_code == 1 && e.message@ == "cannot name bundle input "@ + root@,
            Some(name) => match spec_archive_image_path(index as nat, multiple_roots, name) {
                Ok(p) => r matches Ok(f) && f.source@ == root@ && f.archive_path@ == p && f.identity == identity,
                Err(m) => r matches Err(e) && e.exit_code == 1 && e.message@ == m,
            },
        },
{
    let local = match state {
        AuditState::ValidLocal => true,
        _ => false,
    };
    if !local {
        return Err(AppError::verification(concat2(root, " is not signed by the configured local identity")));
    }
    let name = match file_name(root) {
        Some(n) => n,
        None => return Err(AppError::runtime(concat2("cannot name bundle input ", root))),
    };
    let archive_path = archive_image_path(index, multiple_roots, name.as_str())?;
    Ok(PackageFile { source: owned(root), archive_path, identity })
}

/// The path of a found image relative to its input directory: its canonical
/// path without the directory's, else its file name, else its path.
pub open spec fn relative_source(source: Seq<char>, canonical: Seq<char>, base: Seq<char>) -> Seq<char> {
    match spec_strip_prefix(canonical, base) {
        Some(r) => r,
        None => match spec_file_name(source) {
            Some(n) => n,
            None => source,
        },
    }
}

/// The images packaged from one input directory: its locally signed images,
/// each with its canonical path, stored by their paths relative to the
/// directory (`base`, canonical).
pub open spec fn directory_files(
    index: nat,
    multiple_roots: bool,
    base: Seq<char>,
    items: Seq<(StatusItem, String)>,
) -> Result<Seq<(Seq<char>, Seq<char>, Seq<char>)>, Seq<char>>
    decreases items.len(),
{
    if items.len() == 0 {
        Ok(seq![])
    } else {
        match directory_files(index, multiple_roots, base, items.drop_last()) {
            Err(m) => Err(m),
            Ok(done) => {
                let (item, canonical) = items.last();
                if item.state != AssetState::SignedLocal {
                    Ok(done)
                } else {
                    match spec_archive_image_path(index, multiple_roots, relative_source(item.path@, canonical@, base)) {
                        Err(m) => Err(m),
                        Ok(p) => Ok(done.push((item.path@, p, canonical@))),
                    }
                }
            },
        }
    }
}

/// The views of package files: source, archive path, identity.
pub open spec fn package_views(v: Seq<PackageFile>) -> Seq<(Seq<char>, Seq<char>, Seq<char>)> {
    v.map_values(|f: PackageFile| (f.source@, f.archive_path@, f.identity@))
}

/// The images packaged from one input directory (see `directory_files`).
pub fn package_directory_files(
    index: usize,
    multiple_roots: bool,
    base: &str,
    items: &Vec<(StatusItem, String)>,
) -> (r: Result<Vec<PackageFile>, AppError>)
    requires
        index < usize::MAX,
    ensures
        match directory_files(index as nat, multiple_roots, base@, items@) {
            Ok(v) => r matches Ok(files) && package_views(files@) == v,
            Err(m) => r matches Err(e) && e.exit_code == 1 && e.message@ == m,
        },
{
    let mut files: Vec<PackageFile> = Vec::new();
    let mut i: usize = 0;
    assert(items@.subrange(0, 0) =~= Seq::<(StatusItem, String)>::empty());
    assert(package_views(files@) =~= Seq::<(Seq<char>, Seq<char>, Seq<char>)>::empty());
    while i < items.len()
        invariant
            index < usize::MAX,
            i <= items@.len(),
            directory_files(index as nat, multiple_roots, base@, items@.subrange(0, i as int)) == Ok::<
                Seq<(Seq<char>, Seq<char>, Seq<char>)>,
                Seq<char>,
            >(package_views(files@)),
        decreases items@.len() - i,
    {
        let ghost pre = items@.subrange(0, i + 1);
        proof {
            assert(pre.drop_last() =~= items@.subrange(0, i as int));
            assert(pre.last() == items@[i as int]);
        }
        let (item, canonical) = (&items[i].0, &items[i].1);
        let local = match item.state {
            AssetState::SignedLocal => true,
            _ => false,
        };
        if local {
            let relative = match strip_prefix(canonical.as_str(), base) {
                Some(r) => r,
                None => match file_name(item.path.as_str()) {
                    Some(n) => n,
                    None => item.path.clone(),
                },
            };
            let archive_path = match archive_image_path(index, multiple_roots, relative.as_str()) {
                Ok(p) => p,
                Err(e) => {
                    proof {
                        lemma_directory_files_stays(index as nat, multiple_roots, base@, items@, i + 1);
                    }
                    return Err(e);
                },
            };
            let ghost old_files = files@;
            files.push(PackageFile { source: item.path.clone(), archive_path, identity: canonical.clone() });
            assert(package_views(files@) =~= package_views(old_files).push(
                (item.path@, files@.last().archive_path@, canonical@),
            ));
        }
        i = i + 1;
    }
    assert(items@.subrange(0, items@.len() as int) =~= items@);
    Ok(files)
}

proof fn lemma_directory_files_stays(
    index: nat,
    multiple_roots: bool,
    base: Seq<char>,
    items: Seq<(StatusItem, String)>,
    k: int,
)
    requires
        0 <= k <= items.len(),
        directory_files(index, multiple_roots, base, items.subrange(0, k)) is Err,
    ensures
        directory_files(index, multiple_roots, base, items) == directory_files(index, multiple_roots, base, items.subrange(0, k)),
    decreases items.len() - k,
{
    if k < items.len() {
        let pre = items.subrange(0, k + 1);
        assert(pre.drop_last() =~= items.subrange(0, k));
        lemma_directory_files_stays(index, multiple_roots, base, items, k + 1);
    } else {
        assert(items.subrange(0, k) =~= items);
    }
}

/// The message of an input that does not exist.
pub fn missing_package_input(root: &str) -> (e: AppError)
    ensures
        e.exit_code == 1,
        e.message@ == "package input does not exist: "@ + root@,
{
    AppError::runtime(concat2("package input does not exist: ", root))
}

/// Whether two package files resolve to the same file.
pub open spec fn shared_identity(v: Seq<PackageFile>, j: int) -> bool {
    exists|m: int| 0 <= m < v.len() && m != j && (#[trigger] v[m]).identity@ == v[j].identity@
}

/// Whether two package files share an archive path.
pub open spec fn shared_archive_path(v: Seq<PackageFile>, j: int) -> bool {
    exists|m: int| 0 <= m < v.len() && m != j && (#[trigger] v[m]).archive_path@ == v[j].archive_path@
}

/// The sorted keys of package files: each key is some file's archive path
/// with its position, every file's key occurs, and none twice.
pub open spec fn sorted_index(ks: Seq<(Seq<char>, usize)>, files: Seq<PackageFile>) -> bool {
    &&& ks.len() == files.len()
    &&& ks.no_duplicates()
    &&& forall|q: int| 0 <= q < ks.len() ==> (#[trigger] ks[q]).1 < files.len()
        && ks[q] == (files[ks[q].1 as int].archive_path@, ks[q].1)
    &&& forall|j: int| 0 <= j < files.len() ==> ks.contains(((#[trigger] files[j]).archive_path@, j as usize))
}

/// Orders the chosen images by archive path and refuses an image included
/// twice or two images stored under one archive path. On success every input
/// appears once, in strictly increasing archive-path order.
pub fn order_package_files(files: Vec<PackageFile>) -> (r: Result<Vec<PackageFile>, AppError>)
    ensures
        r is Ok <==> forall|j: int| 0 <= j < files@.len() ==> !shared_identity(files@, j) && !shared_archive_path(files@, j),
        r matches Ok(v) ==> {
            &&& v@.len() == files@.len()
            &&& forall|k: int| 0 <= k < v@.len() ==> package_views(files@).contains(#[trigger] package_views(v@)[k])
            &&& forall|a: int, b: int| 0 <= a < b < v@.len() ==> text_lt((#[trigger] v@[a]).archive_path@, (#[trigger] v@[b]).archive_path@)
        },
        r matches Err(e) ==> e.exit_code == 1 && exists|j: int| 0 <= j < files@.len() && {
            ||| (shared_identity(files@, j) && e.message@ == "input was included more than once: "@ + (#[trigger] files@[j]).source@)
            ||| (shared_archive_path(files@, j) && e.message@ == "multiple inputs map to the same archive path: "@ + files@[j].archive_path@)
        },
{
    let n = files.len();
    let mut keyed: Vec<(String, usize)> = Vec::new();
    let mut i: usize = 0;
    while i < n
        invariant
            n == files@.len(),
            i <= n,
            keyed@.len() == i,
            forall|k: int| 0 <= k < i ==> (#[trigger] key_views(keyed@)[k]) == (files@[k].archive_path@, k as usize),
        decreases n - i,
    {
        let ghost prev = keyed@;
        keyed.push((files[i].archive_path.clone(), i));
        proof {
            assert forall|k: int| 0 <= k < i + 1 implies (#[trigger] key_views(keyed@)[k]) == (files@[k].archive_path@, k as usize) by {
                assert(key_views(keyed@)[k] == key_view(keyed@[k]));
                if k < i {
                    assert(keyed@[k] == prev[k]);
                    assert(key_views(prev)[k] == key_view(prev[k]));
                }
            }
        }
        i = i + 1;
    }
    let ghost kin = key_views(keyed@);
    let sorted = sort_keyed(keyed);
    let ghost ks = key_views(sorted@);
    proof {
        assert forall|k: int| 0 <= k < ks.len() implies (#[trigger] ks[k]).1 < n
            && ks[k] == (files@[ks[k].1 as int].archive_path@, ks[k].1) by {
            vstd::seq_lib::to_multiset_contains(ks, ks[k]);
            vstd::seq_lib::to_multiset_contains(kin, ks[k]);
            assert(ks.contains(ks[k]));
            let m = choose|m: int| 0 <= m < kin.len() && kin[m] == ks[k];
            assert(kin[m] == (files@[m].archive_path@, m as usize));
        }
        assert forall|j: int| 0 <= j < files@.len() implies ks.contains(((#[trigger] files@[j]).archive_path@, j as usize)) by {
            assert(kin[j] == (files@[j].archive_path@, j as usize));
            vstd::seq_lib::to_multiset_contains(ks, kin[j]);
            vstd::seq_lib::to_multiset_contains(kin, kin[j]);
            assert(kin.contains(kin[j]));
        }
        assert(kin.no_duplicates()) by {
            assert forall|a: int, b: int| 0 <= a < kin.len() && 0 <= b < kin.len() && a != b implies kin[a] != kin[b] by {
                assert(kin[a].1 == a as usize && kin[b].1 == b as usize);
            }
        }
        kin.lemma_multiset_has_no_duplicates();
        ks.lemma_multiset_has_no_duplicates_conv();
        assert(ks.len() == files@.len());
        assert(ks.no_duplicates());
        assert(forall|q: int| 0 <= q < ks.len() ==> (#[trigger] ks[q]).1 < files@.len()
            && ks[q] == (files@[ks[q].1 as int].archive_path@, ks[q].1));
        assert(sorted_index(ks, files@));
    }
    let mut ordered: Vec<PackageFile> = Vec::new();
    let mut k: usize = 0;
    while k < sorted.len()
        invariant
            n == files@.len(),
            ks == key_views(sorted@),
            sorted_index(ks, files@),
            k <= n,
            ordered@.len() == k,
            forall|q: int| 0 <= q < k ==> package_views(ordered@)[q] == #[trigger] package_views(files@)[ks[q].1 as int],
        decreases n - k,
    {
        let j = sorted[k].1;
        assert(ks[k as int].1 == j);
        let f = &files[j];
        let ghost before = ordered@;
        ordered.push(PackageFile { source: f.source.clone(), archive_path: f.archive_path.clone(), identity: f.identity.clone() });
        proof {
            assert forall|q: int| 0 <= q < k + 1 implies package_views(ordered@)[q] == #[trigger] package_views(files@)[ks[q].1 as int] by {
                if q < k {
                    assert(ordered@[q] == before[q]);
                }
            }
        }
        k = k + 1;
    }
    // The checks, in archive-path order: a repeated file, then a repeated name.
    let mut a: usize = 0;
    while a < n
        invariant
            n == files@.len(),
            ks == key_views(sorted@),
            sorted_index(ks, files@),
            keys_sorted(ks),
            a <= n,
            ordered@.len() == n,
            forall|q: int| 0 <= q < n ==> package_views(ordered@)[q] == #[trigger] package_views(files@)[ks[q].1 as int],
            forall|p: int, q: int| 0 <= p < q < a ==> (#[trigger] ordered@[p]).identity@ != (#[trigger] ordered@[q]).identity@
                && ordered@[p].archive_path@ != ordered@[q].archive_path@,
        decreases n - a,
    {
        let mut b: usize = 0;
        while b < a
            invariant
                n == files@.len(),
                sorted_index(ks, files@),
                forall|q: int| 0 <= q < n ==> package_views(ordered@)[q] == #[trigger] package_views(files@)[ks[q].1 as int],
                a < n,
                ordered@.len() == n,
                b <= a,
                forall|p: int| 0 <= p < b ==> (#[trigger] ordered@[p]).identity@ != ordered@[a as int].identity@,
            decreases a - b,
        {
            if text_is(ordered[b].identity.as_str(), ordered[a].identity.as_str()) {
                proof {
                    let j = ks[a as int].1 as int;
                    let m = ks[b as int].1 as int;
                    assert(package_views(ordered@)[a as int] == package_views(files@)[j]);
                    assert(package_views(ordered@)[b as int] == package_views(files@)[m]);
                    assert(m != j) by {
                        assert(ks.no_duplicates());
                        assert(ks[a as int] != ks[b as int]);
                    }
                    assert(files@[m].identity@ == files@[j].identity@);
                    assert(shared_identity(files@, j));
                    assert(ordered@[a as int].source@ == files@[j].source@);
                }
                return Err(AppError::runtime(concat2("input was included more than once: ", ordered[a].source.as_str())));
            }
            b = b + 1;
        }
        let mut c: usize = 0;
        while c < a
            invariant
                n == files@.len(),
                sorted_index(ks, files@),
                forall|q: int| 0 <= q < n ==> package_views(ordered@)[q] == #[trigger] package_views(files@)[ks[q].1 as int],
                a < n,
                ordered@.len() == n,
                c <= a,
                forall|p: int| 0 <= p < c ==> (#[trigger] ordered@[p]).archive_path@ != ordered@[a as int].archive_path@,
            decreases a - c,
        {
            if text_is(ordered[c].archive_path.as_str(), ordered[a].archive_path.as_str()) {
                proof {
                    let j = ks[a as int].1 as int;
                    let m = ks[c as int].1 as int;
                    assert(package_views(ordered@)[a as int] == package_views(files@)[j]);
                    assert(package_views(ordered@)[c as int] == package_views(files@)[m]);
                    assert(m != j) by {
                        assert(ks.no_duplicates());
                        assert(ks[a as int] != ks[c as int]);
                    }
                    assert(shared_archive_path(files@, j));
                }
                return Err(AppError::runtime(concat2("multiple inputs map to the same archive path: ", ordered[a].archive_path.as_str())));
            }
            c = c + 1;
        }
        a = a + 1;
    }
    proof {
        // Every input is some ordered file, so no two inputs share a file or a name.
        assert forall|j: int| 0 <= j < files@.len() implies !shared_identity(files@, j) && !shared_archive_path(files@, j) by {
            assert(ks.contains((files@[j].archive_path@, j as usize)));
            let kj = choose|k: int| 0 <= k < ks.len() && (#[trigger] ks[k]) == (files@[j].archive_path@, j as usize);
            assert(ks[kj].1 == j as usize);
            if shared_identity(files@, j) || shared_archive_path(files@, j) {
                let m = choose|m: int| 0 <= m < files@.len() && m != j && ((#[trigger] files@[m]).identity@ == files@[j].identity@
                    || files@[m].archive_path@ == files@[j].archive_path@);
                assert(ks.contains((files@[m].archive_path@, m as usize)));
                let km = choose|k: int| 0 <= k < ks.len() && (#[trigger] ks[k]) == (files@[m].archive_path@, m as usize);
                assert(ks[km].1 == m as usize);
                assert(package_views(ordered@)[kj] == package_views(files@)[j]);
                assert(package_views(ordered@)[km] == package_views(files@)[m]);
                assert(km != kj);
                if km < kj {
                    assert(ordered@[km].identity@ != ordered@[kj].identity@);
                } else {
                    assert(ordered@[kj].identity@ != ordered@[km].identity@);
                }
            }
        }
        assert forall|q: int| 0 <= q < ordered@.len() implies package_views(files@).contains(#[trigger] package_views(ordered@)[q]) by {
            let j = ks[q].1 as int;
            assert(0 <= j < files@.len());
            assert(package_views(ordered@)[q] == package_views(files@)[j]);
        }
        assert forall|p: int, q: int| 0 <= p < q < ordered@.len() implies text_lt((#[trigger] ordered@[p]).archive_path@, (#[trigger] ordered@[q]).archive_path@) by {
            assert(!key_lt(ks[q], ks[p]));
            assert(package_views(ordered@)[p] == package_views(files@)[ks[p].1 as int]);
            assert(package_views(ordered@)[q] == package_views(files@)[ks[q].1 as int]);
            assert(ordered@[p].archive_path@ == ks[p].0);
            assert(ordered@[q].archive_path@ == ks[q].0);
            crate::order::lemma_text_lt_total(ks[p].0, ks[q].0);
        }
    }
    Ok(ordered)
}

/// A text held in one line of a `SHA256SUMS` file: no line feed, and no
/// carriage return at its end.
pub open spec fn one_line(t: Seq<char>) -> bool {
    !t.contains('\n') && (t.len() == 0 || t.last() != '\r')
}

/// A record whose checksum line reads back: a hash of 64 hexadecimal digits
/// and an archive path that stays on its line.
pub open spec fn checksum_record_ok(r: BundleFileRecord) -> bool {
    &&& r.sha256@.len() == 64
    &&& forall|i: int| 0 <= i < 64 ==> is_hex_digit(#[trigger] r.sha256@[i])
    &&& one_line(r.archive_path@)
}

proof fn lemma_joined_first(v: Seq<Seq<char>>, sep: Seq<char>)
    requires
        v.len() >= 2,
    ensures
        joined(v, sep) == v[0] + sep + joined(v.drop_first(), sep),
    decreases v.len(),
{
    if v.len() == 2 {
        assert(v.drop_last() =~= seq![v[0]]);
        assert(v.drop_first() =~= seq![v[1]]);
        assert(joined(v.drop_last(), sep) == v[0]);
        assert(joined(v.drop_first(), sep) == v[1]);
        assert(joined(v, sep) == joined(v.drop_last(), sep) + sep + v.last());
        assert(joined(v, sep) =~= v[0] + sep + joined(v.drop_first(), sep));
    } else {
        let x = v.drop_last().drop_first();
        lemma_joined_first(v.drop_last(), sep);
        assert(x =~= v.drop_first().drop_last());
        assert(v.drop_first().last() == v.last());
        assert(v.drop_last()[0] == v[0]);
        assert(joined(v, sep) == joined(v.drop_last(), sep) + sep + v.last());
        assert(joined(v.drop_first(), sep) == joined(x, sep) + sep + v.last());
        assert(joined(v, sep) =~= v[0] + sep + joined(v.drop_first(), sep));
    }
}

proof fn lemma_find_char_none(s: Seq<char>, c: char, from: int)
    requires
        0 <= from <= s.len(),
        !s.contains(c),
    ensures
        crate::text::find_char(s, c, from) == s.len(),
    decreases s.len() - from,
{
    if from < s.len() {
        assert(s[from] != c);
        lemma_find_char_none(s, c, from + 1);
    }
}

proof fn lemma_find_char_prefix(a: Seq<char>, b: Seq<char>, c: char, from: int)
    requires
        0 <= from <= a.len(),
        !a.contains(c),
        b.len() > 0,
        b[0] == c,
    ensures
        crate::text::find_char(a + b, c, from) == a.len(),
    decreases a.len() - from,
{
    let s = a + b;
    if from < a.len() {
        assert(s[from] == a[from]);
        assert(a[from] != c);
        lemma_find_char_prefix(a, b, c, from + 1);
    } else {
        assert(s[from] == b[0]);
    }
}

/// The lines of `line + "\n" + rest` are the line and the lines of the rest.
proof fn lemma_split_first_line(line: Seq<char>, rest: Seq<char>)
    requires
        !line.contains('\n'),
    ensures
        split_lines(line + "\n"@ + rest) == seq![crate::text::strip_cr(line)] + split_lines(rest),
{
    reveal_strlit("\n");
    let s = line + "\n"@ + rest;
    assert(s =~= line + ("\n"@ + rest));
    lemma_find_char_prefix(line, "\n"@ + rest, '\n', 0);
    assert(s.subrange(0, line.len() as int) =~= line);
    assert(s.subrange(line.len() + 1int, s.len() as int) =~= rest);
}

/// The lines of a text made of lines each ended by a line feed.
proof fn lemma_split_terminated(v: Seq<Seq<char>>)
    requires
        v.len() >= 1,
        forall|k: int| 0 <= k < v.len() ==> !(#[trigger] v[k]).contains('\n'),
    ensures
        split_lines(joined(v, "\n"@) + "\n"@) == v.map_values(|t: Seq<char>| crate::text::strip_cr(t)),
    decreases v.len(),
{
    if v.len() == 1 {
        assert(joined(v, "\n"@) == v[0]);
        lemma_split_first_line(v[0], Seq::<char>::empty());
        assert(v[0] + "\n"@ + Seq::<char>::empty() =~= v[0] + "\n"@);
        assert(split_lines(Seq::<char>::empty()) =~= Seq::<Seq<char>>::empty());
        assert(seq![crate::text::strip_cr(v[0])] + Seq::<Seq<char>>::empty() =~= v.map_values(|t: Seq<char>| crate::text::strip_cr(t)));
    } else {
        let rest = v.drop_first();
        assert forall|k: int| 0 <= k < rest.len() implies !(#[trigger] rest[k]).contains('\n') by {
            assert(rest[k] == v[k + 1]);
        }
        lemma_split_terminated(rest);
        lemma_joined_first(v, "\n"@);
        let tail = joined(rest, "\n"@) + "\n"@;
        assert(joined(v, "\n"@) + "\n"@ =~= v[0] + "\n"@ + tail);
        lemma_split_first_line(v[0], tail);
        assert(seq![crate::text::strip_cr(v[0])] + rest.map_values(|t: Seq<char>| crate::text::strip_cr(t))
            =~= v.map_values(|t: Seq<char>| crate::text::strip_cr(t)));
    }
}

proof fn lemma_two_spaces_after_hash(line: Seq<char>, from: int)
    requires
        0 <= from <= 64,
        line.len() >= 66,
        forall|i: int| 0 <= i < 64 ==> #[trigger] line[i] != ' ',
        line[64] == ' ',
        line[65] == ' ',
    ensures
        find_two_spaces(line, from) == 64,
    decreases 64 - from,
{
    if from < 64 {
        assert(line[from] != ' ');
        lemma_two_spaces_after_hash(line, from + 1);
    }
}

/// The pairs read back from the checksum lines of records.
pub open spec fn record_pairs(files: Seq<BundleFileRecord>) -> Seq<(Seq<char>, Seq<char>)> {
    files.map_values(|r: BundleFileRecord| (r.archive_path@, lower(r.sha256@)))
}

proof fn lemma_checksum_fold_records(files: Seq<BundleFileRecord>)
    requires
        forall|k: int| 0 <= k < files.len() ==> checksum_record_ok(#[trigger] files[k]),
    ensures
        checksum_fold(files.map_values(|r: BundleFileRecord| checksum_line(r))).0 == record_pairs(files),
        record_paths(files).no_duplicates() ==> checksum_fold(files.map_values(|r: BundleFileRecord| checksum_line(r))).1
            == Seq::<Seq<char>>::empty(),
    decreases files.len(),
{
    let lines = files.map_values(|r: BundleFileRecord| checksum_line(r));
    if files.len() > 0 {
        let before = files.drop_last();
        assert forall|k: int| 0 <= k < before.len() implies checksum_record_ok(#[trigger] before[k]) by {
            assert(before[k] == files[k]);
        }
        lemma_checksum_fold_records(before);
        assert(lines.drop_last() =~= before.map_values(|r: BundleFileRecord| checksum_line(r)));
        let r = files.last();
        assert(checksum_record_ok(files[files.len() - 1]));
        let line = checksum_line(r);
        reveal_strlit("  ");
        assert(line =~= r.sha256@ + "  "@ + r.archive_path@);
        assert forall|i: int| 0 <= i < 64 implies #[trigger] line[i] != ' ' by {
            assert(line[i] == r.sha256@[i]);
            assert(is_hex_digit(r.sha256@[i]));
        }
        assert(line[64] == ' ' && line[65] == ' ');
        lemma_two_spaces_after_hash(line, 0);
        assert(line.subrange(0, 64) =~= r.sha256@);
        assert(line.subrange(66, line.len() as int) =~= r.archive_path@);
        let acc = checksum_fold(lines.drop_last());
        assert(acc.0 == record_pairs(before));
        assert(record_pairs(files) =~= record_pairs(before).push((r.archive_path@, lower(r.sha256@))));
        if record_paths(files).no_duplicates() {
            assert(record_paths(before).no_duplicates()) by {
                assert forall|a: int, b: int| 0 <= a < record_paths(before).len() && 0 <= b < record_paths(before).len()
                    && a != b implies record_paths(before)[a] != record_paths(before)[b] by {
                    assert(record_paths(before)[a] == record_paths(files)[a]);
                    assert(record_paths(before)[b] == record_paths(files)[b]);
                }
            }
            if has_key(acc.0, r.archive_path@) {
                let k = choose|k: int| 0 <= k < acc.0.len() && (#[trigger] acc.0[k]).0 == r.archive_path@;
                assert(acc.0[k] == (before[k].archive_path@, lower(before[k].sha256@)));
                assert(record_paths(files)[k] == record_paths(files)[files.len() - 1]);
            }
        }
    }
}

/// Reading back the `SHA256SUMS` text written for a bundle gives every
/// record's archive path with its hash (in lowercase), in order; when no two
/// records share a path, nothing is reported. This holds for records whose
/// hashes are 64 hexadecimal digits and whose paths stay on one line.
pub proof fn law_checksums_read_back(files: Seq<BundleFileRecord>)
    requires
        files.len() > 0,
        forall|k: int| 0 <= k < files.len() ==> checksum_record_ok(#[trigger] files[k]),
    ensures
        checksum_fold(split_lines(spec_checksums_text(files))).0 == record_pairs(files),
        record_paths(files).no_duplicates() ==> checksum_fold(split_lines(spec_checksums_text(files))).1
            == Seq::<Seq<char>>::empty(),
{
    let lines = files.map_values(|r: BundleFileRecord| checksum_line(r));
    reveal_strlit("  ");
    assert forall|k: int| 0 <= k < lines.len() implies !(#[trigger] lines[k]).contains('\n') by {
        let r = files[k];
        assert(checksum_record_ok(r));
        let line = lines[k];
        assert(line =~= r.sha256@ + "  "@ + r.archive_path@);
        if line.contains('\n') {
            let j = choose|j: int| 0 <= j < line.len() && line[j] == '\n';
            if j < 64 {
                assert(is_hex_digit(r.sha256@[j]));
            } else if j >= 66 {
                assert(r.archive_path@[j - 66] == '\n');
                assert(r.archive_path@.contains('\n'));
            }
        }
    }
    lemma_split_terminated(lines);
    assert(lines.map_values(|t: Seq<char>| crate::text::strip_cr(t)) =~= lines) by {
        assert forall|k: int| 0 <= k < lines.len() implies crate::text::strip_cr(lines[k]) == lines[k] by {
            let r = files[k];
            assert(checksum_record_ok(r));
            let line = lines[k];
            assert(line =~= r.sha256@ + "  "@ + r.archive_path@);
            if r.archive_path@.len() > 0 {
                assert(line.last() == r.archive_path@.last());
            } else {
                assert(line.last() == ' ');
            }
        }
    }
    lemma_checksum_fold_records(files);
}

/// The human-readable text of a created bundle.
pub open spec fn spec_creation_text(r: BundleCreationReport) -> Seq<char> {
    "Evidence bundle created\n"@
        + "\nOutput\n  "@ + r.output@ + "\n"@
        + "\nImages\n  "@ + decimal(r.images as nat) + "\n"@
        + "\nBundle SHA-256\n  "@ + r.file_sha256@ + "\n"@
        + "\nBundled local root SHA-256\n  "@ + r.root_fingerprint_sha256@ + "\n"@
        + "\nArchive verification\n  passed"@
}

impl BundleCreationReport {
    /// The human-readable text of this report.
    pub fn render(&self) -> (t: String)
        ensures
            t@ == spec_creation_text(*self),
    {
        let mut t = owned("Evidence bundle created\n");
        push_str(&mut t, "\nOutput\n  ");
        push_str(&mut t, self.output.as_str());
        push_str(&mut t, "\n");
        push_str(&mut t, "\nImages\n  ");
        push_decimal(&mut t, self.images as u64);
        push_str(&mut t, "\n");
        push_str(&mut t, "\nBundle SHA-256\n  ");
        push_str(&mut t, self.file_sha256.as_str());
        push_str(&mut t, "\n");
        push_str(&mut t, "\nBundled local root SHA-256\n  ");
        push_str(&mut t, self.root_fingerprint_sha256.as_str());
        push_str(&mut t, "\n");
        push_str(&mut t, "\nArchive verification\n  passed");
        assert(t@ =~= spec_creation_text(*self));
        t
    }
}

/// The default evidence bundle of a directory: a file named after the
/// creation time (UTC, as `YYYYMMDDTHHMMSSZ`).
pub fn default_bundle_path(directory: &str, timestamp: &str) -> (r: String)
    ensures
        r@ == spec_join(directory@, "banksy-c2pa-evidence-"@ + timestamp@ + ".zip"@),
{
    let name = concat3("banksy-c2pa-evidence-", timestamp, ".zip");
    join(directory, name.as_str())
}

/// The directory a bundle is written in: the output's parent, or `.` when
/// it has none (an empty parent stays empty).
pub open spec fn spec_bundle_directory(output: Seq<char>) -> Seq<char> {
    match spec_parent(output) {
        Some(p) => p,
        None => "."@,
    }
}

/// The directory a bundle is written in.
pub fn bundle_directory(output: &str) -> (r: String)
    ensures
        r@ == spec_bundle_directory(output@),
{
    match parent(output) {
        Some(p) => p,
        None => owned("."),
    }
}

/// The checks made before a bundle is written, in order: something to
/// package, an existing output replaced only with `force`, and an existing
/// directory to write in.
pub fn check_bundle_destination(
    files: usize,
    output: &str,
    output_exists: bool,
    force: bool,
    directory_exists: bool,
) -> (r: Result<(), AppError>)
    ensures
        files == 0 ==> (r matches Err(e) && e.exit_code == 3
            && e.message@ == "no files signed by the configured local identity were found"@),
        files > 0 && output_exists && !force ==> (r matches Err(e) && e.exit_code == 1
            && e.message@ == "existing bundle found: "@ + output@ + "; use --force to replace it"@),
        files > 0 && !(output_exists && !force) && !directory_exists ==> (r matches Err(e) && e.exit_code == 1
            && e.message@ == "bundle output directory does not exist: "@ + spec_bundle_directory(output@)),
        files > 0 && !(output_exists && !force) && directory_exists ==> r is Ok,
{
    if files == 0 {
        return Err(AppError::verification(owned("no files signed by the configured local identity were found")));
    }
    if output_exists && !force {
        return Err(AppError::runtime(concat3("existing bundle found: ", output, "; use --force to replace it")));
    }
    if !directory_exists {
        let d = bundle_directory(output);
        return Err(AppError::runtime(concat2("bundle output directory does not exist: ", d.as_str())));
    }
    Ok(())
}

/// A metadata entry of a bundle must exist (`size` is its size when it
/// does) and stay within `MAX_METADATA_SIZE`.
pub fn check_metadata_entry(name: &str, size: Option<u64>) -> (r: Result<(), AppError>)
    ensures
        size.is_none() ==> (r matches Err(e) && e.exit_code == 3 && e.message@ == "missing bundle entry: "@ + name@),
        size matches Some(n) && n > MAX_METADATA_SIZE ==> (r matches Err(e) && e.exit_code == 3
            && e.message@ == "bundle metadata entry is too large: "@ + name@),
        size matches Some(n) && n <= MAX_METADATA_SIZE ==> r is Ok,
{
    match size {
        None => Err(AppError::verification(concat2("missing bundle entry: ", name))),
        Some(n) => if n > MAX_METADATA_SIZE {
            Err(AppError::verification(concat2("bundle metadata entry is too large: ", name)))
        } else {
            Ok(())
        },
    }
}

/// An evidence archive holds at most `MAX_ARCHIVE_ENTRIES` entries.
pub fn check_entry_count(entries: usize) -> (r: Result<(), AppError>)
    ensures
        entries <= MAX_ARCHIVE_ENTRIES <==> r is Ok,
        r matches Err(e) ==> e.exit_code == 3 && e.message@ == "archive has more than 512 entries"@,
{
    if entries > MAX_ARCHIVE_ENTRIES {
        return Err(AppError::verification(owned("archive has more than 512 entries")));
    }
    Ok(())
}

} // verus!
