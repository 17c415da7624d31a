//! What a directory walk collects, and the order in which collected paths
//! are reported: component by component, as `std::path::Path` orders them.
use vstd::prelude::*;

use crate::error::AppError;
use crate::audit::{audit_preconditions, is_supported_image, is_zip, msg_bad_sha256, spec_is_supported_image, spec_is_zip, spec_normalize_sha256};
use crate::order::{
    key_lt, key_views, keys_sorted, lemma_key_not_lt, lemma_text_lt_asymmetric, lemma_text_lt_irreflexive,
    sort_keyed,
};
use crate::paths::{components, spec_components, PathPart};
use crate::scan::{is_supported_image_path, spec_supported_image_path};
use crate::text::{chars_of, chars_start_with, concat2, concat3, has_text, owned, push_char, push_str, push_text, starts_with, texts};

verus! {

broadcast use vstd::seq_lib::group_to_multiset_ensures;

/// The input paths of a command, or the current directory when none is given.
pub open spec fn spec_roots_or_current(roots: Seq<String>) -> Seq<Seq<char>> {
    if roots.len() == 0 { seq!["."@] } else { texts(roots) }
}

/// The input paths of a command, or the current directory when none is given.
pub fn roots_or_current(roots: Vec<String>) -> (r: Vec<String>)
    ensures
        texts(r@) == spec_roots_or_current(roots@),
{
    if roots.len() == 0 {
        let mut r: Vec<String> = Vec::new();
        push_text(&mut r, owned("."));
        proof {
            reveal_strlit(".");
        }
        assert(texts(r@) =~= seq!["."@]);
        r
    } else {
        roots
    }
}

/// What a walk does with one directory entry.
#[derive(Debug)]
pub enum EntryAction {
    Skip,
    Collect,
    Descend,
}

/// The scan of images: hidden names are skipped, PNG and JPEG files are
/// collected, and directories are entered only in a recursive scan.
pub open spec fn spec_image_entry(name: Seq<char>, path: Seq<char>, is_file: bool, is_dir: bool, recursive: bool) -> EntryAction {
    if starts_with(name, "."@) {
        EntryAction::Skip
    } else if is_file && spec_supported_image_path(path) {
        EntryAction::Collect
    } else if recursive && is_dir {
        EntryAction::Descend
    } else {
        EntryAction::Skip
    }
}

/// A walk enters a subdirectory only when it is recursive: without the flag
/// a directory entry is never descended into, by the image scan or the audit
/// walk, and a named directory is still listed one level deep.
pub proof fn law_walk_descends_only_when_recursive(name: Seq<char>, path: Seq<char>, is_file: bool, is_dir: bool)
    ensures
        spec_image_entry(name, path, is_file, is_dir, false) != EntryAction::Descend,
        spec_audit_entry(name, path, is_file, is_dir, false) != EntryAction::Descend,
        !starts_with(name, "."@) && is_dir && !is_file ==> spec_image_entry(name, path, is_file, is_dir, true) == EntryAction::Descend,
{
}

/// What a scan of images does with a directory entry named `name` at `path`.
pub fn image_entry(name: &str, path: &str, is_file: bool, is_dir: bool, recursive: bool) -> (r: EntryAction)
    ensures
        r == spec_image_entry(name@, path@, is_file, is_dir, recursive),
{
    let cs = chars_of(name);
    if chars_start_with(cs.as_slice(), ".") {
        EntryAction::Skip
    } else if is_file && is_supported_image_path(path) {
        EntryAction::Collect
    } else if recursive && is_dir {
        EntryAction::Descend
    } else {
        EntryAction::Skip
    }
}

/// The walk of audit targets: hidden names are skipped, images and evidence
/// ZIPs are collected, and directories are entered only when recursive.
pub open spec fn spec_audit_entry(name: Seq<char>, path: Seq<char>, is_file: bool, is_dir: bool, recursive: bool) -> EntryAction {
    if starts_with(name, "."@) {
        EntryAction::Skip
    } else if is_file && (spec_is_supported_image(path) || spec_is_zip(path)) {
        EntryAction::Collect
    } else if recursive && is_dir {
        EntryAction::Descend
    } else {
        EntryAction::Skip
    }
}

/// What a walk of audit targets does with a directory entry.
pub fn audit_entry(name: &str, path: &str, is_file: bool, is_dir: bool, recursive: bool) -> (r: EntryAction)
    ensures
        r == spec_audit_entry(name@, path@, is_file, is_dir, recursive),
{
    let cs = chars_of(name);
    if chars_start_with(cs.as_slice(), ".") {
        EntryAction::Skip
    } else if is_file && (is_supported_image(path) || is_zip(path)) {
        EntryAction::Collect
    } else if recursive && is_dir {
        EntryAction::Descend
    } else {
        EntryAction::Skip
    }
}

/// What the file system says about a path named as a scan input, without
/// following a symbolic link.
#[derive(Debug)]
pub enum PathKind {
    /// Its metadata could not be read, for the given reason.
    Unavailable(String),
    Symlink,
    File,
    Directory,
    Other,
}

/// What a scan does with a path named as an input.
#[derive(Debug)]
pub enum RootEntry {
    /// The path is a candidate image, with the reason it cannot be used, if any.
    Candidate(Option<String>),
    /// The path is a directory to walk.
    Walk,
}

/// A scan input: a regular file is a candidate and a directory is walked;
/// anything else is reported as a candidate that cannot be used.
pub open spec fn spec_root_entry(path: Seq<char>, kind: PathKind) -> (Option<Seq<char>>, bool) {
    match kind {
        PathKind::Unavailable(e) => (Some("cannot inspect "@ + path + ": "@ + e@), false),
        PathKind::Symlink => (Some("symbolic links are not followed"@), false),
        PathKind::File => (None, false),
        PathKind::Directory => (None, true),
        PathKind::Other => (Some("path is not a regular file or directory"@), false),
    }
}

/// Decides what a scan does with a path named as an input.
pub fn root_entry(path: &str, kind: PathKind) -> (r: RootEntry)
    ensures
        match spec_root_entry(path@, kind) {
            (_, true) => r is Walk,
            (None, false) => r matches RootEntry::Candidate(None),
            (Some(m), false) => r matches RootEntry::Candidate(Some(s)) && s@ == m,
        },
{
    match kind {
        PathKind::Unavailable(e) => {
            let m = concat3("cannot inspect ", path, ": ");
            RootEntry::Candidate(Some(concat2(m.as_str(), e.as_str())))
        },
        PathKind::Symlink => RootEntry::Candidate(Some(owned("symbolic links are not followed"))),
        PathKind::File => RootEntry::Candidate(None),
        PathKind::Directory => RootEntry::Walk,
        PathKind::Other => RootEntry::Candidate(Some(owned("path is not a regular file or directory"))),
    }
}

/// The sort key of one path component: a tag that orders the kinds of
/// components as `std::path::Component` does (prefix, root, `.`, `..`, names),
/// then the name, then a terminator that sorts before every character of a
/// name.
pub open spec fn part_key(p: PathPart) -> Seq<char> {
    match p {
        PathPart::Prefix => seq!['\u{1}', '\u{0}'],
        PathPart::Root => seq!['\u{2}', '\u{0}'],
        PathPart::CurDir => seq!['\u{3}', '\u{0}'],
        PathPart::ParentDir => seq!['\u{4}', '\u{0}'],
        PathPart::Normal(s) => seq!['\u{5}'] + s@ + seq!['\u{0}'],
    }
}

/// The sort key of a sequence of components.
pub open spec fn parts_key(ps: Seq<PathPart>) -> Seq<char>
    decreases ps.len(),
{
    if ps.len() == 0 {
        seq![]
    } else {
        parts_key(ps.drop_last()) + part_key(ps.last())
    }
}

/// The sort key of a path: its components' keys in order. Comparing keys as
/// texts compares paths component by component.
pub open spec fn path_key(p: Seq<char>) -> Seq<char> {
    parts_key(spec_components(p))
}

fn path_sort_key(p: &str) -> (k: String)
    ensures
        k@ == path_key(p@),
{
    let parts = components(p);
    let mut k = String::new();
    let mut i: usize = 0;
    while i < parts.len()
        invariant
            i <= parts@.len(),
            parts@ == spec_components(p@),
            k@ == parts_key(parts@.subrange(0, i as int)),
        decreases parts@.len() - i,
    {
        let ghost before = k@;
        match &parts[i] {
            PathPart::Prefix => push_char(&mut k, '\u{1}'),
            PathPart::Root => push_char(&mut k, '\u{2}'),
            PathPart::CurDir => push_char(&mut k, '\u{3}'),
            PathPart::ParentDir => push_char(&mut k, '\u{4}'),
            PathPart::Normal(s) => {
                push_char(&mut k, '\u{5}');
                push_str(&mut k, s.as_str());
            },
        }
        push_char(&mut k, '\u{0}');
        proof {
            let pre = parts@.subrange(0, i + 1);
            assert(pre.drop_last() =~= parts@.subrange(0, i as int));
            assert(pre.last() == parts@[i as int]);
            assert(k@ =~= before + part_key(parts@[i as int]));
        }
        i = i + 1;
    }
    assert(parts@.subrange(0, parts@.len() as int) =~= parts@);
    k
}

/// The rank of the path at position `j`: its key, then its position.
pub open spec fn path_rank(paths: Seq<String>, j: int) -> (Seq<char>, usize) {
    (path_key(paths[j]@), j as usize)
}

/// Positions that list paths in strictly increasing rank: in path order,
/// equal paths in their given order.
pub open spec fn in_path_order(paths: Seq<String>, r: Seq<usize>) -> bool {
    &&& forall|q: int| 0 <= q < r.len() ==> (#[trigger] r[q] as int) < paths.len()
    &&& forall|q1: int, q2: int|
        0 <= q1 < q2 < r.len() ==> key_lt(path_rank(paths, #[trigger] r[q1] as int), path_rank(paths, #[trigger] r[q2] as int))
}

/// The keyed order never puts a key before itself, nor two keys both ways.
proof fn lemma_key_lt_strict(a: (Seq<char>, usize), b: (Seq<char>, usize))
    ensures
        !key_lt(a, a),
        key_lt(a, b) ==> !key_lt(b, a),
{
    lemma_text_lt_irreflexive(a.0);
    if key_lt(a, b) && key_lt(b, a) {
        if a.0 == b.0 {
            lemma_text_lt_irreflexive(a.0);
        } else {
            lemma_text_lt_asymmetric(a.0, b.0);
        }
    }
}

/// The order of paths as `std::path::Path` sorts them (a stable sort): the
/// positions of all paths, in strictly increasing rank.
pub fn path_order(paths: &Vec<String>) -> (r: Vec<usize>)
    ensures
        r@.len() == paths@.len(),
        in_path_order(paths@, r@),
        forall|j: usize| j < paths@.len() ==> #[trigger] r@.contains(j),
{
    let n = paths.len();
    let mut keyed: Vec<(String, usize)> = Vec::new();
    let mut i: usize = 0;
    while i < n
        invariant
            n == paths@.len(),
            i <= n,
            keyed@.len() == i,
            forall|j: int| 0 <= j < i ==> #[trigger] key_views(keyed@)[j] == path_rank(paths@, j),
        decreases n - i,
    {
        let key = path_sort_key(paths[i].as_str());
        let ghost before = keyed@;
        keyed.push((key, i));
        assert forall|j: int| 0 <= j <= i implies #[trigger] key_views(keyed@)[j] == path_rank(paths@, j) by {
            if j < i {
                assert(keyed@[j] == before[j]);
                assert(key_views(before)[j] == path_rank(paths@, j));
            }
        }
        i = i + 1;
    }
    let ghost kin = key_views(keyed@);
    proof {
        assert forall|a: int, b: int| 0 <= a < kin.len() && 0 <= b < kin.len() && a != b implies kin[a] != kin[b] by {
            assert(kin[a].1 == a as usize && kin[b].1 == b as usize);
        }
        assert(kin.no_duplicates());
        kin.lemma_multiset_has_no_duplicates();
    }
    let sorted = sort_keyed(keyed);
    let ghost ks = key_views(sorted@);
    proof {
        ks.lemma_multiset_has_no_duplicates_conv();
    }
    let mut r: Vec<usize> = Vec::new();
    let mut q: usize = 0;
    while q < sorted.len()
        invariant
            q <= sorted@.len(),
            ks == key_views(sorted@),
            r@.len() == q,
            forall|k: int| 0 <= k < q ==> #[trigger] r@[k] == ks[k].1,
        decreases sorted@.len() - q,
    {
        r.push(sorted[q].1);
        q = q + 1;
    }
    proof {
        assert forall|k: int| 0 <= k < ks.len() implies (#[trigger] ks[k]) == path_rank(paths@, ks[k].1 as int)
            && (ks[k].1 as int) < n by {
            vstd::seq_lib::to_multiset_contains(ks, ks[k]);
            vstd::seq_lib::to_multiset_contains(kin, ks[k]);
            assert(ks.contains(ks[k]));
            let j = choose|j: int| 0 <= j < kin.len() && kin[j] == ks[k];
            assert(kin[j] == path_rank(paths@, j));
        }
        assert forall|q1: int, q2: int| 0 <= q1 < q2 < r@.len() implies key_lt(
            path_rank(paths@, #[trigger] r@[q1] as int),
            path_rank(paths@, #[trigger] r@[q2] as int),
        ) by {
            assert(ks[q1] == path_rank(paths@, ks[q1].1 as int));
            assert(ks[q2] == path_rank(paths@, ks[q2].1 as int));
            assert(!key_lt(ks[q2], ks[q1]));
            assert(ks[q1] != ks[q2]);
            lemma_key_not_lt(ks[q2], ks[q1]);
        }
        assert forall|q1: int| 0 <= q1 < r@.len() implies (#[trigger] r@[q1] as int) < paths@.len() by {
            assert(ks[q1] == path_rank(paths@, ks[q1].1 as int));
        }
        assert forall|j: usize| j < paths@.len() implies #[trigger] r@.contains(j) by {
            let ji = j as int;
            vstd::seq_lib::to_multiset_contains(kin, kin[ji]);
            vstd::seq_lib::to_multiset_contains(ks, kin[ji]);
            assert(kin.contains(kin[ji]));
            let k = choose|k: int| 0 <= k < ks.len() && ks[k] == kin[ji];
            assert(r@[k] == j);
        }
    }
    r
}

/// A path found by a scan: the file it resolves to (its canonical path, or
/// the path itself when that cannot be resolved) and, when it cannot be
/// inspected, why.
#[derive(Debug)]
pub struct Candidate {
    pub path: String,
    pub identity: String,
    pub error: Option<String>,
}

/// The paths of candidates.
pub open spec fn candidate_paths(c: Seq<Candidate>) -> Seq<String> {
    c.map_values(|x: Candidate| x.path)
}

/// No other path of the same file sorts before the candidate at `j`.
pub open spec fn first_of_file(c: Seq<Candidate>, j: int) -> bool {
    forall|m: int|
        0 <= m < c.len() && (#[trigger] c[m]).identity@ == c[j].identity@ ==> !key_lt(
            path_rank(candidate_paths(c), m),
            path_rank(candidate_paths(c), j),
        )
}

/// Some kept position holds a path of the file `id`.
pub open spec fn file_kept(c: Seq<Candidate>, r: Seq<usize>, id: Seq<char>) -> bool {
    exists|q: int| 0 <= q < r.len() && (#[trigger] c[r[q] as int]).identity@ == id
}

/// The candidates that a scan reports, as positions: in path order, and each
/// file once, by the first of its paths in that order.
pub fn order_candidates(cands: &Vec<Candidate>) -> (r: Vec<usize>)
    ensures
        in_path_order(candidate_paths(cands@), r@),
        forall|q: int| 0 <= q < r@.len() ==> first_of_file(cands@, #[trigger] r@[q] as int),
        forall|m: int| 0 <= m < cands@.len() ==> file_kept(cands@, r@, (#[trigger] cands@[m]).identity@),
{
    let n = cands.len();
    let mut paths: Vec<String> = Vec::new();
    let mut i: usize = 0;
    while i < n
        invariant
            n == cands@.len(),
            i <= n,
            paths@ == candidate_paths(cands@.subrange(0, i as int)),
        decreases n - i,
    {
        paths.push(cands[i].path.clone());
        assert(candidate_paths(cands@.subrange(0, i + 1)) =~= candidate_paths(cands@.subrange(0, i as int)).push(cands@[i as int].path));
        i = i + 1;
    }
    assert(cands@.subrange(0, n as int) =~= cands@);
    let ghost ps = candidate_paths(cands@);
    let order = path_order(&paths);
    let mut r: Vec<usize> = Vec::new();
    let mut seen: Vec<String> = Vec::new();
    let ghost mut pos: Seq<int> = seq![];
    let mut q: usize = 0;
    while q < order.len()
        invariant
            n == cands@.len(),
            paths@ == ps,
            ps == candidate_paths(cands@),
            order@.len() == n,
            in_path_order(ps, order@),
            forall|j: usize| j < n ==> #[trigger] order@.contains(j),
            q <= n,
            r@.len() == pos.len(),
            seen@.len() == pos.len(),
            forall|k: int| 0 <= k < pos.len() ==> 0 <= #[trigger] pos[k] < q && r@[k] == order@[pos[k]],
            forall|k1: int, k2: int| 0 <= k1 < k2 < pos.len() ==> #[trigger] pos[k1] < #[trigger] pos[k2],
            forall|k: int| 0 <= k < pos.len() ==> (#[trigger] seen@[k])@ == cands@[r@[k] as int].identity@,
            forall|k: int| 0 <= k < pos.len() ==> first_of_file(cands@, #[trigger] r@[k] as int),
            forall|p: int| 0 <= p < q ==> texts(seen@).contains(cands@[#[trigger] order@[p] as int].identity@),
        decreases n - q,
    {
        let j = order[q];
        let ghost jj = j as int;
        let fresh = !has_text(&seen, cands[j].identity.as_str());
        if fresh {
            proof {
                assert forall|m: int| 0 <= m < n && (#[trigger] cands@[m]).identity@ == cands@[jj].identity@ implies !key_lt(
                    path_rank(ps, m),
                    path_rank(ps, jj),
                ) by {
                    assert(order@.contains(m as usize));
                    let p = choose|p: int| 0 <= p < order@.len() && order@[p] == m as usize;
                    if p < q {
                        assert(texts(seen@).contains(cands@[order@[p] as int].identity@));
                    } else if p == q {
                        lemma_key_lt_strict(path_rank(ps, m), path_rank(ps, m));
                    } else {
                        assert(key_lt(path_rank(ps, order@[q as int] as int), path_rank(ps, order@[p] as int)));
                        lemma_key_lt_strict(path_rank(ps, jj), path_rank(ps, m));
                    }
                }
            }
            let ghost old_seen = seen@;
            let ghost old_r = r@;
            seen.push(cands[j].identity.clone());
            r.push(j);
            proof {
                pos = pos.push(q as int);
                assert(texts(seen@) =~= texts(old_seen).push(cands@[jj].identity@));
                assert forall|p: int| 0 <= p < q implies texts(seen@).contains(cands@[#[trigger] order@[p] as int].identity@) by {
                    assert(texts(old_seen).contains(cands@[order@[p] as int].identity@));
                    let k = choose|k: int| 0 <= k < texts(old_seen).len() && texts(old_seen)[k] == cands@[order@[p] as int].identity@;
                    assert(texts(seen@)[k] == texts(old_seen)[k]);
                }
                assert(texts(seen@)[texts(seen@).len() - 1] == cands@[order@[q as int] as int].identity@);
                assert forall|k: int| 0 <= k < pos.len() implies (#[trigger] seen@[k])@ == cands@[r@[k] as int].identity@ by {
                    if k < old_r.len() {
                        assert(seen@[k] == old_seen[k]);
                        assert(r@[k] == old_r[k]);
                    }
                }
            }
        } else {
            proof {
                assert(texts(seen@).contains(cands@[order@[q as int] as int].identity@));
            }
        }
        q = q + 1;
    }
    proof {
        assert forall|q1: int, q2: int| 0 <= q1 < q2 < r@.len() implies key_lt(
            path_rank(ps, #[trigger] r@[q1] as int),
            path_rank(ps, #[trigger] r@[q2] as int),
        ) by {
            assert(pos[q1] < pos[q2]);
            assert(r@[q1] == order@[pos[q1]] && r@[q2] == order@[pos[q2]]);
        }
        assert forall|q1: int| 0 <= q1 < r@.len() implies (#[trigger] r@[q1] as int) < ps.len() by {
            assert(r@[q1] == order@[pos[q1]]);
        }
        assert forall|m: int| 0 <= m < n implies file_kept(cands@, r@, (#[trigger] cands@[m]).identity@) by {
            assert(order@.contains(m as usize));
            let p = choose|p: int| 0 <= p < order@.len() && order@[p] == m as usize;
            assert(texts(seen@).contains(cands@[order@[p] as int].identity@));
            let k = choose|k: int| 0 <= k < texts(seen@).len() && texts(seen@)[k] == cands@[m].identity@;
            assert(seen@[k]@ == cands@[r@[k] as int].identity@);
        }
    }
    r
}

/// The candidates a scan reports name every file found, each exactly once:
/// no two reported positions are paths of the same file.
pub proof fn law_each_file_reported_once(cands: Seq<Candidate>, r: Seq<usize>)
    requires
        in_path_order(candidate_paths(cands), r),
        forall|q: int| 0 <= q < r.len() ==> first_of_file(cands, #[trigger] r[q] as int),
    ensures
        forall|q1: int, q2: int|
            0 <= q1 < q2 < r.len() ==> (#[trigger] cands[r[q1] as int]).identity@ != (#[trigger] cands[r[q2] as int]).identity@,
{
    let ps = candidate_paths(cands);
    assert forall|q1: int, q2: int|
        0 <= q1 < q2 < r.len() implies (#[trigger] cands[r[q1] as int]).identity@ != (#[trigger] cands[r[q2] as int]).identity@ by {
        let (a, b) = (r[q1] as int, r[q2] as int);
        assert(key_lt(path_rank(ps, a), path_rank(ps, b)));
        if cands[a].identity@ == cands[b].identity@ {
            assert(first_of_file(cands, b));
            assert(!key_lt(path_rank(ps, a), path_rank(ps, b)));
        }
    }
}

/// The position of a text in a list of strings, when it occurs.
pub fn text_position(v: &Vec<String>, t: &str) -> (r: Option<usize>)
    ensures
        match r {
            Some(k) => k < v@.len() && v@[k as int]@ == t@,
            None => !texts(v@).contains(t@),
        },
{
    let mut i: usize = 0;
    while i < v.len()
        invariant
            i <= v@.len(),
            forall|k: int| 0 <= k < i ==> (#[trigger] v@[k])@ != t@,
        decreases v@.len() - i,
    {
        if crate::text::text_is(v[i].as_str(), t) {
            return Some(i);
        }
        i = i + 1;
    }
    proof {
        if texts(v@).contains(t@) {
            let k = choose|k: int| 0 <= k < texts(v@).len() && texts(v@)[k] == t@;
            assert(v@[k]@ == t@);
        }
    }
    None
}

/// The positions kept when consecutive paths of one file are merged (as
/// `Vec::dedup_by` merges them): a position is dropped when the last kept one
/// names the same file. Positions without a file are dropped.
pub open spec fn adjacent_kept(order: Seq<usize>, ids: Seq<Seq<char>>) -> Seq<usize>
    decreases order.len(),
{
    if order.len() == 0 {
        seq![]
    } else {
        let prev = adjacent_kept(order.drop_last(), ids);
        let j = order.last();
        if (j as int) >= ids.len() {
            prev
        } else if prev.len() > 0 && ids[prev.last() as int] == ids[j as int] {
            prev
        } else {
            prev.push(j)
        }
    }
}

/// Merges consecutive positions (in `order`) whose paths name the same file.
pub fn drop_repeated_files(order: &Vec<usize>, identities: &Vec<String>) -> (r: Vec<usize>)
    ensures
        r@ == adjacent_kept(order@, texts(identities@)),
{
    let ghost ids = texts(identities@);
    let mut r: Vec<usize> = Vec::new();
    let mut q: usize = 0;
    while q < order.len()
        invariant
            q <= order@.len(),
            ids == texts(identities@),
            r@ == adjacent_kept(order@.subrange(0, q as int), ids),
            forall|k: int| 0 <= k < r@.len() ==> (#[trigger] r@[k] as int) < ids.len(),
        decreases order@.len() - q,
    {
        let ghost pre = order@.subrange(0, q + 1);
        proof {
            assert(pre.drop_last() =~= order@.subrange(0, q as int));
            assert(pre.last() == order@[q as int]);
        }
        let j = order[q];
        if j < identities.len() {
            let repeated = r.len() > 0 && crate::text::text_is(identities[r[r.len() - 1]].as_str(), identities[j].as_str());
            if !repeated {
                r.push(j);
            }
        }
        q = q + 1;
    }
    assert(order@.subrange(0, order@.len() as int) =~= order@);
    r
}

proof fn lemma_adjacent_kept_in_range(order: Seq<usize>, ids: Seq<Seq<char>>)
    ensures
        forall|k: int| 0 <= k < adjacent_kept(order, ids).len() ==> (#[trigger] adjacent_kept(order, ids)[k] as int) < ids.len(),
    decreases order.len(),
{
    if order.len() > 0 {
        let prev = adjacent_kept(order.drop_last(), ids);
        lemma_adjacent_kept_in_range(order.drop_last(), ids);
        let cur = adjacent_kept(order, ids);
        assert forall|k: int| 0 <= k < cur.len() implies (#[trigger] cur[k] as int) < ids.len() by {
            if k < prev.len() {
                assert(cur[k] == prev[k]);
            }
        }
    }
}

/// A complete path order of a list of paths.
pub open spec fn is_path_order(paths: Seq<String>, order: Seq<usize>) -> bool {
    &&& order.len() == paths.len()
    &&& in_path_order(paths, order)
    &&& forall|j: usize| j < paths.len() ==> #[trigger] order.contains(j)
}

/// The audit targets selected from what the walk found: in path order, one
/// path per file; none is an error, and so is an expected hash with more than
/// one target or in a malformed form. On success, the targets and the
/// normalized expected hash.
pub open spec fn spec_audit_selection(
    found: Seq<String>,
    ids: Seq<Seq<char>>,
    order: Seq<usize>,
    expected_sha256: Option<Seq<char>>,
    r: Result<(Vec<String>, Option<String>), AppError>,
) -> bool {
    let kept = adjacent_kept(order, ids);
    if kept.len() == 0 {
        r matches Err(e) && e.exit_code == 1 && e.message@ == "no PNG, JPEG, or evidence ZIP files found"@
    } else if expected_sha256.is_some() && kept.len() != 1 {
        r matches Err(e) && e.exit_code == 1 && e.message@ == "--expect-sha256 requires exactly one image or bundle"@
    } else {
        match expected_sha256 {
            Some(v) if spec_normalize_sha256(v) is None => r matches Err(e) && e.exit_code == 1 && e.message@ == msg_bad_sha256(),
            _ => r matches Ok((c, x)) && {
                &&& c@.len() == kept.len()
                &&& forall|k: int| 0 <= k < kept.len() ==> (#[trigger] c@[k])@ == found[kept[k] as int]@
                &&& match expected_sha256 {
                    Some(v) => x matches Some(n) && Some(n@) == spec_normalize_sha256(v),
                    None => x is None,
                }
            },
        }
    }
}

/// Selects the audit targets before anything is read: orders the found paths
/// as `std::path::Path` sorts them, merges neighbouring paths of one file
/// (`identities` names the file of each path), refuses an empty selection and
/// an expected hash with several targets, and normalizes the expected hash.
pub fn audit_selection(found: &Vec<String>, identities: &Vec<String>, expected_sha256: Option<&str>)
    -> (r: Result<(Vec<String>, Option<String>), AppError>)
    requires
        identities@.len() == found@.len(),
    ensures
        exists|order: Seq<usize>| is_path_order(found@, order) && spec_audit_selection(found@, texts(identities@), order,
            match expected_sha256 { Some(v) => Some(v@), None => None }, r),
{
    let order = path_order(found);
    let kept = drop_repeated_files(&order, identities);
    proof {
        lemma_adjacent_kept_in_range(order@, texts(identities@));
    }
    let ghost ev = match expected_sha256 { Some(v) => Some(v@), None => None };
    let expected = match audit_preconditions(kept.len(), expected_sha256) {
        Ok(x) => x,
        Err(e) => {
            let r = Err(e);
            assert(is_path_order(found@, order@));
            assert(spec_audit_selection(found@, texts(identities@), order@, ev, r));
            return r;
        },
    };
    let mut c: Vec<String> = Vec::new();
    let mut k: usize = 0;
    while k < kept.len()
        invariant
            k <= kept@.len(),
            identities@.len() == found@.len(),
            kept@ == adjacent_kept(order@, texts(identities@)),
            forall|q: int| 0 <= q < kept@.len() ==> (#[trigger] kept@[q] as int) < texts(identities@).len(),
            c@.len() == k,
            forall|q: int| 0 <= q < k ==> (#[trigger] c@[q])@ == found@[kept@[q] as int]@,
        decreases kept@.len() - k,
    {
        c.push(found[kept[k]].clone());
        k = k + 1;
    }
    let r = Ok((c, expected));
    assert(is_path_order(found@, order@));
    assert(spec_audit_selection(found@, texts(identities@), order@, match expected_sha256 { Some(v) => Some(v@), None => None }, r));
    r
}

/// An audit input: an image or evidence ZIP is a target, a directory is
/// walked, and anything else is an error.
pub fn audit_root(path: &str, is_file: bool, is_dir: bool) -> (r: Result<bool, AppError>)
    ensures
        is_file && (spec_is_supported_image(path@) || spec_is_zip(path@)) ==> r == Ok::<bool, AppError>(false),
        is_file && !(spec_is_supported_image(path@) || spec_is_zip(path@)) ==> (r matches Err(e) && e.exit_code == 1
            && e.message@ == "unsupported audit target: "@ + path@),
        !is_file && is_dir ==> r == Ok::<bool, AppError>(true),
        !is_file && !is_dir ==> (r matches Err(e) && e.exit_code == 1 && e.message@ == "audit target does not exist: "@ + path@),
{
    if is_file {
        if is_supported_image(path) || is_zip(path) {
            return Ok(false);
        }
        return Err(AppError::runtime(concat2("unsupported audit target: ", path)));
    }
    if !is_dir {
        return Err(AppError::runtime(concat2("audit target does not exist: ", path)));
    }
    Ok(true)
}

/// Whether a directory entry is hidden: its name starts with a dot.
pub fn is_hidden_name(name: &str) -> (b: bool)
    ensures
        b == starts_with(name@, "."@),
{
    let cs = chars_of(name);
    chars_start_with(cs.as_slice(), ".")
}

} // verus!
