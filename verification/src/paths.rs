//! Paths held as text. Component-level parsing comes from `std::path` behind
//! trusted wrappers; joining, stems, and extensions are computed here from the
//! rules that the std documentation states.
use vstd::prelude::*;

use crate::text::{chars_of, ends_with, push_str, string_of};

verus! {

/// The final component of a path (`Path::file_name`), if there is one.
pub uninterp spec fn spec_file_name(p: Seq<char>) -> Option<Seq<char>>;

/// The path without its final component (`Path::parent`), if there is one.
pub uninterp spec fn spec_parent(p: Seq<char>) -> Option<Seq<char>>;

/// The rest of `p` after the leading components of `base` (`Path::strip_prefix`).
pub uninterp spec fn spec_strip_prefix(p: Seq<char>, base: Seq<char>) -> Option<Seq<char>>;

/// The components of a path (`Path::components`).
pub uninterp spec fn spec_components(p: Seq<char>) -> Seq<PathPart>;

/// One component of a path.
#[derive(Debug)]
pub enum PathPart {
    Prefix,
    Root,
    CurDir,
    ParentDir,
    Normal(String),
}

/// Trusted: the final component as `std::path::Path::file_name` gives it.
#[verifier::external_body]
pub(crate) fn file_name(p: &str) -> (r: Option<String>)
    ensures
        match r {
            Some(n) => spec_file_name(p@) == Some(n@),
            None => spec_file_name(p@).is_none(),
        },
{
    std::path::Path::new(p).file_name().map(|n| n.to_string_lossy().into_owned())
}

/// Trusted: the parent as `std::path::Path::parent` gives it.
#[verifier::external_body]
pub(crate) fn parent(p: &str) -> (r: Option<String>)
    ensures
        match r {
            Some(n) => spec_parent(p@) == Some(n@),
            None => spec_parent(p@).is_none(),
        },
{
    std::path::Path::new(p).parent().map(|n| n.to_string_lossy().into_owned())
}

/// Trusted: the remainder as `std::path::Path::strip_prefix` gives it.
#[verifier::external_body]
pub(crate) fn strip_prefix(p: &str, base: &str) -> (r: Option<String>)
    ensures
        match r {
            Some(n) => spec_strip_prefix(p@, base@) == Some(n@),
            None => spec_strip_prefix(p@, base@).is_none(),
        },
{
    std::path::Path::new(p).strip_prefix(base).ok().map(|n| n.to_string_lossy().into_owned())
}

/// Trusted: the components as `std::path::Path::components` yields them, each
/// variant mapped to the variant of the same name.
#[verifier::external_body]
pub(crate) fn components(p: &str) -> (r: Vec<PathPart>)
    ensures
        r@ == spec_components(p@),
{
    std::path::Path::new(p).components().map(|c| match c {
        std::path::Component::Prefix(_) => PathPart::Prefix,
        std::path::Component::RootDir => PathPart::Root,
        std::path::Component::CurDir => PathPart::CurDir,
        std::path::Component::ParentDir => PathPart::ParentDir,
        std::path::Component::Normal(n) => PathPart::Normal(n.to_string_lossy().into_owned()),
    }).collect()
}

/// A path is absolute on Unix when it starts at the root.
pub open spec fn spec_is_absolute(p: Seq<char>) -> bool {
    p.len() > 0 && p[0] == '/'
}

/// Whether a path is absolute.
pub fn is_absolute(p: &str) -> (b: bool)
    ensures
        b == spec_is_absolute(p@),
{
    let cs = chars_of(p);
    cs.len() > 0 && cs[0] == '/'
}

/// `PathBuf::push` on Unix: an absolute path replaces the base; otherwise a
/// separator is added when the base is not empty and does not end in one.
pub open spec fn spec_join(base: Seq<char>, rel: Seq<char>) -> Seq<char> {
    if spec_is_absolute(rel) {
        rel
    } else if base.len() == 0 || base.last() == '/' {
        base + rel
    } else {
        base.push('/') + rel
    }
}

/// Joins a path to a base path.
pub fn join(base: &str, rel: &str) -> (r: String)
    ensures
        r@ == spec_join(base@, rel@),
{
    if is_absolute(rel) {
        return String::from_str(rel);
    }
    let b = chars_of(base);
    let mut r = String::from_str(base);
    if !(b.len() == 0 || b[b.len() - 1] == '/') {
        push_str(&mut r, "/");
        proof {
            reveal_strlit("/");
        }
        assert(r@ =~= base@.push('/'));
    }
    push_str(&mut r, rel);
    r
}

/// The index of the last '.' in `s`, or -1.
pub open spec fn last_dot(s: Seq<char>) -> int
    decreases s.len(),
{
    if s.len() == 0 {
        -1
    } else if s.last() == '.' {
        s.len() - 1
    } else {
        last_dot(s.drop_last())
    }
}

proof fn lemma_last_dot_bounds(s: Seq<char>)
    ensures
        -1 <= last_dot(s) < s.len(),
        last_dot(s) >= 0 ==> s[last_dot(s)] == '.',
        forall|j: int| last_dot(s) < j < s.len() ==> s[j] != '.',
    decreases s.len(),
{
    if s.len() > 0 && s.last() != '.' {
        let t = s.drop_last();
        lemma_last_dot_bounds(t);
        assert forall|j: int| last_dot(s) < j < s.len() implies s[j] != '.' by {
            if j < s.len() - 1 {
                assert(s[j] == t[j]);
            }
        }
    }
}

/// The stem of a file name (`Path::file_stem` applied to the name): the part
/// before the final '.', or the whole name when it has no '.' other than a
/// leading one.
pub open spec fn name_stem(name: Seq<char>) -> Seq<char> {
    let k = last_dot(name);
    if name == ".."@ || k <= 0 { name } else { name.subrange(0, k) }
}

/// The extension of a file name (`Path::extension` applied to the name): the
/// part after the final '.', if the name has a '.' that is not its first
/// character.
pub open spec fn name_extension(name: Seq<char>) -> Option<Seq<char>> {
    let k = last_dot(name);
    if name == ".."@ || k <= 0 { None } else { Some(name.subrange(k + 1, name.len() as int)) }
}

/// `Path::file_stem`.
pub open spec fn spec_file_stem(p: Seq<char>) -> Option<Seq<char>> {
    match spec_file_name(p) {
        Some(n) => Some(name_stem(n)),
        None => None,
    }
}

/// `Path::extension`.
pub open spec fn spec_extension(p: Seq<char>) -> Option<Seq<char>> {
    match spec_file_name(p) {
        Some(n) => name_extension(n),
        None => None,
    }
}

fn find_last_dot(cs: &[char]) -> (k: Option<usize>)
    ensures
        match k {
            Some(i) => last_dot(cs@) == i,
            None => last_dot(cs@) == -1,
        },
{
    let mut i: usize = cs.len();
    assert(cs@.subrange(0, i as int) =~= cs@);
    while i > 0
        invariant
            i <= cs@.len(),
            last_dot(cs@) == last_dot(cs@.subrange(0, i as int)),
        decreases i,
    {
        if cs[i - 1] == '.' {
            return Some(i - 1);
        }
        proof {
            let t = cs@.subrange(0, i as int);
            assert(t.drop_last() =~= cs@.subrange(0, i - 1));
        }
        i = i - 1;
    }
    None
}

/// Splits a file name into its stem and extension.
pub fn split_name(name: &str) -> (r: (String, Option<String>))
    ensures
        r.0@ == name_stem(name@),
        match r.1 {
            Some(e) => name_extension(name@) == Some(e@),
            None => name_extension(name@).is_none(),
        },
{
    let cs = chars_of(name);
    let dotdot = cs.len() == 2 && cs[0] == '.' && cs[1] == '.';
    proof {
        reveal_strlit("..");
        if cs@.len() == 2 && cs@[0] == '.' && cs@[1] == '.' {
            assert(cs@ =~= ".."@);
        } else {
            if cs@ == ".."@ {
                assert(cs@[0] == '.');
            }
        }
    }
    assert(dotdot == (name@ == ".."@));
    proof {
        lemma_last_dot_bounds(cs@);
    }
    match find_last_dot(cs.as_slice()) {
        Some(k) => {
            if dotdot || k == 0 {
                (String::from_str(name), None)
            } else {
                let stem = string_of(vstd::slice::slice_subrange(cs.as_slice(), 0, k));
                let ext = string_of(vstd::slice::slice_subrange(cs.as_slice(), k + 1, cs.len()));
                (stem, Some(ext))
            }
        },
        None => (String::from_str(name), None),
    }
}

/// The stem of the final component of a path.
pub fn file_stem(p: &str) -> (r: Option<String>)
    ensures
        match r {
            Some(n) => spec_file_stem(p@) == Some(n@),
            None => spec_file_stem(p@).is_none(),
        },
{
    match file_name(p) {
        Some(n) => Some(split_name(n.as_str()).0),
        None => None,
    }
}

/// The extension of the final component of a path.
pub fn extension(p: &str) -> (r: Option<String>)
    ensures
        match r {
            Some(n) => spec_extension(p@) == Some(n@),
            None => spec_extension(p@).is_none(),
        },
{
    match file_name(p) {
        Some(n) => split_name(n.as_str()).1,
        None => None,
    }
}

} // verus!
