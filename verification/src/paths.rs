//! Paths as text, and the questions the vault asks of them.
//!
//! A path is held as the `String` a user typed. What `std::path` computes from
//! such a text is named here by a spec function without a body, one for each
//! operation, so contracts elsewhere can speak about paths exactly.

use std::path::Component;
use std::path::Path;
use vstd::prelude::*;

verus! {

/// The final component of a path, as `Path::file_name` reports it.
pub uninterp spec fn path_file_name(p: Seq<char>) -> Option<Seq<char>>;

/// The path without its final component, as `Path::parent` reports it.
pub uninterp spec fn path_parent(p: Seq<char>) -> Option<Seq<char>>;

/// The text of `base` joined with `tail`, as `Path::join` builds it.
pub uninterp spec fn path_join(base: Seq<char>, tail: Seq<char>) -> Seq<char>;

/// Whether the path is absolute, as `Path::is_absolute` reports it.
pub uninterp spec fn path_is_absolute(p: Seq<char>) -> bool;

/// Whether `base` is a prefix of `p` component by component, as
/// `Path::starts_with` reports it.
pub uninterp spec fn path_starts_with(p: Seq<char>, base: Seq<char>) -> bool;

/// What is left of `p` behind the prefix `base`, as `Path::strip_prefix`
/// reports it; `None` where `base` is no prefix of `p`.
pub uninterp spec fn path_strip_prefix(p: Seq<char>, base: Seq<char>) -> Option<Seq<char>>;

/// The file name without its extension, as `Path::file_stem` reports it.
pub uninterp spec fn path_file_stem(p: Seq<char>) -> Option<Seq<char>>;

/// The path with its file name replaced, as `PathBuf::set_file_name` leaves it.
pub uninterp spec fn path_with_file_name(p: Seq<char>, name: Seq<char>) -> Seq<char>;

/// Whether two texts denote the same path, as `==` on `Path` decides it.
pub uninterp spec fn path_same(a: Seq<char>, b: Seq<char>) -> bool;

/// The views of an optional text.
pub open spec fn opt_text(o: Option<String>) -> Option<Seq<char>> {
    match o {
        Some(s) => Some(s@),
        None => None,
    }
}

/// Calls `Path::file_name`. The contract only names the result: the final
/// component of the path, absent where the path ends in `..` or is a root.
#[verifier::external_body]
pub(crate) fn file_name_of(p: &str) -> (r: Option<String>)
    ensures
        opt_text(r) == path_file_name(p@),
{
    Path::new(p).file_name().map(|f| f.to_string_lossy().into_owned())
}

/// Calls `Path::parent`. The contract only names the result.
#[verifier::external_body]
pub(crate) fn parent_of(p: &str) -> (r: Option<String>)
    ensures
        opt_text(r) == path_parent(p@),
{
    Path::new(p).parent().map(|d| d.to_string_lossy().into_owned())
}

/// Calls `Path::join`. The contract only names the result.
#[verifier::external_body]
pub(crate) fn join_paths(base: &str, tail: &str) -> (r: String)
    ensures
        r@ == path_join(base@, tail@),
{
    Path::new(base).join(tail).to_string_lossy().into_owned()
}

/// Calls `Path::is_absolute`. The contract only names the result.
#[verifier::external_body]
pub(crate) fn is_absolute(p: &str) -> (r: bool)
    ensures
        r == path_is_absolute(p@),
{
    Path::new(p).is_absolute()
}

/// Calls `Path::starts_with`. The contract only names the result.
#[verifier::external_body]
pub(crate) fn starts_with(p: &str, base: &str) -> (r: bool)
    ensures
        r == path_starts_with(p@, base@),
{
    Path::new(p).starts_with(base)
}

/// Calls `Path::strip_prefix`. The contract names the result, and says when
/// there is one: exactly where `Path::starts_with` finds `base` to be a prefix.
/// The error of the call, which carries nothing, becomes `None`.
#[verifier::external_body]
pub(crate) fn strip_prefix(p: &str, base: &str) -> (r: Option<String>)
    ensures
        opt_text(r) == path_strip_prefix(p@, base@),
        r is Some <==> path_starts_with(p@, base@),
{
    match Path::new(p).strip_prefix(base) {
        Ok(rest) => Some(rest.to_string_lossy().into_owned()),
        Err(_) => None,
    }
}

/// Calls `Path::file_stem`. The contract only names the result.
#[verifier::external_body]
pub(crate) fn file_stem_of(p: &str) -> (r: Option<String>)
    ensures
        opt_text(r) == path_file_stem(p@),
{
    Path::new(p).file_stem().map(|f| f.to_string_lossy().into_owned())
}

/// Calls `PathBuf::set_file_name` on a copy of `p`. The contract only names
/// the result.
#[verifier::external_body]
pub(crate) fn with_file_name(p: &str, name: &str) -> (r: String)
    ensures
        r@ == path_with_file_name(p@, name@),
{
    let mut owned = Path::new(p).to_path_buf();
    owned.set_file_name(name);
    owned.to_string_lossy().into_owned()
}

/// Compares two paths with `==` on `Path`, which goes component by component.
/// The contract only names the result.
#[verifier::external_body]
pub(crate) fn same_path(a: &str, b: &str) -> (r: bool)
    ensures
        r == path_same(a@, b@),
{
    Path::new(a) == Path::new(b)
}

/// One component of a path, with the text it was written as.
#[derive(Debug, Clone, PartialEq, Eq)]
pub enum PathPart {
    Prefix(String),
    RootDir(String),
    CurDir,
    ParentDir,
    Normal(String),
}

/// A component of a path in contracts.
pub ghost enum PartText {
    Prefix(Seq<char>),
    RootDir(Seq<char>),
    CurDir,
    ParentDir,
    Normal(Seq<char>),
}

impl View for PathPart {
    type V = PartText;

    open spec fn view(&self) -> PartText {
        match self {
            PathPart::Prefix(s) => PartText::Prefix(s@),
            PathPart::RootDir(s) => PartText::RootDir(s@),
            PathPart::CurDir => PartText::CurDir,
            PathPart::ParentDir => PartText::ParentDir,
            PathPart::Normal(s) => PartText::Normal(s@),
        }
    }
}

/// The views of a list of components.
pub open spec fn parts_text(parts: Seq<PathPart>) -> Seq<PartText> {
    parts.map_values(|c: PathPart| c@)
}

/// The components of a path in order, as `Path::components` yields them.
pub uninterp spec fn path_components(p: Seq<char>) -> Seq<PartText>;

/// Calls `Path::components` and collects what it yields. The contract only
/// names the result; each component is handed on with its own text.
#[verifier::external_body]
pub(crate) fn components_of(p: &str) -> (r: Vec<PathPart>)
    ensures
        parts_text(r@) == path_components(p@),
{
    let mut parts = Vec::new();
    for c in Path::new(p).components() {
        parts.push(match c {
            Component::Prefix(x) => PathPart::Prefix(x.as_os_str().to_string_lossy().into_owned()),
            Component::RootDir => PathPart::RootDir(c.as_os_str().to_string_lossy().into_owned()),
            Component::CurDir => PathPart::CurDir,
            Component::ParentDir => PathPart::ParentDir,
            Component::Normal(x) => PathPart::Normal(x.to_string_lossy().into_owned()),
        });
    }
    parts
}

/// The text a component is pushed with: what `Component::as_os_str` gives.
pub open spec fn part_os_text(c: PartText) -> Seq<char> {
    match c {
        PartText::Prefix(s) => s,
        PartText::RootDir(s) => s,
        PartText::CurDir => seq!['.'],
        PartText::ParentDir => seq!['.', '.'],
        PartText::Normal(s) => s,
    }
}

/// The path built from the first `n` of `parts`, leaving out every `.`.
pub open spec fn joined_without_cur_dir(parts: Seq<PartText>, n: nat) -> Seq<char>
    decreases n,
{
    if n == 0 {
        Seq::empty()
    } else {
        let before = joined_without_cur_dir(parts, (n - 1) as nat);
        let c = parts[n - 1];
        if c is CurDir {
            before
        } else {
            path_join(before, part_os_text(c))
        }
    }
}

/// A path without its `.` components; `.` itself where nothing is left.
/// Components `..` stay as they are.
pub open spec fn normalized(p: Seq<char>) -> Seq<char> {
    let parts = path_components(p);
    let joined = joined_without_cur_dir(parts, parts.len());
    if path_components(joined).len() == 0 {
        seq!['.']
    } else {
        joined
    }
}

/// Whether one of the components of the path is `..`.
pub open spec fn has_parent_dir(p: Seq<char>) -> bool {
    exists|i: int| 0 <= i < path_components(p).len() && #[trigger] path_components(p)[i] is ParentDir
}

fn part_text(c: &PathPart) -> (r: String)
    ensures
        r@ == part_os_text(c@),
{
    match c {
        PathPart::Prefix(s) => s.clone(),
        PathPart::RootDir(s) => s.clone(),
        PathPart::CurDir => {
            proof { reveal_strlit("."); }
            let r = ".".to_string();
            assert(r@ =~= seq!['.']);
            r
        },
        PathPart::ParentDir => {
            proof { reveal_strlit(".."); }
            let r = "..".to_string();
            assert(r@ =~= seq!['.', '.']);
            r
        },
        PathPart::Normal(s) => s.clone(),
    }
}

/// Joins the components in their order, leaving out every `.`.
pub fn join_without_cur_dir(parts: &Vec<PathPart>) -> (r: String)
    ensures
        r@ == joined_without_cur_dir(parts_text(parts@), parts@.len()),
{
    let mut acc = String::new();
    let mut i: usize = 0;
    assert(parts_text(parts@).len() == parts@.len());
    while i < parts.len()
        invariant
            i <= parts.len(),
            acc@ == joined_without_cur_dir(parts_text(parts@), i as nat),
        decreases parts.len() - i,
    {
        let c = &parts[i];
        assert(parts_text(parts@)[i as int] == c@);
        match c {
            PathPart::CurDir => {},
            _ => {
                let text = part_text(c);
                acc = join_paths(acc.as_str(), text.as_str());
            },
        }
        i = i + 1;
    }
    acc
}

/// Whether one of the components is `..`.
pub fn has_parent_part(parts: &Vec<PathPart>) -> (r: bool)
    ensures
        r == exists|i: int| 0 <= i < parts@.len() && (#[trigger] parts@[i])@ is ParentDir,
{
    let mut i: usize = 0;
    while i < parts.len()
        invariant
            i <= parts.len(),
            forall|j: int| 0 <= j < i ==> !((#[trigger] parts@[j])@ is ParentDir),
        decreases parts.len() - i,
    {
        match &parts[i] {
            PathPart::ParentDir => {
                return true;
            },
            _ => {},
        }
        i = i + 1;
    }
    false
}

/// Removes the `.` components of a path and keeps every `..`; an empty result
/// becomes `.`.
pub fn normalize(p: &str) -> (r: String)
    ensures
        r@ == normalized(p@),
{
    let parts = components_of(p);
    assert(parts_text(parts@).len() == parts@.len());
    let joined = join_without_cur_dir(&parts);
    let left = components_of(joined.as_str());
    assert(parts_text(left@).len() == left@.len());
    if left.len() == 0 {
        proof {
            reveal_strlit(".");
        }
        let r = ".".to_string();
        assert(r@ =~= seq!['.']);
        r
    } else {
        joined
    }
}

/// Whether the path has a `..` among its components.
pub fn has_parent_component(p: &str) -> (r: bool)
    ensures
        r == has_parent_dir(p@),
{
    let parts = components_of(p);
    let r = has_parent_part(&parts);
    proof {
        assert(parts_text(parts@).len() == parts@.len());
        if r {
            let i = choose|i: int| 0 <= i < parts@.len() && (#[trigger] parts@[i])@ is ParentDir;
            assert(parts_text(parts@)[i] == parts@[i]@);
            assert(path_components(p@)[i] is ParentDir);
        }
        if has_parent_dir(p@) {
            let i = choose|i: int|
                0 <= i < path_components(p@).len() && #[trigger] path_components(p@)[i] is ParentDir;
            assert(parts_text(parts@)[i] == parts@[i]@);
        }
    }
    r
}

/// A path without the extension of its file name; the path itself where it
/// has no file name.
pub open spec fn without_ext(p: Seq<char>) -> Seq<char> {
    match path_file_stem(p) {
        Some(stem) => path_with_file_name(p, stem),
        None => p,
    }
}

/// Removes one extension from the file name of a path.
pub fn strip_ext(p: &str) -> (r: String)
    ensures
        r@ == without_ext(p@),
{
    match file_stem_of(p) {
        Some(stem) => with_file_name(p, stem.as_str()),
        None => p.to_string(),
    }
}

} // verus!
