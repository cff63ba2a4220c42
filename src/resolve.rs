//! Finding the file that a module declaration names.
use vstd::prelude::*;
use vstd::string::*;
use crate::context::{segments_of, Context};
use crate::node::texts;

verus! {

/// An entry under the directory of the file that declares a module: its
/// path relative to that directory, one component at a time.
pub struct DirEntry {
    pub path: Vec<String>,
    pub is_dir: bool,
}

/// Whether the listing holds an entry at `p` (a directory, where `dir`).
pub open spec fn listed(listing: Seq<DirEntry>, p: Seq<Seq<char>>, dir: bool) -> bool {
    exists|j: int|
        0 <= j < listing.len() && texts(#[trigger] listing[j].path@) == p && (!dir
            || listing[j].is_dir)
}

/// Where a module declaration leads: a file, relative to the directory of
/// the declaring file, and the namespace it adds.
pub struct Resolution {
    pub path: Vec<String>,
    pub context: Context,
}

/// A resolution as plain values: the path and the namespace segments.
pub type ResolutionSpec = (Seq<Seq<char>>, Seq<Seq<char>>);

pub open spec fn resolution_view(r: Option<Resolution>) -> Option<ResolutionSpec> {
    match r {
        Some(res) => Some((texts(res.path@), res.context@)),
        None => None,
    }
}

/// The name of the file of module `target`.
pub open spec fn file_target(target: Seq<char>) -> Seq<char> {
    target + ".rs"@
}

/// A module that is a file in directory `base`.
pub open spec fn file_module(listing: Seq<DirEntry>, base: Seq<Seq<char>>, target: Seq<char>) -> Option<
    ResolutionSpec,
> {
    if listed(listing, base.push(file_target(target)), false) {
        Some((base.push(file_target(target)), Seq::empty()))
    } else {
        None
    }
}

/// A module that is a directory with a `mod.rs` in directory `base`.
pub open spec fn directory_module(listing: Seq<DirEntry>, base: Seq<Seq<char>>, target: Seq<char>) -> Option<
    ResolutionSpec,
> {
    if listed(listing, base.push(target), true) && listed(listing, base.push(target).push("mod.rs"@), false) {
        Some((base.push(target).push("mod.rs"@), segments_of(target)))
    } else {
        None
    }
}

/// The file stems whose modules live beside them rather than in a
/// directory of their own name.
pub open spec fn is_root_like(stem: Seq<char>) -> bool {
    stem == "main"@ || stem == "lib"@ || stem == "mod"@
}

/// Where module `target` lies below a file with stem `stem`: in the
/// directory named after the stem, as a file or as a directory, inside the
/// namespace of the stem.
pub open spec fn nested_module(listing: Seq<DirEntry>, stem: Seq<char>, target: Seq<char>) -> Option<
    ResolutionSpec,
> {
    if listed(listing, seq![stem], true) {
        match file_module(listing, seq![stem], target) {
            Some(r) => Some((r.0, segments_of(stem) + r.1)),
            None => match directory_module(listing, seq![stem], target) {
                Some(r) => Some((r.0, segments_of(stem) + r.1)),
                None => None,
            },
        }
    } else {
        None
    }
}

/// Where the declaration of module `target` in a file with stem `stem` leads.
pub open spec fn resolution(listing: Seq<DirEntry>, stem: Seq<char>, target: Seq<char>) -> Option<
    ResolutionSpec,
> {
    if is_root_like(stem) {
        match file_module(listing, Seq::empty(), target) {
            Some(r) => Some(r),
            None => directory_module(listing, Seq::empty(), target),
        }
    } else {
        nested_module(listing, stem, target)
    }
}

/// Whether two paths have the same components.
pub fn same_path(a: &Vec<String>, b: &Vec<String>) -> (r: bool)
    ensures
        r == (texts(a@) == texts(b@)),
{
    if a.len() != b.len() {
        assert(texts(a@).len() != texts(b@).len());
        return false;
    }
    let mut k: usize = 0;
    while k < a.len()
        invariant
            a@.len() == b@.len(),
            k <= a@.len(),
            forall|j: int| 0 <= j < k ==> #[trigger] a@[j]@ == b@[j]@,
        decreases a@.len() - k,
    {
        if a[k] != b[k] {
            assert(texts(a@)[k as int] != texts(b@)[k as int]);
            return false;
        }
        k = k + 1;
    }
    assert(texts(a@) =~= texts(b@));
    true
}

/// Whether the listing holds an entry at `p` (a directory, where `dir`).
pub fn find_entry(listing: &Vec<DirEntry>, p: &Vec<String>, dir: bool) -> (r: bool)
    ensures
        r == listed(listing@, texts(p@), dir),
{
    let mut k: usize = 0;
    while k < listing.len()
        invariant
            k <= listing@.len(),
            forall|j: int|
                0 <= j < k ==> !(texts(#[trigger] listing@[j].path@) == texts(p@) && (!dir
                    || listing@[j].is_dir)),
        decreases listing@.len() - k,
    {
        if same_path(&listing[k].path, p) && (!dir || listing[k].is_dir) {
            return true;
        }
        k = k + 1;
    }
    false
}

fn copy_path(v: &Vec<String>) -> (r: Vec<String>)
    ensures
        texts(r@) == texts(v@),
{
    crate::node::copy_texts(v)
}

fn extended(base: &Vec<String>, part: &str) -> (r: Vec<String>)
    ensures
        texts(r@) == texts(base@).push(part@),
{
    let mut out = copy_path(base);
    out.push(String::from_str(part));
    assert(texts(out@) =~= texts(base@).push(part@));
    out
}

/// Looks in directory `base` for the file `<target>.rs`; it adds no namespace.
pub fn check_file_module(listing: &Vec<DirEntry>, base: &Vec<String>, target: &str) -> (r: Option<
    Resolution,
>)
    ensures
        resolution_view(r) == file_module(listing@, texts(base@), target@),
{
    let mut name = String::from_str(target);
    name.append(".rs");
    proof {
        reveal_strlit(".rs");
    }
    let p = extended(base, name.as_str());
    if find_entry(listing, &p, false) {
        let r = Some(Resolution { path: p, context: Context::Empty });
        assert(resolution_view(r) =~= file_module(listing@, texts(base@), target@));
        r
    } else {
        None
    }
}

/// Looks in directory `base` for a directory `target` holding a `mod.rs`;
/// it adds the namespace `target`.
pub fn check_directory_module(listing: &Vec<DirEntry>, base: &Vec<String>, target: &str) -> (r: Option<
    Resolution,
>)
    ensures
        resolution_view(r) == directory_module(listing@, texts(base@), target@),
{
    let dir = extended(base, target);
    if !find_entry(listing, &dir, true) {
        return None;
    }
    let file = extended(&dir, "mod.rs");
    if find_entry(listing, &file, false) {
        Some(Resolution { path: file, context: Context::from_str(target) })
    } else {
        None
    }
}

/// Looks for module `target` below a file with stem `current_file_stem`:
/// inside the directory named after the stem, as a file or as a directory,
/// in the namespace of the stem. Declarations in files that are not roots
/// resolve this way.
pub fn check_nested_submodule(listing: &Vec<DirEntry>, target: &str, current_file_stem: &str) -> (r:
    Option<Resolution>)
    ensures
        resolution_view(r) == nested_module(listing@, current_file_stem@, target@),
{
    let mut base: Vec<String> = Vec::new();
    base.push(String::from_str(current_file_stem));
    assert(texts(base@) =~= seq![current_file_stem@]);
    if !find_entry(listing, &base, true) {
        return None;
    }
    let outer = Context::from_str(current_file_stem);
    if let Some(found) = check_file_module(listing, &base, target) {
        let context = outer.combine(&found.context);
        Some(Resolution { path: found.path, context })
    } else if let Some(found) = check_directory_module(listing, &base, target) {
        let context = outer.combine(&found.context);
        Some(Resolution { path: found.path, context })
    } else {
        None
    }
}

/// Whether a file stem is one whose modules live beside it.
pub fn root_like(stem: &str) -> (r: bool)
    ensures
        r == is_root_like(stem@),
{
    crate::cst::same_text(stem, "main") || crate::cst::same_text(stem, "lib")
        || crate::cst::same_text(stem, "mod")
}

/// Where the declaration `mod <target>;` in a file with stem `stem` leads,
/// given the entries under that file's directory.
pub fn resolve_module_declaration(stem: &str, target: &str, listing: &Vec<DirEntry>) -> (r: Option<
    Resolution,
>)
    ensures
        resolution_view(r) == resolution(listing@, stem@, target@),
{
    if root_like(stem) {
        let base: Vec<String> = Vec::new();
        assert(texts(base@) =~= Seq::<Seq<char>>::empty());
        match check_file_module(listing, &base, target) {
            Some(found) => Some(found),
            None => check_directory_module(listing, &base, target),
        }
    } else {
        check_nested_submodule(listing, target, stem)
    }
}

} // verus!
