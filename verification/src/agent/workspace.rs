//! The directory that an agent may see, and how paths in it are asked for and
//! shown.
use vstd::prelude::*;

use crate::paths::{is_absolute, is_absolute_path, is_inside, join_path, kept_end, law_downward_path_stays_inside, names_start_with, no_parent_part, normal_path, normalize_path, part_start, path_join, resolved_path};
use crate::text::{chars_of, copy_list, copy_text, join, same_text, split_char, text_between};
use crate::text::{joined, pieces, texts};
use crate::workspace::result_texts;

verus! {

pub const PATH_LEAVES_ROOT: &'static str = "path must stay inside workspace root";

pub const PATH_ESCAPES_ROOT: &'static str = "path escapes workspace root";

/// A path that can be taken from the root without leaving it: relative, and
/// without `..`.
pub open spec fn stays_inside(requested: Seq<char>) -> bool {
    !is_absolute_path(requested) && no_parent_part(pieces(requested, '/'))
}

/// A workspace; its root is a canonical path.
#[derive(Debug)]
pub struct Workspace {
    pub root: String,
}

/// The text of a path below the root; the root itself, and what is not below
/// it, is a dot.
pub open spec fn shown_path(root: Seq<char>, path: Seq<char>) -> Seq<char> {
    let r = normal_path(root);
    let p = normal_path(path);
    if is_inside(p, r) && names_start_with(p.names, r.names) && p.names.len() > r.names.len() {
        joined(p.names.skip(r.names.len() as int), "/"@)
    } else {
        "."@
    }
}

impl Workspace {
    /// The path to look up for a request, or why it is refused.
    pub fn requested_path(&self, requested: &str) -> (r: Result<String, String>)
        ensures
            result_texts(r) == if stays_inside(requested@) {
                Ok(path_join(self.root@, requested@))
            } else {
                Err(PATH_LEAVES_ROOT@)
            },
    {
        if is_absolute(requested) || has_parent_part(requested) {
            return Err(copy_text(PATH_LEAVES_ROOT));
        }
        Ok(join_path(self.root.as_str(), requested))
    }

    /// The place that a request leads to, given what looking its path up came
    /// to: links must not lead out of the root.
    pub fn accept_resolved(&self, resolved: Result<String, String>) -> (r: Result<String, String>)
        ensures
            result_texts(r) == match result_texts(resolved) {
                Ok(path) => if is_inside(normal_path(path), normal_path(self.root@)) {
                    Ok(path)
                } else {
                    Err(PATH_ESCAPES_ROOT@)
                },
                Err(e) => Err(e),
            },
    {
        match resolved {
            Ok(path) => if self.contains(path.as_str()) {
                Ok(path)
            } else {
                Err(copy_text(PATH_ESCAPES_ROOT))
            },
            Err(e) => Err(e),
        }
    }

    /// The canonical path lies in the workspace.
    pub fn contains(&self, canonical: &str) -> (r: bool)
        ensures
            r == is_inside(normal_path(canonical@), normal_path(self.root@)),
    {
        let root = normalize_path(self.root.as_str());
        normalize_path(canonical).is_inside_of(&root)
    }

    pub fn display_path(&self, path: &str) -> (r: String)
        ensures
            r@ == shown_path(self.root@, path@),
    {
        let root = normalize_path(self.root.as_str());
        let place = normalize_path(path);
        assert(texts(root.names@).len() == root.names.len());
        assert(texts(place.names@).len() == place.names.len());
        if place.is_inside_of(&root) && place.names.len() > root.names.len() {
            assert(is_inside(place@, root@));
            if !root.absolute && root.names.len() == 0 {
                assert(place@.names.take(0) =~= root@.names);
            }
            let rest = copy_list(&place.names, root.names.len(), place.names.len());
            assert(texts(rest@) =~= place@.names.skip(root@.names.len() as int));
            return join(&rest, "/");
        }
        copy_text(".")
    }
}

fn has_parent_part(path: &str) -> (r: bool)
    ensures
        r == !no_parent_part(pieces(path@, '/')),
{
    let parts = split_char(path, '/');
    let ghost all = pieces(path@, '/');
    let mut i: usize = 0;
    assert(texts(parts@).len() == parts.len());
    while i < parts.len()
        invariant
            i <= parts.len(),
            all == texts(parts@),
            all == pieces(path@, '/'),
            all.len() == parts.len(),
            forall|j: int| 0 <= j < i ==> #[trigger] all[j] != ".."@,
        decreases parts.len() - i,
    {
        assert(all[i as int] == parts@[i as int]@);
        if same_text(parts[i].as_str(), "..") {
            return true;
        }
        i += 1;
    }
    false
}

/// The last part of a path.
pub open spec fn last_part(path: Seq<char>) -> Seq<char> {
    let n = kept_end(path, path.len() as int);
    path.subrange(part_start(path, n), n)
}

/// A directory that is never looked into.
pub open spec fn is_ignored_path(path: Seq<char>) -> bool {
    let name = last_part(path);
    name == ".git"@ || name == "target"@ || name == "node_modules"@
}

pub fn is_ignored(path: &str) -> (r: bool)
    ensures
        r == is_ignored_path(path@),
{
    let v = chars_of(path);
    let mut n: usize = v.len();
    while n >= 2 && (v[n - 1] == '/' || (v[n - 1] == '.' && v[n - 2] == '/'))
        invariant
            n <= v.len(),
            kept_end(v@, v.len() as int) == kept_end(v@, n as int),
        decreases n,
    {
        n -= 1;
    }
    let mut k: usize = n;
    while k >= 1 && v[k - 1] != '/'
        invariant
            k <= n <= v.len(),
            part_start(v@, n as int) == part_start(v@, k as int),
        decreases k,
    {
        k -= 1;
    }
    let name = text_between(&v, k, n);
    same_text(name.as_str(), ".git") || same_text(name.as_str(), "target") || same_text(
        name.as_str(),
        "node_modules",
    )
}

// ---------------------------------------------------------------------------
// Laws
// ---------------------------------------------------------------------------

/// A request that is let through names a place below the root, as long as no
/// link leads elsewhere.
pub proof fn law_accepted_request_stays_inside(root: Seq<char>, requested: Seq<char>)
    requires
        stays_inside(requested),
    ensures
        is_inside(resolved_path(normal_path(root), requested), normal_path(root)),
{
    law_downward_path_stays_inside(normal_path(root), requested);
}

} // verus!
