//! Paths as text: their parts, joining, normal form and containment.
use vstd::prelude::*;

use crate::text::{char_count, chars_of, concat2, concat3, copy_list, copy_text, join, push_item, same_text, split_char, text_between};
use crate::text::{joined, lemma_texts_empty, opt_text, pieces, texts};

verus! {

pub open spec fn is_absolute_path(s: Seq<char>) -> bool {
    s.len() > 0 && s[0] == '/'
}

pub fn is_absolute(path: &str) -> (r: bool)
    ensures
        r == is_absolute_path(path@),
{
    let v = chars_of(path);
    v.len() > 0 && v[0] == '/'
}

/// The path `b`, taken from `a` unless it is absolute.
pub open spec fn path_join(a: Seq<char>, b: Seq<char>) -> Seq<char> {
    if is_absolute_path(b) || a.len() == 0 {
        b
    } else if a.last() == '/' {
        a + b
    } else {
        a + "/"@ + b
    }
}

pub fn join_path(a: &str, b: &str) -> (r: String)
    ensures
        r@ == path_join(a@, b@),
{
    let v = chars_of(a);
    if is_absolute(b) || v.len() == 0 {
        copy_text(b)
    } else if v[v.len() - 1] == '/' {
        concat2(a, b)
    } else {
        concat3(a, "/", b)
    }
}

// ---------------------------------------------------------------------------
// Normal form
// ---------------------------------------------------------------------------

/// A path without `.` and `..`: whether it starts at the root, and its names.
#[verifier::ext_equal]
pub struct PathView {
    pub absolute: bool,
    pub names: Seq<Seq<char>>,
}

/// The names after one more part: empty parts and `.` stay out, and `..` takes
/// the last name away.
pub open spec fn with_part(names: Seq<Seq<char>>, part: Seq<char>) -> Seq<Seq<char>> {
    if part.len() == 0 || part == "."@ {
        names
    } else if part == ".."@ {
        if names.len() == 0 {
            names
        } else {
            names.drop_last()
        }
    } else {
        names.push(part)
    }
}

/// The names after the first `n` parts.
pub open spec fn with_parts(names: Seq<Seq<char>>, parts: Seq<Seq<char>>, n: int) -> Seq<Seq<char>>
    decreases n,
{
    if n <= 0 || n > parts.len() {
        names
    } else {
        with_part(with_parts(names, parts, n - 1), parts[n - 1])
    }
}

/// The normal form of a path.
pub open spec fn normal_path(s: Seq<char>) -> PathView {
    let parts = pieces(s, '/');
    PathView {
        absolute: is_absolute_path(s),
        names: with_parts(Seq::empty(), parts, parts.len() as int),
    }
}

/// The normal form of a path that is taken from `root` unless it is absolute.
pub open spec fn resolved_path(root: PathView, s: Seq<char>) -> PathView {
    let parts = pieces(s, '/');
    if is_absolute_path(s) {
        normal_path(s)
    } else {
        PathView {
            absolute: root.absolute,
            names: with_parts(root.names, parts, parts.len() as int),
        }
    }
}

/// The text of a normal path.
pub open spec fn path_text(p: PathView) -> Seq<char> {
    (if p.absolute {
        "/"@
    } else {
        Seq::empty()
    }) + joined(p.names, "/"@)
}

/// The first names of a path are those of another.
pub open spec fn names_start_with(names: Seq<Seq<char>>, first: Seq<Seq<char>>) -> bool {
    first.len() <= names.len() && names.take(first.len() as int) == first
}

/// The path is the root or lies below it.
pub open spec fn is_inside(p: PathView, root: PathView) -> bool {
    if root.absolute {
        p.absolute && names_start_with(p.names, root.names)
    } else {
        root.names.len() == 0 || (!p.absolute && names_start_with(p.names, root.names))
    }
}

#[derive(Debug)]
pub struct NormalPath {
    pub absolute: bool,
    pub names: Vec<String>,
}

impl View for NormalPath {
    type V = PathView;

    open spec fn view(&self) -> PathView {
        PathView { absolute: self.absolute, names: texts(self.names@) }
    }
}

impl NormalPath {
    pub fn to_text(&self) -> (r: String)
        ensures
            r@ == path_text(self@),
    {
        let names = join(&self.names, "/");
        if self.absolute {
            concat2("/", names.as_str())
        } else {
            assert(Seq::<char>::empty() + names@ =~= names@);
            names
        }
    }

    pub fn is_inside_of(&self, root: &NormalPath) -> (r: bool)
        ensures
            r == is_inside(self@, root@),
    {
        assert(texts(root.names@).len() == root.names.len());
        if root.absolute {
            self.absolute && list_starts_with(&self.names, &root.names)
        } else {
            root.names.len() == 0 || (!self.absolute && list_starts_with(&self.names, &root.names))
        }
    }
}

fn list_starts_with(names: &Vec<String>, first: &Vec<String>) -> (r: bool)
    ensures
        r == names_start_with(texts(names@), texts(first@)),
{
    let ghost a = texts(names@);
    let ghost b = texts(first@);
    assert(a.len() == names.len() && b.len() == first.len());
    if first.len() > names.len() {
        return false;
    }
    let mut i: usize = 0;
    while i < first.len()
        invariant
            i <= first.len() <= names.len(),
            a == texts(names@),
            b == texts(first@),
            a.len() == names.len(),
            b.len() == first.len(),
            forall|j: int| 0 <= j < i ==> a[j] == b[j],
        decreases first.len() - i,
    {
        assert(a[i as int] == names@[i as int]@ && b[i as int] == first@[i as int]@);
        if !same_text(names[i].as_str(), first[i].as_str()) {
            assert(a.take(b.len() as int)[i as int] != b[i as int]);
            return false;
        }
        i += 1;
    }
    assert(a.take(b.len() as int) =~= b);
    true
}

fn add_parts(start: Vec<String>, parts: &Vec<String>) -> (r: Vec<String>)
    ensures
        texts(r@) == with_parts(texts(start@), texts(parts@), parts.len() as int),
{
    let ghost first = texts(start@);
    let ghost list = texts(parts@);
    let mut out = start;
    let mut i: usize = 0;
    while i < parts.len()
        invariant
            i <= parts.len(),
            list == texts(parts@),
            list.len() == parts.len(),
            texts(out@) == with_parts(first, list, i as int),
        decreases parts.len() - i,
    {
        let part = parts[i].as_str();
        assert(part@ == list[i as int]);
        assert(texts(out@).len() == out.len());
        if char_count(part) == 0 || same_text(part, ".") {
        } else if same_text(part, "..") {
            if out.len() > 0 {
                let ghost before = texts(out@);
                out.pop();
                assert(texts(out@) =~= before.drop_last());
            }
        } else {
            push_item(&mut out, copy_text(part));
        }
        i += 1;
    }
    out
}

pub fn normalize_path(path: &str) -> (r: NormalPath)
    ensures
        r@ == normal_path(path@),
{
    broadcast use lemma_texts_empty;

    let parts = split_char(path, '/');
    assert(texts(parts@).len() == parts.len());
    let names = add_parts(Vec::new(), &parts);
    NormalPath { absolute: is_absolute(path), names }
}

/// The normal form of a path that is taken from `root` unless it is absolute.
pub fn resolve_path(root: &NormalPath, path: &str) -> (r: NormalPath)
    ensures
        r@ == resolved_path(root@, path@),
{
    if is_absolute(path) {
        return normalize_path(path);
    }
    let parts = split_char(path, '/');
    assert(texts(parts@).len() == parts.len());
    let start = copy_list(&root.names, 0, root.names.len());
    assert(texts(start@) =~= texts(root.names@));
    let names = add_parts(start, &parts);
    NormalPath { absolute: root.absolute, names }
}

// ---------------------------------------------------------------------------
// Parents
// ---------------------------------------------------------------------------

/// The end of the first `n` characters once separators and `.` parts behind
/// them are dropped; the root stays.
pub open spec fn kept_end(s: Seq<char>, n: int) -> int
    decreases n,
{
    if 2 <= n <= s.len() && (s[n - 1] == '/' || (s[n - 1] == '.' && s[n - 2] == '/')) {
        kept_end(s, n - 1)
    } else {
        n
    }
}

/// The start of the part that ends at `n`.
pub open spec fn part_start(s: Seq<char>, n: int) -> int
    decreases n,
{
    if 1 <= n <= s.len() && s[n - 1] != '/' {
        part_start(s, n - 1)
    } else {
        n
    }
}

/// The path without its last part; the root and the empty path have none.
pub open spec fn parent_path(s: Seq<char>) -> Option<Seq<char>> {
    let n = kept_end(s, s.len() as int);
    if n <= 0 || (n == 1 && s[0] == '/') {
        None
    } else {
        Some(s.take(kept_end(s, part_start(s, n))))
    }
}

fn kept_end_at(v: &Vec<char>, from: usize) -> (r: usize)
    requires
        from <= v.len(),
    ensures
        r == kept_end(v@, from as int),
        r <= from,
{
    let mut n: usize = from;
    while n >= 2 && (v[n - 1] == '/' || (v[n - 1] == '.' && v[n - 2] == '/'))
        invariant
            n <= from <= v.len(),
            kept_end(v@, from as int) == kept_end(v@, n as int),
        decreases n,
    {
        n -= 1;
    }
    n
}

pub fn parent_of(path: &str) -> (r: Option<String>)
    ensures
        opt_text(r) == parent_path(path@),
{
    let v = chars_of(path);
    let n = kept_end_at(&v, v.len());
    if n == 0 || (n == 1 && v[0] == '/') {
        return None;
    }
    let mut k: usize = n;
    while k >= 1 && v[k - 1] != '/'
        invariant
            k <= n <= v.len(),
            part_start(v@, n as int) == part_start(v@, k as int),
        decreases k,
    {
        k -= 1;
    }
    let e = kept_end_at(&v, k);
    let r = text_between(&v, 0, e);
    assert(r@ =~= path@.take(e as int));
    Some(r)
}

// ---------------------------------------------------------------------------
// Laws
// ---------------------------------------------------------------------------

/// A name that may stand in a normal path.
pub open spec fn is_plain_name(name: Seq<char>) -> bool {
    name.len() > 0 && name != "."@ && name != ".."@
}

pub open spec fn all_plain_names(names: Seq<Seq<char>>) -> bool {
    forall|i: int| 0 <= i < names.len() ==> is_plain_name(#[trigger] names[i])
}

proof fn lemma_parts_keep_plain(names: Seq<Seq<char>>, parts: Seq<Seq<char>>, n: int)
    requires
        all_plain_names(names),
    ensures
        all_plain_names(with_parts(names, parts, n)),
    decreases n,
{
    if 0 < n <= parts.len() {
        lemma_parts_keep_plain(names, parts, n - 1);
    }
}

/// A normal path holds no `.`, no `..` and no empty name.
pub proof fn law_normal_path_holds_plain_names(s: Seq<char>)
    ensures
        all_plain_names(normal_path(s).names),
{
    lemma_parts_keep_plain(Seq::empty(), pieces(s, '/'), pieces(s, '/').len() as int);
}

/// A part that does not lead upwards.
pub open spec fn no_parent_part(parts: Seq<Seq<char>>) -> bool {
    forall|i: int| 0 <= i < parts.len() ==> #[trigger] parts[i] != ".."@
}

proof fn lemma_downward_parts(names: Seq<Seq<char>>, parts: Seq<Seq<char>>, n: int)
    requires
        no_parent_part(parts),
    ensures
        names_start_with(with_parts(names, parts, n), names),
    decreases n,
{
    if 0 < n <= parts.len() {
        lemma_downward_parts(names, parts, n - 1);
        let before = with_parts(names, parts, n - 1);
        let after = with_parts(names, parts, n);
        assert(parts[n - 1] != ".."@);
        assert(after.take(names.len() as int) =~= before.take(names.len() as int));
    } else {
        assert(names.take(names.len() as int) =~= names);
    }
}

/// A relative path without `..` never leaves the root that it is taken from.
pub proof fn law_downward_path_stays_inside(root: PathView, s: Seq<char>)
    requires
        !is_absolute_path(s),
        no_parent_part(pieces(s, '/')),
    ensures
        is_inside(resolved_path(root, s), root),
{
    let parts = pieces(s, '/');
    lemma_downward_parts(root.names, parts, parts.len() as int);
}

/// A path lies inside itself, and inside what it lies inside of lies inside of.
pub proof fn law_inside_is_an_order(a: PathView, b: PathView, c: PathView)
    ensures
        is_inside(a, a),
        is_inside(a, b) && is_inside(b, c) ==> is_inside(a, c),
{
    assert(a.names.take(a.names.len() as int) =~= a.names);
    if is_inside(a, b) && is_inside(b, c) && names_start_with(a.names, b.names)
        && names_start_with(b.names, c.names) {
        assert(a.names.take(c.names.len() as int) =~= b.names.take(c.names.len() as int)) by {
            assert forall|i: int| 0 <= i < c.names.len() implies a.names[i] == b.names[i] by {
                assert(a.names.take(b.names.len() as int)[i] == b.names[i]);
            }
        }
    }
}

} // verus!
