//! What paths mean, and what is shown of them.
use vstd::prelude::*;

use crate::agent::tools::FileKind;
use crate::agent::walk::{children_behind, look_at, matched_from, search_found, search_next, tree_found, FoundView, SearchView, TreeFoundView, TreeView};
use crate::agent::workspace::{is_ignored_path, last_part, shown_path};
use crate::paths::{is_absolute_path, is_inside, is_plain_name, kept_end, names_start_with, normal_path, parent_path, part_start, path_join, path_text, resolved_path, with_parts, PathView};
use crate::safety::capped;
use crate::text::{decimal, has_text, joined, lemma_next_char, next_char, pieces, text_lines, trimmed};
use crate::text_laws::{is_free_of, law_pieces_lie_between_separators};
use crate::text_sort::{law_sorting_orders_and_keeps, sorted_texts, text_le};

verus! {

// ---------------------------------------------------------------------------
// Parts
// ---------------------------------------------------------------------------

proof fn lemma_last_piece(s: Seq<char>, c: char, name: Seq<char>)
    requires
        is_free_of(name, c),
    ensures
        pieces(s.push(c) + name, c) == pieces(s, c).push(name),
    decreases s.len(),
{
    lemma_next_char(s, c, 0);
    let e = next_char(s, c, 0);
    if e < s.len() {
        let first = s.take(e);
        let rest = s.skip(e + 1);
        assert(is_free_of(first, c)) by {
            assert forall|i: int| 0 <= i < first.len() implies first[i] != c by {
                assert(first[i] == s[i]);
            }
        }
        lemma_last_piece(rest, c, name);
        law_pieces_lie_between_separators(first, c, rest);
        law_pieces_lie_between_separators(first, c, rest.push(c) + name);
        assert(first.push(c) + rest =~= s);
        assert(first.push(c) + (rest.push(c) + name) =~= s.push(c) + name);
        assert(seq![first] + pieces(rest, c).push(name) =~= (seq![first] + pieces(rest, c)).push(
            name,
        ));
    } else {
        assert(is_free_of(s, c)) by {
            assert forall|i: int| 0 <= i < s.len() implies s[i] != c by {}
        }
        law_pieces_lie_between_separators(s, c, name);
        law_pieces_lie_between_separators(name, c, Seq::empty());
        assert(seq![s] + seq![name] =~= seq![s].push(name));
    }
}

proof fn lemma_with_parts(
    names: Seq<Seq<char>>,
    parts: Seq<Seq<char>>,
    more: Seq<Seq<char>>,
    n: int,
)
    requires
        0 <= n <= parts.len(),
    ensures
        with_parts(names, parts + more, n) == with_parts(names, parts, n),
    decreases n,
{
    if n > 0 {
        lemma_with_parts(names, parts, more, n - 1);
        assert((parts + more)[n - 1] == parts[n - 1]);
    }
}

proof fn lemma_one_more_part(names: Seq<Seq<char>>, s: Seq<char>, name: Seq<char>)
    requires
        is_free_of(name, '/'),
    ensures
        ({
            let parts = pieces(s, '/');
            let all = pieces(s.push('/') + name, '/');
            let before = with_parts(names, parts, parts.len() as int);
            let after = with_parts(names, all, all.len() as int);
            &&& is_plain_name(name) ==> after == before.push(name)
            &&& name.len() == 0 || name == "."@ ==> after == before
            &&& name == ".."@ && before.len() > 0 ==> after == before.drop_last()
            &&& name == ".."@ && before.len() == 0 ==> after == before
        }),
{
    reveal_strlit(".");
    reveal_strlit("..");
    let parts = pieces(s, '/');
    lemma_last_piece(s, '/', name);
    assert(parts.push(name) =~= parts + seq![name]);
    lemma_with_parts(names, parts, seq![name], parts.len() as int);
    assert("."@ != ".."@) by {
        assert("."@.len() != ".."@.len());
    }
}

/// A path is read part by part: a name leads down to what it names, two dots
/// lead up by one, and one dot, or nothing, leads nowhere.
pub proof fn law_paths_are_read_part_by_part(root: PathView, s: Seq<char>, name: Seq<char>)
    requires
        is_free_of(name, '/'),
        s.len() > 0,
    ensures
        ({
            let before = normal_path(s);
            let after = normal_path(s.push('/') + name);
            &&& after.absolute == before.absolute
            &&& is_plain_name(name) ==> after.names == before.names.push(name)
            &&& name.len() == 0 || name == "."@ ==> after.names == before.names
            &&& name == ".."@ && before.names.len() > 0 ==> after.names == before.names.drop_last()
            &&& name == ".."@ && before.names.len() == 0 ==> after.names == before.names
        }),
        ({
            let before = resolved_path(root, s);
            let after = resolved_path(root, s.push('/') + name);
            &&& after.absolute == before.absolute
            &&& is_plain_name(name) ==> after.names == before.names.push(name)
            &&& name == ".."@ && before.names.len() > 0 ==> after.names == before.names.drop_last()
        }),
{
    assert((s.push('/') + name)[0] == s[0]);
    lemma_one_more_part(Seq::empty(), s, name);
    lemma_one_more_part(root.names, s, name);
}

/// A name alone is what lies below the root under that name; an absolute path
/// is what it says, whatever the root.
pub proof fn law_names_lie_below_the_root(root: PathView, name: Seq<char>, path: Seq<char>)
    requires
        is_free_of(name, '/'),
        is_plain_name(name),
        is_absolute_path(path),
    ensures
        resolved_path(root, name) == (PathView {
            absolute: root.absolute,
            names: root.names.push(name),
        }),
        resolved_path(root, path) == normal_path(path),
        normal_path(path).absolute,
{
    law_pieces_lie_between_separators(name, '/', Seq::empty());
    reveal_with_fuel(with_parts, 2);
    assert(!is_absolute_path(name));
}

/// Inside an absolute root lie the paths that start with its names, and no
/// others.
pub proof fn law_inside_means_below(p: PathView, root: PathView, more: Seq<Seq<char>>)
    requires
        root.absolute,
    ensures
        is_inside(PathView { absolute: true, names: root.names + more }, root),
        !is_inside(PathView { absolute: false, names: root.names + more }, root),
        is_inside(p, root) ==> p.absolute && p.names == root.names + p.names.skip(
            root.names.len() as int,
        ),
{
    let n = root.names.len() as int;
    assert((root.names + more).take(n) =~= root.names);
    if is_inside(p, root) {
        assert(p.names =~= p.names.take(n) + p.names.skip(n));
    }
}

/// A path below the root is shown as the way down from the root; the root
/// itself, and what lies outside, is shown as a dot.
pub proof fn law_paths_are_shown_from_the_root(root: Seq<char>, path: Seq<char>, more: Seq<Seq<char>>)
    requires
        normal_path(root).absolute,
        normal_path(path).absolute,
    ensures
        normal_path(path).names == normal_path(root).names + more && more.len() > 0 ==> shown_path(
            root,
            path,
        ) == joined(more, "/"@),
        normal_path(path).names == normal_path(root).names ==> shown_path(root, path) == "."@,
        !is_inside(normal_path(path), normal_path(root)) ==> shown_path(root, path) == "."@,
{
    let r = normal_path(root).names;
    let p = normal_path(path).names;
    let n = r.len() as int;
    if p == r + more && more.len() > 0 {
        assert((r + more).take(n) =~= r);
        assert((r + more).skip(n) =~= more);
        assert(names_start_with(p, r));
    }
}

/// An absolute path is written with a slash in front of each of its names.
pub proof fn law_paths_are_written_with_slashes(names: Seq<Seq<char>>, name: Seq<char>)
    ensures
        path_text(PathView { absolute: true, names: Seq::empty() }) == "/"@,
        path_text(PathView { absolute: true, names: seq![name] }) == "/"@ + name,
        names.len() > 0 ==> path_text(PathView { absolute: true, names: names.push(name) })
            == path_text(PathView { absolute: true, names }) + "/"@ + name,
        names.len() > 0 ==> path_text(PathView { absolute: false, names: names.push(name) })
            == path_text(PathView { absolute: false, names }) + "/"@ + name,
{
    assert(names.push(name).drop_last() =~= names);
    assert("/"@ + Seq::<char>::empty() =~= "/"@);
    if names.len() > 0 {
        let j = joined(names, "/"@);
        assert("/"@ + (j + "/"@ + name) =~= "/"@ + j + "/"@ + name);
        assert(Seq::<char>::empty() + (j + "/"@ + name) =~= Seq::<char>::empty() + j + "/"@ + name);
    }
}

/// Joining puts a relative path below the other; an absolute one stands alone.
pub proof fn law_joined_paths_lie_below(a: Seq<char>, b: Seq<char>)
    ensures
        is_absolute_path(b) ==> path_join(a, b) == b,
        !is_absolute_path(b) && a.len() > 0 && a.last() != '/' ==> path_join(a, b) == a + "/"@ + b,
        !is_absolute_path(b) && a.len() > 0 && a.last() == '/' ==> path_join(a, b) == a + b,
        path_join(Seq::empty(), b) == b,
{
}

// ---------------------------------------------------------------------------
// The last part
// ---------------------------------------------------------------------------

proof fn lemma_part_start(dir: Seq<char>, name: Seq<char>, n: int)
    requires
        is_free_of(name, '/'),
        0 <= n <= name.len(),
    ensures
        part_start(dir.push('/') + name, dir.len() + 1 + n) == dir.len() + 1,
    decreases n,
{
    let s = dir.push('/') + name;
    if n > 0 {
        assert(s[dir.len() + n] == name[n - 1]);
        lemma_part_start(dir, name, n - 1);
    } else {
        assert(s[dir.len() as int] == '/');
    }
}

/// The last part of a path is the name behind its last slash, and its parent is
/// what stands in front of that.
pub proof fn law_last_part_is_the_name(dir: Seq<char>, name: Seq<char>)
    requires
        is_free_of(name, '/'),
        is_plain_name(name),
    ensures
        last_part(dir.push('/') + name) == name,
        dir.len() > 0 && dir.last() != '/' && dir.last() != '.' ==> parent_path(
            dir.push('/') + name,
        ) == Some(dir),
{
    reveal_strlit(".");
    let s = dir.push('/') + name;
    let n = s.len() as int;
    assert(s[n - 1] == name.last());
    if name.len() == 1 {
        assert(name.last() != '.') by {
            if name.last() == '.' {
                assert(name =~= "."@);
            }
        }
    } else {
        assert(s[n - 2] == name[name.len() - 2]);
    }
    assert(kept_end(s, n) == n);
    lemma_part_start(dir, name, name.len() as int);
    assert(s.subrange(dir.len() as int + 1, n) =~= name);
    if dir.len() > 0 && dir.last() != '/' && dir.last() != '.' {
        let d = dir.len() as int;
        assert(s[d] == '/');
        assert(s[d - 1] == dir.last());
        assert(kept_end(s, d) == d);
        assert(kept_end(s, d + 1) == d);
        assert(s.take(d) =~= dir);
    }
}

/// The directories of version control, of builds and of packages are passed
/// over, wherever they lie, and nothing else is.
pub proof fn law_only_these_names_are_passed_over(dir: Seq<char>, name: Seq<char>)
    requires
        is_free_of(name, '/'),
        is_plain_name(name),
    ensures
        is_ignored_path(dir.push('/') + name) <==> (name == ".git"@ || name == "target"@ || name
            == "node_modules"@),
{
    law_last_part_is_the_name(dir, name);
}

// ---------------------------------------------------------------------------
// Searching
// ---------------------------------------------------------------------------

proof fn lemma_matched_on(
    lines: Seq<Seq<char>>,
    more: Seq<Seq<char>>,
    k: int,
    query: Seq<char>,
    shown: Seq<char>,
    so_far: Seq<Seq<char>>,
)
    requires
        0 <= k <= lines.len(),
    ensures
        matched_from(lines + more, k, query, shown, so_far) == matched_from(
            lines + more,
            lines.len() as int,
            query,
            shown,
            matched_from(lines, k, query, shown, so_far),
        ),
    decreases lines.len() - k,
{
    let all = lines + more;
    if k < lines.len() && so_far.len() < 80 {
        assert(all[k] == lines[k]);
        let next = if has_text(lines[k], query) {
            so_far.push(crate::agent::walk::match_text(shown, (k + 1) as nat, lines[k]))
        } else {
            so_far
        };
        lemma_matched_on(lines, more, k + 1, query, shown, next);
    }
}

/// One more line of a file is one more match where the query stands in it and
/// there are fewer than eighty: with the path, the number of the line and the
/// line. A line without the query, and one too many, add nothing.
pub proof fn law_matching_lines_are_found(
    lines: Seq<Seq<char>>,
    line: Seq<char>,
    query: Seq<char>,
    shown: Seq<char>,
    so_far: Seq<Seq<char>>,
)
    ensures
        matched_from(Seq::empty(), 0, query, shown, so_far) == so_far,
        ({
            let before = matched_from(lines, 0, query, shown, so_far);
            let after = matched_from(lines.push(line), 0, query, shown, so_far);
            &&& before.len() < 80 && has_text(line, query) ==> after == before.push(
                shown + ":"@ + decimal(lines.len() + 1) + ": "@ + capped(trimmed(line), 240),
            )
            &&& before.len() >= 80 || !has_text(line, query) ==> after == before
        }),
{
    let n = lines.len() as int;
    assert(lines.push(line) =~= lines + seq![line]);
    lemma_matched_on(lines, seq![line], 0, query, shown, so_far);
    assert((lines + seq![line])[n] == line);
    reveal_with_fuel(matched_from, 2);
}

/// A file that is looked at is searched line by line under the path by which it
/// is shown; nothing else of the search changes.
pub proof fn law_files_are_searched(v: SearchView, path: Seq<char>, content: Seq<char>)
    ensures
        search_found(v, path, FoundView::File(content)) == (SearchView {
            matches: matched_from(
                text_lines(content),
                0,
                v.query,
                shown_path(v.root, path),
                v.matches,
            ),
            ..v
        }),
        search_found(v, path, FoundView::Nothing) == v,
{
}

/// What is in a directory comes next, in the order of the names, each name once
/// and below the directory.
pub proof fn law_directories_come_in_order(v: SearchView, dir: Seq<char>, names: Seq<Seq<char>>)
    ensures
        ({
            let w = search_found(v, dir, FoundView::Directory(names));
            let n = names.len() as int;
            let order = sorted_texts(names);
            &&& w.pending.len() == v.pending.len() + n
            &&& w.pending.take(v.pending.len() as int) == v.pending
            &&& order.to_multiset() == names.to_multiset()
            &&& forall|i: int|
                0 <= i < n ==> #[trigger] w.pending[w.pending.len() - 1 - i] == path_join(
                    dir,
                    order[i],
                )
            &&& w.matches == v.matches
            &&& w.query == v.query
        }),
{
    law_sorting_orders_and_keeps(names);
    let w = search_found(v, dir, FoundView::Directory(names));
    let order = sorted_texts(names);
    let kids = children_behind(dir, names);
    let n = names.len() as int;
    let m = v.pending.len() as int;
    assert(w.pending.take(m) =~= v.pending);
    assert forall|i: int| 0 <= i < n implies #[trigger] w.pending[w.pending.len() - 1 - i]
        == path_join(dir, order[i]) by {
        assert(w.pending[w.pending.len() - 1 - i] == kids[n - 1 - i]);
    }
}

/// The place that is looked at next is the one on top, unless it is passed over
/// or enough was found.
pub proof fn law_next_place_is_on_top(v: SearchView)
    requires
        v.pending.len() > 0,
        !is_ignored_path(v.pending.last()),
    ensures
        v.matches.len() < 80 ==> search_next(v) == Some(v.pending.last()),
        v.matches.len() >= 80 ==> search_next(v) is None,
{
}

/// Directories inside the workspace are listed and files of up to 65536 bytes
/// read; all else is left alone.
pub proof fn law_what_is_looked_at(size: u64, kind: FileKind)
    ensures
        look_at(true, FileKind::Directory, size) is List,
        look_at(true, FileKind::File, size) is Read <==> size <= 65_536,
        look_at(true, FileKind::Other, size) is Skip,
        look_at(false, kind, size) is Skip,
{
}

/// An entry of a tree is its kind and its path. What is in a directory follows,
/// one level deeper, until the depth asked for.
pub proof fn law_tree_entries(
    v: TreeView,
    path: Seq<char>,
    depth: int,
    kind: FileKind,
    names: Seq<Seq<char>>,
)
    requires
        v.pending.len() == v.depths.len(),
    ensures
        ({
            let w = tree_found(v, path, depth, TreeFoundView::Entry { kind, names });
            let word = match kind {
                FileKind::Directory => "dir"@,
                FileKind::File => "file"@,
                FileKind::Other => "other"@,
                FileKind::Unknown => "unknown"@,
            };
            &&& w.entries == v.entries.push(word + "\t"@ + shown_path(v.root, path))
            &&& kind is Directory && depth < v.max_depth ==> w.pending.len() == v.pending.len()
                + names.len() && w.depths.len() == w.pending.len()
            &&& kind is Directory && depth < v.max_depth ==> forall|i: int|
                v.pending.len() <= i < w.depths.len() ==> #[trigger] w.depths[i] == depth + 1
            &&& !(kind is Directory) || depth >= v.max_depth ==> w.pending == v.pending
        }),
        tree_found(v, path, depth, TreeFoundView::Outside) == v,
{
    law_sorting_orders_and_keeps(names);
}

/// Texts are in order by their first difference; where one goes on when the
/// other ends, the shorter comes first.
pub proof fn law_order_of_texts(front: Seq<char>, a: char, b: char, x: Seq<char>, y: Seq<char>)
    requires
        a < b,
    ensures
        text_le(front, front),
        text_le(front, front + x),
        x.len() > 0 ==> !text_le(front + x, front),
        text_le(front + (seq![a] + x), front + (seq![b] + y)),
        !text_le(front + (seq![b] + y), front + (seq![a] + x)),
{
    let p = front + (seq![a] + x);
    let q = front + (seq![b] + y);
    lemma_le_front(front, Seq::empty(), Seq::empty(), 0);
    assert(front + Seq::<char>::empty() =~= front);
    lemma_le_front(front, Seq::empty(), x, 0);
    lemma_le_front(front, x, Seq::empty(), 0);
    lemma_le_front(front, seq![a] + x, seq![b] + y, 0);
    lemma_le_front(front, seq![b] + y, seq![a] + x, 0);
    let n = front.len() as int;
    assert(p[n] == a && q[n] == b);
}

proof fn lemma_le_front(front: Seq<char>, x: Seq<char>, y: Seq<char>, i: int)
    requires
        0 <= i <= front.len(),
    ensures
        crate::text_sort::text_le_from(front + x, front + y, i)
            == crate::text_sort::text_le_from(front + x, front + y, front.len() as int),
    decreases front.len() - i,
{
    if i < front.len() {
        assert((front + x)[i] == front[i]);
        assert((front + y)[i] == front[i]);
        lemma_le_front(front, x, y, i + 1);
    }
}

} // verus!
