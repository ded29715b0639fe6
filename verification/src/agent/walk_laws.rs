//! The walks look at a workspace depth first and in order: what they gather is
//! what a recursive listing of the tree gives.
use vstd::prelude::*;

use crate::agent::tools::FileKind;
use crate::agent::walk::{children_behind, matched_from, search_found, search_next, search_taken, tree_found, tree_next, tree_taken, without_ignored, FoundView, SearchView, TreeFoundView, TreeView, MAX_SEARCH_MATCHES, MAX_TREE_ENTRIES};
use crate::agent::workspace::{is_ignored_path, shown_path};
use crate::paths::path_join;
use crate::text::text_lines;
use crate::text_sort::sorted_texts;

verus! {

/// What there is at a place of a tree, with what is below it. Something else is
/// neither a directory nor a file that can be searched.
pub enum Place {
    Directory(Seq<(Seq<char>, Place)>),
    File(Seq<char>),
    Nothing,
}

pub open spec fn names_of(children: Seq<(Seq<char>, Place)>) -> Seq<Seq<char>> {
    Seq::new(children.len(), |i: int| children[i].0)
}

/// The names of the directory are listed in order.
pub open spec fn listed_in_order(place: Place) -> bool {
    match place {
        Place::Directory(children) => sorted_texts(names_of(children)) == names_of(children),
        _ => true,
    }
}

/// A path with what is there.
pub type Spot = (Seq<char>, Place);

pub open spec fn paths_of(stack: Seq<Spot>) -> Seq<Seq<char>> {
    Seq::new(stack.len(), |i: int| stack[i].0)
}

/// The children of a directory from child `k` on, the first on top.
pub open spec fn stacked(path: Seq<char>, children: Seq<(Seq<char>, Place)>, k: int) -> Seq<Spot> {
    Seq::new(
        (children.len() - k) as nat,
        |i: int|
            (
                path_join(path, children[children.len() - 1 - i].0),
                children[children.len() - 1 - i].1,
            ),
    )
}

proof fn lemma_stacked(path: Seq<char>, children: Seq<(Seq<char>, Place)>, k: int)
    requires
        0 <= k < children.len(),
    ensures
        stacked(path, children, k) == stacked(path, children, k + 1).push(
            (path_join(path, children[k].0), children[k].1),
        ),
{
    assert(stacked(path, children, k) =~= stacked(path, children, k + 1).push(
        (path_join(path, children[k].0), children[k].1),
    ));
}

proof fn lemma_children_behind(path: Seq<char>, children: Seq<(Seq<char>, Place)>)
    requires
        listed_in_order(Place::Directory(children)),
    ensures
        children_behind(path, names_of(children)) == paths_of(stacked(path, children, 0)),
{
    assert(children_behind(path, names_of(children)) =~= paths_of(stacked(path, children, 0)));
}

/// The stack without ignored places on top.
pub open spec fn open_stack(stack: Seq<Spot>) -> Seq<Spot>
    decreases stack.len(),
{
    if stack.len() > 0 && is_ignored_path(stack.last().0) {
        open_stack(stack.drop_last())
    } else {
        stack
    }
}

proof fn lemma_open_stack(stack: Seq<Spot>)
    ensures
        paths_of(open_stack(stack)) == without_ignored(paths_of(stack)),
        open_stack(stack).len() <= stack.len(),
        open_stack(stack) == stack.take(open_stack(stack).len() as int),
        open_stack(stack).len() > 0 ==> !is_ignored_path(open_stack(stack).last().0),
    decreases stack.len(),
{
    if stack.len() > 0 && is_ignored_path(stack.last().0) {
        lemma_open_stack(stack.drop_last());
        assert(paths_of(stack).drop_last() =~= paths_of(stack.drop_last()));
        assert(stack.drop_last().take(open_stack(stack).len() as int) =~= stack.take(
            open_stack(stack).len() as int,
        ));
    } else {
        assert(stack.take(stack.len() as int) =~= stack);
    }
}

// ---------------------------------------------------------------------------
// Searching
// ---------------------------------------------------------------------------

/// What a search sees at a place.
pub open spec fn seen(place: Place) -> FoundView {
    match place {
        Place::Directory(children) => FoundView::Directory(names_of(children)),
        Place::File(content) => FoundView::File(content),
        Place::Nothing => FoundView::Nothing,
    }
}

/// The matches so far, and those at a place and below it, until there are
/// enough.
pub open spec fn found_in(
    root: Seq<char>,
    query: Seq<char>,
    path: Seq<char>,
    place: Place,
    so_far: Seq<Seq<char>>,
) -> Seq<Seq<char>>
    decreases place, 0int,
{
    if so_far.len() >= MAX_SEARCH_MATCHES || is_ignored_path(path) {
        so_far
    } else {
        match place {
            Place::Nothing => so_far,
            Place::File(content) => matched_from(
                text_lines(content),
                0,
                query,
                shown_path(root, path),
                so_far,
            ),
            Place::Directory(children) => found_among(root, query, path, children, 0, so_far),
        }
    }
}

/// The same for the children of a directory from child `k` on.
pub open spec fn found_among(
    root: Seq<char>,
    query: Seq<char>,
    path: Seq<char>,
    children: Seq<(Seq<char>, Place)>,
    k: int,
    so_far: Seq<Seq<char>>,
) -> Seq<Seq<char>>
    decreases children, children.len() - k,
{
    if k < 0 || k >= children.len() {
        so_far
    } else {
        found_among(
            root,
            query,
            path,
            children,
            k + 1,
            found_in(root, query, path_join(path, children[k].0), children[k].1, so_far),
        )
    }
}

/// What is left to be found on a stack of places, the top one first.
pub open spec fn found_on(
    root: Seq<char>,
    query: Seq<char>,
    stack: Seq<Spot>,
    so_far: Seq<Seq<char>>,
) -> Seq<Seq<char>>
    decreases stack.len(),
{
    if stack.len() == 0 {
        so_far
    } else {
        found_on(
            root,
            query,
            stack.drop_last(),
            found_in(root, query, stack.last().0, stack.last().1, so_far),
        )
    }
}

proof fn lemma_enough_found(
    root: Seq<char>,
    query: Seq<char>,
    stack: Seq<Spot>,
    so_far: Seq<Seq<char>>,
)
    requires
        so_far.len() >= MAX_SEARCH_MATCHES,
    ensures
        found_on(root, query, stack, so_far) == so_far,
    decreases stack.len(),
{
    if stack.len() > 0 {
        lemma_enough_found(root, query, stack.drop_last(), so_far);
    }
}

proof fn lemma_ignored_find_nothing(
    root: Seq<char>,
    query: Seq<char>,
    stack: Seq<Spot>,
    so_far: Seq<Seq<char>>,
)
    ensures
        found_on(root, query, open_stack(stack), so_far) == found_on(root, query, stack, so_far),
    decreases stack.len(),
{
    if stack.len() > 0 && is_ignored_path(stack.last().0) {
        lemma_ignored_find_nothing(root, query, stack.drop_last(), so_far);
    }
}

proof fn lemma_children_first(
    root: Seq<char>,
    query: Seq<char>,
    rest: Seq<Spot>,
    path: Seq<char>,
    children: Seq<(Seq<char>, Place)>,
    k: int,
    so_far: Seq<Seq<char>>,
)
    requires
        0 <= k <= children.len(),
    ensures
        found_on(root, query, rest + stacked(path, children, k), so_far) == found_on(
            root,
            query,
            rest,
            found_among(root, query, path, children, k, so_far),
        ),
    decreases children.len() - k,
{
    let whole = rest + stacked(path, children, k);
    if k == children.len() {
        assert(whole =~= rest);
    } else {
        lemma_stacked(path, children, k);
        let child = (path_join(path, children[k].0), children[k].1);
        assert(whole.last() == child);
        assert(whole.drop_last() =~= rest + stacked(path, children, k + 1));
        let next = found_in(root, query, child.0, child.1, so_far);
        lemma_children_first(root, query, rest, path, children, k + 1, next);
    }
}

/// The stack after the top place was looked at.
pub open spec fn stack_after(stack: Seq<Spot>) -> Seq<Spot> {
    let left = open_stack(stack);
    match left.last().1 {
        Place::Directory(children) => left.drop_last() + stacked(left.last().0, children, 0),
        _ => left.drop_last(),
    }
}

/// A search that is over has found what there was to find, and each step of one
/// that is not leaves the outcome as it was: it is that of the recursive
/// listing, depth first and in order, until there are enough matches.
pub proof fn law_search_finds_what_the_tree_holds(v: SearchView, stack: Seq<Spot>)
    requires
        v.pending == paths_of(stack),
        forall|i: int| 0 <= i < stack.len() ==> listed_in_order(#[trigger] stack[i].1),
    ensures
        search_next(v) is None ==> v.matches == found_on(v.root, v.query, stack, v.matches),
        search_next(v) is Some ==> {
            let top = open_stack(stack).last();
            let w = search_found(search_taken(v), top.0, seen(top.1));
            &&& search_next(v) == Some(top.0)
            &&& w.pending == paths_of(stack_after(stack))
            &&& found_on(w.root, w.query, stack_after(stack), w.matches) == found_on(
                v.root,
                v.query,
                stack,
                v.matches,
            )
        },
{
    lemma_open_stack(stack);
    let left = open_stack(stack);
    lemma_ignored_find_nothing(v.root, v.query, stack, v.matches);
    if v.matches.len() >= MAX_SEARCH_MATCHES {
        lemma_enough_found(v.root, v.query, stack, v.matches);
    } else if left.len() > 0 {
        let top = left.last();
        let w = search_found(search_taken(v), top.0, seen(top.1));
        assert(paths_of(left).last() == top.0);
        assert(paths_of(left.drop_last()) =~= paths_of(left).drop_last());
        assert(stack[left.len() - 1] == top);
        match top.1 {
            Place::Directory(children) => {
                lemma_children_behind(top.0, children);
                lemma_children_first(
                    v.root,
                    v.query,
                    left.drop_last(),
                    top.0,
                    children,
                    0,
                    v.matches,
                );
                assert(w.pending =~= paths_of(stack_after(stack)));
            },
            _ => {},
        }
    }
}

// ---------------------------------------------------------------------------
// Trees
// ---------------------------------------------------------------------------

pub open spec fn kind_of(place: Place) -> FileKind {
    match place {
        Place::Directory(_) => FileKind::Directory,
        Place::File(_) => FileKind::File,
        Place::Nothing => FileKind::Other,
    }
}

/// What a tree sees at a place.
pub open spec fn seen_in_tree(place: Place) -> TreeFoundView {
    TreeFoundView::Entry {
        kind: kind_of(place),
        names: match place {
            Place::Directory(children) => names_of(children),
            _ => Seq::empty(),
        },
    }
}

/// The entries so far, and those of a place and of what is below it down to the
/// greatest depth, until there are enough.
pub open spec fn entries_in(
    root: Seq<char>,
    max_depth: int,
    path: Seq<char>,
    depth: int,
    place: Place,
    so_far: Seq<Seq<char>>,
) -> Seq<Seq<char>>
    decreases place, 0int,
{
    if so_far.len() >= MAX_TREE_ENTRIES || is_ignored_path(path) {
        so_far
    } else {
        let more = so_far.push(kind_of(place).word() + "\t"@ + shown_path(root, path));
        match place {
            Place::Directory(children) => if depth < max_depth {
                entries_among(root, max_depth, path, depth + 1, children, 0, more)
            } else {
                more
            },
            _ => more,
        }
    }
}

/// The same for the children of a directory from child `k` on.
pub open spec fn entries_among(
    root: Seq<char>,
    max_depth: int,
    path: Seq<char>,
    depth: int,
    children: Seq<(Seq<char>, Place)>,
    k: int,
    so_far: Seq<Seq<char>>,
) -> Seq<Seq<char>>
    decreases children, children.len() - k,
{
    if k < 0 || k >= children.len() {
        so_far
    } else {
        entries_among(
            root,
            max_depth,
            path,
            depth,
            children,
            k + 1,
            entries_in(
                root,
                max_depth,
                path_join(path, children[k].0),
                depth,
                children[k].1,
                so_far,
            ),
        )
    }
}

/// What is left to be shown of a stack of places with their depths, the top one
/// first.
pub open spec fn entries_on(
    root: Seq<char>,
    max_depth: int,
    stack: Seq<Spot>,
    depths: Seq<int>,
    so_far: Seq<Seq<char>>,
) -> Seq<Seq<char>>
    decreases stack.len(),
{
    if stack.len() == 0 || stack.len() != depths.len() {
        so_far
    } else {
        entries_on(
            root,
            max_depth,
            stack.drop_last(),
            depths.drop_last(),
            entries_in(root, max_depth, stack.last().0, depths.last(), stack.last().1, so_far),
        )
    }
}

proof fn lemma_enough_shown(
    root: Seq<char>,
    max_depth: int,
    stack: Seq<Spot>,
    depths: Seq<int>,
    so_far: Seq<Seq<char>>,
)
    requires
        so_far.len() >= MAX_TREE_ENTRIES,
    ensures
        entries_on(root, max_depth, stack, depths, so_far) == so_far,
    decreases stack.len(),
{
    if stack.len() > 0 && stack.len() == depths.len() {
        lemma_enough_shown(root, max_depth, stack.drop_last(), depths.drop_last(), so_far);
    }
}

proof fn lemma_ignored_show_nothing(
    root: Seq<char>,
    max_depth: int,
    stack: Seq<Spot>,
    depths: Seq<int>,
    so_far: Seq<Seq<char>>,
)
    requires
        stack.len() == depths.len(),
    ensures
        entries_on(
            root,
            max_depth,
            open_stack(stack),
            depths.take(open_stack(stack).len() as int),
            so_far,
        ) == entries_on(root, max_depth, stack, depths, so_far),
    decreases stack.len(),
{
    lemma_open_stack(stack);
    if stack.len() > 0 && is_ignored_path(stack.last().0) {
        lemma_ignored_show_nothing(root, max_depth, stack.drop_last(), depths.drop_last(), so_far);
        lemma_open_stack(stack.drop_last());
        let n = open_stack(stack).len() as int;
        assert(depths.drop_last().take(n) =~= depths.take(n));
    } else {
        assert(depths.take(depths.len() as int) =~= depths);
    }
}

pub open spec fn same_depths(n: nat, depth: int) -> Seq<int> {
    Seq::new(n, |i: int| depth)
}

proof fn lemma_children_shown_first(
    root: Seq<char>,
    max_depth: int,
    rest: Seq<Spot>,
    depths: Seq<int>,
    path: Seq<char>,
    depth: int,
    children: Seq<(Seq<char>, Place)>,
    k: int,
    so_far: Seq<Seq<char>>,
)
    requires
        0 <= k <= children.len(),
        rest.len() == depths.len(),
    ensures
        entries_on(
            root,
            max_depth,
            rest + stacked(path, children, k),
            depths + same_depths((children.len() - k) as nat, depth),
            so_far,
        ) == entries_on(
            root,
            max_depth,
            rest,
            depths,
            entries_among(root, max_depth, path, depth, children, k, so_far),
        ),
    decreases children.len() - k,
{
    let whole = rest + stacked(path, children, k);
    let deep = depths + same_depths((children.len() - k) as nat, depth);
    if k == children.len() {
        assert(whole =~= rest);
        assert(deep =~= depths);
    } else {
        lemma_stacked(path, children, k);
        let child = (path_join(path, children[k].0), children[k].1);
        assert(whole.last() == child);
        assert(whole.drop_last() =~= rest + stacked(path, children, k + 1));
        assert(deep.last() == depth);
        assert(deep.drop_last() =~= depths + same_depths((children.len() - k - 1) as nat, depth));
        let next = entries_in(root, max_depth, child.0, depth, child.1, so_far);
        lemma_children_shown_first(
            root,
            max_depth,
            rest,
            depths,
            path,
            depth,
            children,
            k + 1,
            next,
        );
    }
}

/// The stack after the top place was shown; what is too deep stays out.
pub open spec fn tree_stack_after(stack: Seq<Spot>, depth: int, max_depth: int) -> Seq<Spot> {
    let left = open_stack(stack);
    match left.last().1 {
        Place::Directory(children) => if depth < max_depth {
            left.drop_last() + stacked(left.last().0, children, 0)
        } else {
            left.drop_last()
        },
        _ => left.drop_last(),
    }
}

/// A tree that is over shows what there was to show, and each step of one that
/// is not leaves the outcome as it was: it is that of the recursive listing,
/// depth first and in order, until there are enough entries.
pub proof fn law_tree_shows_what_the_workspace_holds(v: TreeView, stack: Seq<Spot>)
    requires
        v.pending == paths_of(stack),
        v.depths.len() == stack.len(),
        forall|i: int| 0 <= i < stack.len() ==> listed_in_order(#[trigger] stack[i].1),
    ensures
        tree_next(v) is None ==> v.entries == entries_on(
            v.root,
            v.max_depth,
            stack,
            v.depths,
            v.entries,
        ),
        tree_next(v) is Some ==> {
            let top = open_stack(stack).last();
            let depth = tree_next(v)->Some_0.1;
            let w = tree_found(tree_taken(v), top.0, depth, seen_in_tree(top.1));
            let after = tree_stack_after(stack, depth, v.max_depth);
            &&& tree_next(v)->Some_0.0 == top.0
            &&& w.pending == paths_of(after)
            &&& w.depths.len() == after.len()
            &&& entries_on(w.root, w.max_depth, after, w.depths, w.entries) == entries_on(
                v.root,
                v.max_depth,
                stack,
                v.depths,
                v.entries,
            )
        },
{
    lemma_open_stack(stack);
    let left = open_stack(stack);
    let n = left.len() as int;
    lemma_ignored_show_nothing(v.root, v.max_depth, stack, v.depths, v.entries);
    if v.entries.len() >= MAX_TREE_ENTRIES {
        lemma_enough_shown(v.root, v.max_depth, stack, v.depths, v.entries);
    } else if left.len() > 0 {
        let top = left.last();
        let depth = v.depths[n - 1];
        let w = tree_found(tree_taken(v), top.0, depth, seen_in_tree(top.1));
        assert(paths_of(left).len() == left.len());
        assert(paths_of(left).last() == top.0);
        assert(paths_of(left.drop_last()) =~= paths_of(left).drop_last());
        assert(stack[n - 1] == top);
        assert(v.depths.take(n).drop_last() =~= v.depths.take(n - 1));
        assert(v.depths.take(n).last() == depth);
        match top.1 {
            Place::Directory(children) => {
                if depth < v.max_depth {
                    lemma_children_behind(top.0, children);
                    assert(w.pending =~= paths_of(left.drop_last() + stacked(top.0, children, 0)));
                    assert(w.depths =~= v.depths.take(n - 1) + same_depths(
                        children.len(),
                        depth + 1,
                    ));
                    lemma_children_shown_first(
                        v.root,
                        v.max_depth,
                        left.drop_last(),
                        v.depths.take(n - 1),
                        top.0,
                        depth + 1,
                        children,
                        0,
                        w.entries,
                    );
                }
            },
            _ => {},
        }
    }
}

} // verus!
