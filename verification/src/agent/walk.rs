//! Walks through a workspace: searching its files and showing its tree. Each
//! walk names the path to look at next and is told what was found there.
use vstd::prelude::*;

use crate::agent::tools::{format_entry, FileKind, MAX_READ_BYTES};
use crate::agent::workspace::{is_ignored, is_ignored_path, shown_path, Workspace};
use crate::paths::{join_path, path_join};
use crate::safety::{cap_text, capped};
use crate::text::{contains, copy_text, decimal_text, lines, push_item, push_text, trim};
use crate::text::{decimal, has_text, lemma_texts_empty, opt_text, text_lines, texts, trimmed};
use crate::text_sort::{sort_texts, sorted_texts};

verus! {

pub const MAX_SEARCH_MATCHES: usize = 80;

pub const MAX_TREE_ENTRIES: usize = 240;

pub const MAX_LINE_CHARS: usize = 240;

/// The paths of the children of a directory, the last in order first.
pub open spec fn children_behind(dir: Seq<char>, names: Seq<Seq<char>>) -> Seq<Seq<char>> {
    let sorted = sorted_texts(names);
    Seq::new(sorted.len(), |i: int| path_join(dir, sorted[sorted.len() - 1 - i]))
}

fn child_paths(dir: &str, names: &Vec<String>) -> (r: Vec<String>)
    ensures
        texts(r@) == children_behind(dir@, texts(names@)),
{
    broadcast use lemma_texts_empty;

    let sorted = sort_texts(names);
    let ghost all = sorted_texts(texts(names@));
    let ghost want = children_behind(dir@, texts(names@));
    let mut out: Vec<String> = Vec::new();
    let mut k: usize = sorted.len();
    assert(texts(sorted@).len() == sorted.len());
    assert(texts(out@) =~= want.take(0));
    while k > 0
        invariant
            k <= sorted.len(),
            all == texts(sorted@),
            all.len() == sorted.len(),
            all == sorted_texts(texts(names@)),
            want == children_behind(dir@, texts(names@)),
            texts(out@) == want.take(sorted.len() - k),
        decreases k,
    {
        k -= 1;
        assert(all[k as int] == sorted@[k as int]@);
        let path = join_path(dir, sorted[k].as_str());
        assert(path@ == want[sorted.len() - k - 1]);
        push_item(&mut out, path);
        assert(texts(out@) =~= want.take(sorted.len() - k));
    }
    assert(want.take(want.len() as int) =~= want);
    out
}

// ---------------------------------------------------------------------------
// Searching
// ---------------------------------------------------------------------------

/// What there is at a path, as far as a search cares.
#[derive(Debug)]
pub enum SearchFound {
    /// A directory with these names in it.
    Directory(Vec<String>),
    /// A file with this content that is not too large.
    File(String),
    /// Nothing to search: outside the workspace, unreadable, too large or no file.
    Nothing,
}

pub enum FoundView {
    Directory(Seq<Seq<char>>),
    File(Seq<char>),
    Nothing,
}

impl View for SearchFound {
    type V = FoundView;

    open spec fn view(&self) -> FoundView {
        match *self {
            SearchFound::Directory(names) => FoundView::Directory(texts(names@)),
            SearchFound::File(content) => FoundView::File(content@),
            SearchFound::Nothing => FoundView::Nothing,
        }
    }
}

/// What a search does at a path.
#[derive(Debug, Clone, Copy, PartialEq, Eq, Structural)]
pub enum SearchLook {
    /// Goes on with the names in the directory.
    List,
    /// Reads the file.
    Read,
    /// Passes the path over.
    Skip,
}

/// What a search does at a path, given whether it leads into the workspace, what
/// is there and how large that is.
pub open spec fn look_at(inside: bool, kind: FileKind, size: u64) -> SearchLook {
    match kind {
        FileKind::Directory if inside => SearchLook::List,
        FileKind::File if inside && size <= MAX_READ_BYTES => SearchLook::Read,
        _ => SearchLook::Skip,
    }
}

pub fn search_look(inside: bool, kind: FileKind, size: u64) -> (r: SearchLook)
    ensures
        r == look_at(inside, kind, size),
{
    if !inside {
        return SearchLook::Skip;
    }
    match kind {
        FileKind::Directory => SearchLook::List,
        FileKind::File => if size <= MAX_READ_BYTES {
            SearchLook::Read
        } else {
            SearchLook::Skip
        },
        _ => SearchLook::Skip,
    }
}

/// A search in progress: the paths that are left, the next one last, and the
/// matches so far.
#[verifier::ext_equal]
pub struct SearchView {
    pub root: Seq<char>,
    pub query: Seq<char>,
    pub pending: Seq<Seq<char>>,
    pub matches: Seq<Seq<char>>,
}

/// A line that matches, with its file and number.
pub open spec fn match_text(shown: Seq<char>, number: nat, line: Seq<char>) -> Seq<char> {
    shown + ":"@ + decimal(number) + ": "@ + capped(trimmed(line), MAX_LINE_CHARS as int)
}

/// The matches so far, and those in the lines from line `k` on, until there are
/// enough.
pub open spec fn matched_from(
    all: Seq<Seq<char>>,
    k: int,
    query: Seq<char>,
    shown: Seq<char>,
    so_far: Seq<Seq<char>>,
) -> Seq<Seq<char>>
    decreases all.len() - k,
{
    if k < 0 || k >= all.len() || so_far.len() >= MAX_SEARCH_MATCHES {
        so_far
    } else if has_text(all[k], query) {
        matched_from(all, k + 1, query, shown, so_far.push(match_text(shown, (k + 1) as nat, all[k])))
    } else {
        matched_from(all, k + 1, query, shown, so_far)
    }
}

/// The paths that are left once ignored ones at the end are dropped.
pub open spec fn without_ignored(pending: Seq<Seq<char>>) -> Seq<Seq<char>>
    decreases pending.len(),
{
    if pending.len() > 0 && is_ignored_path(pending.last()) {
        without_ignored(pending.drop_last())
    } else {
        pending
    }
}

/// The path to look at next. A search with enough matches is over.
pub open spec fn search_next(v: SearchView) -> Option<Seq<char>> {
    let left = without_ignored(v.pending);
    if v.matches.len() >= MAX_SEARCH_MATCHES || left.len() == 0 {
        None
    } else {
        Some(left.last())
    }
}

/// The search once the next path was taken.
pub open spec fn search_taken(v: SearchView) -> SearchView {
    let left = without_ignored(v.pending);
    if v.matches.len() >= MAX_SEARCH_MATCHES {
        v
    } else if left.len() == 0 {
        SearchView { pending: left, ..v }
    } else {
        SearchView { pending: left.drop_last(), ..v }
    }
}

/// The search once it is known what is at a path.
pub open spec fn search_found(v: SearchView, path: Seq<char>, found: FoundView) -> SearchView {
    match found {
        FoundView::Directory(names) => SearchView {
            pending: v.pending + children_behind(path, names),
            ..v
        },
        FoundView::File(content) => SearchView {
            matches: matched_from(
                text_lines(content),
                0,
                v.query,
                shown_path(v.root, path),
                v.matches,
            ),
            ..v
        },
        FoundView::Nothing => v,
    }
}

#[derive(Debug)]
pub struct SearchWalk {
    pub workspace: Workspace,
    pub query: String,
    pub pending: Vec<String>,
    pub matches: Vec<String>,
}

impl View for SearchWalk {
    type V = SearchView;

    open spec fn view(&self) -> SearchView {
        SearchView {
            root: self.workspace.root@,
            query: self.query@,
            pending: texts(self.pending@),
            matches: texts(self.matches@),
        }
    }
}

impl SearchWalk {
    /// A search from a path on.
    pub fn new(root: &str, from: &str, query: &str) -> (r: SearchWalk)
        ensures
            r@ == (SearchView {
                root: root@,
                query: query@,
                pending: seq![from@],
                matches: Seq::empty(),
            }),
    {
        broadcast use lemma_texts_empty;

        let mut pending: Vec<String> = Vec::new();
        push_item(&mut pending, copy_text(from));
        assert(texts(pending@) =~= seq![from@]);
        SearchWalk {
            workspace: Workspace { root: copy_text(root) },
            query: copy_text(query),
            pending,
            matches: Vec::new(),
        }
    }

    /// Takes the path to look at next.
    pub fn next_path(&mut self) -> (r: Option<String>)
        ensures
            opt_text(r) == search_next(old(self)@),
            final(self)@ == search_taken(old(self)@),
    {
        assert(texts(self.matches@).len() == self.matches.len());
        if self.matches.len() >= MAX_SEARCH_MATCHES {
            return None;
        }
        loop
            invariant
                self@.matches == old(self)@.matches,
                self@.query == old(self)@.query,
                self@.root == old(self)@.root,
                old(self)@.matches.len() < MAX_SEARCH_MATCHES,
                without_ignored(old(self)@.pending) == without_ignored(self@.pending),
            decreases self.pending.len(),
        {
            let ghost before = self@.pending;
            assert(before.len() == self.pending.len());
            match self.pending.pop() {
                None => {
                    assert(self@.pending =~= before);
                    assert(self@ =~= search_taken(old(self)@));
                    return None;
                },
                Some(path) => {
                    assert(self@.pending =~= before.drop_last());
                    assert(path@ == before.last());
                    if !is_ignored(path.as_str()) {
                        assert(self@ =~= search_taken(old(self)@));
                        return Some(path);
                    }
                },
            }
        }
    }

    /// Goes on with what was found at a path.
    pub fn on_found(&mut self, path: &str, found: SearchFound)
        ensures
            final(self)@ == search_found(old(self)@, path@, found@),
    {
        match found {
            SearchFound::Nothing => {},
            SearchFound::Directory(names) => {
                let children = child_paths(path, &names);
                crate::text::push_list(&mut self.pending, &children);
                assert(self@ =~= search_found(old(self)@, path@, found@));
            },
            SearchFound::File(content) => {
                let all = lines(content.as_str());
                let shown = self.workspace.display_path(path);
                self.add_matches(&all, shown.as_str());
            },
        }
    }

    fn add_matches(&mut self, all: &Vec<String>, shown: &str)
        ensures
            final(self)@ == (SearchView {
                matches: matched_from(
                    texts(all@),
                    0,
                    old(self)@.query,
                    shown@,
                    old(self)@.matches,
                ),
                ..old(self)@
            }),
    {
        let ghost list = texts(all@);
        let ghost want = matched_from(list, 0, self@.query, shown@, self@.matches);
        let mut k: usize = 0;
        while k < all.len() && self.matches.len() < MAX_SEARCH_MATCHES
            invariant
                k <= all.len(),
                list == texts(all@),
                list.len() == all.len(),
                self@.query == old(self)@.query,
                self@.root == old(self)@.root,
                self@.pending == old(self)@.pending,
                self@.matches.len() == self.matches.len(),
                want == matched_from(list, k as int, self@.query, shown@, self@.matches),
            decreases all.len() - k,
        {
            assert(list[k as int] == all@[k as int]@);
            let line = all[k].as_str();
            k += 1;
            if contains(line, self.query.as_str()) {
                let mut text = copy_text(shown);
                push_text(&mut text, ":");
                push_text(&mut text, decimal_text(k as u64).as_str());
                push_text(&mut text, ": ");
                push_text(&mut text, cap_text(trim(line).as_str(), MAX_LINE_CHARS).as_str());
                push_item(&mut self.matches, text);
            }
        }
        assert(self@ =~= (SearchView { matches: want, ..old(self)@ }));
    }
}

// ---------------------------------------------------------------------------
// Trees
// ---------------------------------------------------------------------------

/// What there is at a path, as far as a tree cares.
#[derive(Debug)]
pub enum TreeFound {
    /// In the workspace: its kind, and the names in it where it is a directory
    /// that can be read.
    Entry { kind: FileKind, names: Vec<String> },
    /// Not in the workspace.
    Outside,
}

pub enum TreeFoundView {
    Entry { kind: FileKind, names: Seq<Seq<char>> },
    Outside,
}

impl View for TreeFound {
    type V = TreeFoundView;

    open spec fn view(&self) -> TreeFoundView {
        match *self {
            TreeFound::Entry { kind, names } => TreeFoundView::Entry { kind, names: texts(names@) },
            TreeFound::Outside => TreeFoundView::Outside,
        }
    }
}

/// A tree in progress: the paths that are left with their depths, the next one
/// last, and the entries so far.
#[verifier::ext_equal]
pub struct TreeView {
    pub root: Seq<char>,
    pub max_depth: int,
    pub pending: Seq<Seq<char>>,
    pub depths: Seq<int>,
    pub entries: Seq<Seq<char>>,
}

pub open spec fn tree_next(v: TreeView) -> Option<(Seq<char>, int)> {
    let left = without_ignored(v.pending);
    if v.entries.len() >= MAX_TREE_ENTRIES || left.len() == 0 {
        None
    } else {
        Some((left.last(), v.depths[left.len() - 1]))
    }
}

pub open spec fn tree_taken(v: TreeView) -> TreeView {
    let left = without_ignored(v.pending);
    if v.entries.len() >= MAX_TREE_ENTRIES {
        v
    } else if left.len() == 0 {
        TreeView { pending: left, depths: Seq::empty(), ..v }
    } else {
        TreeView {
            pending: left.drop_last(),
            depths: v.depths.take(left.len() - 1),
            ..v
        }
    }
}

/// The tree once it is known what is at a path: an entry for it, and what is in
/// it where that is not too deep.
pub open spec fn tree_found(
    v: TreeView,
    path: Seq<char>,
    depth: int,
    found: TreeFoundView,
) -> TreeView {
    match found {
        TreeFoundView::Outside => v,
        TreeFoundView::Entry { kind, names } => {
            let entries = v.entries.push(kind.word() + "\t"@ + shown_path(v.root, path));
            if kind is Directory && depth < v.max_depth {
                TreeView {
                    pending: v.pending + children_behind(path, names),
                    depths: v.depths + Seq::new(
                        children_behind(path, names).len(),
                        |i: int| depth + 1,
                    ),
                    entries,
                    ..v
                }
            } else {
                TreeView { entries, ..v }
            }
        },
    }
}

#[derive(Debug)]
pub struct TreeWalk {
    pub workspace: Workspace,
    pub max_depth: usize,
    pub pending: Vec<String>,
    pub depths: Vec<usize>,
    pub entries: Vec<String>,
}

pub open spec fn ints(v: Seq<usize>) -> Seq<int> {
    Seq::new(v.len(), |i: int| v[i] as int)
}

impl View for TreeWalk {
    type V = TreeView;

    open spec fn view(&self) -> TreeView {
        TreeView {
            root: self.workspace.root@,
            max_depth: self.max_depth as int,
            pending: texts(self.pending@),
            depths: ints(self.depths@),
            entries: texts(self.entries@),
        }
    }
}

impl TreeWalk {
    /// Every path that is left has its depth.
    pub open spec fn wf(&self) -> bool {
        self.pending.len() == self.depths.len()
    }

    /// A tree from a path on.
    pub fn new(root: &str, from: &str, max_depth: usize) -> (r: TreeWalk)
        ensures
            r@ == (TreeView {
                root: root@,
                max_depth: max_depth as int,
                pending: seq![from@],
                depths: seq![0],
                entries: Seq::empty(),
            }),
            r.wf(),
    {
        broadcast use lemma_texts_empty;

        let mut pending: Vec<String> = Vec::new();
        push_item(&mut pending, copy_text(from));
        assert(texts(pending@) =~= seq![from@]);
        let mut depths: Vec<usize> = Vec::new();
        depths.push(0);
        assert(ints(depths@) =~= seq![0]);
        TreeWalk {
            workspace: Workspace { root: copy_text(root) },
            max_depth,
            pending,
            depths,
            entries: Vec::new(),
        }
    }

    /// Takes the path to look at next, with its depth.
    pub fn next_path(&mut self) -> (r: Option<(String, usize)>)
        requires
            old(self).wf(),
        ensures
            match r {
                Some((path, depth)) => tree_next(old(self)@) == Some((path@, depth as int)),
                None => tree_next(old(self)@) is None,
            },
            final(self)@ == tree_taken(old(self)@),
            final(self).wf(),
    {
        assert(texts(self.entries@).len() == self.entries.len());
        if self.entries.len() >= MAX_TREE_ENTRIES {
            return None;
        }
        loop
            invariant
                self.wf(),
                self@.entries == old(self)@.entries,
                self@.max_depth == old(self)@.max_depth,
                self@.root == old(self)@.root,
                old(self)@.entries.len() < MAX_TREE_ENTRIES,
                without_ignored(old(self)@.pending) == without_ignored(self@.pending),
                self.depths.len() <= old(self)@.depths.len(),
                self@.depths == old(self)@.depths.take(self.depths.len() as int),
            decreases self.pending.len(),
        {
            let ghost before = self@.pending;
            let ghost depths = self@.depths;
            assert(before.len() == self.pending.len() && depths.len() == self.depths.len());
            match (self.pending.pop(), self.depths.pop()) {
                (Some(path), Some(depth)) => {
                    assert(self@.pending =~= before.drop_last());
                    assert(self@.depths =~= depths.drop_last());
                    assert(path@ == before.last() && depth == depths.last());
                    assert(self@.depths =~= old(self)@.depths.take(self.depths.len() as int));
                    if !is_ignored(path.as_str()) {
                        assert(self@ =~= tree_taken(old(self)@));
                        return Some((path, depth));
                    }
                },
                _ => {
                    assert(self@.pending =~= before);
                    assert(self@.depths =~= Seq::empty());
                    assert(self@ =~= tree_taken(old(self)@));
                    return None;
                },
            }
        }
    }

    /// Goes on with what was found at a path.
    pub fn on_found(&mut self, path: &str, depth: usize, found: TreeFound)
        requires
            old(self).wf(),
        ensures
            final(self)@ == tree_found(old(self)@, path@, depth as int, found@),
            final(self).wf(),
    {
        match found {
            TreeFound::Outside => {},
            TreeFound::Entry { kind, names } => {
                let shown = self.workspace.display_path(path);
                push_item(&mut self.entries, format_entry(kind, shown.as_str()));
                let directory = match kind {
                    FileKind::Directory => true,
                    _ => false,
                };
                if directory && depth < self.max_depth {
                    let children = child_paths(path, &names);
                    let ghost before = self@.depths;
                    let n = children.len();
                    assert(texts(children@).len() == n);
                    let mut i: usize = 0;
                    let ghost list = texts(self.pending@);
                    crate::text::push_list(&mut self.pending, &children);
                    assert(texts(self.pending@).len() == self.pending.len());
                    while i < n
                        invariant
                            i <= n,
                            depth < self.max_depth,
                            self.max_depth == old(self).max_depth,
                            self.workspace == old(self).workspace,
                            texts(self.pending@) == list + texts(children@),
                            texts(self.entries@) == old(self)@.entries.push(
                                kind.word() + "\t"@ + shown_path(old(self)@.root, path@),
                            ),
                            self.depths.len() == before.len() + i,
                            self@.depths == before + Seq::new(i as nat, |k: int| depth + 1),
                        decreases n - i,
                    {
                        let ghost shorter = self@.depths;
                        self.depths.push(depth + 1);
                        assert(self@.depths =~= shorter.push(depth + 1));
                        i += 1;
                        assert(self@.depths =~= before + Seq::new(i as nat, |k: int| depth + 1));
                    }
                    assert(self@.depths =~= tree_found(
                        old(self)@,
                        path@,
                        depth as int,
                        found@,
                    ).depths);
                }
                assert(self@ =~= tree_found(old(self)@, path@, depth as int, found@));
            },
        }
    }
}

// ---------------------------------------------------------------------------
// Laws
// ---------------------------------------------------------------------------

proof fn lemma_matched_bounded(
    all: Seq<Seq<char>>,
    k: int,
    query: Seq<char>,
    shown: Seq<char>,
    so_far: Seq<Seq<char>>,
)
    requires
        so_far.len() <= MAX_SEARCH_MATCHES,
    ensures
        matched_from(all, k, query, shown, so_far).len() <= MAX_SEARCH_MATCHES,
        so_far.len() <= matched_from(all, k, query, shown, so_far).len(),
        matched_from(all, k, query, shown, so_far).take(so_far.len() as int) == so_far,
    decreases all.len() - k,
{
    let r = matched_from(all, k, query, shown, so_far);
    if k < 0 || k >= all.len() || so_far.len() >= MAX_SEARCH_MATCHES {
        assert(r.take(so_far.len() as int) =~= so_far);
    } else if has_text(all[k], query) {
        let more = so_far.push(match_text(shown, (k + 1) as nat, all[k]));
        lemma_matched_bounded(all, k + 1, query, shown, more);
        assert(r.take(so_far.len() as int) =~= more.take(so_far.len() as int)) by {
            assert forall|i: int| 0 <= i < so_far.len() implies r[i] == more[i] by {
                assert(r.take(more.len() as int)[i] == more[i]);
            }
        }
        assert(more.take(so_far.len() as int) =~= so_far);
    } else {
        lemma_matched_bounded(all, k + 1, query, shown, so_far);
    }
}

/// A search never gives more matches than its limit and never takes one back.
pub proof fn law_search_is_bounded(v: SearchView, path: Seq<char>, found: FoundView)
    requires
        v.matches.len() <= MAX_SEARCH_MATCHES,
    ensures
        search_found(v, path, found).matches.len() <= MAX_SEARCH_MATCHES,
        v.matches.len() <= search_found(v, path, found).matches.len(),
        search_found(v, path, found).matches.take(v.matches.len() as int) == v.matches,
{
    assert(v.matches.take(v.matches.len() as int) =~= v.matches);
    if let FoundView::File(content) = found {
        lemma_matched_bounded(
            text_lines(content),
            0,
            v.query,
            shown_path(v.root, path),
            v.matches,
        );
    }
}

/// An ignored path is never looked at.
pub proof fn law_ignored_paths_are_passed_over(v: SearchView)
    ensures
        search_next(v) is Some ==> !is_ignored_path(search_next(v)->Some_0),
{
    lemma_without_ignored(v.pending);
}

proof fn lemma_without_ignored(pending: Seq<Seq<char>>)
    ensures
        without_ignored(pending).len() <= pending.len(),
        without_ignored(pending).len() > 0 ==> !is_ignored_path(without_ignored(pending).last()),
    decreases pending.len(),
{
    if pending.len() > 0 && is_ignored_path(pending.last()) {
        lemma_without_ignored(pending.drop_last());
    }
}

/// A tree has at most its limit of entries, one for each place that was looked
/// at, and no depth beyond the one asked for comes up.
pub proof fn law_tree_is_bounded(v: TreeView, found: TreeFoundView)
    requires
        v.entries.len() <= MAX_TREE_ENTRIES,
        tree_next(v) is Some,
        v.pending.len() == v.depths.len(),
        forall|i: int| 0 <= i < v.depths.len() ==> #[trigger] v.depths[i] <= v.max_depth,
    ensures
        ({
            let (path, depth) = tree_next(v)->Some_0;
            let w = tree_found(tree_taken(v), path, depth, found);
            &&& w.entries.len() <= MAX_TREE_ENTRIES
            &&& depth <= v.max_depth
            &&& forall|i: int| 0 <= i < w.depths.len() ==> #[trigger] w.depths[i] <= w.max_depth
        }),
{
    lemma_without_ignored(v.pending);
}

} // verus!
