//! Phrases that move the workspace root: `go to my env folder`, `cd into src`.
use vstd::prelude::*;

use crate::paths::{is_absolute, is_absolute_path, join_path, path_join};
use crate::text::{char_count, contains_char, copy_text, lower, push_item, same_text, skip_chars, split_whitespace, strip_prefix, trim};
use crate::text::{after_chars, has_prefix, lemma_texts_empty, lower_text, opt_text, starts_with, texts, trimmed, without_prefix, words};
use crate::workspace::{opt_str_text, result_texts};

verus! {

/// The words with which a phrase starts, and how sure it is then that the rest
/// is a place: a `cd` always is, `open` only where the rest says so.
#[derive(Debug, Clone, Copy, PartialEq, Eq, Structural)]
pub enum MoveVerb {
    Change,
    Go,
    Open,
}

pub open spec fn verb_count() -> int {
    9
}

pub open spec fn verb_text(k: int) -> Seq<char> {
    if k == 0 {
        "cd into "@
    } else if k == 1 {
        "cd to "@
    } else if k == 2 {
        "cd "@
    } else if k == 3 {
        "go to "@
    } else if k == 4 {
        "go inside "@
    } else if k == 5 {
        "navigate into "@
    } else if k == 6 {
        "navigate to "@
    } else if k == 7 {
        "enter "@
    } else {
        "open "@
    }
}

pub open spec fn verb_of(k: int) -> MoveVerb {
    if k <= 2 {
        MoveVerb::Change
    } else if k <= 7 {
        MoveVerb::Go
    } else {
        MoveVerb::Open
    }
}

/// The verb of a phrase and the words behind it, from verb `k` on. Case does
/// not matter for the verb.
pub open spec fn moved_words(p: Seq<char>, k: int) -> Option<(MoveVerb, Seq<Seq<char>>)>
    decreases verb_count() - k,
{
    if k < 0 || k >= verb_count() {
        None
    } else if has_prefix(lower_text(p), verb_text(k)) {
        Some((verb_of(k), words(after_chars(p, verb_text(k).len() as int))))
    } else {
        moved_words(p, k + 1)
    }
}

/// A word that says that the one before it is a place.
pub open spec fn is_place_word(w: Seq<char>) -> bool {
    let q = lower_text(w);
    q == "folder"@ || q == "directory"@ || q == "dir"@ || q == "repo"@ || q == "repository"@
}

pub open spec fn is_article(w: Seq<char>) -> bool {
    let q = lower_text(w);
    q == "my"@ || q == "the"@
}

/// The place that a list of words names: one word, perhaps with an article
/// before it and a word for a place behind it; and whether there was the
/// latter.
pub open spec fn named_place(ws: Seq<Seq<char>>) -> Option<(Seq<char>, bool)> {
    let bare = if ws.len() > 1 && is_article(ws[0]) {
        ws.skip(1)
    } else {
        ws
    };
    if bare.len() == 1 {
        Some((bare[0], false))
    } else if bare.len() == 2 && is_place_word(bare[1]) {
        Some((bare[0], true))
    } else {
        None
    }
}

/// A word that can only be a path.
pub open spec fn is_explicit_place(w: Seq<char>) -> bool {
    w.contains('/') || w == "~"@ || w == ".."@
}

/// The place that a prompt asks to move to, and whether it is asked for by its
/// path, so that a wrong one is an error.
pub open spec fn move_target(prompt: Seq<char>) -> Option<(Seq<char>, bool)> {
    match moved_words(trimmed(prompt), 0) {
        None => None,
        Some((verb, ws)) => match named_place(ws) {
            None => None,
            Some((place, said)) => if verb is Open && !said && !is_explicit_place(place) {
                None
            } else {
                Some((place, verb is Change || is_explicit_place(place)))
            },
        },
    }
}

/// The paths at which a place may be: its own, or below the selected root and
/// then below the home directory.
pub open spec fn place_candidates(
    place: Seq<char>,
    selected: Option<Seq<char>>,
    home: Option<Seq<char>>,
) -> Seq<Seq<char>> {
    if is_absolute_path(place) {
        seq![place]
    } else if place == "~"@ {
        match home {
            Some(h) => seq![h],
            None => Seq::empty(),
        }
    } else {
        match without_prefix(place, "~/"@) {
            Some(rest) => match home {
                Some(h) => seq![path_join(h, rest)],
                None => Seq::empty(),
            },
            None => below(selected, place) + below(home, place),
        }
    }
}

pub open spec fn below(base: Option<Seq<char>>, place: Seq<char>) -> Seq<Seq<char>> {
    match base {
        Some(b) => seq![path_join(b, place)],
        None => Seq::empty(),
    }
}

/// A request to move the root: where it may lead, and whether a wrong path is
/// an error.
#[derive(Debug)]
pub struct MoveRequest {
    pub explicit: bool,
    pub candidates: Vec<String>,
}

pub open spec fn opt_move(o: Option<MoveRequest>) -> Option<(bool, Seq<Seq<char>>)> {
    match o {
        Some(m) => Some((m.explicit, texts(m.candidates@))),
        None => None,
    }
}

fn verb_at(k: usize) -> (r: (&'static str, MoveVerb))
    requires
        k < 9,
    ensures
        r.0@ == verb_text(k as int),
        r.1 == verb_of(k as int),
{
    if k == 0 {
        ("cd into ", MoveVerb::Change)
    } else if k == 1 {
        ("cd to ", MoveVerb::Change)
    } else if k == 2 {
        ("cd ", MoveVerb::Change)
    } else if k == 3 {
        ("go to ", MoveVerb::Go)
    } else if k == 4 {
        ("go inside ", MoveVerb::Go)
    } else if k == 5 {
        ("navigate into ", MoveVerb::Go)
    } else if k == 6 {
        ("navigate to ", MoveVerb::Go)
    } else if k == 7 {
        ("enter ", MoveVerb::Go)
    } else {
        ("open ", MoveVerb::Open)
    }
}

fn read_moved_words(p: &str) -> (r: Option<(MoveVerb, Vec<String>)>)
    ensures
        match r {
            Some((verb, ws)) => moved_words(p@, 0) == Some((verb, texts(ws@))),
            None => moved_words(p@, 0) is None,
        },
{
    let low = lower(p);
    let mut k: usize = 0;
    while k < 9
        invariant
            k <= 9,
            low@ == lower_text(p@),
            moved_words(p@, 0) == moved_words(p@, k as int),
        decreases 9 - k,
    {
        let (text, verb) = verb_at(k);
        if starts_with(low.as_str(), text) {
            let rest = skip_chars(p, char_count(text));
            return Some((verb, split_whitespace(rest.as_str())));
        }
        k += 1;
    }
    None
}

fn place_word(w: &str) -> (r: bool)
    ensures
        r == is_place_word(w@),
{
    let q = lower(w);
    same_text(q.as_str(), "folder") || same_text(q.as_str(), "directory") || same_text(
        q.as_str(),
        "dir",
    ) || same_text(q.as_str(), "repo") || same_text(q.as_str(), "repository")
}

fn article(w: &str) -> (r: bool)
    ensures
        r == is_article(w@),
{
    let q = lower(w);
    same_text(q.as_str(), "my") || same_text(q.as_str(), "the")
}

fn read_named_place(ws: &Vec<String>) -> (r: Option<(String, bool)>)
    ensures
        match r {
            Some((place, said)) => named_place(texts(ws@)) == Some((place@, said)),
            None => named_place(texts(ws@)) is None,
        },
{
    let ghost all = texts(ws@);
    assert(all.len() == ws.len());
    assert(ws.len() > 0 ==> all[0] == ws@[0]@);
    let from: usize = if ws.len() > 1 && article(ws[0].as_str()) {
        1
    } else {
        0
    };
    let left: usize = ws.len() - from;
    if left == 1 {
        assert(all[from as int] == ws@[from as int]@);
        return Some((copy_text(ws[from].as_str()), false));
    }
    if left == 2 {
        assert(all[from as int] == ws@[from as int]@);
        assert(all[from + 1] == ws@[from + 1]@);
        if place_word(ws[from + 1].as_str()) {
            return Some((copy_text(ws[from].as_str()), true));
        }
    }
    None
}

fn explicit_place(w: &str) -> (r: bool)
    ensures
        r == is_explicit_place(w@),
{
    contains_char(w, '/') || same_text(w, "~") || same_text(w, "..")
}

fn read_move_target(prompt: &str) -> (r: Option<(String, bool)>)
    ensures
        match r {
            Some((place, explicit)) => move_target(prompt@) == Some((place@, explicit)),
            None => move_target(prompt@) is None,
        },
{
    match read_moved_words(trim(prompt).as_str()) {
        None => None,
        Some((verb, ws)) => match read_named_place(&ws) {
            None => None,
            Some((place, said)) => {
                let path = explicit_place(place.as_str());
                match verb {
                    MoveVerb::Open => if !said && !path {
                        None
                    } else {
                        Some((place, path))
                    },
                    MoveVerb::Change => Some((place, true)),
                    MoveVerb::Go => Some((place, path)),
                }
            },
        },
    }
}

fn push_below(out: &mut Vec<String>, base: Option<&str>, place: &str)
    ensures
        texts(final(out)@) == texts(old(out)@) + below(opt_str_text(base), place@),
{
    if let Some(b) = base {
        push_item(out, join_path(b, place));
    }
    assert(texts(out@) =~= texts(old(out)@) + below(opt_str_text(base), place@));
}

fn find_candidates(place: &str, selected: Option<&str>, home: Option<&str>) -> (r: Vec<String>)
    ensures
        texts(r@) == place_candidates(place@, opt_str_text(selected), opt_str_text(home)),
{
    broadcast use lemma_texts_empty;

    let mut out: Vec<String> = Vec::new();
    if is_absolute(place) {
        push_item(&mut out, copy_text(place));
    } else if same_text(place, "~") {
        if let Some(h) = home {
            push_item(&mut out, copy_text(h));
        }
    } else if let Some(rest) = strip_prefix(place, "~/") {
        if let Some(h) = home {
            push_item(&mut out, join_path(h, rest.as_str()));
        }
    } else {
        push_below(&mut out, selected, place);
        push_below(&mut out, home, place);
    }
    assert(texts(out@) =~= place_candidates(place@, opt_str_text(selected), opt_str_text(home)));
    out
}

/// The request to move the root that a prompt is, if it is one.
pub fn parse_navigation_request_from(
    prompt: &str,
    selected_root: Option<&str>,
    home: Option<&str>,
) -> (r: Option<MoveRequest>)
    ensures
        opt_move(r) == match move_target(prompt@) {
            Some((place, explicit)) => Some(
                (
                    explicit,
                    place_candidates(place, opt_str_text(selected_root), opt_str_text(home)),
                ),
            ),
            None => None,
        },
{
    match read_move_target(prompt) {
        Some((place, explicit)) => Some(
            MoveRequest {
                explicit,
                candidates: find_candidates(place.as_str(), selected_root, home),
            },
        ),
        None => None,
    }
}

/// What looking up the candidates came to, one by one.
pub open spec fn lookups(v: Seq<Result<String, String>>) -> Seq<Result<Seq<char>, Seq<char>>> {
    Seq::new(v.len(), |i: int| result_texts(v[i]))
}

/// The first candidate, from `k` on, that is a directory.
pub open spec fn first_found(found: Seq<Result<Seq<char>, Seq<char>>>, k: int) -> Option<Seq<char>>
    decreases found.len() - k,
{
    if k < 0 || k >= found.len() {
        None
    } else {
        match found[k] {
            Ok(root) => Some(root),
            Err(_) => first_found(found, k + 1),
        }
    }
}

/// Where a request leads: to the first directory found. Without one, a path is
/// an error and anything else is no request after all.
pub open spec fn move_outcome(
    explicit: bool,
    found: Seq<Result<Seq<char>, Seq<char>>>,
) -> Result<Option<Seq<char>>, Seq<char>> {
    match first_found(found, 0) {
        Some(root) => Ok(Some(root)),
        None => if !explicit {
            Ok(None)
        } else if found.len() == 0 {
            Err("no directory to start from"@)
        } else {
            Err(found[0]->Err_0)
        },
    }
}

pub open spec fn opt_result(r: Result<Option<String>, String>) -> Result<
    Option<Seq<char>>,
    Seq<char>,
> {
    match r {
        Ok(o) => Ok(opt_text(o)),
        Err(e) => Err(e@),
    }
}

pub fn settle_navigation(explicit: bool, found: &Vec<Result<String, String>>) -> (r: Result<
    Option<String>,
    String,
>)
    ensures
        opt_result(r) == move_outcome(explicit, lookups(found@)),
{
    let ghost all = lookups(found@);
    let mut k: usize = 0;
    while k < found.len()
        invariant
            k <= found.len(),
            all == lookups(found@),
            all.len() == found.len(),
            first_found(all, 0) == first_found(all, k as int),
            k > 0 ==> all[0] is Err,
        decreases found.len() - k,
    {
        assert(all[k as int] == result_texts(found@[k as int]));
        if let Ok(root) = &found[k] {
            return Ok(Some(copy_text(root.as_str())));
        }
        k += 1;
    }
    if !explicit {
        return Ok(None);
    }
    if found.len() == 0 {
        return Err(copy_text("no directory to start from"));
    }
    assert(all[0] == result_texts(found@[0]));
    match &found[0] {
        Err(e) => Err(copy_text(e.as_str())),
        Ok(root) => Ok(Some(copy_text(root.as_str()))),
    }
}

// ---------------------------------------------------------------------------
// Laws
// ---------------------------------------------------------------------------

/// Only a directory that was found becomes the root.
pub proof fn law_root_was_found(explicit: bool, found: Seq<Result<Seq<char>, Seq<char>>>)
    requires
        move_outcome(explicit, found) is Ok,
        move_outcome(explicit, found)->Ok_0 is Some,
    ensures
        found.contains(Ok::<Seq<char>, Seq<char>>(move_outcome(explicit, found)->Ok_0->Some_0)),
{
    lemma_first_found(found, 0);
}

proof fn lemma_first_found(found: Seq<Result<Seq<char>, Seq<char>>>, k: int)
    requires
        0 <= k,
    ensures
        first_found(found, k) is Some ==> found.contains(
            Ok::<Seq<char>, Seq<char>>(first_found(found, k)->Some_0),
        ),
    decreases found.len() - k,
{
    if k < found.len() {
        if found[k] is Ok {
            assert(found[k] == Ok::<Seq<char>, Seq<char>>(found[k]->Ok_0));
        } else {
            lemma_first_found(found, k + 1);
        }
    }
}

/// A relative place is looked for below the selected root before anywhere else.
pub proof fn law_selected_root_comes_first(
    place: Seq<char>,
    selected: Seq<char>,
    home: Option<Seq<char>>,
)
    requires
        !is_absolute_path(place),
        place != "~"@,
        !has_prefix(place, "~/"@),
    ensures
        place_candidates(place, Some(selected), home).len() > 0,
        place_candidates(place, Some(selected), home)[0] == path_join(selected, place),
{
}

} // verus!
