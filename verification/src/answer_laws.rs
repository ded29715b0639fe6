//! What holds of the lines of every formatted answer.
use vstd::prelude::*;

use crate::answer_format::{blanks_collapsed, blanks_collapsed_from, ended, formatted, markdown_of, spread_out};
use crate::json::JsonView;
use crate::text::{is_space, lemma_next_char, lemma_skip_space, lemma_space_end, lines_from, next_char, skip_space, space_end, text_lines, trimmed, trimmed_end, trimmed_start};

verus! {

/// No line ends in white space.
pub open spec fn lines_end_clean(s: Seq<char>) -> bool {
    forall|i: int|
        0 < i < s.len() && #[trigger] s[i] == '\n' ==> s[i - 1] == '\n' || !is_space(s[i - 1])
}

/// No two blank lines follow each other, not even at the start.
pub open spec fn blanks_stand_alone(s: Seq<char>) -> bool {
    &&& forall|i: int|
        0 <= i && i + 2 < s.len() && #[trigger] s[i] == '\n' && s[i + 1] == '\n' ==> s[i + 2]
            != '\n'
    &&& s.len() >= 2 && s[0] == '\n' ==> s[1] != '\n'
}

/// A list of lines without line breaks in them.
pub open spec fn no_breaks(lines: Seq<Seq<char>>) -> bool {
    forall|i: int, j: int|
        0 <= i < lines.len() && 0 <= j < lines[i].len() ==> #[trigger] lines[i][j] != '\n'
}

proof fn lemma_lines_hold_no_breaks(s: Seq<char>, i: int)
    requires
        0 <= i,
    ensures
        no_breaks(lines_from(s, i)),
    decreases s.len() - i,
{
    if i < s.len() {
        lemma_next_char(s, '\n', i);
        let e = next_char(s, '\n', i);
        let all = lines_from(s, i);
        if e < s.len() {
            lemma_lines_hold_no_breaks(s, e + 1);
            let rest = lines_from(s, e + 1);
            assert forall|k: int, j: int| 0 <= k < all.len() && 0 <= j < all[k].len() implies
                #[trigger] all[k][j] != '\n' by {
                if k == 0 {
                    assert(all[0][j] == s[i + j]);
                } else {
                    assert(all[k] == rest[k - 1]);
                    assert(rest[k - 1][j] != '\n');
                }
            }
        } else {
            assert forall|k: int, j: int| 0 <= k < all.len() && 0 <= j < all[k].len() implies
                #[trigger] all[k][j] != '\n' by {
                assert(all[k][j] == s[i + j]);
            }
        }
    }
}

proof fn lemma_filled_line(line: Seq<char>)
    requires
        trimmed(line).len() > 0,
    ensures
        trimmed_end(line).len() > 0,
        !is_space(trimmed_end(line).last()),
{
    lemma_space_end(line, line.len() as int);
    let n = space_end(line, line.len() as int);
    if n == 0 {
        lemma_skip_space(line, 0);
        let k = skip_space(line, 0);
        if k < line.len() {
            assert(is_space(line[k]));
        }
        assert(trimmed_start(line).len() == 0);
    }
}

/// The lines that are left are clean; after a blank one none is blank.
proof fn lemma_collapsed_is_clean(lines: Seq<Seq<char>>, i: int, blank: bool)
    requires
        no_breaks(lines),
        0 <= i,
    ensures
        lines_end_clean(blanks_collapsed_from(lines, i, blank)),
        blanks_stand_alone(blanks_collapsed_from(lines, i, blank)),
        blank && blanks_collapsed_from(lines, i, blank).len() > 0 ==> blanks_collapsed_from(
            lines,
            i,
            blank,
        )[0] != '\n',
    decreases lines.len() - i,
{
    reveal_strlit("\n");
    let s = blanks_collapsed_from(lines, i, blank);
    if i < lines.len() {
        if trimmed(lines[i]).len() == 0 {
            lemma_collapsed_is_clean(lines, i + 1, true);
            let rest = blanks_collapsed_from(lines, i + 1, true);
            if blank {
                assert(s =~= rest);
            } else {
                assert(s =~= seq!['\n'] + rest);
                lemma_behind_blank(rest);
            }
        } else {
            lemma_collapsed_is_clean(lines, i + 1, false);
            lemma_filled_line(lines[i]);
            lemma_space_end(lines[i], lines[i].len() as int);
            let rest = blanks_collapsed_from(lines, i + 1, false);
            let line = trimmed_end(lines[i]);
            assert forall|j: int| 0 <= j < line.len() implies line[j] != '\n' by {
                assert(line[j] == lines[i][j]);
            }
            assert(s =~= line + seq!['\n'] + rest);
            lemma_behind_line(line, rest);
        }
    }
}

proof fn lemma_behind_blank(rest: Seq<char>)
    requires
        lines_end_clean(rest),
        blanks_stand_alone(rest),
        rest.len() > 0 ==> rest[0] != '\n',
    ensures
        lines_end_clean(seq!['\n'] + rest),
        blanks_stand_alone(seq!['\n'] + rest),
{
    let s = seq!['\n'] + rest;
    assert forall|k: int| 0 < k < s.len() && #[trigger] s[k] == '\n' implies s[k - 1] == '\n'
        || !is_space(s[k - 1]) by {
        assert(s[k] == rest[k - 1]);
        if k > 1 {
            assert(s[k - 1] == rest[k - 2]);
        }
    }
    assert forall|k: int|
        0 <= k && k + 2 < s.len() && #[trigger] s[k] == '\n' && s[k + 1] == '\n' implies s[k + 2]
        != '\n' by {
        assert(s[k + 1] == rest[k] && s[k + 2] == rest[k + 1]);
        if k > 0 {
            assert(s[k] == rest[k - 1]);
        }
    }
}

proof fn lemma_behind_line(line: Seq<char>, rest: Seq<char>)
    requires
        lines_end_clean(rest),
        blanks_stand_alone(rest),
        line.len() > 0,
        !is_space(line.last()),
        forall|j: int| 0 <= j < line.len() ==> line[j] != '\n',
    ensures
        lines_end_clean(line + seq!['\n'] + rest),
        blanks_stand_alone(line + seq!['\n'] + rest),
        (line + seq!['\n'] + rest)[0] != '\n',
{
    let s = line + seq!['\n'] + rest;
    let n = line.len() as int;
    assert(s[0] == line[0]);
    assert forall|k: int| 0 < k < s.len() && #[trigger] s[k] == '\n' implies s[k - 1] == '\n'
        || !is_space(s[k - 1]) by {
        if k < n {
            assert(s[k] == line[k]);
        } else if k == n {
            assert(s[k - 1] == line.last());
        } else {
            assert(s[k] == rest[k - n - 1]);
            if k > n + 1 {
                assert(s[k - 1] == rest[k - n - 2]);
            }
        }
    }
    assert forall|k: int|
        0 <= k && k + 2 < s.len() && #[trigger] s[k] == '\n' && s[k + 1] == '\n' implies s[k + 2]
        != '\n' by {
        if k < n {
            assert(s[k] == line[k]);
        } else {
            assert(s[k + 1] == rest[k - n] && s[k + 2] == rest[k - n + 1]);
            if k > n {
                assert(s[k] == rest[k - n - 1]);
            }
        }
    }
}

proof fn lemma_restored_is_clean(text: Seq<char>)
    ensures
        lines_end_clean(ended(blanks_collapsed(text))),
        blanks_stand_alone(ended(blanks_collapsed(text))),
{
    reveal_strlit("\n");
    let whole = blanks_collapsed_from(text_lines(text), 0, false);
    lemma_lines_hold_no_breaks(text, 0);
    lemma_collapsed_is_clean(text_lines(text), 0, false);
    lemma_space_end(whole, whole.len() as int);
    let kept = blanks_collapsed(text);
    assert(kept.len() <= whole.len());
    assert forall|k: int| 0 <= k < kept.len() implies kept[k] == whole[k] by {}
    let r = ended(kept);
    assert forall|k: int| 0 < k < r.len() && #[trigger] r[k] == '\n' implies r[k - 1] == '\n'
        || !is_space(r[k - 1]) by {
        if k < kept.len() {
            assert(whole[k] == '\n');
        } else {
            assert(r[k - 1] == whole[k - 1]);
        }
    }
    assert forall|k: int|
        0 <= k && k + 2 < r.len() && #[trigger] r[k] == '\n' && r[k + 1] == '\n' implies r[k + 2]
        != '\n' by {
        assert(whole[k] == '\n' && whole[k + 1] == '\n');
        if k + 2 >= kept.len() {
            assert(is_space(kept[k + 1]));
        }
    }
    if r.len() >= 2 && r[0] == '\n' && r[1] == '\n' {
        assert(whole[0] == '\n');
        if kept.len() == 1 {
            assert(is_space(kept[0]));
        }
    }
}

/// In a formatted answer no line ends in white space, and there is never more
/// than one blank line in a row.
pub proof fn law_formatted_lines_are_clean(answer: Seq<char>, parsed: Option<JsonView>)
    ensures
        lines_end_clean(formatted(answer, parsed)),
        blanks_stand_alone(formatted(answer, parsed)),
{
    if trimmed(answer).len() > 0 {
        lemma_restored_is_clean(spread_out(markdown_of(answer, parsed)));
    }
}

} // verus!
