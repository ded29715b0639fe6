//! What an answer keeps when it is formatted.
use vstd::prelude::*;

use crate::answer_format::{blanks_collapsed, blanks_collapsed_from, bodies_split, body_after, body_split, body_split_from, broken_from, formatted, human_key, human_key_from, json_markdown, known_headings, line_if_any, plain_answer, restored, row_at, row_end, rule_split, rules_split, rules_split_upto, split_rows, spread_out, tables_split, tables_split_from, with_array, with_boundary, with_line_boundary, with_object, without_blanks};
use crate::json::JsonView;
use crate::text::{find_from, has_prefix, is_space, joined, lemma_find_from, lemma_next_char, lemma_skip_space, lemma_space_end, lines_from, next_char, occurs_at, replaced, replaced_from, skip_space, space_end, text_lines, trimmed, trimmed_end, trimmed_start, upper_char, without_cr};
use crate::text_laws::all_space;

verus! {

/// The characters of a text that are not white space.
pub open spec fn marks(s: Seq<char>) -> Seq<char> {
    s.filter(|c: char| !is_space(c))
}

/// The marks of texts, one after the other.
pub open spec fn all_marks(list: Seq<Seq<char>>) -> Seq<char>
    decreases list.len(),
{
    if list.len() == 0 {
        Seq::empty()
    } else {
        all_marks(list.drop_last()) + marks(list.last())
    }
}

/// Texts side by side have their marks side by side.
pub proof fn lemma_marks_on(a: Seq<char>, b: Seq<char>)
    ensures
        marks(a + b) == marks(a) + marks(b),
{
    Seq::filter_distributes_over_add(a, b, |c: char| !is_space(c));
}

proof fn lemma_marks_of_one(c: char)
    ensures
        marks(seq![c]) == if is_space(c) {
            Seq::<char>::empty()
        } else {
            seq![c]
        },
{
    reveal(Seq::filter);
    let none = Seq::<char>::empty();
    assert(seq![c].drop_last() =~= none);
    assert(marks(none) =~= none);
    assert(none.push(c) =~= seq![c]);
}

proof fn lemma_marks_push(s: Seq<char>, c: char)
    ensures
        marks(s.push(c)) == marks(s) + marks(seq![c]),
{
    assert(s.push(c) =~= s + seq![c]);
    lemma_marks_on(s, seq![c]);
}

proof fn lemma_no_marks(s: Seq<char>)
    requires
        all_space(s),
    ensures
        marks(s) == Seq::<char>::empty(),
    decreases s.len(),
{
    reveal(Seq::filter);
    if s.len() > 0 {
        assert(all_space(s.drop_last())) by {
            assert forall|i: int| 0 <= i < s.len() - 1 implies is_space(
                #[trigger] s.drop_last()[i],
            ) by {
                assert(s.drop_last()[i] == s[i]);
            }
        }
        lemma_no_marks(s.drop_last());
        assert(is_space(s[s.len() - 1]));
    }
}

proof fn lemma_all_marks_on(a: Seq<Seq<char>>, b: Seq<Seq<char>>)
    ensures
        all_marks(a + b) == all_marks(a) + all_marks(b),
    decreases b.len(),
{
    if b.len() == 0 {
        assert(a + b =~= a);
        assert(all_marks(a) + all_marks(b) =~= all_marks(a));
    } else {
        lemma_all_marks_on(a, b.drop_last());
        assert((a + b).drop_last() =~= a + b.drop_last());
        assert(all_marks(a) + (all_marks(b.drop_last()) + marks(b.last())) =~= all_marks(a)
            + all_marks(b.drop_last()) + marks(b.last()));
    }
}

proof fn lemma_all_marks_of_one(s: Seq<char>)
    ensures
        all_marks(seq![s]) == marks(s),
{
    reveal_with_fuel(all_marks, 2);
    assert(seq![s].drop_last() =~= Seq::<Seq<char>>::empty());
    assert(all_marks(seq![s]) =~= marks(s));
}

proof fn lemma_marks_first(list: Seq<Seq<char>>, i: int)
    requires
        0 <= i < list.len(),
    ensures
        all_marks(list.skip(i)) == marks(list[i]) + all_marks(list.skip(i + 1)),
{
    assert(list.skip(i) =~= seq![list[i]] + list.skip(i + 1));
    lemma_all_marks_on(seq![list[i]], list.skip(i + 1));
    lemma_all_marks_of_one(list[i]);
}

// ---------------------------------------------------------------------------
// Trimming, lines and line feeds
// ---------------------------------------------------------------------------

proof fn lemma_line_feed()
    ensures
        marks("\n"@) == Seq::<char>::empty(),
        marks("\n\n"@) == Seq::<char>::empty(),
        marks(" "@) == Seq::<char>::empty(),
        marks("\r"@) == Seq::<char>::empty(),
        marks("\r\n"@) == Seq::<char>::empty(),
        marks(Seq::empty()) == Seq::<char>::empty(),
{
    reveal_strlit("\n");
    reveal_strlit("\n\n");
    reveal_strlit(" ");
    reveal_strlit("\r");
    reveal_strlit("\r\n");
    lemma_no_marks("\n"@);
    lemma_no_marks("\n\n"@);
    lemma_no_marks(" "@);
    lemma_no_marks("\r"@);
    lemma_no_marks("\r\n"@);
    lemma_no_marks(Seq::empty());
}

proof fn lemma_trimmed_start_marks(s: Seq<char>)
    ensures
        marks(trimmed_start(s)) == marks(s),
{
    lemma_skip_space(s, 0);
    let a = skip_space(s, 0);
    assert(s =~= s.take(a) + s.skip(a));
    assert(all_space(s.take(a)));
    lemma_no_marks(s.take(a));
    lemma_marks_on(s.take(a), s.skip(a));
    assert(Seq::<char>::empty() + marks(s.skip(a)) =~= marks(s.skip(a)));
}

proof fn lemma_trimmed_end_marks(s: Seq<char>)
    ensures
        marks(trimmed_end(s)) == marks(s),
{
    lemma_space_end(s, s.len() as int);
    let e = space_end(s, s.len() as int);
    assert(s =~= s.take(e) + s.skip(e));
    assert(all_space(s.skip(e)));
    lemma_no_marks(s.skip(e));
    lemma_marks_on(s.take(e), s.skip(e));
    assert(marks(s.take(e)) + Seq::<char>::empty() =~= marks(s.take(e)));
}

proof fn lemma_trimmed_marks(s: Seq<char>)
    ensures
        marks(trimmed(s)) == marks(s),
        trimmed(s).len() == 0 ==> marks(s) == Seq::<char>::empty(),
{
    lemma_trimmed_start_marks(s);
    lemma_trimmed_end_marks(trimmed_start(s));
    if trimmed(s).len() == 0 {
        assert(trimmed(s) =~= Seq::<char>::empty());
        lemma_line_feed();
    }
}

proof fn lemma_line_marks(s: Seq<char>, i: int)
    requires
        0 <= i <= s.len(),
    ensures
        all_marks(lines_from(s, i)) == marks(s.skip(i)),
    decreases s.len() - i,
{
    let none = Seq::<char>::empty();
    lemma_line_feed();
    if i == s.len() {
        assert(s.skip(i) =~= none);
    } else {
        lemma_next_char(s, '\n', i);
        let e = next_char(s, '\n', i);
        if e < s.len() {
            let part = s.subrange(i, e);
            let line = without_cr(part);
            let end = if part.len() > 0 && part.last() == '\r' {
                seq!['\r', '\n']
            } else {
                seq!['\n']
            };
            lemma_line_marks(s, e + 1);
            assert(s.skip(i) =~= line + end + s.skip(e + 1));
            assert(all_space(end));
            lemma_no_marks(end);
            lemma_marks_on(line, end);
            lemma_marks_on(line + end, s.skip(e + 1));
            lemma_all_marks_on(seq![line], lines_from(s, e + 1));
            lemma_all_marks_of_one(line);
            assert(marks(line) + none + marks(s.skip(e + 1)) =~= marks(line) + marks(
                s.skip(e + 1),
            ));
        } else {
            lemma_all_marks_of_one(s.skip(i));
        }
    }
}

proof fn lemma_lines_marks(s: Seq<char>)
    ensures
        all_marks(text_lines(s)) == marks(s),
{
    lemma_line_marks(s, 0);
    assert(s.skip(0) =~= s);
}

proof fn lemma_replaced_marks(s: Seq<char>, p: Seq<char>, q: Seq<char>, i: int)
    requires
        marks(p) == marks(q),
        0 <= i <= s.len(),
    ensures
        marks(replaced_from(s, p, q, i)) == marks(s.skip(i)),
    decreases s.len() - i,
{
    lemma_line_feed();
    if i == s.len() {
        assert(s.skip(i) =~= Seq::<char>::empty());
    } else if p.len() > 0 && occurs_at(s, p, i) {
        let n = i + p.len();
        lemma_replaced_marks(s, p, q, n);
        assert(s.skip(i) =~= p + s.skip(n)) by {
            assert(s.subrange(i, n) == p);
            assert(s.skip(i) =~= s.subrange(i, n) + s.skip(n));
        }
        lemma_marks_on(p, s.skip(n));
        lemma_marks_on(q, replaced_from(s, p, q, n));
    } else {
        lemma_replaced_marks(s, p, q, i + 1);
        assert(s.skip(i) =~= seq![s[i]] + s.skip(i + 1));
        lemma_marks_on(seq![s[i]], s.skip(i + 1));
        lemma_marks_on(seq![s[i]], replaced_from(s, p, q, i + 1));
    }
}

/// Reading an answer keeps its marks: white space at the ends goes, and every
/// line ends in a line feed.
pub proof fn law_plain_answers_keep_their_marks(answer: Seq<char>)
    ensures
        marks(plain_answer(answer)) == marks(answer),
{
    let t = trimmed(answer);
    lemma_line_feed();
    lemma_trimmed_marks(answer);
    lemma_replaced_marks(t, "\r\n"@, "\n"@, 0);
    assert(t.skip(0) =~= t);
    let u = replaced(t, "\r\n"@, "\n"@);
    lemma_replaced_marks(u, "\r"@, "\n"@, 0);
    assert(u.skip(0) =~= u);
}

// ---------------------------------------------------------------------------
// Boundaries
// ---------------------------------------------------------------------------

proof fn lemma_without_blanks(s: Seq<char>)
    ensures
        marks(without_blanks(s)) == marks(s),
    decreases s.len(),
{
    if s.len() > 0 && (s.last() == ' ' || s.last() == '\t') {
        lemma_without_blanks(s.drop_last());
        assert(s =~= s.drop_last().push(s.last()));
        lemma_marks_push(s.drop_last(), s.last());
        lemma_marks_of_one(s.last());
        assert(marks(s.drop_last()) + Seq::<char>::empty() =~= marks(s.drop_last()));
    }
}

proof fn lemma_boundaries(out: Seq<char>)
    ensures
        marks(with_boundary(out)) == marks(out),
        marks(with_line_boundary(out)) == marks(out),
{
    let none = Seq::<char>::empty();
    let o = without_blanks(out);
    lemma_without_blanks(out);
    lemma_marks_of_one('\n');
    lemma_marks_push(o, '\n');
    lemma_marks_push(o.push('\n'), '\n');
    assert(marks(o) + none =~= marks(o));
    assert(marks(o) + none + none =~= marks(o));
}

proof fn lemma_broken(s: Seq<char>, i: int, out: Seq<char>)
    requires
        0 <= i <= s.len(),
    ensures
        marks(broken_from(s, i, out)) == marks(out) + marks(s.skip(i)),
    decreases s.len() - i,
{
    lemma_line_feed();
    if i == s.len() {
        assert(s.skip(i) =~= Seq::<char>::empty());
        assert(marks(out) + Seq::<char>::empty() =~= marks(out));
    } else {
        lemma_boundaries(out);
        let next = if crate::answer_format::row_breaks_at(s, i) {
            with_line_boundary(out)
        } else if crate::answer_format::breaks_at(s, i) {
            with_boundary(out)
        } else {
            out
        };
        lemma_marks_push(next, s[i]);
        lemma_broken(s, i + 1, next.push(s[i]));
        assert(s.skip(i) =~= seq![s[i]] + s.skip(i + 1));
        lemma_marks_on(seq![s[i]], s.skip(i + 1));
        assert(marks(out) + marks(seq![s[i]]) + marks(s.skip(i + 1)) =~= marks(out) + (marks(
            seq![s[i]],
        ) + marks(s.skip(i + 1))));
    }
}

// ---------------------------------------------------------------------------
// Tables, rules and headings
// ---------------------------------------------------------------------------

proof fn lemma_with_feed(s: Seq<char>)
    ensures
        marks(s + "\n"@) == marks(s),
        marks(line_if_any(s)) == marks(s),
{
    lemma_line_feed();
    lemma_marks_on(s, "\n"@);
    assert(marks(s) + Seq::<char>::empty() =~= marks(s));
    if s.len() == 0 {
        assert(s =~= Seq::<char>::empty());
    }
}

proof fn lemma_split_rows(rest: Seq<char>, expected: int)
    ensures
        marks(split_rows(rest, expected)) == marks(rest),
    decreases rest.len(),
{
    match row_end(rest, expected) {
        Some(e) => {
            lemma_after_bar(rest, 0, expected);
            let head = rest.take(e);
            let tail = rest.skip(e);
            let next = trimmed_start(tail);
            lemma_trimmed_start_marks(tail);
            assert(rest =~= head + tail);
            lemma_marks_on(head, tail);
            lemma_with_feed(head);
            lemma_with_feed(next);
            if row_at(next, 0) && next.len() < rest.len() {
                lemma_split_rows(next, expected);
                lemma_marks_on(head + "\n"@, split_rows(next, expected));
            } else {
                lemma_marks_on(head + "\n"@, line_if_any(next));
            }
        },
        None => {
            lemma_with_feed(rest);
        },
    }
}

proof fn lemma_after_bar(s: Seq<char>, i: int, n: int)
    requires
        0 <= i,
    ensures
        crate::answer_format::after_bar(s, i, n) matches Some(e) ==> i < e <= s.len(),
    decreases s.len() - i,
{
    if i < s.len() {
        if s[i] != '|' {
            lemma_after_bar(s, i + 1, n);
        } else if n != 1 {
            lemma_after_bar(s, i + 1, n - 1);
        }
    }
}

proof fn lemma_tables(lines: Seq<Seq<char>>, i: int, expected: Option<int>)
    requires
        0 <= i <= lines.len(),
    ensures
        marks(tables_split_from(lines, i, expected)) == all_marks(lines.skip(i)),
    decreases lines.len() - i,
{
    lemma_line_feed();
    if i == lines.len() {
        assert(lines.skip(i) =~= Seq::<Seq<char>>::empty());
    } else {
        let line = lines[i];
        lemma_marks_first(lines, i);
        if line.len() > 0 && line[0] == '|' {
            let n = match expected {
                Some(n) => n,
                None => crate::answer_format::row_bars_from(line, 0, 0),
            };
            lemma_tables(lines, i + 1, Some(n));
            lemma_split_rows(line, n);
            lemma_marks_on(split_rows(line, n), tables_split_from(lines, i + 1, Some(n)));
        } else {
            let next = if trimmed(line).len() == 0 {
                expected
            } else {
                None
            };
            lemma_tables(lines, i + 1, next);
            lemma_with_feed(line);
            lemma_marks_on(line + "\n"@, tables_split_from(lines, i + 1, next));
        }
    }
}

proof fn lemma_rule_split(line: Seq<char>)
    ensures
        marks(rule_split(line)) == marks(line),
{
    reveal_strlit("--- ");
    reveal_strlit("---\n\n");
    if has_prefix(line, "--- "@) {
        let rest = line.skip(4);
        let dashes = seq!['-', '-', '-'];
        lemma_line_feed();
        reveal_strlit("\n\n");
        reveal_strlit(" ");
        assert(line =~= line.subrange(0, 4) + rest);
        assert("--- "@ =~= dashes + " "@);
        assert("---\n\n"@ =~= dashes + "\n\n"@);
        lemma_marks_on(dashes, " "@);
        lemma_marks_on(dashes, "\n\n"@);
        lemma_marks_on("--- "@, rest);
        lemma_marks_on("---\n\n"@, rest);
    }
}

proof fn lemma_rules(lines: Seq<Seq<char>>, n: int)
    requires
        0 <= n <= lines.len(),
    ensures
        marks(rules_split_upto(lines, n)) == all_marks(lines.take(n)),
    decreases n,
{
    lemma_line_feed();
    if n == 0 {
        assert(lines.take(0) =~= Seq::<Seq<char>>::empty());
    } else {
        lemma_rules(lines, n - 1);
        let before = rules_split_upto(lines, n - 1);
        lemma_rule_split(lines[n - 1]);
        lemma_marks_on(before, rule_split(lines[n - 1]));
        lemma_with_feed(before + rule_split(lines[n - 1]));
        assert(lines.take(n).drop_last() =~= lines.take(n - 1));
        assert(lines.take(n).last() == lines[n - 1]);
    }
}

proof fn lemma_body_split_from(prefix: Seq<char>, content: Seq<char>, k: int)
    requires
        0 <= k <= known_headings().len(),
    ensures
        marks(body_split_from(prefix, content, k)) == marks(prefix) + marks(content),
    decreases known_headings().len() - k,
{
    lemma_line_feed();
    if k < known_headings().len() {
        let name = known_headings()[k];
        match body_after(content, name) {
            Some(rest) => {
                let n = name.len() as int;
                assert(content.subrange(0, n) == name);
                assert(content =~= name + seq![' '] + rest);
                lemma_marks_of_one(' ');
                lemma_marks_on(name, seq![' ']);
                lemma_marks_on(name + seq![' '], rest);
                lemma_marks_on(prefix, name);
                lemma_with_feed(prefix + name);
                lemma_marks_on(prefix + name + "\n"@, rest);
                assert(marks(name) + Seq::<char>::empty() =~= marks(name));
                assert(marks(prefix) + marks(name) + marks(rest) =~= marks(prefix) + (marks(name)
                    + marks(rest)));
            },
            None => {
                lemma_body_split_from(prefix, content, k + 1);
            },
        }
    } else {
        reveal_strlit(" **");
        reveal_strlit("\n**");
        lemma_find_from(content, " **"@, 0);
        match find_from(content, " **"@, 0) {
            Some(i) => {
                let head = content.take(i);
                let tail = content.skip(i + 3);
                let stars = seq!['*', '*'];
                assert(content.subrange(i, i + 3) == " **"@);
                assert(content =~= head + content.subrange(i, i + 3) + tail);
                reveal_strlit(" ");
                reveal_strlit("\n");
                assert(" **"@ =~= " "@ + stars);
                assert("\n**"@ =~= "\n"@ + stars);
                lemma_marks_on(" "@, stars);
                lemma_marks_on("\n"@, stars);
                lemma_marks_on(head, " **"@);
                lemma_marks_on(head + " **"@, tail);
                lemma_marks_on(prefix, head);
                lemma_marks_on(prefix + head, "\n**"@);
                lemma_marks_on(prefix + head + "\n**"@, tail);
                let x = marks("\n**"@);
                assert(marks(prefix) + marks(head) + x + marks(tail) =~= marks(prefix) + (marks(
                    head,
                ) + x + marks(tail)));
            },
            None => {
                lemma_marks_on(prefix, content);
            },
        }
    }
}

proof fn lemma_body_split(line: Seq<char>)
    ensures
        marks(body_split(line)) == marks(line),
{
    if has_prefix(line, "### "@) {
        lemma_headed(line, "### "@);
    } else if has_prefix(line, "## "@) {
        lemma_headed(line, "## "@);
    } else if has_prefix(line, "# "@) {
        lemma_headed(line, "# "@);
    }
}

proof fn lemma_headed(line: Seq<char>, prefix: Seq<char>)
    requires
        has_prefix(line, prefix),
    ensures
        marks(body_split_from(prefix, line.skip(prefix.len() as int), 0)) == marks(line),
{
    let rest = line.skip(prefix.len() as int);
    assert(line =~= line.subrange(0, prefix.len() as int) + rest);
    lemma_marks_on(prefix, rest);
    lemma_body_split_from(prefix, rest, 0);
}

proof fn lemma_joined_marks(parts: Seq<Seq<char>>, sep: Seq<char>)
    requires
        marks(sep) == Seq::<char>::empty(),
    ensures
        marks(joined(parts, sep)) == all_marks(parts),
    decreases parts.len(),
{
    let none = Seq::<char>::empty();
    lemma_line_feed();
    if parts.len() == 1 {
        assert(parts =~= seq![parts[0]]);
        lemma_all_marks_of_one(parts[0]);
    } else if parts.len() > 1 {
        lemma_joined_marks(parts.drop_last(), sep);
        let before = joined(parts.drop_last(), sep);
        lemma_marks_on(before, sep);
        lemma_marks_on(before + sep, parts.last());
        assert(marks(before) + none =~= marks(before));
    }
}

proof fn lemma_same_marks(a: Seq<Seq<char>>, b: Seq<Seq<char>>)
    requires
        a.len() == b.len(),
        forall|i: int| 0 <= i < a.len() ==> marks(#[trigger] a[i]) == marks(b[i]),
    ensures
        all_marks(a) == all_marks(b),
    decreases a.len(),
{
    if a.len() > 0 {
        assert forall|i: int| 0 <= i < a.len() - 1 implies marks(#[trigger] a.drop_last()[i])
            == marks(b.drop_last()[i]) by {
            assert(a.drop_last()[i] == a[i]);
        }
        lemma_same_marks(a.drop_last(), b.drop_last());
        assert(marks(a[a.len() - 1]) == marks(b[a.len() - 1]));
    }
}

proof fn lemma_blanks(lines: Seq<Seq<char>>, i: int, blank: bool)
    requires
        0 <= i <= lines.len(),
    ensures
        marks(blanks_collapsed_from(lines, i, blank)) == all_marks(lines.skip(i)),
    decreases lines.len() - i,
{
    let none = Seq::<char>::empty();
    lemma_line_feed();
    if i == lines.len() {
        assert(lines.skip(i) =~= Seq::<Seq<char>>::empty());
    } else {
        lemma_marks_first(lines, i);
        if trimmed(lines[i]).len() == 0 {
            lemma_trimmed_marks(lines[i]);
            lemma_blanks(lines, i + 1, true);
            let rest = blanks_collapsed_from(lines, i + 1, true);
            lemma_marks_on("\n"@, rest);
            lemma_marks_on(none, rest);
            assert(none + marks(rest) =~= marks(rest));
        } else {
            lemma_blanks(lines, i + 1, false);
            lemma_trimmed_end_marks(lines[i]);
            lemma_with_feed(trimmed_end(lines[i]));
            lemma_marks_on(
                trimmed_end(lines[i]) + "\n"@,
                blanks_collapsed_from(lines, i + 1, false),
            );
        }
    }
}

/// Laying out a text moves only white space: every mark that was written stands
/// in the result, once and in its place, and no other does.
pub proof fn law_layout_moves_only_white_space(text: Seq<char>)
    ensures
        marks(restored(text)) == marks(text),
{
    let none = Seq::<char>::empty();
    lemma_line_feed();
    let a = broken_from(text, 0, none);
    lemma_broken(text, 0, none);
    assert(text.skip(0) =~= text);
    assert(none + marks(text) =~= marks(text));
    let la = text_lines(a);
    let b = tables_split(a);
    lemma_lines_marks(a);
    lemma_tables(la, 0, None);
    assert(la.skip(0) =~= la);
    lemma_trimmed_end_marks(tables_split_from(la, 0, None));
    let lb = text_lines(b);
    let c = rules_split(b);
    lemma_lines_marks(b);
    lemma_rules(lb, lb.len() as int);
    assert(lb.take(lb.len() as int) =~= lb);
    lemma_trimmed_end_marks(rules_split_upto(lb, lb.len() as int));
    let lc = text_lines(c);
    let d = bodies_split(c);
    lemma_lines_marks(c);
    let parts = Seq::new(lc.len(), |i: int| body_split(lc[i]));
    assert forall|i: int| 0 <= i < parts.len() implies marks(#[trigger] parts[i]) == marks(
        lc[i],
    ) by {
        lemma_body_split(lc[i]);
    }
    lemma_same_marks(parts, lc);
    lemma_joined_marks(parts, "\n"@);
    assert(spread_out(text) == d);
    let ld = text_lines(d);
    lemma_lines_marks(d);
    lemma_blanks(ld, 0, false);
    assert(ld.skip(0) =~= ld);
    lemma_trimmed_end_marks(blanks_collapsed_from(ld, 0, false));
    lemma_with_feed(blanks_collapsed(d));
}

/// An answer that is not JSON is shown with every mark that it has, in order,
/// and with nothing added but white space.
pub proof fn law_answers_lose_nothing(answer: Seq<char>)
    ensures
        marks(formatted(answer, None)) == marks(answer),
{
    lemma_line_feed();
    if trimmed(answer).len() == 0 {
        lemma_trimmed_marks(answer);
    } else {
        law_plain_answers_keep_their_marks(answer);
        law_layout_moves_only_white_space(plain_answer(answer));
    }
}

// ---------------------------------------------------------------------------
// JSON as markdown
// ---------------------------------------------------------------------------

proof fn lemma_one_more_member(
    members: Seq<(Seq<char>, JsonView)>,
    more: Seq<(Seq<char>, JsonView)>,
    k: int,
    level: int,
    out: Seq<char>,
)
    requires
        0 <= k <= members.len(),
    ensures
        with_object(members + more, k, level, out) == with_object(
            members + more,
            members.len() as int,
            level,
            with_object(members, k, level, out),
        ),
    decreases members.len() - k,
{
    if k < members.len() {
        let all = members + more;
        assert(all[k] == members[k]);
        let next = match members[k].1 {
            JsonView::Null => out,
            JsonView::Object(child) => with_object(
                child,
                0,
                crate::answer_format::next_level(level),
                crate::answer_format::with_heading(out, level, members[k].0),
            ) + "\n"@,
            JsonView::Array(items) => with_array(
                items,
                0,
                0,
                crate::answer_format::next_level(level),
                crate::answer_format::with_heading(out, level, members[k].0),
            ) + "\n"@,
            _ => out + "- "@ + human_key(members[k].0) + ": "@ + crate::answer_format::scalar_text(
                members[k].1,
            ) + "\n"@,
        };
        lemma_one_more_member(members, more, k + 1, level, next);
    }
}

/// One more member of a JSON object is one more line at the end: a text, a
/// number or a truth value behind its name. A null is passed over.
pub proof fn law_members_are_shown_in_order(
    members: Seq<(Seq<char>, JsonView)>,
    key: Seq<char>,
    text: Seq<char>,
    n: u64,
    yes: bool,
)
    ensures
        json_markdown(JsonView::Object(Seq::empty())) == Seq::<char>::empty(),
        json_markdown(JsonView::Object(members + seq![(key, JsonView::Str(text))]))
            == json_markdown(JsonView::Object(members)) + "- "@ + human_key(key) + ": "@ + replaced(
            text,
            "\n"@,
            " "@,
        ) + "\n"@,
        json_markdown(JsonView::Object(members + seq![(key, JsonView::Unsigned(n))]))
            == json_markdown(JsonView::Object(members)) + "- "@ + human_key(key) + ": "@
            + crate::text::decimal(n as nat) + "\n"@,
        json_markdown(JsonView::Object(members + seq![(key, JsonView::Bool(yes))]))
            == json_markdown(JsonView::Object(members)) + "- "@ + human_key(key) + ": "@ + (if yes {
            "true"@
        } else {
            "false"@
        }) + "\n"@,
        json_markdown(JsonView::Object(members + seq![(key, JsonView::Null)])) == json_markdown(
            JsonView::Object(members),
        ),
{
    lemma_last_member(members, (key, JsonView::Str(text)));
    lemma_last_member(members, (key, JsonView::Unsigned(n)));
    lemma_last_member(members, (key, JsonView::Bool(yes)));
    lemma_last_member(members, (key, JsonView::Null));
}

proof fn lemma_last_member(members: Seq<(Seq<char>, JsonView)>, last: (Seq<char>, JsonView))
    ensures
        !(last.1 is Object || last.1 is Array || last.1 is Null) ==> with_object(
            members + seq![last],
            0,
            2,
            Seq::empty(),
        ) == with_object(members, 0, 2, Seq::empty()) + "- "@ + human_key(last.0) + ": "@
            + crate::answer_format::scalar_text(last.1) + "\n"@,
        last.1 is Null ==> with_object(members + seq![last], 0, 2, Seq::empty()) == with_object(
            members,
            0,
            2,
            Seq::empty(),
        ),
{
    let n = members.len() as int;
    let all = members + seq![last];
    lemma_one_more_member(members, seq![last], 0, 2, Seq::empty());
    assert(all[n] == last);
    reveal_with_fuel(with_object, 2);
}

/// A name is shown with a capital at the start of each word and with blanks for
/// the signs that part its words.
pub proof fn law_names_are_shown_as_words(key: Seq<char>)
    ensures
        human_key(key).len() == key.len(),
        forall|i: int|
            0 <= i < key.len() ==> #[trigger] human_key(key)[i] == if key[i] == '_' || key[i] == '-' {
                ' '
            } else if i == 0 || key[i - 1] == '_' || key[i - 1] == '-' {
                upper_char(key[i])
            } else {
                key[i]
            },
{
    lemma_human_key(key, 0, true);
    assert forall|i: int| 0 <= i < key.len() implies #[trigger] human_key(key)[i] == if key[i] == '_'
        || key[i] == '-' {
        ' '
    } else if i == 0 || key[i - 1] == '_' || key[i - 1] == '-' {
        upper_char(key[i])
    } else {
        key[i]
    } by {
        assert(human_key(key)[i] == human_key_from(key, 0, true)[i - 0]);
    }
}

proof fn lemma_human_key(key: Seq<char>, i: int, capital: bool)
    requires
        0 <= i <= key.len(),
        capital == (i == 0 || key[i - 1] == '_' || key[i - 1] == '-'),
    ensures
        human_key_from(key, i, capital).len() == key.len() - i,
        forall|j: int|
            i <= j < key.len() ==> #[trigger] human_key_from(key, i, capital)[j - i] == if key[j]
                == '_' || key[j] == '-' {
                ' '
            } else if j == 0 || key[j - 1] == '_' || key[j - 1] == '-' {
                upper_char(key[j])
            } else {
                key[j]
            },
    decreases key.len() - i,
{
    if i < key.len() {
        let next = key[i] == '_' || key[i] == '-';
        lemma_human_key(key, i + 1, next);
        let r = human_key_from(key, i, capital);
        let s = human_key_from(key, i + 1, next);
        assert forall|j: int| i <= j < key.len() implies #[trigger] r[j - i] == if key[j] == '_'
            || key[j] == '-' {
            ' '
        } else if j == 0 || key[j - 1] == '_' || key[j - 1] == '-' {
            upper_char(key[j])
        } else {
            key[j]
        } by {
            if j > i {
                assert(r[j - i] == s[j - (i + 1)]);
            }
        }
    }
}


/// The items before the last that count, those that are not null.
spec fn counted(items: Seq<JsonView>, k: int) -> int
    decreases items.len() - k,
{
    if k < 0 || k >= items.len() {
        0
    } else {
        (if items[k] is Null {
            0int
        } else {
            1
        }) + counted(items, k + 1)
    }
}

proof fn lemma_one_more_item(
    items: Seq<JsonView>,
    more: Seq<JsonView>,
    k: int,
    n: int,
    level: int,
    out: Seq<char>,
)
    requires
        0 <= k <= items.len(),
    ensures
        with_array(items + more, k, n, level, out) == with_array(
            items + more,
            items.len() as int,
            n + counted(items, k),
            level,
            with_array(items, k, n, level, out),
        ),
    decreases items.len() - k,
{
    if k < items.len() {
        let all = items + more;
        assert(all[k] == items[k]);
        match items[k] {
            JsonView::Null => {
                lemma_one_more_item(items, more, k + 1, n, level, out);
            },
            JsonView::Object(child) => {
                let next = with_object(
                    child,
                    0,
                    crate::answer_format::at_least(crate::answer_format::next_level(level), 3),
                    out + crate::text::decimal((n + 1) as nat) + ". Item "@ + crate::text::decimal(
                        (n + 1) as nat,
                    ) + "\n"@,
                );
                lemma_one_more_item(items, more, k + 1, n + 1, level, next);
            },
            JsonView::Array(inner) => {
                let next = with_array(inner, 0, 0, crate::answer_format::next_level(level), out);
                lemma_one_more_item(items, more, k + 1, n + 1, level, next);
            },
            _ => {
                let next = out + "- "@ + crate::answer_format::scalar_text(items[k]) + "\n"@;
                lemma_one_more_item(items, more, k + 1, n + 1, level, next);
            },
        }
    }
}

/// One more text in a JSON list is one more line at the end. A null is passed
/// over.
pub proof fn law_items_are_shown_in_order(items: Seq<JsonView>, text: Seq<char>)
    ensures
        json_markdown(JsonView::Array(Seq::empty())) == Seq::<char>::empty(),
        json_markdown(JsonView::Array(items + seq![JsonView::Str(text)])) == json_markdown(
            JsonView::Array(items),
        ) + "- "@ + replaced(text, "\n"@, " "@) + "\n"@,
        json_markdown(JsonView::Array(items + seq![JsonView::Null])) == json_markdown(
            JsonView::Array(items),
        ),
        json_markdown(JsonView::Str(text)) == replaced(text, "\n"@, " "@) + "\n"@,
{
    let none = Seq::<char>::empty();
    let n = items.len() as int;
    let a = JsonView::Str(text);
    lemma_one_more_item(items, seq![a], 0, 0, 0, none);
    lemma_one_more_item(items, seq![JsonView::Null], 0, 0, 0, none);
    assert((items + seq![a])[n] == a);
    assert((items + seq![JsonView::Null])[n] == JsonView::Null);
    reveal_with_fuel(with_array, 2);
}

} // verus!
