//! How answers and progress reach the screen: in pieces, at a pace.
use vstd::prelude::*;

use crate::agent::types::{AgentStep, StepView};
use crate::text::{char_count, chars_of, concat2, concat3, decimal_text, join, next_char_at, parse_number, push_item, push_text, text_between, trim};
use crate::text::{decimal, joined, lemma_next_char, lemma_texts_empty, next_char, parsed_number, texts, trimmed};
use crate::workspace::opt_str_text;

verus! {

/// The pause between two pieces, in milliseconds, unless another is set.
pub const DEFAULT_RENDERED_MARKDOWN_STREAM_DELAY: u64 = 12;

/// The longest that all pauses of one answer may take together.
pub const DEFAULT_RENDERED_MARKDOWN_STREAM_MAX_DELAY: u64 = 1200;

// ---------------------------------------------------------------------------
// Pieces
// ---------------------------------------------------------------------------

/// The end of the line that starts at `i`, its line break included.
pub open spec fn line_end(s: Seq<char>, i: int) -> int {
    let e = next_char(s, '\n', i);
    if e < s.len() {
        e + 1
    } else {
        s.len() as int
    }
}

/// The lines of a text from `i` on, each with its line break.
pub open spec fn chunks_from(s: Seq<char>, i: int) -> Seq<Seq<char>>
    decreases s.len() - i,
{
    if 0 <= i < s.len() && i < line_end(s, i) {
        seq![s.subrange(i, line_end(s, i))] + chunks_from(s, line_end(s, i))
    } else {
        Seq::empty()
    }
}

/// The lines of a rendered answer, each with its line break.
pub fn rendered_markdown_stream_chunks(rendered: &str) -> (r: Vec<String>)
    ensures
        texts(r@) == chunks_from(rendered@, 0),
{
    broadcast use lemma_texts_empty;

    let v = chars_of(rendered);
    let ghost want = chunks_from(v@, 0);
    let mut out: Vec<String> = Vec::new();
    let mut i: usize = 0;
    assert(texts(out@) + want =~= want);
    while i < v.len()
        invariant
            i <= v.len(),
            texts(out@) + chunks_from(v@, i as int) == want,
        decreases v.len() - i,
    {
        proof {
            lemma_next_char(v@, '\n', i as int);
        }
        let e = next_char_at(&v, '\n', i);
        let end: usize = if e < v.len() {
            e + 1
        } else {
            v.len()
        };
        let ghost before = texts(out@);
        let piece = text_between(&v, i, end);
        push_item(&mut out, piece);
        assert(before + (seq![piece@] + chunks_from(v@, end as int)) =~= texts(out@) + chunks_from(
            v@,
            end as int,
        ));
        i = end;
    }
    assert(texts(out@) + Seq::<Seq<char>>::empty() =~= texts(out@));
    out
}

// ---------------------------------------------------------------------------
// Pauses
// ---------------------------------------------------------------------------

pub open spec fn is_blank(s: Seq<char>) -> bool {
    trimmed(s).len() == 0
}

/// The pause after a piece: none after a blank one.
pub open spec fn chunk_delay(chunk: Seq<char>, base: int) -> int {
    if is_blank(chunk) {
        0
    } else {
        base
    }
}

pub fn terminal_stream_chunk_delay(chunk: &str, base_delay: u64) -> (r: u64)
    ensures
        r == chunk_delay(chunk@, base_delay as int),
{
    if char_count(trim(chunk).as_str()) == 0 {
        0
    } else {
        base_delay
    }
}

/// The pause that is set, or the usual one.
pub fn rendered_markdown_stream_delay(setting: Option<&str>) -> (r: u64)
    ensures
        r as nat == match opt_str_text(setting) {
            Some(value) => match parsed_number(value, u64::MAX as nat) {
                Some(n) => n,
                None => DEFAULT_RENDERED_MARKDOWN_STREAM_DELAY as nat,
            },
            None => DEFAULT_RENDERED_MARKDOWN_STREAM_DELAY as nat,
        },
{
    match setting {
        Some(value) => match parse_number(value, u64::MAX) {
            Some(n) => n,
            None => DEFAULT_RENDERED_MARKDOWN_STREAM_DELAY,
        },
        None => DEFAULT_RENDERED_MARKDOWN_STREAM_DELAY,
    }
}

/// The number of pieces among the first `n` that are not blank.
pub open spec fn filled_count(chunks: Seq<Seq<char>>, n: int) -> nat
    decreases n,
{
    if n <= 0 || n > chunks.len() {
        0
    } else {
        filled_count(chunks, n - 1) + if is_blank(chunks[n - 1]) {
            0nat
        } else {
            1nat
        }
    }
}

/// The pieces after which there may be a pause: all but the last.
pub open spec fn pauses(chunks: Seq<Seq<char>>) -> nat {
    filled_count(chunks, chunks.len() - 1)
}

/// The pause between pieces, made shorter where all of them together would take
/// too long.
pub open spec fn effective_delay(chunks: Seq<Seq<char>>, requested: int) -> int {
    if requested == 0 || pauses(chunks) == 0 {
        0
    } else {
        let limit = DEFAULT_RENDERED_MARKDOWN_STREAM_MAX_DELAY as int / pauses(chunks) as int;
        if requested < limit {
            requested
        } else {
            limit
        }
    }
}

fn count_pauses(chunks: &Vec<String>) -> (r: u64)
    ensures
        r == pauses(texts(chunks@)),
{
    let ghost all = texts(chunks@);
    assert(all.len() == chunks.len());
    if chunks.len() == 0 {
        return 0;
    }
    let last: usize = chunks.len() - 1;
    let mut n: u64 = 0;
    let mut k: usize = 0;
    while k < last
        invariant
            k <= last < chunks.len(),
            n <= k,
            all == texts(chunks@),
            n == filled_count(all, k as int),
        decreases last - k,
    {
        assert(all[k as int] == chunks@[k as int]@);
        if char_count(trim(chunks[k].as_str()).as_str()) > 0 {
            n += 1;
        }
        k += 1;
    }
    n
}

pub fn rendered_markdown_effective_stream_delay(
    chunks: &Vec<String>,
    requested_delay: u64,
) -> (r: u64)
    ensures
        r == effective_delay(texts(chunks@), requested_delay as int),
{
    if requested_delay == 0 {
        return 0;
    }
    let n = count_pauses(chunks);
    if n == 0 {
        return 0;
    }
    let limit: u64 = DEFAULT_RENDERED_MARKDOWN_STREAM_MAX_DELAY / n;
    if requested_delay < limit {
        requested_delay
    } else {
        limit
    }
}

// ---------------------------------------------------------------------------
// Progress
// ---------------------------------------------------------------------------

pub open spec fn steps_view(v: Seq<AgentStep>) -> Seq<StepView> {
    Seq::new(v.len(), |i: int| v[i]@)
}

pub open spec fn step_line(step: StepView) -> Seq<char> {
    "agent step "@ + step.label_text() + ": "@ + step.tool
}

/// What is shown while an answer is on its way: how long it has taken, and the
/// tools that ran.
pub open spec fn scan_status(seconds: nat, steps: Seq<StepView>) -> Seq<char> {
    let head = "Loading "@ + decimal(seconds) + "s"@;
    if steps.len() == 0 {
        head
    } else {
        joined(seq![head, Seq::empty()] + steps.map_values(|s: StepView| step_line(s)), "\n"@)
    }
}

pub fn context_scan_status(elapsed_secs: u64, tool_steps: &Vec<AgentStep>) -> (r: String)
    ensures
        r@ == scan_status(elapsed_secs as nat, steps_view(tool_steps@)),
{
    broadcast use lemma_texts_empty;

    let ghost steps = steps_view(tool_steps@);
    let ghost all = steps.map_values(|s: StepView| step_line(s));
    assert(steps.len() == tool_steps.len());
    let head = concat3("Loading ", decimal_text(elapsed_secs).as_str(), "s");
    if tool_steps.len() == 0 {
        return head;
    }
    let ghost want = seq![head@, Seq::empty()] + all;
    let mut lines: Vec<String> = Vec::new();
    push_item(&mut lines, head);
    push_item(&mut lines, String::new());
    assert(texts(lines@) =~= want.take(2));
    let mut k: usize = 0;
    while k < tool_steps.len()
        invariant
            k <= tool_steps.len(),
            steps == steps_view(tool_steps@),
            all == steps.map_values(|s: StepView| step_line(s)),
            want == seq![want[0], Seq::empty()] + all,
            texts(lines@) == want.take(k + 2),
        decreases tool_steps.len() - k,
    {
        assert(steps[k as int] == tool_steps@[k as int]@);
        let mut line = concat2("agent step ", tool_steps[k].label().as_str());
        push_text(&mut line, ": ");
        push_text(&mut line, tool_steps[k].tool.as_str());
        assert(line@ == want[k + 2]);
        push_item(&mut lines, line);
        k += 1;
        assert(texts(lines@) =~= want.take(k + 2));
    }
    assert(texts(lines@) =~= want);
    join(&lines, "\n")
}

// ---------------------------------------------------------------------------
// Laws
// ---------------------------------------------------------------------------

/// Texts one after the other.
pub open spec fn concatenated(list: Seq<Seq<char>>) -> Seq<char>
    decreases list.len(),
{
    if list.len() == 0 {
        Seq::empty()
    } else {
        list[0] + concatenated(list.skip(1))
    }
}

proof fn lemma_chunks_whole(s: Seq<char>, i: int)
    requires
        0 <= i <= s.len(),
    ensures
        concatenated(chunks_from(s, i)) == s.skip(i),
    decreases s.len() - i,
{
    if i < s.len() {
        lemma_next_char(s, '\n', i);
        let e = line_end(s, i);
        lemma_chunks_whole(s, e);
        let rest = chunks_from(s, e);
        let all = chunks_from(s, i);
        assert(all.skip(1) =~= rest);
        assert(s.subrange(i, e) + s.skip(e) =~= s.skip(i));
    } else {
        assert(s.skip(i) =~= Seq::empty());
    }
}

/// The pieces of an answer, one after the other, are the answer.
pub proof fn law_chunks_lose_nothing(s: Seq<char>)
    ensures
        concatenated(chunks_from(s, 0)) == s,
{
    lemma_chunks_whole(s, 0);
    assert(s.skip(0) =~= s);
}

/// The pauses after the first `n` pieces together.
pub open spec fn total_delay(chunks: Seq<Seq<char>>, base: int, n: int) -> int
    decreases n,
{
    if n <= 0 || n > chunks.len() {
        0
    } else {
        total_delay(chunks, base, n - 1) + chunk_delay(chunks[n - 1], base)
    }
}

proof fn lemma_total_delay(chunks: Seq<Seq<char>>, base: int, n: int)
    requires
        0 <= n <= chunks.len(),
    ensures
        total_delay(chunks, base, n) == base * filled_count(chunks, n),
    decreases n,
{
    if n > 0 {
        lemma_total_delay(chunks, base, n - 1);
        let c = filled_count(chunks, n - 1) as int;
        assert(base * (c + 1) == base * c + base) by (nonlinear_arith);
    } else {
        assert(base * 0 == 0) by (nonlinear_arith);
    }
}

/// However long an answer is, the pauses between its pieces never add up to
/// more than the limit.
pub proof fn law_pauses_are_bounded(chunks: Seq<Seq<char>>, requested: int)
    requires
        0 <= requested,
    ensures
        total_delay(chunks, effective_delay(chunks, requested), chunks.len() - 1)
            <= DEFAULT_RENDERED_MARKDOWN_STREAM_MAX_DELAY,
{
    let d = effective_delay(chunks, requested);
    if chunks.len() > 0 {
        lemma_total_delay(chunks, d, chunks.len() - 1);
        let n = pauses(chunks) as int;
        if d == 0 {
            assert(d * n == 0) by (nonlinear_arith)
                requires
                    d == 0,
            ;
        } else {
            let limit = 1200int / n;
            assert(d * n <= 1200) by (nonlinear_arith)
                requires
                    n > 0,
                    d <= limit,
                    limit == 1200int / n,
            ;
        }
    }
}

} // verus!
