//! Turns in progress: approvals that last, and what a running turn reports.
use vstd::prelude::*;

use crate::agent::types::{AgentStep, ApprovalDecision, ApprovalRequest, RequestView, StepView};
use crate::input::approval::{ApprovalChoice, ApprovalScope};
use crate::repl::stream::{context_scan_status, scan_status, steps_view};
use crate::text::{char_count, concat3, copy_text, push_item, push_text, same_text};
use crate::text::texts;

verus! {

// ---------------------------------------------------------------------------
// Approvals that last
// ---------------------------------------------------------------------------

/// What was approved for the rest of the session. Nothing stands in it twice.
#[derive(Debug)]
pub struct ApprovedSet {
    pub keys: Vec<String>,
}

impl View for ApprovedSet {
    type V = Set<Seq<char>>;

    open spec fn view(&self) -> Set<Seq<char>> {
        texts(self.keys@).to_set()
    }
}

impl ApprovedSet {
    pub open spec fn wf(&self) -> bool {
        texts(self.keys@).no_duplicates()
    }

    pub fn new() -> (r: ApprovedSet)
        ensures
            r@ == Set::<Seq<char>>::empty(),
            r.wf(),
    {
        let r = ApprovedSet { keys: Vec::new() };
        assert(r@ =~= Set::<Seq<char>>::empty());
        r
    }

    pub fn contains(&self, key: &str) -> (r: bool)
        ensures
            r == self@.contains(key@),
    {
        let ghost all = texts(self.keys@);
        let mut i: usize = 0;
        while i < self.keys.len()
            invariant
                i <= self.keys.len(),
                all == texts(self.keys@),
                all.len() == self.keys.len(),
                forall|j: int| 0 <= j < i ==> #[trigger] all[j] != key@,
            decreases self.keys.len() - i,
        {
            assert(all[i as int] == self.keys@[i as int]@);
            if same_text(self.keys[i].as_str(), key) {
                assert(all.contains(key@));
                return true;
            }
            i += 1;
        }
        false
    }

    pub fn is_empty(&self) -> (r: bool)
        ensures
            r == (self@ == Set::<Seq<char>>::empty()),
    {
        assert(texts(self.keys@).len() == self.keys.len());
        if self.keys.len() == 0 {
            assert(self@ =~= Set::<Seq<char>>::empty());
            true
        } else {
            assert(texts(self.keys@).contains(texts(self.keys@)[0]));
            assert(self@.contains(texts(self.keys@)[0]));
            false
        }
    }

    pub fn insert(&mut self, key: &str)
        requires
            old(self).wf(),
        ensures
            final(self)@ == old(self)@.insert(key@),
            final(self).wf(),
    {
        if self.contains(key) {
            assert(self@ =~= old(self)@.insert(key@));
            return;
        }
        let ghost before = texts(self.keys@);
        push_item(&mut self.keys, copy_text(key));
        let ghost after = texts(self.keys@);
        assert(after == before.push(key@));
        assert forall|k: Seq<char>| after.to_set().contains(k) == before.to_set().insert(
            key@,
        ).contains(k) by {
            if before.contains(k) {
                let j = choose|j: int| 0 <= j < before.len() && before[j] == k;
                assert(after[j] == k);
            }
            if k == key@ {
                assert(after[before.len() as int] == k);
            }
        }
        assert(after.to_set() =~= before.to_set().insert(key@));
        assert(after.no_duplicates()) by {
            assert forall|i: int, j: int|
                0 <= i < after.len() && 0 <= j < after.len() && i != j implies after[i] != after[j] by {
                if i == before.len() {
                    assert(before.contains(after[j]));
                }
                if j == before.len() {
                    assert(before.contains(after[i]));
                }
            }
        }
    }
}

pub open spec fn decision_for(choice: ApprovalChoice) -> ApprovalDecision {
    match choice {
        ApprovalChoice::ApproveOnce => ApprovalDecision::Approve,
        ApprovalChoice::ApproveForSession => ApprovalDecision::ApproveForSession,
        ApprovalChoice::Reject => ApprovalDecision::Deny,
    }
}

/// What is approved once a choice was made on a request with a key: a choice for
/// the session adds the key, any other leaves the set alone.
pub open spec fn approved_after(
    approved: Set<Seq<char>>,
    key: Seq<char>,
    choice: ApprovalChoice,
) -> Set<Seq<char>> {
    match choice {
        ApprovalChoice::ApproveForSession => approved.insert(key),
        _ => approved,
    }
}

pub fn approval_decision_for_choice(
    key: &str,
    choice: ApprovalChoice,
    approved: &mut ApprovedSet,
) -> (r: ApprovalDecision)
    requires
        old(approved).wf(),
    ensures
        r == decision_for(choice),
        final(approved)@ == approved_after(old(approved)@, key@, choice),
        final(approved).wf(),
{
    match choice {
        ApprovalChoice::ApproveOnce => ApprovalDecision::Approve,
        ApprovalChoice::ApproveForSession => {
            approved.insert(key);
            ApprovalDecision::ApproveForSession
        },
        ApprovalChoice::Reject => ApprovalDecision::Deny,
    }
}

/// The key of an approval: what it covers, and the root in which it does.
pub open spec fn grant(root: Seq<char>, scope: ApprovalScope) -> Seq<char> {
    scope.label_text() + ":"@ + root
}

pub fn approval_grant(root: &str, scope: ApprovalScope) -> (r: String)
    ensures
        r@ == grant(root@, scope),
{
    concat3(scope.label(), ":", root)
}

// ---------------------------------------------------------------------------
// What a running turn reports
// ---------------------------------------------------------------------------

/// A report from a turn, or that there is none.
#[derive(Debug)]
pub enum TurnEvent {
    Delta(String),
    RenderedMarkdown(String),
    ToolStep(AgentStep),
    ApprovalRequest(ApprovalRequest),
    Complete(Result<(String, String), String>),
    Nothing,
    Disconnected,
}

pub enum EventView {
    Delta(Seq<char>),
    RenderedMarkdown(Seq<char>),
    ToolStep(StepView),
    ApprovalRequest(RequestView),
    Complete(Result<(Seq<char>, Seq<char>), Seq<char>>),
    Nothing,
    Disconnected,
}

pub open spec fn answer_view(r: Result<(String, String), String>) -> Result<
    (Seq<char>, Seq<char>),
    Seq<char>,
> {
    match r {
        Ok((prompt, response)) => Ok((prompt@, response@)),
        Err(e) => Err(e@),
    }
}

impl View for TurnEvent {
    type V = EventView;

    open spec fn view(&self) -> EventView {
        match *self {
            TurnEvent::Delta(s) => EventView::Delta(s@),
            TurnEvent::RenderedMarkdown(s) => EventView::RenderedMarkdown(s@),
            TurnEvent::ToolStep(step) => EventView::ToolStep(step@),
            TurnEvent::ApprovalRequest(request) => EventView::ApprovalRequest(request@),
            TurnEvent::Complete(result) => EventView::Complete(answer_view(result)),
            TurnEvent::Nothing => EventView::Nothing,
            TurnEvent::Disconnected => EventView::Disconnected,
        }
    }
}

/// What is shown of a report: text as it comes, a rendered answer piece by
/// piece, or progress.
#[derive(Debug, PartialEq)]
pub enum DrainOp {
    Stream(String),
    StreamRendered(String),
    Progress(String),
}

pub enum DrainOpView {
    Stream(Seq<char>),
    StreamRendered(Seq<char>),
    Progress(Seq<char>),
}

impl View for DrainOp {
    type V = DrainOpView;

    open spec fn view(&self) -> DrainOpView {
        match *self {
            DrainOp::Stream(s) => DrainOpView::Stream(s@),
            DrainOp::StreamRendered(s) => DrainOpView::StreamRendered(s@),
            DrainOp::Progress(s) => DrainOpView::Progress(s@),
        }
    }
}

pub open spec fn drain_ops(v: Seq<DrainOp>) -> Seq<DrainOpView> {
    Seq::new(v.len(), |i: int| v[i]@)
}

fn push_drain_op(out: &mut Vec<DrainOp>, op: DrainOp)
    ensures
        drain_ops(final(out)@) == drain_ops(old(out)@).push(op@),
{
    out.push(op);
    assert(drain_ops(out@) =~= drain_ops(old(out)@).push(op@));
}

/// Whether to read on, and why not.
#[derive(Debug)]
pub enum DrainOutcome {
    More,
    Idle,
    Approval(ApprovalRequest),
    Complete(Result<(String, String), String>),
}

pub enum DrainOutcomeView {
    More,
    Idle,
    Approval(RequestView),
    Complete(Result<(Seq<char>, Seq<char>), Seq<char>>),
}

impl View for DrainOutcome {
    type V = DrainOutcomeView;

    open spec fn view(&self) -> DrainOutcomeView {
        match *self {
            DrainOutcome::More => DrainOutcomeView::More,
            DrainOutcome::Idle => DrainOutcomeView::Idle,
            DrainOutcome::Approval(request) => DrainOutcomeView::Approval(request@),
            DrainOutcome::Complete(result) => DrainOutcomeView::Complete(answer_view(result)),
        }
    }
}

/// The reports of one round: text that waits to be shown, and whether some of
/// an answer was seen.
#[derive(Debug)]
pub struct Drain {
    pub chunk: String,
    pub streamed: bool,
}

#[verifier::ext_equal]
pub struct DrainView {
    pub chunk: Seq<char>,
    pub streamed: bool,
    pub steps: Seq<StepView>,
}

/// The text that waits, as it is shown.
pub open spec fn flushed(chunk: Seq<char>) -> Seq<DrainOpView> {
    if chunk.len() > 0 {
        seq![DrainOpView::Stream(chunk)]
    } else {
        Seq::empty()
    }
}

/// A round once text that waits was shown at its end.
pub open spec fn ended(v: DrainView) -> DrainView {
    DrainView { chunk: Seq::empty(), streamed: v.streamed || v.chunk.len() > 0, ..v }
}

pub const WORKER_DISCONNECTED: &'static str = "response worker disconnected";

/// What a report leads to: the round after it, what is shown, and whether to
/// read on.
pub open spec fn drained(v: DrainView, event: EventView, elapsed: Option<nat>) -> (
    DrainView,
    Seq<DrainOpView>,
    DrainOutcomeView,
) {
    match event {
        EventView::Delta(delta) => (
            DrainView { chunk: v.chunk + delta, streamed: true, ..v },
            Seq::empty(),
            DrainOutcomeView::More,
        ),
        EventView::RenderedMarkdown(text) => (
            DrainView { chunk: Seq::empty(), streamed: true, ..v },
            flushed(v.chunk).push(DrainOpView::StreamRendered(text)),
            DrainOutcomeView::More,
        ),
        EventView::ToolStep(step) => {
            let steps = v.steps.push(step);
            (
                DrainView { chunk: Seq::empty(), steps, ..v },
                match elapsed {
                    Some(seconds) => flushed(v.chunk).push(
                        DrainOpView::Progress(scan_status(seconds, steps)),
                    ),
                    None => flushed(v.chunk),
                },
                DrainOutcomeView::More,
            )
        },
        EventView::ApprovalRequest(request) => (
            DrainView { chunk: Seq::empty(), ..v },
            flushed(v.chunk),
            DrainOutcomeView::Approval(request),
        ),
        EventView::Complete(result) => (
            ended(v),
            flushed(v.chunk),
            DrainOutcomeView::Complete(result),
        ),
        EventView::Nothing => (ended(v), flushed(v.chunk), DrainOutcomeView::Idle),
        EventView::Disconnected => (
            ended(v),
            flushed(v.chunk),
            DrainOutcomeView::Complete(Err(WORKER_DISCONNECTED@)),
        ),
    }
}

pub open spec fn opt_nat(o: Option<u64>) -> Option<nat> {
    match o {
        Some(n) => Some(n as nat),
        None => None,
    }
}

impl Drain {
    pub open spec fn with_steps(&self, steps: Seq<StepView>) -> DrainView {
        DrainView { chunk: self.chunk@, streamed: self.streamed, steps }
    }

    pub fn new() -> (r: Drain)
        ensures
            r.chunk@.len() == 0,
            !r.streamed,
    {
        Drain { chunk: String::new(), streamed: false }
    }

    fn flush(&mut self, out: &mut Vec<DrainOp>)
        ensures
            final(self).chunk@ == Seq::<char>::empty(),
            final(self).streamed == old(self).streamed,
            drain_ops(final(out)@) == drain_ops(old(out)@) + flushed(old(self).chunk@),
    {
        if char_count(self.chunk.as_str()) > 0 {
            let text = copy_text(self.chunk.as_str());
            push_drain_op(out, DrainOp::Stream(text));
        }
        self.chunk = String::new();
        assert(drain_ops(out@) =~= drain_ops(old(out)@) + flushed(old(self).chunk@));
    }

    /// Takes one report. `elapsed` is how long the turn has been shown as
    /// loading, where it is.
    pub fn take(
        &mut self,
        event: TurnEvent,
        steps: &mut Vec<AgentStep>,
        elapsed: Option<u64>,
    ) -> (r: (Vec<DrainOp>, DrainOutcome))
        ensures
            ({
                let (after, shown, outcome) = drained(
                    old(self).with_steps(steps_view(old(steps)@)),
                    event@,
                    opt_nat(elapsed),
                );
                &&& final(self).with_steps(steps_view(final(steps)@)) == after
                &&& drain_ops(r.0@) == shown
                &&& r.1@ == outcome
            }),
    {
        let mut out: Vec<DrainOp> = Vec::new();
        let ghost before = self.chunk@;
        assert(drain_ops(out@) =~= Seq::empty());
        assert(Seq::<DrainOpView>::empty() + flushed(before) =~= flushed(before));
        match event {
            TurnEvent::Delta(delta) => {
                push_text(&mut self.chunk, delta.as_str());
                self.streamed = true;
                (out, DrainOutcome::More)
            },
            TurnEvent::RenderedMarkdown(text) => {
                self.flush(&mut out);
                push_drain_op(&mut out, DrainOp::StreamRendered(text));
                self.streamed = true;
                (out, DrainOutcome::More)
            },
            TurnEvent::ToolStep(step) => {
                self.flush(&mut out);
                steps.push(step);
                assert(steps_view(steps@) =~= steps_view(old(steps)@).push(step@));
                if let Some(seconds) = elapsed {
                    push_drain_op(
                        &mut out,
                        DrainOp::Progress(context_scan_status(seconds, steps)),
                    );
                }
                (out, DrainOutcome::More)
            },
            TurnEvent::ApprovalRequest(request) => {
                self.flush(&mut out);
                (out, DrainOutcome::Approval(request))
            },
            TurnEvent::Complete(result) => {
                let waiting = char_count(self.chunk.as_str()) > 0;
                self.streamed = self.streamed || waiting;
                self.flush(&mut out);
                (out, DrainOutcome::Complete(result))
            },
            TurnEvent::Nothing => {
                let waiting = char_count(self.chunk.as_str()) > 0;
                self.streamed = self.streamed || waiting;
                self.flush(&mut out);
                (out, DrainOutcome::Idle)
            },
            TurnEvent::Disconnected => {
                let waiting = char_count(self.chunk.as_str()) > 0;
                self.streamed = self.streamed || waiting;
                self.flush(&mut out);
                (out, DrainOutcome::Complete(Err(copy_text(WORKER_DISCONNECTED))))
            },
        }
    }
}

// ---------------------------------------------------------------------------
// Laws
// ---------------------------------------------------------------------------

/// Approvals for different things, or in different roots, are different: one
/// never stands for the other.
pub proof fn law_grants_are_separate(
    root: Seq<char>,
    scope: ApprovalScope,
    other_root: Seq<char>,
    other_scope: ApprovalScope,
)
    ensures
        grant(root, scope) == grant(other_root, other_scope) ==> root == other_root && scope
            == other_scope,
{
    reveal_strlit("shell");
    reveal_strlit("writes");
    reveal_strlit(":");
    let a = grant(root, scope);
    let b = grant(other_root, other_scope);
    if a == b {
        assert(a[0] == scope.label_text()[0]);
        assert(b[0] == other_scope.label_text()[0]);
        assert(scope == other_scope);
        let n = scope.label_text().len() + 1;
        assert(a.skip(n as int) =~= root);
        assert(b.skip(n as int) =~= other_root);
    }
}

/// Only a choice for the session is remembered.
pub proof fn law_single_choices_leave_no_trace(approved: Set<Seq<char>>, key: Seq<char>, choice: ApprovalChoice)
    ensures
        approved_after(approved, key, choice).contains(key) <==> approved.contains(key)
            || choice is ApproveForSession,
        forall|other: Seq<char>|
            other != key ==> (#[trigger] approved_after(approved, key, choice).contains(other)
                == approved.contains(other)),
{
}

/// The text that an operation puts on the screen as it came.
pub open spec fn streamed_text(ops: Seq<DrainOpView>) -> Seq<char>
    decreases ops.len(),
{
    if ops.len() == 0 {
        Seq::empty()
    } else {
        streamed_text(ops.drop_last()) + match ops.last() {
            DrainOpView::Stream(s) => s,
            _ => Seq::empty(),
        }
    }
}

/// Text that waits is neither lost nor changed by a report: what is shown and
/// what still waits are what waited before, and the report's own text behind
/// it.
pub proof fn law_no_text_is_lost(v: DrainView, event: EventView, elapsed: Option<nat>)
    ensures
        streamed_text(drained(v, event, elapsed).1) + drained(v, event, elapsed).0.chunk
            == v.chunk + match event {
            EventView::Delta(delta) => delta,
            _ => Seq::empty(),
        },
{
    let (after, shown, _) = drained(v, event, elapsed);
    let text = streamed_text(shown);
    assert(streamed_text(Seq::empty()) =~= Seq::<char>::empty());
    assert(streamed_text(flushed(v.chunk)) =~= v.chunk) by {
        if v.chunk.len() > 0 {
            assert(flushed(v.chunk).drop_last() =~= Seq::empty());
        }
    }
    if shown.len() > flushed(v.chunk).len() {
        assert(shown.drop_last() =~= flushed(v.chunk));
    }
    assert(text + after.chunk =~= v.chunk + match event {
        EventView::Delta(delta) => delta,
        _ => Seq::<char>::empty(),
    });
}

} // verus!
