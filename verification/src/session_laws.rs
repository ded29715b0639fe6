//! What holds of the conversation that a session keeps.
use vstd::prelude::*;

use crate::provider::MessageView;
use crate::session::{capped_history, history_with_turn, law_kept_history_is_bounded, newest, total_content, trimmed_history};

verus! {

/// The characters of a history are those of its messages, each counted once.
pub proof fn law_characters_add_up(a: Seq<MessageView>, b: Seq<MessageView>, x: MessageView)
    ensures
        total_content(Seq::empty()) == 0,
        total_content(seq![x]) == x.content.len(),
        total_content(a + b) == total_content(a) + total_content(b),
    decreases b.len(),
{
    assert(seq![x].drop_last() =~= Seq::<MessageView>::empty());
    if b.len() == 0 {
        assert(a + b =~= a);
    } else {
        assert((a + b).drop_last() =~= a + b.drop_last());
        law_characters_add_up(a, b.drop_last(), x);
    }
}

proof fn lemma_fitting_end_stays(m: Seq<MessageView>, n: int)
    requires
        0 <= n <= m.len(),
        (m.len() - n) % 2 == 0,
        total_content(m.skip(m.len() - n)) <= 40_000,
    ensures
        trimmed_history(m).len() >= n,
    decreases m.len(),
{
    if total_content(m) > 40_000 && m.len() > 2 {
        if n == m.len() {
            assert(m.skip(0) =~= m);
        }
        let rest = m.skip(2);
        assert(rest.skip(rest.len() - n) =~= m.skip(m.len() - n));
        lemma_fitting_end_stays(rest, n);
    }
}

/// As much is kept as fits: whole turns at the end of a history, no more than
/// forty messages and forty thousand characters of them, are all still there.
pub proof fn law_longest_fitting_end_is_kept(m: Seq<MessageView>, n: int)
    requires
        0 <= n <= m.len(),
        n <= 40,
        total_content(m.skip(m.len() - n)) <= 40_000,
        m.len() <= 40 ==> (m.len() - n) % 2 == 0,
        m.len() > 40 ==> n % 2 == 0,
    ensures
        ({
            let kept = capped_history(m);
            &&& kept.len() >= n
            &&& kept.skip(kept.len() - n) == m.skip(m.len() - n)
            &&& kept.len() <= 40
            &&& total_content(kept) <= 40_000 || kept.len() <= 2
        }),
{
    let recent = newest(m);
    assert(recent.skip(recent.len() - n) =~= m.skip(m.len() - n));
    lemma_fitting_end_stays(recent, n);
    law_kept_history_is_bounded(m);
    let kept = capped_history(m);
    assert(kept.skip(kept.len() - n) =~= m.skip(m.len() - n));
}

/// A history that is within the limits loses nothing.
pub proof fn law_short_history_is_kept_whole(m: Seq<MessageView>)
    requires
        m.len() <= 40,
        total_content(m) <= 40_000,
    ensures
        capped_history(m) == m,
{
    assert(m.skip(0) =~= m);
    law_longest_fitting_end_is_kept(m, m.len() as int);
    let kept = capped_history(m);
    law_kept_history_is_bounded(m);
    assert(kept.skip(0) =~= kept);
}

/// A turn is the words of the user and then those of the assistant, each as they
/// were said, behind all that was said before.
pub proof fn law_turn_follows_the_history(
    m: Seq<MessageView>,
    user: Seq<char>,
    assistant: Seq<char>,
)
    requires
        m.len() <= 38,
        total_content(m) + user.len() + assistant.len() <= 40_000,
    ensures
        ({
            let after = history_with_turn(m, user, assistant);
            &&& after.len() == m.len() + 2
            &&& after.take(m.len() as int) == m
            &&& after[m.len() as int] == (MessageView {
                role: "user"@,
                content: user,
                reasoning: None,
                calls: None,
                call_id: None,
            })
            &&& after[m.len() as int + 1] == (MessageView {
                role: "assistant"@,
                content: assistant,
                reasoning: None,
                calls: None,
                call_id: None,
            })
        }),
{
    let one = MessageView {
        role: "user"@,
        content: user,
        reasoning: None,
        calls: None,
        call_id: None,
    };
    let two = MessageView { role: "assistant"@, content: assistant, ..one };
    let full = m.push(one).push(two);
    assert(full.drop_last() =~= m.push(one));
    assert(m.push(one).drop_last() =~= m);
    assert(total_content(m.push(one)) == total_content(m) + user.len());
    assert(total_content(full) == total_content(m.push(one)) + assistant.len());
    law_short_history_is_kept_whole(full);
    assert(full.take(m.len() as int) =~= m);
}

} // verus!
