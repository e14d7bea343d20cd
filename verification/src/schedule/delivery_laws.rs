//! What holds of a pass over the due posts, whatever the answers are.

use crate::schedule::delivery::{thread_of, Pass};
use crate::schedule::{due_at, Post, Store};
use crate::twitter::tweet::{lemma_parts_of_len, Thread};
use vstd::prelude::*;

verus! {

/// An answer and the instant at which it came.
pub struct Answer {
    pub outcome: Result<Seq<char>, Seq<char>>,
    pub at: int,
}

/// The pass after a run of answers, each taken in turn.
pub open spec fn after_answers(pass: Pass, answers: Seq<Answer>) -> Pass
    decreases answers.len(),
{
    if answers.len() == 0 {
        pass
    } else {
        after_answers(pass.settled(answers[0].outcome, answers[0].at), answers.drop_first())
    }
}

/// Whether a post that was due has been dealt with, once: it was marked as
/// sent, or it was marked as failed with one more attempt counted, or its
/// counter of attempts could take no more and it is as it was.
pub open spec fn dealt_with(before: Post, after: Post) -> bool {
    ||| exists|at: int| after == #[trigger] before.sent(at)
    ||| exists|message: Seq<char>, at: int| after == #[trigger] before.failed(message, at)
    ||| before.attempts >= u32::MAX && after == before
}

/// No two of the posts that are due have the same id.
pub proof fn lemma_due_ids_differ(store: Store, now: int, j: int, k: int)
    requires
        store.wf(),
        0 <= j < k < store.due(now).len(),
    ensures
        store.due(now)[j].id != store.due(now)[k].id,
{
    lemma_selected_ids_differ(store.rows, due_at(now), j, k);
}

/// Selecting from posts with different ids gives posts with different ids.
proof fn lemma_selected_ids_differ(rows: Seq<Post>, wanted: spec_fn(Post) -> bool, j: int, k: int)
    requires
        forall|a: int, b: int|
            0 <= a < b < rows.len() ==> (#[trigger] rows[a]).id != (#[trigger] rows[b]).id,
        0 <= j < k < rows.filter(wanted).len(),
    ensures
        rows.filter(wanted)[j].id != rows.filter(wanted)[k].id,
    decreases rows.len(),
{
    reveal(Seq::filter);
    if rows.len() > 0 {
        let before = rows.drop_last();
        let found = before.filter(wanted);
        assert forall|a: int, b: int| 0 <= a < b < before.len() implies (#[trigger] before[a]).id
            != (#[trigger] before[b]).id by {
            assert(before[a] == rows[a]);
            assert(before[b] == rows[b]);
        }
        if k < found.len() {
            lemma_selected_ids_differ(before, wanted, j, k);
        } else {
            assert(rows.filter(wanted)[k] == rows.last());
            assert(rows.filter(wanted)[j] == found[j]);
            assert(found.contains(found[j]));
            before.lemma_filter_contains_rev(wanted, found[j]);
            let a = choose|a: int| 0 <= a < before.len() && before[a] == found[j];
            assert(rows[a] == before[a]);
            assert(rows[a].id != rows[rows.len() - 1].id);
        }
    }
}

/// A pass stays well formed under any answer. The answer changes no post but
/// the one on its way, and that one only when it ends: the creation of its
/// last part marks it as sent, a refusal marks it as failed where its counter
/// can take it. Until then the store stays as it was.
pub proof fn law_answer_touches_only_the_post_on_its_way(
    pass: Pass,
    outcome: Result<Seq<char>, Seq<char>>,
    now: int,
    i: int,
)
    requires
        pass.wf(),
        0 <= i < pass.store.rows.len(),
    ensures
        ({
            let next = pass.settled(outcome, now);
            let row = pass.store.rows[i];
            &&& next.wf()
            &&& next.queue == pass.queue
            &&& next.store.rows.len() == pass.store.rows.len()
            &&& next.store.next_id == pass.store.next_id
            &&& next.store.rows[i].id == row.id
            &&& pass.current is None ==> next == pass
            &&& pass.current matches Some(thread) ==> {
                let id = pass.queue[pass.position as int].id;
                &&& row.id != id ==> next.store.rows[i] == row
                &&& outcome is Ok && !thread.on_last_part() ==> next.store == pass.store
                    && next.position == pass.position
                &&& outcome is Ok && thread.on_last_part() ==> next.position == pass.position + 1
                    && (row.id == id ==> next.store.rows[i] == row.sent(now))
                &&& outcome matches Err(message) ==> next.position == pass.position + 1 && (row.id
                    == id ==> next.store.rows[i] == if row.attempts < u32::MAX {
                    row.failed(message, now)
                } else {
                    row
                })
            }
        }),
{
    let next = pass.settled(outcome, now);
    if pass.current is Some {
        let thread = pass.current->0;
        let id = pass.queue[pass.position as int].id;
        if pass.position + 1 < pass.queue.len() {
            let coming = pass.queue[pass.position as int + 1];
            lemma_parts_of_len(Thread::text_of(thread_of(coming).payload), thread_of(coming).separator);
        }
        match outcome {
            Err(message) => {
                if pass.store.rows[i].id == id {
                    if pass.store.can_fail(id) {
                        let j = choose|j: int|
                            0 <= j < pass.store.rows.len() && (#[trigger] pass.store.rows[j]).id
                                == id && pass.store.rows[j].attempts < u32::MAX;
                        if j < i {
                            assert(pass.store.rows[j].id != pass.store.rows[i].id);
                        }
                        if i < j {
                            assert(pass.store.rows[i].id != pass.store.rows[j].id);
                        }
                    }
                }
            },
            Ok(created) => {},
        }
    }
}

/// What a pass keeps true of the store it began with, however far it has
/// come: posts whose turn has not come are as they were, and posts whose turn
/// is over are dealt with.
pub open spec fn on_course(pass: Pass, origin: Store, now: int) -> bool {
    &&& origin.wf()
    &&& pass.wf()
    &&& pass.queue == origin.due(now)
    &&& pass.store.rows.len() == origin.rows.len()
    &&& pass.store.next_id == origin.next_id
    &&& forall|i: int|
        0 <= i < origin.rows.len() ==> (#[trigger] pass.store.rows[i]).id == origin.rows[i].id
    &&& forall|i: int|
        0 <= i < origin.rows.len() && turn_to_come(pass, origin.rows[i].id) ==> (
        #[trigger] pass.store.rows[i]) == origin.rows[i]
    &&& forall|i: int|
        0 <= i < origin.rows.len() && !turn_to_come(pass, origin.rows[i].id) ==> dealt_with(
            origin.rows[i],
            #[trigger] pass.store.rows[i],
        )
}

/// Whether no post with this id has had its turn in the pass.
pub open spec fn turn_to_come(pass: Pass, id: nat) -> bool {
    forall|k: int| 0 <= k < pass.position ==> (#[trigger] pass.queue[k]).id != id
}

/// A pass that is on course stays so under any answer.
pub proof fn lemma_answer_keeps_course(
    pass: Pass,
    origin: Store,
    now: int,
    outcome: Result<Seq<char>, Seq<char>>,
    at: int,
)
    requires
        on_course(pass, origin, now),
    ensures
        on_course(pass.settled(outcome, at), origin, now),
{
    let next = pass.settled(outcome, at);
    assert forall|i: int| 0 <= i < origin.rows.len() implies (#[trigger] next.store.rows[i]).id
        == origin.rows[i].id && (turn_to_come(next, origin.rows[i].id) ==> next.store.rows[i]
        == origin.rows[i]) && (!turn_to_come(next, origin.rows[i].id) ==> dealt_with(
        origin.rows[i],
        next.store.rows[i],
    )) by {
        law_answer_touches_only_the_post_on_its_way(pass, outcome, at, i);
        let id = origin.rows[i].id;
        assert(pass.store.rows[i].id == id);
        if pass.current is Some {
            let p = pass.position as int;
            if next.position == pass.position {
                assert(turn_to_come(next, id) == turn_to_come(pass, id));
            } else {
                if turn_to_come(next, id) {
                    assert(pass.queue[p].id != id);
                    assert(turn_to_come(pass, id));
                } else {
                    if turn_to_come(pass, id) {
                        let k = choose|k: int|
                            0 <= k < next.position && (#[trigger] next.queue[k]).id == id;
                        assert(k == p);
                        assert(pass.store.rows[i] == origin.rows[i]);
                        match outcome {
                            Ok(created) => {
                                assert(next.store.rows[i] == origin.rows[i].sent(at));
                            },
                            Err(message) => {
                                if origin.rows[i].attempts < u32::MAX {
                                    assert(next.store.rows[i] == origin.rows[i].failed(message, at));
                                }
                            },
                        }
                    } else {
                        let k = choose|k: int|
                            0 <= k < pass.position && (#[trigger] pass.queue[k]).id == id;
                        lemma_due_ids_differ(origin, now, k, p);
                        assert(pass.queue[p].id != id);
                    }
                }
            }
        }
    }
    if origin.rows.len() > 0 {
        law_answer_touches_only_the_post_on_its_way(pass, outcome, at, 0);
    } else {
        lemma_answer_keeps_empty_store(pass, outcome, at);
    }
}

/// A pass over an empty store stays well formed and keeps its queue.
proof fn lemma_answer_keeps_empty_store(pass: Pass, outcome: Result<Seq<char>, Seq<char>>, at: int)
    requires
        pass.wf(),
        pass.store.rows.len() == 0,
    ensures
        pass.settled(outcome, at).wf(),
        pass.settled(outcome, at).queue == pass.queue,
        pass.settled(outcome, at).store.rows.len() == 0,
        pass.settled(outcome, at).store.next_id == pass.store.next_id,
{
    if pass.current is Some {
        let thread = pass.current->0;
        if pass.position + 1 < pass.queue.len() {
            let coming = pass.queue[pass.position as int + 1];
            lemma_parts_of_len(Thread::text_of(thread_of(coming).payload), thread_of(coming).separator);
        }
    }
}

/// A pass is on course when it begins.
pub proof fn lemma_begin_is_on_course(origin: Store, now: int)
    requires
        origin.wf(),
    ensures
        on_course(Pass::begin(origin, now), origin, now),
{
    let pass = Pass::begin(origin, now);
    if pass.queue.len() > 0 {
        lemma_parts_of_len(
            Thread::text_of(thread_of(pass.queue[0]).payload),
            thread_of(pass.queue[0]).separator,
        );
    }
}

/// A pass that is on course stays so under any run of answers.
pub proof fn lemma_answers_keep_course(pass: Pass, origin: Store, now: int, answers: Seq<Answer>)
    requires
        on_course(pass, origin, now),
    ensures
        on_course(after_answers(pass, answers), origin, now),
    decreases answers.len(),
{
    if answers.len() > 0 {
        lemma_answer_keeps_course(pass, origin, now, answers[0].outcome, answers[0].at);
        lemma_answers_keep_course(
            pass.settled(answers[0].outcome, answers[0].at),
            origin,
            now,
            answers.drop_first(),
        );
    }
}

/// Whatever the answers of a pass are, a post that was not due when the pass
/// began is never changed, no post is added or deleted, and the store stays
/// well formed. Once the pass is done, every post that was due is dealt with,
/// once: it went from pending to sent, or from pending to failed with one
/// more attempt counted, unless its counter of attempts could take no more.
pub proof fn law_pass_deals_with_the_due_posts_only(
    origin: Store,
    now: int,
    answers: Seq<Answer>,
    i: int,
)
    requires
        origin.wf(),
        0 <= i < origin.rows.len(),
    ensures
        ({
            let end = after_answers(Pass::begin(origin, now), answers);
            &&& end.wf()
            &&& end.store.rows.len() == origin.rows.len()
            &&& end.store.next_id == origin.next_id
            &&& end.store.rows[i].id == origin.rows[i].id
            &&& !origin.rows[i].is_due(now) ==> end.store.rows[i] == origin.rows[i]
            &&& end.is_done() && origin.rows[i].is_due(now) ==> dealt_with(
                origin.rows[i],
                end.store.rows[i],
            )
        }),
{
    let begin = Pass::begin(origin, now);
    let end = after_answers(begin, answers);
    lemma_begin_is_on_course(origin, now);
    lemma_answers_keep_course(begin, origin, now, answers);
    let row = origin.rows[i];
    let queue = origin.due(now);
    if !row.is_due(now) {
        assert forall|k: int| 0 <= k < end.position implies (#[trigger] end.queue[k]).id
            != row.id by {
            origin.rows.lemma_filter_pred(due_at(now), k);
            assert(queue.contains(queue[k]));
            origin.rows.lemma_filter_contains_rev(due_at(now), queue[k]);
            let j = choose|j: int| 0 <= j < origin.rows.len() && origin.rows[j] == queue[k];
            if queue[k].id == row.id {
                if j < i {
                    assert(origin.rows[j].id != origin.rows[i].id);
                }
                if i < j {
                    assert(origin.rows[i].id != origin.rows[j].id);
                }
            }
        }
        assert(turn_to_come(end, row.id));
    }
    if end.is_done() && row.is_due(now) {
        origin.rows.lemma_filter_contains(due_at(now), i);
        let k = choose|k: int| 0 <= k < queue.len() && queue[k] == row;
        assert(end.position == queue.len());
        assert(end.queue[k].id == row.id);
        assert(!turn_to_come(end, row.id));
    }
}

} // verus!
