//! What holds of the store's operations, whatever the store and the
//! arguments. Each law is stated over the model that the operations'
//! contracts speak of.

use crate::schedule::{due_at, has_status, Post, ScheduleStatus, Store};
use vstd::prelude::*;

verus! {

/// The posts that look like one that was just saved with this body and
/// instant: pending and never attempted.
pub open spec fn saved_with(body: Seq<char>, scheduled_for: int) -> spec_fn(Post) -> bool {
    |post: Post|
        post.body == body && post.scheduled_for == scheduled_for && post.status
            == ScheduleStatus::Pending && post.attempts == 0
}

/// The posts that carry this id.
pub open spec fn with_id(id: nat) -> spec_fn(Post) -> bool {
    |post: Post| post.id == id
}

/// Where no post of `rows` meets `wanted`, selecting by it leaves nothing.
pub proof fn lemma_filter_without_match(rows: Seq<Post>, wanted: spec_fn(Post) -> bool)
    requires
        forall|i: int| 0 <= i < rows.len() ==> !wanted(#[trigger] rows[i]),
    ensures
        rows.filter(wanted).len() == 0,
    decreases rows.len(),
{
    reveal(Seq::filter);
    if rows.len() > 0 {
        assert forall|i: int| 0 <= i < rows.drop_last().len() implies !wanted(
            #[trigger] rows.drop_last()[i],
        ) by {
            assert(rows.drop_last()[i] == rows[i]);
        }
        lemma_filter_without_match(rows.drop_last(), wanted);
    }
}

/// Every operation leaves the store well formed: each post has an instant of
/// sending exactly when it was sent, no id occurs twice, and every id lies
/// below the next one to give out.
pub proof fn law_operations_keep_store_well_formed(
    store: Store,
    id: nat,
    body: Seq<char>,
    error: Seq<char>,
    scheduled_for: int,
    now: int,
)
    requires
        store.wf(),
    ensures
        Store::empty().wf(),
        store.saved(body, scheduled_for, now).wf(),
        store.marked_sent(id, now).wf(),
        store.marked_failed(id, error, now).wf(),
        store.cleared().wf(),
{
}

/// Saving adds exactly one post at the end and changes no other: the new post
/// has the given body and instant, is pending, and was never attempted. It is
/// the only post with its id, and there is one more post with this body and
/// instant, pending and never attempted, than before.
pub proof fn law_save_adds_one_pending_post(
    store: Store,
    body: Seq<char>,
    scheduled_for: int,
    now: int,
)
    requires
        store.wf(),
    ensures
        ({
            let after = store.saved(body, scheduled_for, now);
            &&& after.rows.len() == store.rows.len() + 1
            &&& after.rows.drop_last() == store.rows
            &&& after.rows.last() == Post::pending(store.next_id, body, scheduled_for, now)
            &&& after.rows.filter(with_id(store.next_id)).len() == 1
            &&& after.rows.filter(saved_with(body, scheduled_for)).len() == store.rows.filter(
                saved_with(body, scheduled_for),
            ).len() + 1
        }),
{
    let after = store.saved(body, scheduled_for, now);
    let new = Post::pending(store.next_id, body, scheduled_for, now);
    assert(after.rows.drop_last() =~= store.rows);
    lemma_filter_without_match(store.rows, with_id(store.next_id));
    store.rows.lemma_filter_push(new, with_id(store.next_id));
    store.rows.lemma_filter_push(new, saved_with(body, scheduled_for));
}

/// In a store that held no pending, never attempted post with this body and
/// instant, there is exactly one after it was saved.
pub proof fn law_saved_post_is_listed_once(
    store: Store,
    body: Seq<char>,
    scheduled_for: int,
    now: int,
)
    requires
        store.wf(),
        store.rows.filter(saved_with(body, scheduled_for)).len() == 0,
    ensures
        store.saved(body, scheduled_for, now).rows.filter(saved_with(body, scheduled_for)).len()
            == 1,
{
    law_save_adds_one_pending_post(store, body, scheduled_for, now);
}

/// A post is selected as due exactly when it is stored, pending, and its
/// instant is `now` or earlier. A post that was sent or has failed is never
/// selected, whatever its instant.
pub proof fn law_due_selects_pending_posts_in_time(store: Store, now: int, post: Post)
    ensures
        store.due(now).contains(post) <==> store.rows.contains(post) && post.status
            == ScheduleStatus::Pending && post.scheduled_for <= now,
        post.status != ScheduleStatus::Pending ==> !store.due(now).contains(post),
{
    let due = store.due(now);
    if due.contains(post) {
        store.rows.lemma_filter_contains_rev(due_at(now), post);
        let j = choose|j: int| 0 <= j < due.len() && due[j] == post;
        store.rows.lemma_filter_pred(due_at(now), j);
    }
    if store.rows.contains(post) && post.is_due(now) {
        let i = choose|i: int| 0 <= i < store.rows.len() && store.rows[i] == post;
        store.rows.lemma_filter_contains(due_at(now), i);
    }
}

/// A post is listed under a status exactly when it is stored and stands at it.
pub proof fn law_status_selects_posts_at_it(store: Store, status: ScheduleStatus, post: Post)
    ensures
        store.with_status(status).contains(post) <==> store.rows.contains(post) && post.status
            == status,
{
    let found = store.with_status(status);
    if found.contains(post) {
        store.rows.lemma_filter_contains_rev(has_status(status), post);
        let j = choose|j: int| 0 <= j < found.len() && found[j] == post;
        store.rows.lemma_filter_pred(has_status(status), j);
    }
    if store.rows.contains(post) && post.status == status {
        let i = choose|i: int| 0 <= i < store.rows.len() && store.rows[i] == post;
        store.rows.lemma_filter_contains(has_status(status), i);
    }
}

/// Marking a post as sent gives it the instant of sending and takes its last
/// error away, whatever was counted on it before; the count of attempts, the
/// body and the instant it was scheduled for stay. No other post changes.
pub proof fn law_mark_sent_sets_instant_and_clears_error(store: Store, id: nat, now: int, i: int)
    requires
        0 <= i < store.rows.len(),
    ensures
        ({
            let before = store.rows[i];
            let after = store.marked_sent(id, now).rows[i];
            &&& store.marked_sent(id, now).rows.len() == store.rows.len()
            &&& store.marked_sent(id, now).next_id == store.next_id
            &&& before.id != id ==> after == before
            &&& before.id == id ==> {
                &&& after.status == ScheduleStatus::Sent
                &&& after.sent_at == Some(now)
                &&& after.last_error is None
                &&& after.updated_at == now
                &&& after.attempts == before.attempts
                &&& after.id == id
                &&& after.body == before.body
                &&& after.scheduled_for == before.scheduled_for
                &&& after.created_at == before.created_at
            }
        }),
{
}

/// Marking a post as failed counts one more attempt, keeps the message as its
/// last error, and leaves it without an instant of sending. No other post
/// changes.
pub proof fn law_mark_failed_counts_one_attempt(
    store: Store,
    id: nat,
    error: Seq<char>,
    now: int,
    i: int,
)
    requires
        0 <= i < store.rows.len(),
    ensures
        ({
            let before = store.rows[i];
            let after = store.marked_failed(id, error, now).rows[i];
            &&& store.marked_failed(id, error, now).rows.len() == store.rows.len()
            &&& store.marked_failed(id, error, now).next_id == store.next_id
            &&& before.id != id ==> after == before
            &&& before.id == id ==> {
                &&& after.status == ScheduleStatus::Failed
                &&& after.attempts == before.attempts + 1
                &&& after.last_error == Some(error)
                &&& after.sent_at is None
                &&& after.updated_at == now
                &&& after.id == id
                &&& after.body == before.body
                &&& after.scheduled_for == before.scheduled_for
                &&& after.created_at == before.created_at
            }
        }),
{
}

/// Two failed attempts in a row count two attempts, and the second message
/// is the one that stays.
pub proof fn law_mark_failed_twice_counts_two_attempts(
    store: Store,
    id: nat,
    first: Seq<char>,
    second: Seq<char>,
    earlier: int,
    later: int,
    i: int,
)
    requires
        0 <= i < store.rows.len(),
        store.rows[i].id == id,
    ensures
        ({
            let once = store.marked_failed(id, first, earlier);
            let twice = once.marked_failed(id, second, later);
            &&& once.rows[i].attempts == store.rows[i].attempts + 1
            &&& once.rows[i].last_error == Some(first)
            &&& twice.rows[i].attempts == store.rows[i].attempts + 2
            &&& twice.rows[i].last_error == Some(second)
            &&& twice.rows[i].status == ScheduleStatus::Failed
        }),
{
}

/// A post that was marked as sent is listed as sent and can no longer be due;
/// one that was marked as failed is listed as failed and can no longer be due.
pub proof fn law_marked_posts_leave_the_queue(
    store: Store,
    id: nat,
    error: Seq<char>,
    now: int,
    later: int,
    i: int,
)
    requires
        0 <= i < store.rows.len(),
        store.rows[i].id == id,
    ensures
        store.marked_sent(id, now).with_status(ScheduleStatus::Sent).contains(
            store.rows[i].sent(now),
        ),
        !store.marked_sent(id, now).due(later).contains(store.rows[i].sent(now)),
        store.marked_failed(id, error, now).with_status(ScheduleStatus::Failed).contains(
            store.rows[i].failed(error, now),
        ),
        !store.marked_failed(id, error, now).due(later).contains(store.rows[i].failed(error, now)),
{
    let sent = store.marked_sent(id, now);
    assert(sent.rows[i] == store.rows[i].sent(now));
    law_status_selects_posts_at_it(sent, ScheduleStatus::Sent, store.rows[i].sent(now));
    law_due_selects_pending_posts_in_time(sent, later, store.rows[i].sent(now));
    let failed = store.marked_failed(id, error, now);
    assert(failed.rows[i] == store.rows[i].failed(error, now));
    law_status_selects_posts_at_it(failed, ScheduleStatus::Failed, store.rows[i].failed(error, now));
    law_due_selects_pending_posts_in_time(failed, later, store.rows[i].failed(error, now));
}

/// Clearing leaves no post: nothing is listed, nothing is due, and nothing
/// stands at any status.
pub proof fn law_clear_leaves_nothing(store: Store, now: int, status: ScheduleStatus)
    ensures
        store.cleared().rows.len() == 0,
        store.cleared().due(now).len() == 0,
        store.cleared().with_status(status).len() == 0,
{
    reveal(Seq::filter);
}

/// No id is given out twice: a new post gets an id above every id in the
/// store, and neither marking nor clearing brings an id back.
pub proof fn law_ids_are_never_reused(
    store: Store,
    id: nat,
    body: Seq<char>,
    error: Seq<char>,
    scheduled_for: int,
    now: int,
)
    requires
        store.wf(),
    ensures
        !store.has_id(store.next_id),
        forall|i: int|
            0 <= i < store.rows.len() ==> (#[trigger] store.rows[i]).id < store.saved(
                body,
                scheduled_for,
                now,
            ).rows.last().id,
        store.saved(body, scheduled_for, now).next_id > store.next_id,
        store.marked_sent(id, now).next_id == store.next_id,
        store.marked_failed(id, error, now).next_id == store.next_id,
        store.cleared().next_id == store.next_id,
{
}

} // verus!
