//! The store of scheduled posts: what a stored post is, which posts a store
//! may hold, and how each operation changes it.

pub mod delivery;
pub mod delivery_laws;
pub mod laws;
pub mod rows;
pub mod time;

use vstd::prelude::*;

verus! {

/// Where a scheduled post stands.
#[derive(Clone, Copy, Debug, PartialEq, Eq, Structural)]
pub enum ScheduleStatus {
    Pending,
    Sent,
    Failed,
}

/// One stored post. Instants are seconds since the Unix epoch.
#[derive(Debug)]
pub struct ScheduledTweet {
    pub id: u32,
    pub body: String,
    pub status: ScheduleStatus,
    pub scheduled_for: i64,
    pub attempts: u32,
    pub last_error: Option<String>,
    pub sent_at: Option<i64>,
    pub created_at: i64,
    pub updated_at: i64,
}

/// What a stored post holds.
pub struct Post {
    pub id: nat,
    pub body: Seq<char>,
    pub status: ScheduleStatus,
    pub scheduled_for: int,
    pub attempts: nat,
    pub last_error: Option<Seq<char>>,
    pub sent_at: Option<int>,
    pub created_at: int,
    pub updated_at: int,
}

impl View for ScheduledTweet {
    type V = Post;

    open spec fn view(&self) -> Post {
        Post {
            id: self.id as nat,
            body: self.body@,
            status: self.status,
            scheduled_for: self.scheduled_for as int,
            attempts: self.attempts as nat,
            last_error: match self.last_error {
                Some(text) => Some(text@),
                None => None,
            },
            sent_at: match self.sent_at {
                Some(at) => Some(at as int),
                None => None,
            },
            created_at: self.created_at as int,
            updated_at: self.updated_at as int,
        }
    }
}

impl Clone for ScheduledTweet {
    fn clone(&self) -> (r: Self)
        ensures
            r@ == self@,
    {
        ScheduledTweet {
            id: self.id,
            body: self.body.clone(),
            status: self.status,
            scheduled_for: self.scheduled_for,
            attempts: self.attempts,
            last_error: match &self.last_error {
                Some(text) => Some(text.clone()),
                None => None,
            },
            sent_at: self.sent_at,
            created_at: self.created_at,
            updated_at: self.updated_at,
        }
    }
}

impl Post {
    /// The constraint on a stored post: it has an instant of sending exactly
    /// when it was sent.
    pub open spec fn valid(self) -> bool {
        (self.sent_at is Some) == (self.status == ScheduleStatus::Sent)
    }

    /// Whether the post waits for delivery and its instant has come.
    pub open spec fn is_due(self, now: int) -> bool {
        self.status == ScheduleStatus::Pending && self.scheduled_for <= now
    }

    /// A post as it is first stored: pending, never attempted.
    pub open spec fn pending(id: nat, body: Seq<char>, scheduled_for: int, now: int) -> Post {
        Post {
            id,
            body,
            status: ScheduleStatus::Pending,
            scheduled_for,
            attempts: 0,
            last_error: None,
            sent_at: None,
            created_at: now,
            updated_at: now,
        }
    }

    /// The post after its delivery at `now`.
    pub open spec fn sent(self, now: int) -> Post {
        Post {
            status: ScheduleStatus::Sent,
            last_error: None,
            sent_at: Some(now),
            updated_at: now,
            ..self
        }
    }

    /// The post after an attempt at `now` that failed with `error`.
    pub open spec fn failed(self, error: Seq<char>, now: int) -> Post {
        Post {
            status: ScheduleStatus::Failed,
            attempts: self.attempts + 1,
            last_error: Some(error),
            sent_at: None,
            updated_at: now,
            ..self
        }
    }
}

/// The posts that are due at `now`.
pub open spec fn due_at(now: int) -> spec_fn(Post) -> bool {
    |post: Post| post.is_due(now)
}

/// The posts that stand at `status`.
pub open spec fn has_status(status: ScheduleStatus) -> spec_fn(Post) -> bool {
    |post: Post| post.status == status
}

/// What each of a list of stored posts holds.
pub open spec fn post_views(rows: Seq<ScheduledTweet>) -> Seq<Post> {
    Seq::new(rows.len(), |i: int| rows[i]@)
}

/// What a store holds: its posts in the order in which they were saved, and
/// the id that the next post will get.
pub struct Store {
    pub rows: Seq<Post>,
    pub next_id: nat,
}

impl Store {
    /// Every post meets its constraint, no id occurs twice, and every id was
    /// given out before `next_id`.
    pub open spec fn wf(self) -> bool {
        &&& forall|i: int| 0 <= i < self.rows.len() ==> (#[trigger] self.rows[i]).valid()
        &&& forall|i: int| 0 <= i < self.rows.len() ==> (#[trigger] self.rows[i]).id < self.next_id
        &&& forall|i: int, j: int|
            0 <= i < j < self.rows.len() ==> (#[trigger] self.rows[i]).id != (
            #[trigger] self.rows[j]).id
    }

    /// The store that holds nothing yet.
    pub open spec fn empty() -> Store {
        Store { rows: Seq::empty(), next_id: 1 }
    }

    /// Whether a post with this id is stored.
    pub open spec fn has_id(self, id: nat) -> bool {
        exists|i: int| 0 <= i < self.rows.len() && (#[trigger] self.rows[i]).id == id
    }

    /// The stored post with this id, if there is one.
    pub open spec fn post(self, id: nat) -> Option<Post> {
        if self.has_id(id) {
            Some(
                self.rows[choose|i: int|
                    0 <= i < self.rows.len() && (#[trigger] self.rows[i]).id == id],
            )
        } else {
            None
        }
    }

    /// The store after a new post was saved at `now`.
    pub open spec fn saved(self, body: Seq<char>, scheduled_for: int, now: int) -> Store {
        Store {
            rows: self.rows.push(Post::pending(self.next_id, body, scheduled_for, now)),
            next_id: self.next_id + 1,
        }
    }

    /// The posts that are due at `now`, in the order of the store.
    pub open spec fn due(self, now: int) -> Seq<Post> {
        self.rows.filter(due_at(now))
    }

    /// The posts that stand at `status`, in the order of the store.
    pub open spec fn with_status(self, status: ScheduleStatus) -> Seq<Post> {
        self.rows.filter(has_status(status))
    }

    /// The store after the post with this id was marked as sent at `now`.
    pub open spec fn marked_sent(self, id: nat, now: int) -> Store {
        Store {
            rows: self.rows.map_values(
                |post: Post|
                    if post.id == id {
                        post.sent(now)
                    } else {
                        post
                    },
            ),
            ..self
        }
    }

    /// The store after the post with this id was marked as failed at `now`.
    pub open spec fn marked_failed(self, id: nat, error: Seq<char>, now: int) -> Store {
        Store {
            rows: self.rows.map_values(
                |post: Post|
                    if post.id == id {
                        post.failed(error, now)
                    } else {
                        post
                    },
            ),
            ..self
        }
    }

    /// The store after all its posts were deleted. No id is given out again.
    pub open spec fn cleared(self) -> Store {
        Store { rows: Seq::empty(), ..self }
    }

    /// The store after an attempt on the post with this id failed at `now`:
    /// the failure is marked where the post's counter can take it, and else
    /// nothing changes.
    pub open spec fn recorded_failure(self, id: nat, error: Seq<char>, now: int) -> Store {
        if self.can_fail(id) {
            self.marked_failed(id, error, now)
        } else {
            self
        }
    }

    /// Whether the post with this id can take one more failed attempt on its
    /// counter.
    pub open spec fn can_fail(self, id: nat) -> bool {
        exists|i: int|
            0 <= i < self.rows.len() && (#[trigger] self.rows[i]).id == id && self.rows[i].attempts
                < u32::MAX
    }
}

/// The store of scheduled posts.
pub struct Schedule {
    rows: Vec<ScheduledTweet>,
    next_id: u64,
}

impl View for Schedule {
    type V = Store;

    closed spec fn view(&self) -> Store {
        Store { rows: post_views(self.rows@), next_id: self.next_id as nat }
    }
}

impl Schedule {
    #[verifier::type_invariant]
    spec fn inv(self) -> bool {
        &&& self@.wf()
        &&& 1 <= self.next_id <= 0x1_0000_0000
    }

    /// An empty store.
    pub fn new() -> (store: Schedule)
        ensures
            store@ == Store::empty(),
    {
        let store = Schedule { rows: Vec::new(), next_id: 1 };
        assert(store@.rows =~= Seq::empty());
        store
    }

    /// The id that the next post will get, or one above the largest id where
    /// none is left.
    pub fn next_id(&self) -> (id: u64)
        ensures
            id == self@.next_id,
            self@.wf(),
    {
        proof {
            use_type_invariant(self);
        }
        self.next_id
    }

    /// Stores a new post, pending and never attempted, under the next id.
    /// Returns false, and stores nothing, when no id is left to give out.
    pub fn save(&mut self, body: &str, scheduled_for: i64, now: i64) -> (saved: bool)
        ensures
            saved == (old(self)@.next_id <= u32::MAX),
            saved ==> final(self)@ == old(self)@.saved(body@, scheduled_for as int, now as int),
            !saved ==> final(self)@ == old(self)@,
            final(self)@.wf(),
    {
        proof {
            use_type_invariant(&*self);
        }
        if self.next_id > 0xffff_ffff {
            return false;
        }
        let row = ScheduledTweet {
            id: self.next_id as u32,
            body: body.to_owned(),
            status: ScheduleStatus::Pending,
            scheduled_for,
            attempts: 0,
            last_error: None,
            sent_at: None,
            created_at: now,
            updated_at: now,
        };
        let mut rows: Vec<ScheduledTweet> = Vec::new();
        std::mem::swap(&mut rows, &mut self.rows);
        assert(post_views(self.rows@) =~= Seq::empty());
        let ghost before = rows@;
        rows.push(row);
        proof {
            assert(post_views(rows@) =~= post_views(before).push(row@));
        }
        self.next_id = self.next_id + 1;
        self.rows = rows;
        true
    }

    /// Every stored post, in the order in which they were saved.
    pub fn all(&self) -> (found: Vec<ScheduledTweet>)
        ensures
            post_views(found@) == self@.rows,
    {
        let mut found: Vec<ScheduledTweet> = Vec::new();
        let mut i: usize = 0;
        while i < self.rows.len()
            invariant
                i <= self.rows.len(),
                post_views(found@) == post_views(self.rows@).take(i as int),
            decreases self.rows.len() - i,
        {
            let ghost before = found@;
            found.push(self.rows[i].clone());
            proof {
                assert(post_views(found@) =~= post_views(before).push(self.rows@[i as int]@));
                assert(post_views(found@) =~= post_views(self.rows@).take(i as int + 1));
            }
            i += 1;
        }
        assert(post_views(self.rows@).take(self.rows.len() as int) =~= post_views(self.rows@));
        found
    }

    /// The posts that wait for delivery and whose instant is `now` or earlier,
    /// in the order of the store.
    pub fn due(&self, now: i64) -> (found: Vec<ScheduledTweet>)
        ensures
            post_views(found@) == self@.due(now as int),
            self@.wf(),
    {
        proof {
            use_type_invariant(self);
        }
        let mut found: Vec<ScheduledTweet> = Vec::new();
        let mut i: usize = 0;
        proof {
            reveal(Seq::filter);
            assert(post_views(self.rows@).take(0) =~= Seq::empty());
        }
        while i < self.rows.len()
            invariant
                i <= self.rows.len(),
                post_views(found@) == post_views(self.rows@).take(i as int).filter(
                    due_at(now as int),
                ),
            decreases self.rows.len() - i,
        {
            let ghost before = found@;
            let row = &self.rows[i];
            proof {
                reveal(Seq::filter);
                let upto = post_views(self.rows@).take(i as int + 1);
                assert(upto.drop_last() =~= post_views(self.rows@).take(i as int));
                assert(upto.last() == row@);
            }
            if row.status == ScheduleStatus::Pending && row.scheduled_for <= now {
                found.push(row.clone());
                assert(post_views(found@) =~= post_views(before).push(row@));
            }
            i += 1;
        }
        assert(post_views(self.rows@).take(self.rows.len() as int) =~= post_views(self.rows@));
        found
    }

    /// The posts that stand at `status`, in the order of the store.
    pub fn with_status(&self, status: ScheduleStatus) -> (found: Vec<ScheduledTweet>)
        ensures
            post_views(found@) == self@.with_status(status),
    {
        let mut found: Vec<ScheduledTweet> = Vec::new();
        let mut i: usize = 0;
        proof {
            reveal(Seq::filter);
            assert(post_views(self.rows@).take(0) =~= Seq::empty());
        }
        while i < self.rows.len()
            invariant
                i <= self.rows.len(),
                post_views(found@) == post_views(self.rows@).take(i as int).filter(
                    has_status(status),
                ),
            decreases self.rows.len() - i,
        {
            let ghost before = found@;
            let row = &self.rows[i];
            proof {
                reveal(Seq::filter);
                let upto = post_views(self.rows@).take(i as int + 1);
                assert(upto.drop_last() =~= post_views(self.rows@).take(i as int));
                assert(upto.last() == row@);
            }
            if row.status == status {
                found.push(row.clone());
                assert(post_views(found@) =~= post_views(before).push(row@));
            }
            i += 1;
        }
        assert(post_views(self.rows@).take(self.rows.len() as int) =~= post_views(self.rows@));
        found
    }

    /// The posts whose last attempt failed.
    pub fn failed(&self) -> (found: Vec<ScheduledTweet>)
        ensures
            post_views(found@) == self@.with_status(ScheduleStatus::Failed),
    {
        self.with_status(ScheduleStatus::Failed)
    }

    /// The posts that were sent.
    pub fn sent(&self) -> (found: Vec<ScheduledTweet>)
        ensures
            post_views(found@) == self@.with_status(ScheduleStatus::Sent),
    {
        self.with_status(ScheduleStatus::Sent)
    }

    /// Where the post with this id stands in the store, if it is there.
    fn position(&self, id: u32) -> (at: Option<usize>)
        ensures
            at is Some == self@.has_id(id as nat),
            at matches Some(i) ==> i < self.rows@.len() && self.rows@[i as int].id == id,
    {
        let mut i: usize = 0;
        while i < self.rows.len()
            invariant
                i <= self.rows.len(),
                forall|k: int| 0 <= k < i ==> self.rows@[k].id != id,
            decreases self.rows.len() - i,
        {
            if self.rows[i].id == id {
                assert(self@.rows[i as int].id == id as nat);
                return Some(i);
            }
            i += 1;
        }
        assert forall|k: int| 0 <= k < self@.rows.len() implies (#[trigger] self@.rows[k]).id
            != id as nat by {
            assert(self@.rows[k] == self.rows@[k]@);
        }
        None
    }

    /// The stored post with this id, if there is one.
    pub fn find(&self, id: u32) -> (post: Option<ScheduledTweet>)
        ensures
            match post {
                Some(found) => self@.post(id as nat) == Some(found@),
                None => self@.post(id as nat) is None,
            },
    {
        proof {
            use_type_invariant(self);
        }
        match self.position(id) {
            None => None,
            Some(i) => {
                proof {
                    let j = choose|j: int|
                        0 <= j < self@.rows.len() && (#[trigger] self@.rows[j]).id == id as nat;
                    assert(self@.rows[i as int] == self.rows@[i as int]@);
                    if j < i {
                        assert(self@.rows[j].id != self@.rows[i as int].id);
                    }
                    if i < j {
                        assert(self@.rows[i as int].id != self@.rows[j].id);
                    }
                }
                Some(self.rows[i].clone())
            },
        }
    }

    /// Marks the post with this id as sent at `now`: no error is left on it.
    /// Returns whether there is such a post; without one nothing changes.
    pub fn mark_sent(&mut self, id: u32, now: i64) -> (found: bool)
        ensures
            found == old(self)@.has_id(id as nat),
            final(self)@ == old(self)@.marked_sent(id as nat, now as int),
            final(self)@.wf(),
    {
        proof {
            use_type_invariant(&*self);
        }
        match self.position(id) {
            None => {
                assert(self@.marked_sent(id as nat, now as int).rows =~= self@.rows);
                false
            },
            Some(i) => {
                let ghost before = self@;
                let mut rows: Vec<ScheduledTweet> = Vec::new();
                std::mem::swap(&mut rows, &mut self.rows);
                assert(post_views(self.rows@) =~= Seq::empty());
                rows[i].status = ScheduleStatus::Sent;
                rows[i].last_error = None;
                rows[i].sent_at = Some(now);
                rows[i].updated_at = now;
                proof {
                    let after = before.marked_sent(id as nat, now as int);
                    assert forall|k: int| 0 <= k < rows@.len() implies post_views(rows@)[k]
                        == after.rows[k] by {
                        if k != i {
                            assert(before.rows[k].id != before.rows[i as int].id);
                        }
                    }
                    assert(post_views(rows@) =~= after.rows);
                }
                self.rows = rows;
                true
            },
        }
    }

    /// Marks the post with this id as failed at `now`, with one more attempt
    /// counted and `error_message` as its last error. Returns whether that was
    /// done: without such a post, or with its counter at its limit, nothing
    /// changes.
    pub fn mark_failed(&mut self, id: u32, error_message: &str, now: i64) -> (marked: bool)
        ensures
            marked == old(self)@.can_fail(id as nat),
            marked ==> final(self)@ == old(self)@.marked_failed(
                id as nat,
                error_message@,
                now as int,
            ),
            !marked ==> final(self)@ == old(self)@,
            final(self)@.wf(),
    {
        proof {
            use_type_invariant(&*self);
        }
        match self.position(id) {
            None => false,
            Some(i) => {
                let ghost before = self@;
                assert(before.rows[i as int] == self.rows@[i as int]@);
                if self.rows[i].attempts == u32::MAX {
                    assert forall|k: int|
                        0 <= k < before.rows.len() && (#[trigger] before.rows[k]).id
                            == id as nat implies !(before.rows[k].attempts < u32::MAX) by {
                        if k != i {
                            assert(before.rows[k].id != before.rows[i as int].id);
                        }
                    }
                    return false;
                }
                let mut rows: Vec<ScheduledTweet> = Vec::new();
                std::mem::swap(&mut rows, &mut self.rows);
                assert(post_views(self.rows@) =~= Seq::empty());
                rows[i].status = ScheduleStatus::Failed;
                rows[i].attempts = rows[i].attempts + 1;
                rows[i].last_error = Some(error_message.to_owned());
                rows[i].sent_at = None;
                rows[i].updated_at = now;
                proof {
                    let after = before.marked_failed(id as nat, error_message@, now as int);
                    assert forall|k: int| 0 <= k < rows@.len() implies post_views(rows@)[k]
                        == after.rows[k] by {
                        if k != i {
                            assert(before.rows[k].id != before.rows[i as int].id);
                        }
                    }
                    assert(post_views(rows@) =~= after.rows);
                }
                self.rows = rows;
                true
            },
        }
    }

    /// Deletes every post and returns how many there were.
    pub fn clear(&mut self) -> (count: usize)
        ensures
            count == old(self)@.rows.len(),
            final(self)@ == old(self)@.cleared(),
            final(self)@.wf(),
    {
        proof {
            use_type_invariant(&*self);
        }
        let count = self.rows.len();
        self.rows = Vec::new();
        assert(post_views(self.rows@) =~= Seq::empty());
        count
    }
}

} // verus!
