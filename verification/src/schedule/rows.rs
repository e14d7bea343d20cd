//! Stored posts as the storage hands them over: the text of a status, the
//! decoding of a row, and the loading of a whole store. Nothing that breaks a
//! constraint of the store gets in.

use crate::schedule::{post_views, Post, Schedule, ScheduleStatus, ScheduledTweet, Store};
use crate::text::same_text;
use vstd::prelude::*;

verus! {

impl ScheduleStatus {
    /// The text under which a status is stored.
    pub open spec fn column_text(self) -> Seq<char> {
        match self {
            ScheduleStatus::Pending => "pending"@,
            ScheduleStatus::Sent => "sent"@,
            ScheduleStatus::Failed => "failed"@,
        }
    }

    /// The status that a stored text names, if it names one.
    pub open spec fn from_text(text: Seq<char>) -> Option<ScheduleStatus> {
        if text == "pending"@ {
            Some(ScheduleStatus::Pending)
        } else if text == "sent"@ {
            Some(ScheduleStatus::Sent)
        } else if text == "failed"@ {
            Some(ScheduleStatus::Failed)
        } else {
            None
        }
    }

    /// The word under which a status is shown to a reader.
    pub open spec fn label_text(self) -> Seq<char> {
        match self {
            ScheduleStatus::Pending => "Pending"@,
            ScheduleStatus::Sent => "Sent"@,
            ScheduleStatus::Failed => "Failed"@,
        }
    }

    /// The text under which this status is stored.
    pub fn as_column(&self) -> (text: &'static str)
        ensures
            text@ == self.column_text(),
    {
        match self {
            ScheduleStatus::Pending => "pending",
            ScheduleStatus::Sent => "sent",
            ScheduleStatus::Failed => "failed",
        }
    }

    /// The status that a stored text names. Any other text names none.
    pub fn from_column(text: &str) -> (status: Option<ScheduleStatus>)
        ensures
            status == Self::from_text(text@),
    {
        if same_text(text, "pending") {
            Some(ScheduleStatus::Pending)
        } else if same_text(text, "sent") {
            Some(ScheduleStatus::Sent)
        } else if same_text(text, "failed") {
            Some(ScheduleStatus::Failed)
        } else {
            None
        }
    }

    /// The word under which this status is shown to a reader.
    pub fn label(&self) -> (text: String)
        ensures
            text@ == self.label_text(),
    {
        match self {
            ScheduleStatus::Pending => "Pending".to_owned(),
            ScheduleStatus::Sent => "Sent".to_owned(),
            ScheduleStatus::Failed => "Failed".to_owned(),
        }
    }
}

/// A status is read back from the text it is stored under, and only the three
/// texts of the three statuses name one.
pub proof fn law_status_text_round_trip(status: ScheduleStatus, text: Seq<char>)
    ensures
        ScheduleStatus::from_text(status.column_text()) == Some(status),
        ScheduleStatus::from_text(text) matches Some(named) ==> named.column_text() == text,
{
    reveal_strlit("pending");
    reveal_strlit("sent");
    reveal_strlit("failed");
    assert("pending"@.len() == 7);
    assert("sent"@.len() == 4);
    assert("failed"@.len() == 6);
}

/// A row as the storage holds it, before anything is known of it.
#[derive(Debug)]
pub struct StoredRow {
    pub id: i64,
    pub body: String,
    pub status: String,
    pub scheduled_for: i64,
    pub attempts: i64,
    pub last_error: Option<String>,
    pub sent_at: Option<i64>,
    pub created_at: i64,
    pub updated_at: i64,
}

/// Why a row is no stored post.
#[derive(Clone, Copy, Debug, PartialEq, Eq, Structural)]
pub enum DecodeError {
    /// The id is negative or too large.
    IdOutOfRange,
    /// The text of the status names none.
    InvalidStatus,
    /// The count of attempts is negative or too large.
    AttemptsOutOfRange,
}

/// What a stored row decodes to: the id is looked at first, then the status,
/// then the count of attempts.
pub open spec fn decoded(row: StoredRow) -> Result<Post, DecodeError> {
    if !(0 <= row.id <= u32::MAX) {
        Err(DecodeError::IdOutOfRange)
    } else if ScheduleStatus::from_text(row.status@) is None {
        Err(DecodeError::InvalidStatus)
    } else if !(0 <= row.attempts <= u32::MAX) {
        Err(DecodeError::AttemptsOutOfRange)
    } else {
        Ok(
            Post {
                id: row.id as nat,
                body: row.body@,
                status: ScheduleStatus::from_text(row.status@)->0,
                scheduled_for: row.scheduled_for as int,
                attempts: row.attempts as nat,
                last_error: match row.last_error {
                    Some(text) => Some(text@),
                    None => None,
                },
                sent_at: match row.sent_at {
                    Some(at) => Some(at as int),
                    None => None,
                },
                created_at: row.created_at as int,
                updated_at: row.updated_at as int,
            },
        )
    }
}

impl ScheduledTweet {
    /// Reads a stored row. A status text that names no status is an error,
    /// never a pending post.
    pub fn decode(row: StoredRow) -> (r: Result<ScheduledTweet, DecodeError>)
        ensures
            match r {
                Ok(post) => decoded(row) == Ok::<Post, DecodeError>(post@),
                Err(error) => decoded(row) == Err::<Post, DecodeError>(error),
            },
    {
        if row.id < 0 || row.id > 0xffff_ffff {
            return Err(DecodeError::IdOutOfRange);
        }
        let status = match ScheduleStatus::from_column(row.status.as_str()) {
            Some(status) => status,
            None => {
                return Err(DecodeError::InvalidStatus);
            },
        };
        if row.attempts < 0 || row.attempts > 0xffff_ffff {
            return Err(DecodeError::AttemptsOutOfRange);
        }
        Ok(
            ScheduledTweet {
                id: row.id as u32,
                body: row.body,
                status,
                scheduled_for: row.scheduled_for,
                attempts: row.attempts as u32,
                last_error: row.last_error,
                sent_at: row.sent_at,
                created_at: row.created_at,
                updated_at: row.updated_at,
            },
        )
    }

    /// The row under which this post is stored.
    pub fn encode(&self) -> (row: StoredRow)
        ensures
            decoded(row) == Ok::<Post, DecodeError>(self@),
    {
        proof {
            law_status_text_round_trip(self.status, Seq::empty());
        }
        StoredRow {
            id: self.id as i64,
            body: self.body.clone(),
            status: self.status.as_column().to_owned(),
            scheduled_for: self.scheduled_for,
            attempts: self.attempts as i64,
            last_error: match &self.last_error {
                Some(text) => Some(text.clone()),
                None => None,
            },
            sent_at: self.sent_at,
            created_at: self.created_at,
            updated_at: self.updated_at,
        }
    }
}

/// Why a list of posts is no store.
#[derive(Clone, Copy, Debug, PartialEq, Eq, Structural)]
pub enum StoreFault {
    /// The next id is zero, or above every id there can be by more than one.
    NextIdOutOfRange,
    /// The post with this id has an instant of sending without being sent,
    /// or was sent without one.
    Constraint(u32),
    /// The post with this id is not below the next id.
    IdNotGivenOut(u32),
    /// Two posts have this id.
    DuplicateId(u32),
}

/// Whether a post of `rows` has this id.
pub open spec fn holds_id(rows: Seq<Post>, id: nat) -> bool {
    exists|i: int| 0 <= i < rows.len() && (#[trigger] rows[i]).id == id
}

/// What is wrong with `post` as the next post after `before`, if anything:
/// its constraint is looked at first, then its id against the next id, then
/// its id against the posts before it.
pub open spec fn fault_of(before: Seq<Post>, post: Post, next_id: nat) -> Option<StoreFault> {
    if !post.valid() {
        Some(StoreFault::Constraint(post.id as u32))
    } else if post.id >= next_id {
        Some(StoreFault::IdNotGivenOut(post.id as u32))
    } else if holds_id(before, post.id) {
        Some(StoreFault::DuplicateId(post.id as u32))
    } else {
        None
    }
}

/// The first fault among `rows`, in their order, if there is one.
pub open spec fn first_fault(rows: Seq<Post>, next_id: nat) -> Option<StoreFault>
    decreases rows.len(),
{
    if rows.len() == 0 {
        None
    } else {
        match first_fault(rows.drop_last(), next_id) {
            Some(fault) => Some(fault),
            None => fault_of(rows.drop_last(), rows.last(), next_id),
        }
    }
}

/// What is wrong with these posts and this next id as a store, if anything:
/// the next id is looked at first, then the posts in their order.
pub open spec fn store_fault(rows: Seq<Post>, next_id: nat) -> Option<StoreFault> {
    if !(1 <= next_id <= u32::MAX + 1) {
        Some(StoreFault::NextIdOutOfRange)
    } else {
        first_fault(rows, next_id)
    }
}

/// A list of posts without a fault is a well formed store, and a well formed
/// store has no fault among its posts.
pub proof fn lemma_no_fault_is_well_formed(rows: Seq<Post>, next_id: nat)
    ensures
        first_fault(rows, next_id) is None <==> (Store { rows, next_id }).wf(),
    decreases rows.len(),
{
    let store = Store { rows, next_id };
    if rows.len() > 0 {
        let before = rows.drop_last();
        let last = rows.last();
        lemma_no_fault_is_well_formed(before, next_id);
        let shorter = Store { rows: before, next_id };
        if first_fault(rows, next_id) is None {
            assert(shorter.wf());
            assert(fault_of(before, last, next_id) is None);
            assert forall|i: int| 0 <= i < rows.len() implies (#[trigger] rows[i]).valid()
                && rows[i].id < next_id by {
                if i < rows.len() - 1 {
                    assert(rows[i] == before[i]);
                }
            }
            assert forall|i: int, j: int| 0 <= i < j < rows.len() implies (#[trigger] rows[i]).id
                != (#[trigger] rows[j]).id by {
                assert(rows[i] == before[i]);
                if j < rows.len() - 1 {
                    assert(rows[j] == before[j]);
                }
            }
        }
        if store.wf() {
            assert forall|i: int| 0 <= i < before.len() implies (#[trigger] before[i]).valid()
                && before[i].id < next_id by {
                assert(before[i] == rows[i]);
            }
            assert forall|i: int, j: int| 0 <= i < j < before.len() implies (
            #[trigger] before[i]).id != (#[trigger] before[j]).id by {
                assert(before[i] == rows[i]);
                assert(before[j] == rows[j]);
            }
            assert(shorter.wf());
            if holds_id(before, last.id) {
                let i = choose|i: int| 0 <= i < before.len() && (#[trigger] before[i]).id == last.id;
                assert(before[i] == rows[i]);
                assert(rows[i].id != rows[rows.len() - 1].id);
            }
        }
    }
}

impl Schedule {
    /// Whether a post among the first `count` of `rows` has this id.
    fn seen(rows: &Vec<ScheduledTweet>, count: usize, id: u32) -> (found: bool)
        requires
            count <= rows.len(),
        ensures
            found == holds_id(post_views(rows@).take(count as int), id as nat),
    {
        let mut i: usize = 0;
        while i < count
            invariant
                i <= count <= rows.len(),
                forall|k: int| 0 <= k < i ==> rows@[k].id != id,
            decreases count - i,
        {
            if rows[i].id == id {
                assert(post_views(rows@).take(count as int)[i as int].id == id as nat);
                return true;
            }
            i += 1;
        }
        assert forall|k: int| 0 <= k < count implies (#[trigger] post_views(rows@).take(
            count as int,
        )[k]).id != id as nat by {
            assert(post_views(rows@).take(count as int)[k] == rows@[k]@);
        }
        false
    }

    /// A store of these posts, with this id for the next post. Posts that
    /// break a constraint of the store are refused with the first fault.
    pub fn restore(rows: Vec<ScheduledTweet>, next_id: u64) -> (r: Result<Schedule, StoreFault>)
        ensures
            match r {
                Ok(store) => store_fault(post_views(rows@), next_id as nat) is None && store@ == (
                Store { rows: post_views(rows@), next_id: next_id as nat }) && store@.wf(),
                Err(fault) => store_fault(post_views(rows@), next_id as nat) == Some(fault),
            },
    {
        if next_id < 1 || next_id > 0x1_0000_0000 {
            return Err(StoreFault::NextIdOutOfRange);
        }
        let ghost all = post_views(rows@);
        let mut i: usize = 0;
        assert(all.take(0) =~= Seq::empty());
        while i < rows.len()
            invariant
                i <= rows.len(),
                1 <= next_id <= 0x1_0000_0000,
                all == post_views(rows@),
                first_fault(all.take(i as int), next_id as nat) is None,
            decreases rows.len() - i,
        {
            let ghost upto = all.take(i as int + 1);
            proof {
                assert(upto.drop_last() =~= all.take(i as int));
                assert(upto.last() == rows@[i as int]@);
            }
            let row = &rows[i];
            let sent = match row.status {
                ScheduleStatus::Sent => true,
                _ => false,
            };
            if row.sent_at.is_some() != sent {
                proof {
                    assert(first_fault(upto, next_id as nat) == Some(
                        StoreFault::Constraint(row.id),
                    ));
                    lemma_first_fault_stays(all, i as int + 1, next_id as nat);
                }
                return Err(StoreFault::Constraint(row.id));
            }
            if row.id as u64 >= next_id {
                proof {
                    assert(first_fault(upto, next_id as nat) == Some(
                        StoreFault::IdNotGivenOut(row.id),
                    ));
                    lemma_first_fault_stays(all, i as int + 1, next_id as nat);
                }
                return Err(StoreFault::IdNotGivenOut(row.id));
            }
            if Self::seen(&rows, i, row.id) {
                proof {
                    assert(first_fault(upto, next_id as nat) == Some(
                        StoreFault::DuplicateId(row.id),
                    ));
                    lemma_first_fault_stays(all, i as int + 1, next_id as nat);
                }
                return Err(StoreFault::DuplicateId(row.id));
            }
            i += 1;
        }
        proof {
            assert(all.take(rows.len() as int) =~= all);
            lemma_no_fault_is_well_formed(all, next_id as nat);
        }
        Ok(Schedule { rows, next_id })
    }
}

/// A fault among the first posts is the first fault of the whole list.
pub proof fn lemma_first_fault_stays(rows: Seq<Post>, count: int, next_id: nat)
    requires
        0 <= count <= rows.len(),
        first_fault(rows.take(count), next_id) is Some,
    ensures
        first_fault(rows, next_id) == first_fault(rows.take(count), next_id),
    decreases rows.len() - count,
{
    if count < rows.len() {
        assert(rows.take(count + 1).drop_last() =~= rows.take(count));
        lemma_first_fault_stays(rows, count + 1, next_id);
    } else {
        assert(rows.take(count) =~= rows);
    }
}

} // verus!
