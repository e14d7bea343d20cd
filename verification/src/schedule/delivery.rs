//! One pass over the posts that are due: which request is to be sent next,
//! and what each answer does to the pass and to the store.
//!
//! The pass sends nothing itself. Whoever drives it asks for the next
//! request, sends it, and hands the answer back.

use crate::schedule::{post_views, Post, Schedule, ScheduledTweet, Store};
use crate::twitter::tweet::{
    separator_line, CreateTweetErr, Progress, Request, Thread, Tweet, TweetBody,
};
use crate::twitter::TweetCreateResponse;
use vstd::prelude::*;

verus! {

/// What an answer tells the pass: the id of the post that was created, or the
/// message of the refusal.
pub open spec fn answer_of(outcome: Result<TweetCreateResponse, CreateTweetErr>) -> Result<
    Seq<char>,
    Seq<char>,
> {
    match outcome {
        Ok(created) => Ok(created@.id),
        Err(error) => Err(error.message@),
    }
}

/// The request that carries the whole body of a stored post.
pub open spec fn payload_of(post: Post) -> Request {
    Request { text: Some(post.body), reply: None, media: None }
}

/// A stored post as it starts on its way.
pub open spec fn thread_of(post: Post) -> Thread {
    Thread::start(payload_of(post), separator_line())
}

/// What a pass holds: the store, the posts that were due when it began, how
/// many of them are settled, and the post on its way, if one is left.
pub struct Pass {
    pub store: Store,
    pub queue: Seq<Post>,
    pub position: nat,
    pub current: Option<Thread>,
}

impl Pass {
    /// What is to be written back after the answer to the last request came
    /// at `now`: the post whose turn the answer has ended, as the store holds
    /// it then. An answer that ends no post's turn leaves nothing to write.
    pub open spec fn written(self, answer: Result<Seq<char>, Seq<char>>, now: int) -> Option<Post> {
        match self.current {
            None => None,
            Some(thread) => if answer is Ok && !thread.on_last_part() {
                None
            } else {
                self.settled(answer, now).store.post(self.queue[self.position as int].id)
            },
        }
    }

    /// The post on its way is the one at `position`, with a part to send.
    pub open spec fn wf(self) -> bool {
        &&& self.store.wf()
        &&& self.position <= self.queue.len()
        &&& self.current is Some <==> self.position < self.queue.len()
        &&& self.current matches Some(thread) ==> {
            &&& thread.wf()
            &&& thread.separator == separator_line()
            &&& thread.payload == payload_of(self.queue[self.position as int])
        }
    }

    /// The pass with `position` posts settled and the next one, if there is
    /// one, at its start.
    pub open spec fn at(store: Store, queue: Seq<Post>, position: nat) -> Pass {
        Pass {
            store,
            queue,
            position,
            current: if position < queue.len() {
                Some(thread_of(queue[position as int]))
            } else {
                None
            },
        }
    }

    /// The pass as it begins at `now`: its queue holds the posts that are due.
    pub open spec fn begin(store: Store, now: int) -> Pass {
        Pass::at(store, store.due(now), 0)
    }

    /// Whether every post of the queue is settled.
    pub open spec fn is_done(self) -> bool {
        self.current is None
    }

    /// The request to send next, if a post is on its way.
    pub open spec fn request(self) -> Option<Request> {
        match self.current {
            Some(thread) => Some(thread.request()),
            None => None,
        }
    }

    /// The pass after the answer to its last request came at `now`. A refusal
    /// records a failed attempt on the post and goes on to the next post. The
    /// creation of the last part marks the post as sent and goes on to the
    /// next post. The creation of any other part goes on to the next part.
    /// Without a post on its way nothing changes.
    pub open spec fn settled(self, answer: Result<Seq<char>, Seq<char>>, now: int) -> Pass {
        match self.current {
            None => self,
            Some(thread) => {
                let id = self.queue[self.position as int].id;
                match answer {
                    Err(message) => Pass::at(
                        self.store.recorded_failure(id, message, now),
                        self.queue,
                        self.position + 1,
                    ),
                    Ok(created) => if thread.on_last_part() {
                        Pass::at(self.store.marked_sent(id, now), self.queue, self.position + 1)
                    } else {
                        Pass { current: Some(thread.after_part(created)), ..self }
                    },
                }
            },
        }
    }
}

/// One pass over the posts that are due.
pub struct Delivery<'t> {
    store: Schedule,
    queue: Vec<ScheduledTweet>,
    position: usize,
    current: Option<Tweet<'t>>,
}

impl<'t> View for Delivery<'t> {
    type V = Pass;

    closed spec fn view(&self) -> Pass {
        Pass {
            store: self.store@,
            queue: post_views(self.queue@),
            position: self.position as nat,
            current: match self.current {
                Some(tweet) => Some(tweet@),
                None => None,
            },
        }
    }
}

impl<'t> Delivery<'t> {
    #[verifier::type_invariant]
    spec fn inv(self) -> bool {
        self@.wf()
    }

    /// The post at `position` of the queue at its start, if there is one.
    fn load(queue: &Vec<ScheduledTweet>, position: usize) -> (current: Option<Tweet<'t>>)
        ensures
            current is Some <==> position < queue.len(),
            current matches Some(tweet) ==> tweet@ == thread_of(queue@[position as int]@)
                && tweet@.wf(),
    {
        if position < queue.len() {
            let payload = TweetBody {
                text: Some(queue[position].body.clone()),
                reply: None,
                media: None,
            };
            Some(Tweet::new(payload))
        } else {
            None
        }
    }

    /// Begins a pass at `now` over the posts of `store` that are due.
    pub fn begin(store: Schedule, now: i64) -> (pass: Self)
        ensures
            pass@ == Pass::begin(store@, now as int),
            pass@.wf(),
    {
        let queue = store.due(now);
        let current = Self::load(&queue, 0);
        Delivery { store, queue, position: 0, current }
    }

    /// Whether every post of the queue is settled.
    pub fn is_done(&self) -> (done: bool)
        ensures
            done == self@.is_done(),
    {
        self.current.is_none()
    }

    /// The id of the post on its way, if there is one.
    pub fn post_id(&self) -> (id: Option<u32>)
        ensures
            id is Some == !self@.is_done(),
            id matches Some(n) ==> n == self@.queue[self@.position as int].id,
    {
        proof {
            use_type_invariant(self);
        }
        if self.position < self.queue.len() {
            Some(self.queue[self.position].id)
        } else {
            None
        }
    }

    /// The request to send next, if a post is on its way.
    pub fn request(&self) -> (next: Option<TweetBody>)
        ensures
            match next {
                Some(body) => self@.request() == Some(body@),
                None => self@.request() is None,
            },
            self@.wf(),
    {
        proof {
            use_type_invariant(self);
        }
        match &self.current {
            Some(tweet) => Some(tweet.request()),
            None => None,
        }
    }

    /// Takes the answer, come at `now`, to the last request, and hands out
    /// what is to be written back with the pass as it goes on.
    pub fn settle(self, outcome: Result<TweetCreateResponse, CreateTweetErr>, now: i64) -> (r: (
        Self,
        Option<ScheduledTweet>,
    ))
        ensures
            r.0@ == self@.settled(answer_of(outcome), now as int),
            r.0@.wf(),
            match r.1 {
                Some(post) => self@.written(answer_of(outcome), now as int) == Some(post@),
                None => self@.written(answer_of(outcome), now as int) is None,
            },
    {
        proof {
            use_type_invariant(&self);
        }
        let Delivery { store, queue, position, current } = self;
        match current {
            None => (Delivery { store, queue, position, current: None }, None),
            Some(tweet) => {
                let count = queue.len();
                assert(position < count);
                let id = queue[position].id;
                let mut store = store;
                match tweet.advance(outcome) {
                    Progress::Next(tweet) => (
                        Delivery { store, queue, position, current: Some(tweet) },
                        None,
                    ),
                    Progress::Posted(_) => {
                        store.mark_sent(id, now);
                        let written = store.find(id);
                        let current = Self::load(&queue, position + 1);
                        (Delivery { store, queue, position: position + 1, current }, written)
                    },
                    Progress::Failed(error) => {
                        store.mark_failed(id, error.message.as_str(), now);
                        let written = store.find(id);
                        let current = Self::load(&queue, position + 1);
                        (Delivery { store, queue, position: position + 1, current }, written)
                    },
                }
            },
        }
    }

    /// The store as the pass has left it so far.
    pub fn store(&self) -> (store: &Schedule)
        ensures
            store@ == self@.store,
    {
        &self.store
    }

    /// Ends the pass and hands the store back.
    pub fn finish(self) -> (store: Schedule)
        ensures
            store@ == self@.store,
    {
        self.store
    }
}

} // verus!
