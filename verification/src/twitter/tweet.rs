//! A post on its way to the API: the request for each of its parts, and what
//! follows from each answer.

use crate::text::{has_separator_line, is_thread, lemma_chunks_len, split, split_text, string_views};
use crate::twitter::{clone_strings, is_success, Response, TweetCreateResponse};
use vstd::prelude::*;

verus! {

/// Why a post could not be created.
#[derive(Debug)]
pub struct CreateTweetErr {
    pub message: String,
}

/// One request to create a post.
pub struct TweetBody {
    pub text: Option<String>,
    pub reply: Option<Reply>,
    pub media: Option<Media>,
}

/// The post that a new post answers.
pub struct Reply {
    pub in_reply_to_tweet_id: String,
}

/// The media attached to a post.
pub struct Media {
    pub media_ids: Vec<String>,
}

/// What a request holds: its text, the id of the post it answers, and the ids
/// of its media.
pub struct Request {
    pub text: Option<Seq<char>>,
    pub reply: Option<Seq<char>>,
    pub media: Option<Seq<Seq<char>>>,
}

impl View for Reply {
    type V = Seq<char>;

    open spec fn view(&self) -> Seq<char> {
        self.in_reply_to_tweet_id@
    }
}

impl View for Media {
    type V = Seq<Seq<char>>;

    open spec fn view(&self) -> Seq<Seq<char>> {
        string_views(self.media_ids@)
    }
}

impl View for TweetBody {
    type V = Request;

    open spec fn view(&self) -> Request {
        Request {
            text: match self.text {
                Some(text) => Some(text@),
                None => None,
            },
            reply: match self.reply {
                Some(reply) => Some(reply@),
                None => None,
            },
            media: match self.media {
                Some(media) => Some(media@),
                None => None,
            },
        }
    }
}

impl Clone for Media {
    fn clone(&self) -> (r: Self)
        ensures
            r@ == self@,
    {
        Media { media_ids: clone_strings(&self.media_ids) }
    }
}

impl Default for TweetBody {
    fn default() -> (r: Self)
        ensures
            r@ == (Request { text: None, reply: None, media: None }),
    {
        TweetBody { text: None, reply: None, media: None }
    }
}

/// What is said of an answer of success whose body could not be read.
pub open spec fn unreadable_text() -> Seq<char> {
    "Invalid response body."@
}

/// What the answer to a request means, for its status, for its body as text,
/// and for what the body was read as, if it could be read. A status of
/// success with a body that was read is a creation; one with a body that was
/// not read is an error that says so; any other status is a refusal whose
/// message is the body.
pub fn send_outcome(status: u16, body: String, parsed: Option<TweetCreateResponse>) -> (r: Result<
    TweetCreateResponse,
    CreateTweetErr,
>)
    ensures
        match r {
            Ok(created) => is_success(status) && parsed == Some(created),
            Err(error) => if is_success(status) {
                parsed is None && error.message@ == unreadable_text()
            } else {
                error.message@ == body@
            },
        },
{
    if is_success(status) {
        match parsed {
            Some(created) => Ok(created),
            None => Err(CreateTweetErr { message: "Invalid response body.".to_owned() }),
        }
    } else {
        Err(CreateTweetErr { message: body })
    }
}

/// The separator line of a thread.
pub open spec fn separator_line() -> Seq<char> {
    "---"@
}

/// The parts in which a text is sent: the parts of a thread where it is one,
/// else the whole text as it stands.
pub open spec fn parts_of(text: Seq<char>, separator: Seq<char>) -> Seq<Seq<char>> {
    if is_thread(text, separator) {
        split(text, separator)
    } else {
        seq![text]
    }
}

/// There is always a part to send.
pub proof fn lemma_parts_of_len(text: Seq<char>, separator: Seq<char>)
    ensures
        parts_of(text, separator).len() >= 1,
{
    lemma_chunks_len(crate::text::lines(text), separator);
}

/// What a post on its way holds: its parts, how many of them were sent, the
/// id of the post that the last answer gave, and the media for the first part.
pub struct Thread {
    pub separator: Seq<char>,
    pub payload: Request,
    pub parts: Seq<Seq<char>>,
    pub sent: nat,
    pub previous: Option<Seq<char>>,
}

impl Thread {
    /// A part is left to send, and the parts are those of the payload's text.
    pub open spec fn wf(self) -> bool {
        &&& self.sent < self.parts.len()
        &&& self.parts == parts_of(Self::text_of(self.payload), self.separator)
    }

    /// The text of a payload; one without text stands for the empty text.
    pub open spec fn text_of(payload: Request) -> Seq<char> {
        match payload.text {
            Some(text) => text,
            None => Seq::empty(),
        }
    }

    /// The post before anything was sent.
    pub open spec fn start(payload: Request, separator: Seq<char>) -> Thread {
        Thread {
            separator,
            payload,
            parts: parts_of(Self::text_of(payload), separator),
            sent: 0,
            previous: None,
        }
    }

    /// The request for the next part: it answers the post that was created
    /// last, and only the first part carries the media.
    pub open spec fn request(self) -> Request {
        Request {
            text: Some(self.parts[self.sent as int]),
            reply: self.previous,
            media: if self.sent == 0 {
                self.payload.media
            } else {
                None
            },
        }
    }

    /// Whether the next part is the last one.
    pub open spec fn on_last_part(self) -> bool {
        self.sent + 1 == self.parts.len()
    }

    /// The post after its next part was created under `id`.
    pub open spec fn after_part(self, id: Seq<char>) -> Thread {
        Thread { sent: self.sent + 1, previous: Some(id), ..self }
    }
}

/// A post on its way to the API, with a part still to send.
pub struct Tweet<'t> {
    previous_tweet: Option<String>,
    separator: &'t str,
    payload: TweetBody,
    tweet_parts: Vec<String>,
    sent: usize,
}

/// What follows from the answer to a request.
pub enum Progress<'t> {
    /// The part was created and another one is to be sent.
    Next(Tweet<'t>),
    /// The last part was created: the post is out.
    Posted(Response<TweetCreateResponse>),
    /// The part was refused: no further part is sent.
    Failed(CreateTweetErr),
}

impl<'t> View for Tweet<'t> {
    type V = Thread;

    closed spec fn view(&self) -> Thread {
        Thread {
            separator: self.separator@,
            payload: self.payload@,
            parts: string_views(self.tweet_parts@),
            sent: self.sent as nat,
            previous: match self.previous_tweet {
                Some(id) => Some(id@),
                None => None,
            },
        }
    }
}

impl<'t> Tweet<'t> {
    #[verifier::type_invariant]
    spec fn inv(self) -> bool {
        self@.wf()
    }

    /// A post with this payload, parted at lines that hold `---`.
    pub fn new(payload: TweetBody) -> (tweet: Self)
        ensures
            tweet@ == Thread::start(payload@, separator_line()),
            tweet@.wf(),
    {
        Self::with_separator(payload, "---")
    }

    /// A post with this payload, parted at lines that hold `separator`.
    pub fn with_separator(payload: TweetBody, separator: &'t str) -> (tweet: Self)
        ensures
            tweet@ == Thread::start(payload@, separator@),
            tweet@.wf(),
    {
        let tweet_parts = match &payload.text {
            Some(text) => Self::parts(text.as_str(), separator),
            None => Self::parts("", separator),
        };
        proof {
            reveal_strlit("");
            assert(""@ =~= Seq::<char>::empty());
            lemma_parts_of_len(Thread::text_of(payload@), separator@);
        }
        Tweet { previous_tweet: None, separator, payload, tweet_parts, sent: 0 }
    }

    /// The parts in which `text` is sent.
    fn parts(text: &str, separator: &str) -> (r: Vec<String>)
        ensures
            string_views(r@) == parts_of(text@, separator@),
    {
        if has_separator_line(text, separator) {
            split_text(text, separator)
        } else {
            let mut one: Vec<String> = Vec::new();
            one.push(text.to_owned());
            assert(string_views(one@) =~= seq![text@]);
            one
        }
    }

    /// Whether `tweet` is a thread: whether one of its lines, once trimmed,
    /// is this post's separator.
    pub fn is_thread(&self, tweet: &str) -> (r: bool)
        ensures
            r == is_thread(tweet@, self@.separator),
    {
        has_separator_line(tweet, self.separator)
    }

    /// The parts of `tweet`: each run of lines between lines that, once
    /// trimmed, are `separator`, joined and trimmed, in order. A separator at
    /// the start or the end, or two in a row, give an empty part.
    pub fn split_tweet(&self, tweet: &str, separator: &str) -> (r: Vec<String>)
        ensures
            string_views(r@) == split(tweet@, separator@),
    {
        split_text(tweet, separator)
    }

    /// The request for the next part.
    pub fn request(&self) -> (r: TweetBody)
        ensures
            r@ == self@.request(),
            self@.wf(),
    {
        proof {
            use_type_invariant(self);
        }
        let reply = match &self.previous_tweet {
            Some(id) => Some(Reply { in_reply_to_tweet_id: id.clone() }),
            None => None,
        };
        let media = if self.sent == 0 {
            match &self.payload.media {
                Some(media) => Some(media.clone()),
                None => None,
            }
        } else {
            None
        };
        TweetBody { text: Some(self.tweet_parts[self.sent].clone()), reply, media }
    }

    /// Takes the answer to the last request. A refusal ends the post with its
    /// error. A creation of the last part ends it with that answer, under
    /// status 200. A creation of any other part leaves a post whose next
    /// request answers the post just created.
    pub fn advance(self, outcome: Result<TweetCreateResponse, CreateTweetErr>) -> (r: Progress<'t>)
        ensures
            match outcome {
                Err(error) => r matches Progress::Failed(e) && e.message@ == error.message@,
                Ok(created) => if self@.on_last_part() {
                    r matches Progress::Posted(answer) && answer.status == 200 && answer.content@
                        == created@
                } else {
                    r matches Progress::Next(tweet) && tweet@ == self@.after_part(created@.id)
                        && tweet@.wf()
                },
            },
    {
        proof {
            use_type_invariant(&self);
        }
        match outcome {
            Err(error) => Progress::Failed(error),
            Ok(created) => {
                let count = self.tweet_parts.len();
                if self.sent + 1 == count {
                    Progress::Posted(Response { status: 200, content: created })
                } else {
                    let Tweet { previous_tweet: _, separator, payload, tweet_parts, sent } = self;
                    Progress::Next(
                        Tweet {
                            previous_tweet: Some(created.data.id),
                            separator,
                            payload,
                            tweet_parts,
                            sent: sent + 1,
                        },
                    )
                }
            },
        }
    }
}

impl<'t> Default for Tweet<'t> {
    fn default() -> (tweet: Self)
        ensures
            tweet@ == Thread::start(Request { text: None, reply: None, media: None }, separator_line()),
    {
        Tweet::new(TweetBody::default())
    }
}

} // verus!
