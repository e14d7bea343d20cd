//! What is sent to the publishing API and what comes back.

pub mod media;
pub mod tweet;

use crate::text::string_views;
use vstd::prelude::*;

verus! {

/// An answer of the API: its HTTP status and what it carried.
pub struct Response<T> {
    pub status: u16,
    pub content: T,
}

/// The answer to the creation of a post.
#[derive(Debug)]
pub struct TweetCreateResponse {
    pub data: TweetData,
}

/// The post as the API created it.
#[derive(Debug)]
pub struct TweetData {
    pub text: String,
    pub edit_history_tweet_ids: Vec<String>,
    pub id: String,
}

/// What a created post holds.
pub struct Created {
    pub text: Seq<char>,
    pub edit_history_tweet_ids: Seq<Seq<char>>,
    pub id: Seq<char>,
}

impl View for TweetData {
    type V = Created;

    open spec fn view(&self) -> Created {
        Created {
            text: self.text@,
            edit_history_tweet_ids: string_views(self.edit_history_tweet_ids@),
            id: self.id@,
        }
    }
}

impl View for TweetCreateResponse {
    type V = Created;

    open spec fn view(&self) -> Created {
        self.data@
    }
}

/// Whether an HTTP status tells of success: whether it lies from 200 to 299.
pub open spec fn is_success_status(status: u16) -> bool {
    200 <= status <= 299
}

/// Whether an HTTP status tells of success.
#[verifier::when_used_as_spec(is_success_status)]
pub fn is_success(status: u16) -> (r: bool)
    ensures
        r == is_success_status(status),
{
    200 <= status && status <= 299
}

/// A copy of each string of `v`.
pub fn clone_strings(v: &Vec<String>) -> (r: Vec<String>)
    ensures
        string_views(r@) == string_views(v@),
{
    let mut out: Vec<String> = Vec::new();
    let mut i: usize = 0;
    while i < v.len()
        invariant
            i <= v.len(),
            string_views(out@) == string_views(v@).take(i as int),
        decreases v.len() - i,
    {
        let ghost before = out@;
        out.push(v[i].clone());
        assert(string_views(out@) =~= string_views(before).push(v@[i as int]@));
        assert(string_views(out@) =~= string_views(v@).take(i as int + 1));
        i += 1;
    }
    assert(string_views(v@).take(v.len() as int) =~= string_views(v@));
    out
}

impl TweetCreateResponse {
    /// What `to_text` writes: the id and the text of the post, each after its
    /// label, on two lines.
    pub open spec fn text_of(created: Created) -> Seq<char> {
        "Tweet Id: "@ + created.id + "\nTweet body: "@ + created.text
    }

    /// The answer in words, for a reader.
    pub fn to_text(&self) -> (r: String)
        ensures
            r@ == Self::text_of(self@),
    {
        let mut out = "Tweet Id: ".to_owned();
        out.append(self.data.id.as_str());
        out.append("\nTweet body: ");
        out.append(self.data.text.as_str());
        out
    }
}

} // verus!
