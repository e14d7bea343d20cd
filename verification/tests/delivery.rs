use twitter::schedule::delivery::Delivery;
use twitter::schedule::{Schedule, ScheduleStatus};
use twitter::twitter::tweet::{CreateTweetErr, TweetBody};
use twitter::twitter::{TweetCreateResponse, TweetData};

const NOW: i64 = 1_700_000_000;

fn created(id: &str, text: &str) -> Result<TweetCreateResponse, CreateTweetErr> {
    Ok(TweetCreateResponse {
        data: TweetData {
            text: text.to_string(),
            edit_history_tweet_ids: vec![id.to_string()],
            id: id.to_string(),
        },
    })
}

fn refused(message: &str) -> Result<TweetCreateResponse, CreateTweetErr> {
    Err(CreateTweetErr { message: message.to_string() })
}

fn text_of(body: &TweetBody) -> &str {
    body.text.as_deref().unwrap()
}

fn reply_of(body: &TweetBody) -> Option<&str> {
    body.reply.as_ref().map(|reply| reply.in_reply_to_tweet_id.as_str())
}

#[test]
fn a_thread_of_two_parts_is_sent_in_order_and_marked_sent() {
    let mut store = Schedule::new();
    assert!(store.save("Part one\n---\nPart two", NOW - 60, NOW - 120));

    let pass = Delivery::begin(store, NOW);
    assert_eq!(pass.post_id(), Some(1));
    let first = pass.request().unwrap();
    assert_eq!(text_of(&first), "Part one");
    assert_eq!(reply_of(&first), None);

    let (pass, written) = pass.settle(created("101", "Part one"), NOW + 1);
    assert!(written.is_none());
    assert!(!pass.is_done());
    assert_eq!(pass.store().all()[0].status, ScheduleStatus::Pending);
    let second = pass.request().unwrap();
    assert_eq!(text_of(&second), "Part two");
    assert_eq!(reply_of(&second), Some("101"));

    let (pass, written) = pass.settle(created("102", "Part two"), NOW + 2);
    let written = written.unwrap();
    assert_eq!(written.id, 1);
    assert_eq!(written.status, ScheduleStatus::Sent);
    assert_eq!(written.sent_at, Some(NOW + 2));
    assert!(pass.is_done());
    assert!(pass.request().is_none());
    assert_eq!(pass.post_id(), None);

    let store = pass.finish();
    let row = &store.all()[0];
    assert_eq!(row.status, ScheduleStatus::Sent);
    assert_eq!(row.sent_at, Some(NOW + 2));
    assert_eq!(row.last_error, None);
    assert_eq!(row.attempts, 0);
    assert!(store.due(NOW + 10).is_empty());
}

#[test]
fn a_thread_that_fails_on_its_second_part_is_marked_failed() {
    let mut store = Schedule::new();
    assert!(store.save("Part one\n---\nPart two", NOW - 60, NOW - 120));

    let pass = Delivery::begin(store, NOW);
    let (pass, _) = pass.settle(created("101", "Part one"), NOW + 1);
    let second = pass.request().unwrap();
    assert_eq!(reply_of(&second), Some("101"));
    let (pass, written) = pass.settle(refused("rate limited"), NOW + 2);
    let written = written.unwrap();
    assert_eq!(written.status, ScheduleStatus::Failed);
    assert_eq!(written.attempts, 1);
    assert_eq!(written.last_error.as_deref(), Some("rate limited"));
    assert!(pass.is_done());

    let store = pass.finish();
    let row = &store.all()[0];
    assert_eq!(row.status, ScheduleStatus::Failed);
    assert_eq!(row.attempts, 1);
    assert_eq!(row.last_error.as_deref(), Some("rate limited"));
    assert_eq!(row.sent_at, None);
    assert_eq!(row.updated_at, NOW + 2);
    assert!(store.due(NOW + 10).is_empty());
    assert_eq!(store.failed().len(), 1);
}

#[test]
fn a_failure_does_not_stop_the_posts_behind_it() {
    let mut store = Schedule::new();
    store.save("first\n---\nfirst again", NOW - 3, NOW - 100);
    store.save("not yet", NOW + 1000, NOW - 100);
    store.save("second", NOW - 2, NOW - 100);
    store.save("third", NOW - 1, NOW - 100);

    let mut pass = Delivery::begin(store, NOW);
    let mut sent: Vec<(u32, String, Option<String>)> = Vec::new();
    let mut next_remote = 500;
    while let Some(request) = pass.request() {
        let id = pass.post_id().unwrap();
        sent.push((id, text_of(&request).to_string(), reply_of(&request).map(String::from)));
        let outcome = if id == 1 {
            refused("no network")
        } else {
            next_remote += 1;
            created(&next_remote.to_string(), text_of(&request))
        };
        let (next, written) = pass.settle(outcome, NOW + 5);
        assert_eq!(written.map(|post| post.id), Some(id));
        pass = next;
    }
    assert_eq!(
        sent,
        vec![
            (1, "first".to_string(), None),
            (3, "second".to_string(), None),
            (4, "third".to_string(), None),
        ]
    );
    let store = pass.finish();
    let all = store.all();
    assert_eq!(all[0].status, ScheduleStatus::Failed);
    assert_eq!(all[0].last_error.as_deref(), Some("no network"));
    assert_eq!(all[1].status, ScheduleStatus::Pending);
    assert_eq!(all[1].updated_at, NOW - 100);
    assert_eq!(all[2].status, ScheduleStatus::Sent);
    assert_eq!(all[3].status, ScheduleStatus::Sent);
}

#[test]
fn a_body_without_separator_is_sent_whole() {
    let mut store = Schedule::new();
    store.save("  just one post  ", NOW, NOW);
    let pass = Delivery::begin(store, NOW);
    let request = pass.request().unwrap();
    assert_eq!(text_of(&request), "  just one post  ");
    assert!(request.media.is_none());
    let (pass, _) = pass.settle(created("9", "just one post"), NOW);
    assert!(pass.is_done());
    assert_eq!(pass.finish().sent().len(), 1);
}

#[test]
fn a_pass_over_nothing_is_done_at_once() {
    let mut store = Schedule::new();
    store.save("later", NOW + 1, NOW);
    let pass = Delivery::begin(store, NOW);
    assert!(pass.is_done());
    assert!(pass.request().is_none());
    let (pass, written) = pass.settle(created("1", "stray answer"), NOW);
    assert!(written.is_none());
    assert!(pass.is_done());
    let store = pass.finish();
    assert_eq!(store.all()[0].status, ScheduleStatus::Pending);
}

#[test]
fn an_empty_part_is_sent_as_it_is() {
    let mut store = Schedule::new();
    store.save("---\nafter", NOW, NOW);
    let pass = Delivery::begin(store, NOW);
    assert_eq!(text_of(&pass.request().unwrap()), "");
    let (pass, _) = pass.settle(created("1", ""), NOW);
    let request = pass.request().unwrap();
    assert_eq!(text_of(&request), "after");
    assert_eq!(reply_of(&request), Some("1"));
}

#[test]
fn a_due_post_whose_counter_is_full_stays_as_it_was() {
    let full = twitter::schedule::ScheduledTweet {
        id: 1,
        body: "worn out".to_string(),
        status: ScheduleStatus::Pending,
        scheduled_for: NOW - 1,
        attempts: u32::MAX,
        last_error: None,
        sent_at: None,
        created_at: NOW - 2,
        updated_at: NOW - 2,
    };
    let store = Schedule::restore(vec![full], 2).unwrap();
    let pass = Delivery::begin(store, NOW);
    let (pass, _) = pass.settle(refused("still down"), NOW + 1);
    assert!(pass.is_done());
    let store = pass.finish();
    let row = &store.all()[0];
    assert_eq!(row.status, ScheduleStatus::Pending);
    assert_eq!(row.attempts, u32::MAX);
    assert_eq!(row.updated_at, NOW - 2);
}
