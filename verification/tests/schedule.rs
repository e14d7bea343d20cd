use twitter::schedule::time::{is_resolvable, resolve, ErrorKind, ResolveError, ScheduleError};
use twitter::schedule::{Schedule, ScheduleStatus};

const NOW: i64 = 1_700_000_000;

#[test]
fn schedule_save_tweet() {
    let body = "This is a scheduled Tweet";
    let time = "Tomorrow";
    let mut schedule = Schedule::new();
    let saved = schedule.new_post(body, time, NOW);
    assert_eq!(saved, Ok(1));
    let all = schedule.all();
    assert_eq!(all.len(), 1);
    assert_eq!(all[0].body, body);
    assert_eq!(all[0].status, ScheduleStatus::Pending);
    assert_eq!(all[0].attempts, 0);
}

#[test]
fn schedule_get_all() {
    let schedule_instance = Schedule::new();
    let all = schedule_instance.all();
    println!("{:?}", all);
    assert!(all.is_empty());
}

#[test]
fn schedule_filter_failed_and_sent() {
    let mut schedule = Schedule::new();
    let _ = schedule.clear();

    let _ = schedule.new_post("failed tweet", "Tomorrow", NOW);
    let _ = schedule.new_post("sent tweet", "Tomorrow", NOW);

    let all = schedule.all();
    let failed_id = all
        .iter()
        .find(|tweet| tweet.body == "failed tweet")
        .unwrap()
        .id;
    let sent_id = all
        .iter()
        .find(|tweet| tweet.body == "sent tweet")
        .unwrap()
        .id;

    schedule.mark_failed(failed_id, "network error", NOW);
    schedule.mark_sent(sent_id, NOW);

    let failed = schedule.failed();
    let sent = schedule.sent();

    assert!(failed.iter().any(|tweet| tweet.id == failed_id));
    assert!(sent.iter().any(|tweet| tweet.id == sent_id));
    assert!(!failed.iter().any(|tweet| tweet.id == sent_id));
    assert!(!sent.iter().any(|tweet| tweet.id == failed_id));
}

#[test]
fn schedule_mark_failed_tracks_error() {
    let mut schedule = Schedule::new();
    let _ = schedule.clear();

    let _ = schedule.new_post("tweet that fails", "Tomorrow", NOW);
    let all = schedule.all();
    let tweet_id = all
        .iter()
        .find(|tweet| tweet.body == "tweet that fails")
        .unwrap()
        .id;

    schedule.mark_failed(tweet_id, "timeout", NOW);
    let failed = schedule.failed();
    let row = failed.iter().find(|tweet| tweet.id == tweet_id).unwrap();

    assert_eq!(row.attempts, 1);
    assert_eq!(row.last_error.as_deref(), Some("timeout"));
}

#[test]
fn a_saved_post_is_listed_once_as_pending() {
    let mut schedule = Schedule::new();
    assert!(schedule.save("first", NOW + 60, NOW));
    assert!(schedule.save("second", NOW + 120, NOW + 1));
    let all = schedule.all();
    assert_eq!(all.len(), 2);
    let matching: Vec<_> = all
        .iter()
        .filter(|row| row.body == "second" && row.scheduled_for == NOW + 120)
        .collect();
    assert_eq!(matching.len(), 1);
    let row = matching[0];
    assert_eq!(row.id, 2);
    assert_eq!(row.status, ScheduleStatus::Pending);
    assert_eq!(row.attempts, 0);
    assert_eq!(row.last_error, None);
    assert_eq!(row.sent_at, None);
    assert_eq!(row.created_at, NOW + 1);
    assert_eq!(row.updated_at, NOW + 1);
    assert_eq!(all[0].id, 1);
    assert_eq!(all[0].body, "first");
}

#[test]
fn due_takes_pending_posts_whose_instant_has_come() {
    let mut schedule = Schedule::new();
    schedule.save("past", NOW - 10, NOW - 100);
    schedule.save("exactly now", NOW, NOW - 100);
    schedule.save("future", NOW + 1, NOW - 100);
    schedule.save("past but sent", NOW - 20, NOW - 100);
    schedule.save("past but failed", NOW - 30, NOW - 100);
    schedule.mark_sent(4, NOW - 5);
    schedule.mark_failed(5, "boom", NOW - 5);

    let due = schedule.due(NOW);
    let bodies: Vec<&str> = due.iter().map(|row| row.body.as_str()).collect();
    assert_eq!(bodies, vec!["past", "exactly now"]);
    assert!(schedule.due(NOW - 11).is_empty());
    let later: Vec<u32> = schedule.due(NOW + 1).iter().map(|row| row.id).collect();
    assert_eq!(later, vec![1, 2, 3]);
    assert!(schedule.due(i64::MAX).iter().all(|row| row.status == ScheduleStatus::Pending));
}

#[test]
fn mark_sent_sets_the_instant_and_clears_the_error() {
    let mut schedule = Schedule::new();
    schedule.save("retry me", NOW, NOW);
    assert!(schedule.mark_failed(1, "first try", NOW + 1));
    assert!(schedule.mark_failed(1, "second try", NOW + 2));
    assert!(schedule.mark_sent(1, NOW + 3));
    let row = &schedule.all()[0];
    assert_eq!(row.status, ScheduleStatus::Sent);
    assert_eq!(row.sent_at, Some(NOW + 3));
    assert_eq!(row.last_error, None);
    assert_eq!(row.attempts, 2);
    assert_eq!(row.updated_at, NOW + 3);
    assert_eq!(row.created_at, NOW);
    assert_eq!(row.scheduled_for, NOW);
}

#[test]
fn mark_sent_without_such_a_post_changes_nothing() {
    let mut schedule = Schedule::new();
    schedule.save("only", NOW, NOW);
    assert!(!schedule.mark_sent(7, NOW + 1));
    assert!(!schedule.mark_failed(7, "nobody", NOW + 1));
    let row = &schedule.all()[0];
    assert_eq!(row.status, ScheduleStatus::Pending);
    assert_eq!(row.updated_at, NOW);
    assert_eq!(row.attempts, 0);
}

#[test]
fn mark_failed_counts_each_attempt() {
    let mut schedule = Schedule::new();
    schedule.save("flaky", NOW, NOW);
    schedule.save("other", NOW, NOW);
    assert!(schedule.mark_failed(1, "timeout", NOW + 1));
    {
        let all = schedule.all();
        assert_eq!(all[0].attempts, 1);
        assert_eq!(all[0].last_error.as_deref(), Some("timeout"));
        assert_eq!(all[0].status, ScheduleStatus::Failed);
        assert_eq!(all[0].sent_at, None);
        assert_eq!(all[0].updated_at, NOW + 1);
    }
    assert!(schedule.mark_failed(1, "timeout", NOW + 2));
    let all = schedule.all();
    assert_eq!(all[0].attempts, 2);
    assert_eq!(all[0].last_error.as_deref(), Some("timeout"));
    assert_eq!(all[1].attempts, 0);
    assert_eq!(all[1].status, ScheduleStatus::Pending);
}

#[test]
fn mark_failed_after_sent_takes_the_instant_of_sending_away() {
    let mut schedule = Schedule::new();
    schedule.save("sent then failed", NOW, NOW);
    schedule.mark_sent(1, NOW + 1);
    schedule.mark_failed(1, "late error", NOW + 2);
    let row = &schedule.all()[0];
    assert_eq!(row.status, ScheduleStatus::Failed);
    assert_eq!(row.sent_at, None);
    assert_eq!(row.attempts, 1);
}

#[test]
fn clear_returns_the_count_and_leaves_nothing() {
    let mut schedule = Schedule::new();
    assert_eq!(schedule.clear(), 0);
    schedule.save("a", NOW, NOW);
    schedule.save("b", NOW, NOW);
    schedule.save("c", NOW, NOW);
    schedule.mark_sent(2, NOW);
    assert_eq!(schedule.clear(), 3);
    assert!(schedule.all().is_empty());
    assert!(schedule.due(i64::MAX).is_empty());
    assert!(schedule.sent().is_empty());
    assert!(schedule.failed().is_empty());
    assert_eq!(schedule.clear(), 0);
}

#[test]
fn ids_are_not_given_out_again_after_clear() {
    let mut schedule = Schedule::new();
    schedule.save("a", NOW, NOW);
    schedule.save("b", NOW, NOW);
    assert_eq!(schedule.next_id(), 3);
    schedule.clear();
    assert_eq!(schedule.next_id(), 3);
    schedule.save("c", NOW, NOW);
    assert_eq!(schedule.all()[0].id, 3);
}

#[test]
fn new_post_refuses_an_empty_body_and_a_phrase_without_instant() {
    let mut schedule = Schedule::new();
    let refused = schedule.new_post("", "Tomorrow", NOW);
    assert_eq!(refused, Err(ScheduleError::EmptyBody));
    assert_eq!(refused.unwrap_err().kind(), ErrorKind::Validation);
    let refused = schedule.new_post("hello", "no such time at all", NOW);
    assert_eq!(refused, Err(ScheduleError::InvalidTime));
    assert_eq!(ScheduleError::Persistence.kind(), ErrorKind::Persistence);
    assert!(schedule.all().is_empty());
    assert_eq!(schedule.next_id(), 1);
}

#[test]
fn new_post_resolves_the_phrase() {
    let mut schedule = Schedule::new();
    assert_eq!(schedule.new_post("at the epoch", "@0", NOW), Ok(1));
    assert_eq!(schedule.new_post("a fixed day", "2021-02-15T06:37:47 +0000", NOW), Ok(2));
    let all = schedule.all();
    assert_eq!(all[0].scheduled_for, 0);
    assert_eq!(all[1].scheduled_for, 1613371067);
    assert_eq!(all[1].body, "a fixed day");
}

#[test]
fn new_post_at_takes_the_instant_it_is_given() {
    let mut schedule = Schedule::new();
    assert_eq!(schedule.new_post_at("given", Ok(NOW + 5), NOW), Ok(1));
    assert_eq!(
        schedule.new_post_at(
            "refused",
            Err(ResolveError::Resolver(parse_datetime::ParseDateTimeError::InvalidInput)),
            NOW
        ),
        Err(ScheduleError::InvalidTime)
    );
    assert_eq!(
        schedule.new_post_at("refused", Err(ResolveError::Refused), NOW),
        Err(ScheduleError::InvalidTime)
    );
    assert_eq!(schedule.new_post_at("", Ok(NOW), NOW), Err(ScheduleError::EmptyBody));
    assert_eq!(
        schedule.new_post_at("", Err(ResolveError::Refused), NOW),
        Err(ScheduleError::EmptyBody)
    );
    let all = schedule.all();
    assert_eq!(all.len(), 1);
    assert_eq!(all[0].scheduled_for, NOW + 5);
}

#[test]
fn a_long_count_before_a_word_is_refused_without_asking_the_resolver() {
    for phrase in [
        "306783379 friday",
        "306783378 friday",
        "+306783379   fri",
        "306783379(1)friday",
        "306783379 - friday",
        "000000001 friday",
        "mon.306783379 friday",
        "2021-02-15T06:37:47.123456789Z",
        "123456789x",
    ] {
        assert!(!is_resolvable(phrase), "{phrase:?}");
        assert!(matches!(resolve(phrase), Err(ResolveError::Refused)), "{phrase:?}");
    }
    let mut schedule = Schedule::new();
    assert_eq!(
        schedule.new_post("hello", "306783379 friday", NOW),
        Err(ScheduleError::InvalidTime)
    );
    assert_eq!(schedule.new_post("", "306783379 friday", NOW), Err(ScheduleError::EmptyBody));
    assert!(schedule.all().is_empty());
}

#[test]
fn a_phrase_with_too_many_parentheses_is_refused() {
    let deep = format!("{}tomorrow{}", "(".repeat(33), ")".repeat(33));
    assert!(!is_resolvable(&deep));
    assert!(matches!(resolve(&deep), Err(ResolveError::Refused)));
    let shallow = format!("{}comment{} tomorrow", "(".repeat(32), ")".repeat(32));
    assert!(is_resolvable(&shallow));
    assert!(!matches!(resolve(&shallow), Err(ResolveError::Refused)));
}

#[test]
fn usual_phrases_are_handed_to_the_resolver() {
    for phrase in [
        "Tomorrow",
        "@1700000000",
        "@1700000000.123456789",
        "12345678 days",
        "99999999 friday",
        "2021-02-15T06:37:47 +0000",
        "2021-02-15 06:37:47.123456789",
        "next friday",
        "monday 123456789",
        "",
    ] {
        assert!(is_resolvable(phrase), "{phrase:?}");
        assert!(!matches!(resolve(phrase), Err(ResolveError::Refused)), "{phrase:?}");
    }
    assert_eq!(resolve("@1700000000").unwrap(), 1_700_000_000);
    assert_eq!(resolve("@0").unwrap(), 0);
    assert!(resolve("Tomorrow").is_ok());
    assert!(resolve("next friday").is_ok());
    assert!(matches!(resolve("no such time at all"), Err(ResolveError::Resolver(_))));
}
