use twitter::text::{has_separator_line, split_text};
use twitter::twitter::tweet::{Tweet, TweetBody};

fn texts(parts: &[String]) -> Vec<&str> {
    parts.iter().map(|part| part.as_str()).collect()
}

#[test]
fn test_split_tweet() {
    let thread = r#"This is an awesome thread.
        We be talking about things.
        ---
        This should be the second part.
        "#
    .to_string();

    let tweet = Tweet::default();

    let tweets = tweet.split_tweet(&thread, "---");

    assert_eq!(tweets.len(), 2);
}

#[test]
fn test_is_thread() {
    let thread = r#"This is an awesome thread.
        We be talking about things.
        ---
        This should be the second part.
        "#
    .to_string();

    let tweet_2 = Tweet::default();

    assert!(tweet_2.is_thread(&thread));

    let tweet = "This is a normal tweet.".to_string();

    assert!(!tweet_2.is_thread(&tweet));
}

#[test]
fn split_gives_the_parts_in_order() {
    assert_eq!(texts(&split_text("A\n---\nB", "---")), vec!["A", "B"]);
    assert_eq!(texts(&split_text("A", "---")), vec!["A"]);
    assert_eq!(
        texts(&split_text("one\n---\ntwo\n---\nthree", "---")),
        vec!["one", "two", "three"]
    );
}

#[test]
fn is_thread_looks_for_a_separator_line() {
    assert!(has_separator_line("A\n---\nB", "---"));
    assert!(!has_separator_line("A", "---"));
    assert!(!has_separator_line("A --- B", "---"));
    assert!(!has_separator_line("A\n----\nB", "---"));
    assert!(has_separator_line("A\n \t--- \nB", "---"));
}

#[test]
fn split_keeps_empty_parts() {
    assert_eq!(texts(&split_text("---\nA", "---")), vec!["", "A"]);
    assert_eq!(texts(&split_text("A\n---", "---")), vec!["A", ""]);
    assert_eq!(texts(&split_text("A\n---\n---\nB", "---")), vec!["A", "", "B"]);
    assert_eq!(texts(&split_text("---", "---")), vec!["", ""]);
    assert_eq!(texts(&split_text("", "---")), vec![""]);
}

#[test]
fn split_joins_the_lines_of_a_part_and_trims_it() {
    assert_eq!(
        texts(&split_text("  first line\r\nsecond line  \n\n---\n\n third ", "---")),
        vec!["first line\nsecond line", "third"]
    );
    assert_eq!(texts(&split_text("a\n\nb", "---")), vec!["a\n\nb"]);
    assert_eq!(texts(&split_text("\u{a0}a\u{3000}\n", "---")), vec!["a"]);
}

#[test]
fn split_takes_any_separator() {
    assert_eq!(texts(&split_text("a\n***\nb\n---\nc", "***")), vec!["a", "b\n---\nc"]);
}

#[test]
fn a_thread_has_more_than_one_part() {
    for body in ["A\n---\nB", "A", "---", "", "A\n\nB", "x\n  ---  \ny\n---"] {
        assert_eq!(
            has_separator_line(body, "---"),
            split_text(body, "---").len() > 1,
            "{body:?}"
        );
    }
}

#[test]
fn tweet_splits_as_the_text_functions_do() {
    let tweet = Tweet::new(TweetBody { text: None, reply: None, media: None });
    assert_eq!(texts(&tweet.split_tweet("A\n---\nB", "---")), vec!["A", "B"]);
    assert!(tweet.is_thread("A\n---\nB"));
    assert!(!tweet.is_thread("A"));
    let other = Tweet::with_separator(TweetBody::default(), "***");
    assert!(other.is_thread("A\n***\nB"));
    assert!(!other.is_thread("A\n---\nB"));
}
