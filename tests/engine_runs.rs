use twitter_sentiment::config::{Config, TwitterConfig};
use twitter_sentiment::server::{Engine, FailurePolicy, Server};
use twitter_sentiment::stream::{
    FailureCause, FeedMessage, PollOutcome, ScoreSeries, StreamTask, TaskAction, TaskState,
};

/// A stand-in scorer: positive is the number of 'l's, negative the number of 'h's.
fn mock_score(t: &String) -> (u32, u32) {
    (
        t.chars().filter(|c| *c == 'l').count() as u32,
        t.chars().filter(|c| *c == 'h').count() as u32,
    )
}

fn text(s: &str) -> PollOutcome {
    PollOutcome::Item(FeedMessage::Text(s.to_string()))
}

fn keywords(ks: &[&str]) -> Vec<String> {
    ks.iter().map(|k| k.to_string()).collect()
}

fn streaming_engine(ks: &[&str], policy: FailurePolicy) -> Engine<(u32, u32)> {
    let mut e: Engine<(u32, u32)> = Engine::new(&keywords(ks), policy);
    for i in 0..e.len() {
        assert_eq!(e.start(i), TaskAction::OpenSubscription);
        let acts = e.on_subscribed(i, Ok(()));
        assert_eq!(acts[i], TaskAction::PollNext);
    }
    e
}

fn series_of<'a>(e: &'a Engine<(u32, u32)>, k: &str) -> &'a ScoreSeries<(u32, u32)> {
    e.get_series(&k.to_string()).expect("tracked keyword")
}

#[test]
fn one_task_per_distinct_keyword() {
    let e: Engine<(u32, u32)> = Engine::new(&keywords(&["a", "b", "a", "c", "b"]), FailurePolicy::Isolate);
    assert_eq!(e.len(), 3);
    assert_eq!(e.task(0).keyword(), "a");
    assert_eq!(e.task(1).keyword(), "b");
    assert_eq!(e.task(2).keyword(), "c");
    for i in 0..3 {
        assert!(matches!(e.task(i).state(), TaskState::Created));
        assert_eq!(e.task(i).series().len(), 0);
    }
    assert_eq!(e.find(&"c".to_string()), Some(2));
    assert_eq!(e.find(&"d".to_string()), None);
    assert!(e.get_series(&"d".to_string()).is_none());
}

#[test]
fn round_trip_three_text_items() {
    let mut e = streaming_engine(&["help"], FailurePolicy::Isolate);
    let items = ["I love this", "I hate this", "meh"];
    for (n, t) in items.iter().enumerate() {
        let acts = e.on_poll(0, text(t), 10 + n as u64, &mock_score);
        assert_eq!(acts, vec![TaskAction::PollNext]);
    }
    let s = series_of(&e, "help");
    assert_eq!(s.len(), 3);
    for (n, t) in items.iter().enumerate() {
        assert_eq!(s.get(n).score, mock_score(&t.to_string()));
        assert_eq!(s.get(n).timestamp, 10 + n as u64);
    }
    assert_eq!(s.get(0).score, (1, 1));
    assert_eq!(s.get(1).score, (0, 2));
    assert_eq!(s.get(2).score, (0, 1));
    assert!(s.get(0).timestamp < s.get(1).timestamp && s.get(1).timestamp < s.get(2).timestamp);
}

#[test]
fn series_grow_independently() {
    let mut e = streaming_engine(&["help", "me"], FailurePolicy::Isolate);
    e.on_poll(0, text("hello"), 1, &mock_score);
    e.on_poll(0, text("hi"), 2, &mock_score);
    assert_eq!(e.on_poll(1, PollOutcome::Pending, 2, &mock_score)[1], TaskAction::WaitForItem);
    assert_eq!(series_of(&e, "help").len(), 2);
    assert_eq!(series_of(&e, "me").len(), 0);
    e.on_poll(1, text("lol"), 3, &mock_score);
    assert_eq!(series_of(&e, "help").len(), 2);
    assert_eq!(series_of(&e, "me").len(), 1);
    assert_eq!(series_of(&e, "me").get(0).score, (2, 0));
}

#[test]
fn failing_keyword_is_isolated() {
    let mut e: Engine<(u32, u32)> = Engine::new(&keywords(&["x", "y"]), FailurePolicy::Isolate);
    e.start(0);
    e.start(1);
    let acts = e.on_subscribed(0, Err("401 Unauthorized".to_string()));
    assert_eq!(acts, vec![TaskAction::Nothing, TaskAction::Nothing]);
    e.on_subscribed(1, Ok(()));
    e.on_poll(1, text("all well"), 5, &mock_score);
    match e.task(0).state() {
        TaskState::Failed(FailureCause::Subscription(m)) => assert_eq!(m, "401 Unauthorized"),
        other => panic!("x should have failed, is {:?}", other),
    }
    assert!(matches!(e.task(1).state(), TaskState::Streaming));
    assert_eq!(series_of(&e, "y").len(), 1);
    assert_eq!(e.on_poll(1, PollOutcome::EndOfStream, 6, &mock_score)[1], TaskAction::Release);
    assert!(matches!(e.task(1).state(), TaskState::Completed));
    assert!(e.is_finished());
}

#[test]
fn abort_policy_cancels_siblings() {
    let mut e = streaming_engine(&["x", "y", "z"], FailurePolicy::AbortAll);
    let acts = e.on_poll(1, PollOutcome::Error("reset".to_string()), 4, &mock_score);
    assert_eq!(acts, vec![TaskAction::Release, TaskAction::Release, TaskAction::Release]);
    assert!(matches!(e.task(0).state(), TaskState::Failed(FailureCause::Cancelled)));
    assert!(matches!(e.task(1).state(), TaskState::Failed(FailureCause::Subscription(_))));
    assert!(matches!(e.task(2).state(), TaskState::Failed(FailureCause::Cancelled)));
    assert!(e.is_finished());
}

#[test]
fn non_text_items_add_nothing() {
    let mut e = streaming_engine(&["k"], FailurePolicy::Isolate);
    assert_eq!(e.on_poll(0, PollOutcome::Item(FeedMessage::Other), 1, &mock_score)[0], TaskAction::PollNext);
    assert_eq!(e.on_poll(0, PollOutcome::Pending, 2, &mock_score)[0], TaskAction::WaitForItem);
    assert_eq!(series_of(&e, "k").len(), 0);
    e.on_poll(0, text("l"), 3, &mock_score);
    e.on_poll(0, PollOutcome::Item(FeedMessage::Other), 4, &mock_score);
    assert_eq!(series_of(&e, "k").len(), 1);
}

#[test]
fn cancel_stops_every_task() {
    let mut e: Engine<(u32, u32)> = Engine::new(&keywords(&["a", "b", "c", "d"]), FailurePolicy::Isolate);
    e.start(1);
    e.start(2);
    e.on_subscribed(2, Ok(()));
    e.start(3);
    e.on_subscribed(3, Ok(()));
    e.on_poll(3, PollOutcome::EndOfStream, 1, &mock_score);
    assert!(!e.is_finished());
    let acts = e.cancel_all();
    assert_eq!(
        acts,
        vec![TaskAction::Nothing, TaskAction::Release, TaskAction::Release, TaskAction::Nothing]
    );
    assert!(matches!(e.task(0).state(), TaskState::Failed(FailureCause::Cancelled)));
    assert!(matches!(e.task(3).state(), TaskState::Completed));
    assert!(e.is_finished());
    // A poll result that arrives after cancellation changes nothing.
    assert_eq!(e.on_poll(2, text("late"), 9, &mock_score)[2], TaskAction::Nothing);
    assert_eq!(series_of(&e, "c").len(), 0);
}

#[test]
fn clock_going_back_keeps_order() {
    let mut s: ScoreSeries<u8> = ScoreSeries::new();
    s.append(1, 100);
    s.append(2, 90);
    s.append(3, 120);
    assert_eq!(s.len(), 3);
    assert_eq!(s.get(1).timestamp, 100);
    assert_eq!(s.get(1).score, 2);
    assert_eq!(s.get(2).timestamp, 120);
}

#[test]
fn task_ignores_events_out_of_order() {
    let mut t: StreamTask<(u32, u32)> = StreamTask::new("k".to_string());
    assert_eq!(t.on_subscribed(Ok(())), TaskAction::Nothing);
    assert_eq!(t.on_poll(text("l"), 1, &mock_score), TaskAction::Nothing);
    assert!(matches!(t.state(), TaskState::Created));
    assert_eq!(t.start(), TaskAction::OpenSubscription);
    assert_eq!(t.start(), TaskAction::Nothing);
    assert_eq!(t.cancel(), TaskAction::Release);
    assert_eq!(t.cancel(), TaskAction::Nothing);
}

#[test]
fn server_builds_engine_from_config() {
    let cfg = Config {
        config: Box::new(TwitterConfig {
            keywords: keywords(&["help", "me", "help"]),
            ..Default::default()
        }),
    }
    .verify()
    .expect("valid");
    let server = Server::new(cfg);
    let e: Engine<(u32, u32)> = server.engine(FailurePolicy::Isolate);
    assert_eq!(e.len(), 2);
    assert_eq!(e.task(1).keyword(), "me");
    assert_eq!(server.config().get_config().keywords.len(), 3);
}
