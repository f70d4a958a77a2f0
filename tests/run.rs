use jenkins_cli::job::{Job, LocatorError};
use jenkins_cli::run::{
    backoff_secs, queue_item_path, queue_location, Executable, PollAction, QueueItem, QueuePoller, TriggerFault,
    MAX_POLLS,
};

fn item(why: Option<&str>, timestamp: Option<u64>, task: Option<&str>, exec: Option<Executable>) -> QueueItem {
    QueueItem {
        why: why.map(|s| s.to_owned()),
        timestamp,
        task_name: task.map(|s| s.to_owned()),
        executable: exec,
    }
}

#[test]
fn trigger_then_poll_then_tail() {
    let job = Job::parse("http://host/job/x/").unwrap();
    let loc = queue_location(201, Some("http://host/queue/item/5/".to_owned())).unwrap();
    assert_eq!(queue_item_path(&loc).unwrap(), "http://host/queue/item/5/api/json");

    let mut poller = QueuePoller::new();
    assert!(poller.may_poll());
    let step = poller.observe(&job, &item(Some("waiting"), None, None, None), 1_000);
    assert_eq!(step.report, vec!["waiting".to_owned()]);
    assert!(matches!(step.action, PollAction::Backoff(1)));

    let step = poller.observe(
        &job,
        &item(None, None, Some("x"), Some(Executable { number: 7, url: None })),
        2_000,
    );
    assert_eq!(step.report, vec!["Tailing job x #7:".to_owned()]);
    match step.action {
        PollAction::Tail(b) => {
            assert_eq!(b.display(), "x #7");
            assert_eq!(b.log_path(0).unwrap(), "http://host/job/x/7/logText/progressiveText?start=0");
        },
        other => panic!("expected a build to tail, got {:?}", other),
    }
    assert_eq!(poller.attempts(), 2);
}

#[test]
fn trigger_failures_stop_before_polling() {
    assert_eq!(
        queue_location(200, Some("http://host/queue/item/5/".to_owned())),
        Err(TriggerFault::UnexpectedResponse)
    );
    assert_eq!(queue_location(500, None), Err(TriggerFault::UnexpectedResponse));
    assert_eq!(queue_location(201, None), Err(TriggerFault::MissingLocation));
}

#[test]
fn future_estimate_waits_without_backoff() {
    let job = Job::parse("http://host/job/x/").unwrap();
    let mut poller = QueuePoller::new();
    let step = poller.observe(&job, &item(Some("busy"), Some(5_000), None, None), 1_500);
    assert_eq!(step.report, vec!["busy".to_owned()]);
    assert!(matches!(step.action, PollAction::Wait(3_500)));
    let step = poller.observe(&job, &item(Some("busy"), Some(5_000), None, None), 6_000);
    assert!(matches!(step.action, PollAction::Backoff(2)));
    let step = poller.observe(&job, &item(None, Some(9_000), None, None), 6_000);
    assert!(matches!(step.action, PollAction::Backoff(3)));
}

#[test]
fn executable_url_names_the_build() {
    let job = Job::parse("http://host/job/x/").unwrap();
    let mut poller = QueuePoller::new();
    let exec = Executable { number: 9, url: Some("http://host/job/f/job/x/9/".to_owned()) };
    let step = poller.observe(&job, &item(None, None, Some("x"), Some(exec)), 0);
    match step.action {
        PollAction::Tail(b) => assert_eq!(b.display(), "f » x #9"),
        other => panic!("expected a build to tail, got {:?}", other),
    }
    let exec = Executable { number: 9, url: Some("http://host/other".to_owned()) };
    let step = poller.observe(&job, &item(None, None, Some("x"), Some(exec)), 0);
    assert!(matches!(step.action, PollAction::Fail(LocatorError::UnrecognizedJobUrl)));
    let exec = Executable { number: 0, url: None };
    let step = poller.observe(&job, &item(None, None, Some("x"), Some(exec)), 0);
    assert!(matches!(step.action, PollAction::Fail(LocatorError::BadBuildNumber)));
}

#[test]
fn polls_are_bounded() {
    let job = Job::parse("http://host/job/x/").unwrap();
    let mut poller = QueuePoller::new();
    let mut n: u64 = 0;
    while poller.may_poll() {
        let step = poller.observe(&job, &item(None, None, None, None), 0);
        n += 1;
        assert!(matches!(step.action, PollAction::Backoff(s) if s == n));
    }
    assert_eq!(n, MAX_POLLS);
    assert_eq!(MAX_POLLS, 9);
    assert_eq!(backoff_secs(4), 4);
}
