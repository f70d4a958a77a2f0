use jenkins_cli::job::JobBuild;
use jenkins_cli::tail::{classify, continuation, Continuation, LogChunk, TailError, TailRegistry, TailTask};

fn chunk(body: &str, more: Option<&str>, size: Option<&str>) -> LogChunk {
    LogChunk {
        body: body.to_owned(),
        more_data: more.map(|s| s.to_owned()),
        text_size: size.map(|s| s.to_owned()),
    }
}

#[test]
fn test_that_subjob_regex_is_anchored_to_beginning_of_line() {
    let build = JobBuild::parse("http://jenkins.invalid/job/hello/1").unwrap();
    let mut task = TailTask::new(build);
    let step = task.advance(&chunk(
        "This is not a subjob Starting building: hello #1",
        Some("false"),
        Some("48"),
    ));
    assert!(step.spawned.is_empty());
    assert_eq!(step.printed, vec!["hello #1: This is not a subjob Starting building: hello #1".to_owned()]);
    assert_eq!(step.next, Continuation::Done);
    assert!(classify("This is not a subjob Starting building: hello #1").is_none());
}

#[test]
fn announcements_are_classified() {
    let a = classify("Starting building: Folder A » subjob2 #20").unwrap();
    assert_eq!(a.name, "Folder A » subjob2");
    assert_eq!(a.number, 20);
    let a = classify("Starting building: x #5 #7").unwrap();
    assert_eq!(a.name, "x #5");
    assert_eq!(a.number, 7);
    assert_eq!(classify("Starting building:   #1").unwrap().name, " ");
    assert!(classify("Starting building:  #1").is_none());
    assert!(classify("Starting building: #1").is_none());
    assert!(classify("Starting building: x #").is_none());
    assert!(classify("Starting building: x #1a").is_none());
    assert!(classify("Starting building: x #0").is_none());
    assert!(classify("Starting building: x #99999999999").is_none());
    assert!(classify("Scheduling project: subjob1").is_none());
}

#[test]
fn tail_follows_offsets_until_no_more_data() {
    let build = JobBuild::parse("http://jenkins.invalid/job/hello/1").unwrap();
    let mut task = TailTask::new(build);
    assert_eq!(task.build().log_route(task.offset()), "job/hello/1/logText/progressiveText?start=0");
    let step = task.advance(&chunk("abcd", Some("true"), Some("4")));
    assert_eq!(step.printed, vec!["hello #1: abcd".to_owned()]);
    assert_eq!(step.next, Continuation::Fetch(4));
    assert_eq!(task.offset(), 4);
    assert_eq!(
        task.log_path().unwrap(),
        "http://jenkins.invalid/job/hello/1/logText/progressiveText?start=4"
    );
    let step = task.advance(&chunk("efgh", Some("false"), Some("8")));
    assert_eq!(step.printed, vec!["hello #1: efgh".to_owned()]);
    assert_eq!(step.next, Continuation::Done);
    assert!(step.spawned.is_empty());
}

#[test]
fn test_tail_with_subjobs() {
    let build = JobBuild::parse("http://jenkins.invalid/job/mainjob/1").unwrap();
    let mut task = TailTask::new(build);
    let body = [
        "AAAA\n",
        "Scheduling project: subjob1\n",
        "AAAA\n",
        "Starting building: subjob1 #10\n",
        "Scheduling project: Folder A » subjob2\n",
        "Starting building: Folder A » subjob2 #20\n",
        "Scheduling project: Folder A » Folder B » subjob3\n",
        "Starting building: Folder A » Folder B » subjob3 #30\n",
    ]
    .concat();
    let step = task.advance(&chunk(&body, Some("false"), Some("300")));
    assert_eq!(step.printed.len(), 8);
    assert_eq!(step.printed[0], "mainjob #1: AAAA");
    assert_eq!(step.printed[5], "mainjob #1: Starting building: Folder A » subjob2 #20");
    let routes: Vec<String> = step.spawned.iter().map(|b| b.log_route(0)).collect();
    assert_eq!(
        routes,
        vec![
            "job/subjob1/10/logText/progressiveText?start=0".to_owned(),
            "job/Folder A/job/subjob2/20/logText/progressiveText?start=0".to_owned(),
            "job/Folder A/job/Folder B/job/subjob3/30/logText/progressiveText?start=0".to_owned(),
        ]
    );
    assert_eq!(
        step.spawned[1].log_path(0).unwrap(),
        "http://jenkins.invalid/job/Folder%20A/job/subjob2/20/logText/progressiveText?start=0"
    );
    let mut out: Vec<String> = step.printed.clone();
    for (child, body) in step.spawned.iter().zip(["BBBB", "CCCC", "DDDD"]) {
        let mut task = TailTask::new(child.clone());
        let step = task.advance(&chunk(body, Some("false"), Some("4")));
        assert_eq!(step.next, Continuation::Done);
        out.extend(step.printed);
    }
    assert!(out.contains(&"mainjob #1: AAAA".to_owned()));
    assert!(out.contains(&"subjob1 #10: BBBB".to_owned()));
    assert!(out.contains(&"Folder A » subjob2 #20: CCCC".to_owned()));
    assert!(out.contains(&"Folder A » Folder B » subjob3 #30: DDDD".to_owned()));
}

#[test]
fn lines_drop_carriage_returns_and_final_newline() {
    let build = JobBuild::parse("http://h/job/a/2").unwrap();
    let mut task = TailTask::new(build);
    let step = task.advance(&chunk("one\r\ntwo\n\nthree\r", Some("true"), Some("17")));
    assert_eq!(
        step.printed,
        vec!["a #2: one".to_owned(), "a #2: two".to_owned(), "a #2: ".to_owned(), "a #2: three\r".to_owned()]
    );
    let step = task.advance(&chunk("", Some("true"), Some("17")));
    assert!(step.printed.is_empty());
    assert_eq!(step.next, Continuation::Fetch(17));
}

#[test]
fn malformed_headers_end_the_task() {
    assert_eq!(continuation(&None, &Some("4".to_owned())), Continuation::Malformed);
    assert_eq!(continuation(&Some("true".to_owned()), &None), Continuation::Malformed);
    assert_eq!(continuation(&Some("maybe".to_owned()), &Some("4".to_owned())), Continuation::Malformed);
    assert_eq!(continuation(&Some("true".to_owned()), &Some("4x".to_owned())), Continuation::Malformed);
    assert_eq!(continuation(&Some("true".to_owned()), &Some("".to_owned())), Continuation::Malformed);
    assert_eq!(
        continuation(&Some("true".to_owned()), &Some("4294967296".to_owned())),
        Continuation::Malformed
    );
    assert_eq!(
        continuation(&Some("true".to_owned()), &Some("4294967295".to_owned())),
        Continuation::Fetch(4294967295)
    );
    let build = JobBuild::parse("http://h/job/a/2").unwrap();
    let mut task = TailTask::new(build);
    let step = task.advance(&chunk("x", Some("true"), None));
    assert_eq!(step.printed, vec!["a #2: x".to_owned()]);
    assert_eq!(step.next, Continuation::Malformed);
    assert_eq!(task.offset(), 0);
}

#[test]
fn registry_waits_for_every_task_and_keeps_first_failure() {
    let mut reg = TailRegistry::new();
    assert!(reg.is_done());
    reg.started();
    reg.started();
    reg.started();
    reg.finished(Err(TailError::MalformedLogResponse));
    assert!(!reg.is_done());
    reg.finished(Err(TailError::Network("reset".to_owned())));
    reg.finished(Ok(()));
    assert!(reg.is_done());
    assert_eq!(reg.active(), 0);
    assert!(matches!(reg.outcome(), Err(TailError::MalformedLogResponse)));

    let mut reg = TailRegistry::new();
    reg.started();
    reg.finished(Ok(()));
    assert!(reg.outcome().is_ok());
}
