use std::collections::HashMap;

use jenkins_cli::job::{locate_build, resolve, Job, JobBuild, LocatorError, Scheme, UrlParts};
use url::Url;

fn job_at(u: &Url, rel: &str) -> Job {
    Job::parse(u.join(rel).unwrap().as_str()).unwrap()
}

fn build_at(u: &Url, rel: &str) -> JobBuild {
    JobBuild::parse(u.join(rel).unwrap().as_str()).unwrap()
}

#[test]
fn test_classic_job_display() {
    let u = Url::parse("http://jenkins.invalid/job/").unwrap();

    let job = job_at(&u, "x");
    assert_eq!(job.display(), "x");

    let job = job_at(&u, "x/");
    assert_eq!(job.display(), "x");

    let job = job_at(&u, "x/2");
    assert_eq!(job.display(), "x");

    let job = job_at(&u, "a/job/b");
    assert_eq!(job.display(), "a » b");

    let job = job_at(&u, "a/job/b/");
    assert_eq!(job.display(), "a » b");

    let job = job_at(&u, "a/job/b/2");
    assert_eq!(job.display(), "a » b");
}

#[test]
fn test_job_build_path() {
    let u = Url::parse("http://jenkins.invalid/job/").unwrap();

    let params: HashMap<String, String> = [
        ("a".to_owned(), "1".to_owned()),
        ("b".to_owned(), "2".to_owned()),
    ]
    .iter()
    .cloned()
    .collect();

    let no_params = HashMap::new();

    let job = job_at(&u, "x");
    assert_eq!(job.build_path(&no_params), "job/x/build");

    let job = job_at(&u, "x");
    assert_eq!(job.build_path(&params), "job/x/buildWithParameters");

    let job = job_at(&u, "x/job/y");
    assert_eq!(job.build_path(&no_params), "job/x/job/y/build");

    let job = job_at(&u, "x/job/y");
    assert_eq!(job.build_path(&params), "job/x/job/y/buildWithParameters");
}

#[test]
fn test_blue_job_display() {
    let u = Url::parse("http://jenkins.invalid/blue/organizations/jenkins/").unwrap();

    let job = job_at(&u, "x");
    assert_eq!(job.display(), "x");

    let job = job_at(&u, "x/activity");
    assert_eq!(job.display(), "x");

    let job = job_at(&u, "x/branches");
    assert_eq!(job.display(), "x");

    let job = job_at(&u, "a%2Fb");
    assert_eq!(job.display(), "a » b");

    let job = job_at(&u, "folder%20a%2Ffolder%20b");
    assert_eq!(job.display(), "folder a » folder b");

    let job = job_at(&u, "folder%20a%2Ffolder%20b/2");
    assert_eq!(job.display(), "folder a » folder b");
}

#[test]
fn test_classic_build_display() {
    let u = Url::parse("http://jenkins.invalid/job/").unwrap();

    let b = build_at(&u, "x/2");
    assert_eq!(b.display(), "x #2");

    let b = build_at(&u, "x/2/");
    assert_eq!(b.display(), "x #2");

    let job = build_at(&u, "a/job/b/2");
    assert_eq!(job.display(), "a » b #2");

    let job = build_at(&u, "a/job/b/2/");
    assert_eq!(job.display(), "a » b #2");
}

#[test]
fn test_blue_build_display() {
    let u = Url::parse("http://jenkins.invalid/blue/organizations/jenkins/").unwrap();

    let b = build_at(&u, "x/detail/x/2/changes");
    assert_eq!(b.display(), "x #2");

    let b = build_at(&u, "x/detail/x/2/pipeline");
    assert_eq!(b.display(), "x #2");

    let b = build_at(&u, "folder%20a%2Fjob%20b/detail/job%20b/2/changes");
    assert_eq!(b.display(), "folder a » job b #2");

    let b = build_at(&u, "folder%20a%2Fjob%20b/detail/job%20b/2/pipeline");
    assert_eq!(b.display(), "folder a » job b #2");
}

#[test]
fn test_log_path() {
    let u = Url::parse("http://jenkins.invalid/blue/organizations/jenkins/").unwrap();
    let b = build_at(&u, "x/detail/x/2/changes");
    assert_eq!(
        Url::parse(&b.log_path(0).unwrap()).unwrap(),
        Url::parse("http://jenkins.invalid/job/x/2/logText/progressiveText?start=0").unwrap()
    );
    let b = build_at(&u, "folder%20a%2Fjob%20b/detail/job%20b/2/changes");
    assert_eq!(
        Url::parse(&b.log_path(0).unwrap()).unwrap(),
        Url::parse("http://jenkins.invalid/job/folder a/job/job b/2/logText/progressiveText?start=0")
            .unwrap()
    );

    let u = Url::parse("http://jenkins.invalid/job/").unwrap();
    let b = build_at(&u, "x/2");
    assert_eq!(
        Url::parse(&b.log_path(0).unwrap()).unwrap(),
        Url::parse("http://jenkins.invalid/job/x/2/logText/progressiveText?start=0").unwrap()
    );
    let b = build_at(&u, "a/job/b/2");
    assert_eq!(
        Url::parse(&b.log_path(0).unwrap()).unwrap(),
        Url::parse("http://jenkins.invalid/job/a/job/b/2/logText/progressiveText?start=0").unwrap()
    );
}

#[test]
fn classic_names_survive_trailing_slash_and_number() {
    for url in [
        "http://h/job/a/job/b/job/c",
        "http://h/job/a/job/b/job/c/",
        "http://h/job/a/job/b/job/c/42",
        "http://h/job/a/job/b/job/c/42/",
    ] {
        let job = Job::parse(url).unwrap();
        assert_eq!(job.display(), "a » b » c");
        assert_eq!(job.route(), "job/a/job/b/job/c");
    }
}

#[test]
fn modern_names_rejoin_into_classic_route() {
    let job = Job::parse("http://h/blue/organizations/jenkins/folder%20a%2Fsub%20b%2Fleaf/activity").unwrap();
    assert_eq!(job.route(), "job/folder a/job/sub b/job/leaf");
}

#[test]
fn both_schemes_render_the_same_route() {
    let classic = JobBuild::parse("http://h/job/folder%20a/job/leaf/7/").unwrap();
    let modern =
        JobBuild::parse("http://h/blue/organizations/jenkins/folder%20a%2Fleaf/detail/leaf/7/pipeline").unwrap();
    assert_eq!(classic.log_route(0), modern.log_route(0));
    assert_eq!(classic.params_route(), modern.params_route());
    assert_eq!(classic.log_route(0), "job/folder a/job/leaf/7/logText/progressiveText?start=0");
}

#[test]
fn params_route_and_path() {
    let b = JobBuild::parse("http://jenkins.invalid/job/x/3/").unwrap();
    assert_eq!(b.params_route(), "job/x/3/api/json?tree=actions[parameters[name,value]]");
    assert_eq!(
        b.params_path().unwrap(),
        "http://jenkins.invalid/job/x/3/api/json?tree=actions[parameters[name,value]]"
    );
    assert_eq!(b.number(), 3);
    assert_eq!(b.job().display(), "x");
}

#[test]
fn url_parts_split_base_and_path() {
    let parts = UrlParts::parse("http://jenkins.invalid:8080/job/a%20b/job/c?x=1").unwrap();
    assert_eq!(parts.base, "http://jenkins.invalid:8080");
    assert_eq!(parts.path, "/job/a%20b/job/c");
    let job = Job::new(&parts).unwrap();
    assert_eq!(job.display(), "a b » c");
}

#[test]
fn locator_errors() {
    assert_eq!(Job::parse("not a url").err(), Some(LocatorError::InvalidUrl));
    assert_eq!(Job::parse("http://h/view/all/").err(), Some(LocatorError::UnrecognizedJobUrl));
    assert_eq!(Job::parse("http://h/job/").err(), Some(LocatorError::UnrecognizedJobUrl));
    assert_eq!(Job::parse("http://h/blue/pipelines").err(), Some(LocatorError::UnrecognizedJobUrl));
    assert_eq!(Job::parse("http://h/job/%FF/").err(), Some(LocatorError::BadEncoding));
    assert_eq!(JobBuild::parse("http://h/job/x/").err(), Some(LocatorError::UnrecognizedJobUrl));
    assert_eq!(JobBuild::parse("http://h/job/x/0/").err(), Some(LocatorError::BadBuildNumber));
    assert_eq!(
        JobBuild::parse("http://h/job/x/99999999999/").err(),
        Some(LocatorError::BadBuildNumber)
    );
    assert_eq!(
        JobBuild::parse("http://h/blue/organizations/jenkins/x/detail/x/2").err(),
        Some(LocatorError::UnrecognizedJobUrl)
    );
}

#[test]
fn scheme_is_chosen_by_prefix() {
    let c: Vec<char> = "/job/a".chars().collect();
    let m: Vec<char> = "/blue/organizations/jenkins/a".chars().collect();
    let o: Vec<char> = "/view/a".chars().collect();
    assert_eq!(Scheme::of_path(&c), Some(Scheme::Classic));
    assert_eq!(Scheme::of_path(&m), Some(Scheme::Modern));
    assert_eq!(Scheme::of_path(&o), None);
}

#[test]
fn references_resolve_against_the_server() {
    let b = locate_build("http://jenkins.invalid", "/job/x/5/").unwrap();
    assert_eq!(b.display(), "x #5");
    assert_eq!(
        b.log_path(12).unwrap(),
        "http://jenkins.invalid/job/x/5/logText/progressiveText?start=12"
    );
    let b = locate_build("http://ignored.invalid", "http://jenkins.invalid/job/y/6").unwrap();
    assert_eq!(b.log_path(0).unwrap(), "http://jenkins.invalid/job/y/6/logText/progressiveText?start=0");
    assert_eq!(resolve("http://h/queue/item/5/", "api/json").unwrap(), "http://h/queue/item/5/api/json");
    assert_eq!(resolve("nope", "api/json").err(), Some(LocatorError::InvalidUrl));
}

#[test]
fn equal_jobs_from_both_schemes() {
    let classic = Job::parse("http://h/job/folder%20a/job/leaf/").unwrap();
    let modern = Job::parse("http://h/blue/organizations/jenkins/folder%20a%2Fleaf/activity").unwrap();
    assert!(classic == modern);
    assert_eq!(classic.depth(), 2);
    let other_server = Job::parse("http://g/job/folder%20a/job/leaf/").unwrap();
    assert!(classic != other_server);
    let b1 = JobBuild::parse("http://h/job/folder%20a/job/leaf/4").unwrap();
    let b2 = JobBuild::parse("http://h/blue/organizations/jenkins/folder%20a%2Fleaf/detail/leaf/4/").unwrap();
    let b3 = JobBuild::parse("http://h/job/folder%20a/job/leaf/5").unwrap();
    assert!(b1 == b2);
    assert!(b1 != b3);
    assert!(b1.clone() == b1);
}
