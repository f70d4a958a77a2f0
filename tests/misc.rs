use jenkins_cli::cli::{parse_param, ParamError, ParamsArgs, TailArgs};
use jenkins_cli::config::{ConfigError, JenkinsConfig, Profile};
use jenkins_cli::params::{parameter_lines, BuildAction, ParameterValue};
use jenkins_cli::profile::Profile as SingleProfile;
use jenkins_cli::job::LocatorError;

fn profile(url: &str, user: &str) -> Profile {
    Profile::new(url.to_owned(), user.to_owned(), "sécret".to_owned(), vec![])
}

#[test]
fn params_split_at_first_equals() {
    assert_eq!(parse_param("A=1").unwrap(), ("A".to_owned(), "1".to_owned()));
    assert_eq!(parse_param("A=b=c").unwrap(), ("A".to_owned(), "b=c".to_owned()));
    assert_eq!(parse_param("=x").unwrap(), ("".to_owned(), "x".to_owned()));
    assert_eq!(parse_param("A=").unwrap(), ("A".to_owned(), "".to_owned()));
    assert_eq!(parse_param("A"), Err(ParamError::MissingEquals));
}

#[test]
fn profiles_are_looked_up_by_name() {
    let mut cfg = JenkinsConfig::new(
        "main".to_owned(),
        vec![
            ("main".to_owned(), profile("http://a.invalid", "alice")),
            ("other".to_owned(), profile("http://b.invalid", "bob")),
        ],
    );
    assert_eq!(cfg.profile().unwrap().username, "alice");
    cfg.select_profile("other");
    assert_eq!(cfg.profile().unwrap().username, "bob");
    assert_eq!(cfg.profile().unwrap().url().unwrap(), "http://b.invalid");
    cfg.select_profile("missing");
    assert_eq!(cfg.profile().err(), Some(ConfigError::ProfileNotFound));
}

#[test]
fn profile_url_must_parse() {
    assert_eq!(profile("no url", "x").url().err(), Some(LocatorError::InvalidUrl));
}

#[test]
fn profile_summary_hides_password() {
    let p = Profile::new(
        "http://a.invalid".to_owned(),
        "alice".to_owned(),
        "sécret".to_owned(),
        vec![("b".to_owned(), "job/x".to_owned())],
    );
    assert_eq!(
        p.describe(),
        "url: http://a.invalid\nusername: alice\npassword: *******\naliases: {\"b\": \"job/x\"}"
    );
    let s = SingleProfile::new("http://a.invalid".to_owned(), "al".to_owned(), "pw".to_owned(), vec![]);
    assert_eq!(s.describe(), "url: http://a.invalid\nusername: al\npassword: **\naliases: {}");
}

#[test]
fn parameter_report_lists_only_parameters_actions() {
    let actions = vec![
        BuildAction { class: "hudson.model.CauseAction".to_owned(), parameters: vec![] },
        BuildAction {
            class: "hudson.model.ParametersAction".to_owned(),
            parameters: vec![
                ParameterValue { name: "A".to_owned(), value: "\"1\"".to_owned() },
                ParameterValue { name: "B".to_owned(), value: "true".to_owned() },
            ],
        },
        BuildAction {
            class: "other".to_owned(),
            parameters: vec![ParameterValue { name: "C".to_owned(), value: "3".to_owned() }],
        },
    ];
    assert_eq!(parameter_lines(&actions), vec!["A=\"1\"".to_owned(), "B=true".to_owned()]);
    assert!(parameter_lines(&vec![]).is_empty());
}

#[test]
fn argument_structs_hold_the_reference() {
    let t = TailArgs { job_url: "/job/x/1".to_owned() };
    let p = ParamsArgs { job_url: "http://h/job/x/1".to_owned() };
    assert_eq!(t.job_url, "/job/x/1");
    assert_eq!(p.job_url, "http://h/job/x/1");
}
