use babel42::checks::model::{
    parse_fail_on, parse_rule_set, CheckOpts, FailOn, Finding, Location, RuleSet, Severity,
};
use babel42::model::{LaunchIncludeGraph, Project, RuntimeGraph};
use petgraph::graph::DiGraph;
use babel42::project_config::Babel42Config;
use babel42::report::{
    analyze_report, check_exit_code, check_options, check_report, parse_min_severity,
    severity_counts,
};

fn findings() -> Vec<Finding> {
    vec![
        Finding::new("dep/circular", Severity::Error, "cycle")
            .with_location(Location { package: Some("a".to_string()), ..Location::default() })
            .with_fix_hint("Remove it"),
        Finding::new("manifest/no_maintainer", Severity::Warn, "none"),
        Finding::new("runtime/topic_no_subscriber", Severity::Info, "t"),
    ]
}

#[test]
fn check_report_lists_findings_and_summary() {
    let text = check_report(&findings());
    assert_eq!(
        text,
        "error dep/circular  cycle [a]\n  Fix: Remove it\nwarn manifest/no_maintainer  none\ninfo runtime/topic_no_subscriber  t\n\n3 findings (1 error, 1 warn, 1 info)\n"
    );
    assert_eq!(check_report(&vec![]), "");
}

#[test]
fn severity_counts_per_level() {
    let mut fs = findings();
    fs.push(Finding::new("x", Severity::Error, "y"));
    assert_eq!(severity_counts(&fs), (2, 1, 1));
}

#[test]
fn exit_code_follows_fail_on() {
    let fs = findings();
    assert_eq!(check_exit_code(FailOn::Error, &fs), 1);
    assert_eq!(check_exit_code(FailOn::Never, &fs), 0);
    let only_info = vec![Finding::new("r", Severity::Info, "m")];
    assert_eq!(check_exit_code(FailOn::Warn, &only_info), 0);
    assert_eq!(check_exit_code(FailOn::Info, &only_info), 1);
}

#[test]
fn should_fail_is_monotone_in_the_policy() {
    for (e, w, i) in [(true, false, false), (false, true, false), (false, false, true), (false, false, false)] {
        assert!(!FailOn::Never.should_fail(e, w, i));
        if FailOn::Error.should_fail(e, w, i) {
            assert!(FailOn::Warn.should_fail(e, w, i));
        }
        if FailOn::Warn.should_fail(e, w, i) {
            assert!(FailOn::Info.should_fail(e, w, i));
        }
    }
}

#[test]
fn option_names_in_any_case() {
    assert_eq!(parse_min_severity("ERROR"), Severity::Error);
    assert_eq!(parse_min_severity("bogus"), Severity::Warn);
    assert_eq!(parse_rule_set("Runtime"), Ok(RuleSet::Runtime));
    assert_eq!(parse_rule_set("x"), Err("Unknown rule set: x".to_string()));
    assert_eq!(parse_fail_on("none"), Ok(FailOn::Never));
    assert_eq!(parse_fail_on("sometimes"), Err("Unknown fail-on: sometimes".to_string()));
    let o = check_options("info", "nope", "nope", Babel42Config::default());
    assert_eq!(o.min_severity, Severity::Info);
    assert_eq!(o.rule_set, RuleSet::All);
    assert_eq!(o.fail_on, FailOn::Error);
    assert!(o.config.is_some());
}

#[test]
fn default_check_options() {
    let o = CheckOpts::default();
    assert_eq!(o.min_severity, Severity::Warn);
    assert_eq!(o.rule_set, RuleSet::All);
    assert!(RuleSet::All.includes_dep() && !RuleSet::Dep.includes_manifest());
}

#[test]
fn analyze_report_of_empty_project() {
    let p = Project {
        workspace_root: "/ws".to_string(),
        packages: vec![],
        dependency_graph: DiGraph::new(),
        launch_include_graph: LaunchIncludeGraph(DiGraph::new()),
        runtime_graph: RuntimeGraph {
            nodes: vec![],
            topics: vec![],
            services: vec![],
            topic_publishers: vec![],
            topic_subscribers: vec![],
            service_servers: vec![],
            service_clients: vec![],
            topic_publisher_types: vec![],
            topic_subscriber_types: vec![],
            service_server_types: vec![],
            service_client_types: vec![],
        },
    };
    assert_eq!(analyze_report(&p, &vec![]), "Workspace: /ws\nPackages: 0\n\n\nBuild order: \n");
    assert_eq!(analyze_report(&p, &vec!["a", "b"]), "Workspace: /ws\nPackages: 0\n\n\nBuild order: a -> b\n");
}

#[test]
fn severity_order() {
    assert!(Severity::Error.at_least(&Severity::Warn));
    assert!(Severity::Warn.at_least(&Severity::Warn));
    assert!(!Severity::Info.at_least(&Severity::Warn));
    assert!(Severity::Info.rank() < Severity::Error.rank());
}
