use babel42::checks::dep::{check_dep, check_dep_with_config};
use babel42::checks::launch::check_launch;
use babel42::checks::manifest::check_manifest;
use babel42::checks::model::{CheckOpts, FailOn, Finding, Location, RuleSet, Severity};
use babel42::checks::run_checks;
use babel42::checks::runtime::check_runtime;
use babel42::checks::sarif::{findings_to_sarif, location_uri, rule_description, severity_to_sarif_level};
use babel42::cmake::CmakePackageInfo;
use babel42::model::{
    Dependency, DependencyEdge, DependencyRole, LaunchIncludeGraph, LaunchRef,
    Maintainer, Package, PackageManifest, Project, RuntimeGraph, RuntimeNode, RuntimeService,
    RuntimeTopic,
};
use babel42::project_config::Babel42Config;
use petgraph::graph::DiGraph;

fn manifest(name: &str) -> PackageManifest {
    PackageManifest {
        format: 3,
        name: name.to_string(),
        version: "0.1".to_string(),
        description: Some("x".to_string()),
        maintainers: vec![Maintainer { email: Some("a@b.c".to_string()), name: "Alice".to_string() }],
        license: Some("Apache".to_string()),
        urls: vec![],
        authors: vec![],
        dependencies: vec![],
        build_types: vec![],
        member_of_groups: vec![],
        is_metapackage: false,
    }
}

fn package(manifest: PackageManifest, cmake_info: Option<CmakePackageInfo>) -> Package {
    Package {
        manifest,
        path: ".".to_string(),
        messages: vec![],
        services: vec![],
        actions: vec![],
        cmake_info,
        setup_py_info: None,
        xacro_files: vec![],
        launch_files: vec![],
        config_files: vec![],
        python_node_files: vec![],
        cpp_node_files: vec![],
    }
}

fn empty_runtime() -> RuntimeGraph {
    RuntimeGraph {
        nodes: vec![],
        topics: vec![],
        services: vec![],
        topic_publishers: vec![],
        topic_subscribers: vec![],
        service_servers: vec![],
        service_clients: vec![],
        topic_publisher_types: vec![],
        topic_subscriber_types: vec![],
        service_server_types: vec![],
        service_client_types: vec![],
    }
}

fn project(root: &str, packages: Vec<Package>) -> Project {
    Project {
        workspace_root: root.to_string(),
        packages,
        dependency_graph: DiGraph::new(),
        launch_include_graph: LaunchIncludeGraph(DiGraph::new()),
        runtime_graph: empty_runtime(),
    }
}

fn sensor_msgs_project() -> Project {
    let mut m = manifest("test_pkg");
    m.maintainers = vec![];
    m.dependencies.push(Dependency { name: "ament_cmake".to_string(), role: DependencyRole::BuildTool });
    let mut cmake = CmakePackageInfo::default();
    cmake.find_package = vec!["ament_cmake".to_string(), "sensor_msgs".to_string()];
    project(".", vec![package(m, Some(cmake))])
}

#[test]
fn find_package_missing_reported() {
    let project = sensor_msgs_project();
    let findings = check_dep(&project);
    let fp_missing: Vec<_> = findings
        .iter()
        .filter(|f| f.rule_id == "dep/find_package_missing")
        .collect();
    assert_eq!(fp_missing.len(), 1);
    assert!(fp_missing[0].message.contains("sensor_msgs"));
}

#[test]
fn missing_description_reported() {
    let mut m = manifest("no_desc");
    m.description = None;
    let project = project(".", vec![package(m, None)]);
    let findings = check_manifest(&project);
    let desc: Vec<_> = findings
        .iter()
        .filter(|f| f.rule_id == "manifest/missing_description")
        .collect();
    assert_eq!(desc.len(), 1);
}

#[test]
fn findings_to_sarif_produces_valid_structure() {
    let mut pk = package(manifest("test_pkg"), None);
    pk.path = "/ws/test_pkg".to_string();
    let project = project("/ws", vec![pk]);
    let findings = vec![Finding::new(
        "dep/find_package_missing",
        Severity::Error,
        "find_package(sensor_msgs) in CMake but not in package.xml",
    )
    .with_location(Location {
        package: Some("test_pkg".to_string()),
        file: Some("CMakeLists.txt".to_string()),
        line: Some(5),
        context: None,
    })
    .with_fix_hint("Add <depend>sensor_msgs</depend>")];

    let sarif = findings_to_sarif(&findings, &project);
    assert_eq!(sarif.version, "2.1.0");
    assert!(sarif.tool_name.contains("babel42"));
    assert_eq!(sarif.results.len(), 1);
    assert_eq!(sarif.results[0].rule_id, "dep/find_package_missing");
    assert_eq!(sarif.results[0].level, "error");
    assert_eq!(sarif.results[0].location.as_ref().unwrap().uri, "test_pkg/CMakeLists.txt");
}

#[test]
fn find_package_missing_details() {
    let findings = check_dep(&sensor_msgs_project());
    assert_eq!(findings.len(), 1);
    let f = &findings[0];
    assert_eq!(f.severity, Severity::Error);
    assert_eq!(f.message, "find_package(sensor_msgs) in CMake but not in package.xml");
    assert_eq!(f.fix_hint.as_deref(), Some("Add <depend>sensor_msgs</depend> to package.xml"));
    let loc = f.location.as_ref().unwrap();
    assert_eq!(loc.package.as_deref(), Some("test_pkg"));
    assert_eq!(loc.file.as_deref(), Some("CMakeLists.txt"));
}

#[test]
fn skip_packages_removes_the_finding() {
    let project = sensor_msgs_project();
    let config = Babel42Config { skip_packages: vec!["Sensor_Msgs".to_string()], ..Babel42Config::default() };
    assert!(check_dep_with_config(&project, Some(&config)).is_empty());
    assert_eq!(check_dep_with_config(&project, None).len(), 1);
}

#[test]
fn system_vendor_package_is_a_warning_and_test_package_gets_test_depend() {
    let mut cmake = CmakePackageInfo::default();
    cmake.find_package = vec!["yaml-cpp".to_string(), "ament_cmake_gtest".to_string()];
    let project = project(".", vec![package(manifest("p"), Some(cmake))]);
    let findings = check_dep(&project);
    assert_eq!(findings.len(), 2);
    assert_eq!(findings[0].severity, Severity::Warn);
    assert_eq!(findings[1].severity, Severity::Error);
    assert_eq!(
        findings[1].fix_hint.as_deref(),
        Some("Add <test_depend>ament_cmake_gtest</test_depend> to package.xml")
    );
}

#[test]
fn ament_target_undeclared_reported() {
    let mut cmake = CmakePackageInfo::default();
    cmake.ament_target_deps = vec![("node".to_string(), vec!["rclcpp".to_string(), "${VARS}".to_string()])];
    let project = project(".", vec![package(manifest("p"), Some(cmake))]);
    let findings = check_dep(&project);
    assert_eq!(findings.len(), 1);
    assert_eq!(findings[0].rule_id, "dep/ament_target_undeclared");
    assert_eq!(findings[0].message, "ament_target_dependencies(node ...) references 'rclcpp' not in package.xml");
    assert_eq!(findings[0].location.as_ref().unwrap().context.as_deref(), Some("target: node"));
}

#[test]
fn circular_dependency_reported_once() {
    let mut p = project(".", vec![package(manifest("a"), None), package(manifest("b"), None)]);
    let e = DependencyEdge { role: DependencyRole::Depend };
    let a = p.dependency_graph.add_node("a".to_string());
    let b = p.dependency_graph.add_node("b".to_string());
    p.dependency_graph.add_edge(a, b, e);
    p.dependency_graph.add_edge(b, a, e);
    let findings = check_dep(&p);
    assert_eq!(findings.len(), 1);
    assert_eq!(findings[0].rule_id, "dep/circular");
    assert!(p.topological_order().is_empty());
}

#[test]
fn acyclic_graph_has_build_order() {
    let mut p = project(".", vec![package(manifest("a"), None), package(manifest("b"), None)]);
    let e = DependencyEdge { role: DependencyRole::Depend };
    let a = p.dependency_graph.add_node("a".to_string());
    let b = p.dependency_graph.add_node("b".to_string());
    p.dependency_graph.add_edge(a, b, e);
    assert!(check_dep(&p).is_empty());
    assert_eq!(p.topological_order(), ["b", "a"]);
}

#[test]
fn build_order_puts_every_dependency_first() {
    let mut p = project(".", vec![]);
    let e = DependencyEdge { role: DependencyRole::Depend };
    let app = p.dependency_graph.add_node("app".to_string());
    let lib = p.dependency_graph.add_node("lib".to_string());
    let base = p.dependency_graph.add_node("base".to_string());
    p.dependency_graph.add_edge(app, lib, e.clone());
    p.dependency_graph.add_edge(lib, base, e.clone());
    p.dependency_graph.add_edge(app, base, e);
    assert_eq!(p.topological_order(), ["base", "lib", "app"]);
}

#[test]
fn runtime_topic_type_mismatch() {
    let mut p = project(".", vec![]);
    p.runtime_graph = RuntimeGraph {
        nodes: vec![
            RuntimeNode { package: "p".to_string(), executable: "talker".to_string(), name: None },
            RuntimeNode { package: "p".to_string(), executable: "listener".to_string(), name: None },
        ],
        topics: vec![RuntimeTopic { name: "/t".to_string(), msg_type: "std_msgs/msg/String".to_string() }],
        services: vec![],
        topic_publishers: vec![(0, 0)],
        topic_subscribers: vec![(1, 0)],
        service_servers: vec![],
        service_clients: vec![],
        topic_publisher_types: vec!["std_msgs/msg/String".to_string()],
        topic_subscriber_types: vec!["std_msgs/msg/Int32".to_string()],
        service_server_types: vec![],
        service_client_types: vec![],
    };
    let findings = check_runtime(&p);
    assert_eq!(findings.len(), 1);
    assert_eq!(findings[0].rule_id, "runtime/topic_type_mismatch");
    assert_eq!(findings[0].severity, Severity::Error);
    assert_eq!(
        findings[0].message,
        "Topic '/t' has publisher/subscriber type mismatch: publishers use [\"std_msgs/msg/String\"], subscribers use [\"std_msgs/msg/Int32\"]"
    );
    assert_eq!(findings[0].location.as_ref().unwrap().context.as_deref(), Some("std_msgs/msg/String"));
    assert!(findings[0].fix_hint.is_none());
}

#[test]
fn runtime_same_type_sets_are_no_mismatch() {
    let mut p = project(".", vec![]);
    p.runtime_graph = RuntimeGraph {
        nodes: vec![
            RuntimeNode { package: "p".to_string(), executable: "a".to_string(), name: None },
            RuntimeNode { package: "p".to_string(), executable: "b".to_string(), name: None },
        ],
        topics: vec![RuntimeTopic { name: "/t".to_string(), msg_type: "T".to_string() }],
        services: vec![],
        topic_publishers: vec![(0, 0), (1, 0)],
        topic_subscribers: vec![(1, 0)],
        service_servers: vec![],
        service_clients: vec![],
        topic_publisher_types: vec!["T".to_string(), "T".to_string()],
        topic_subscriber_types: vec!["T".to_string()],
        service_server_types: vec![],
        service_client_types: vec![],
    };
    assert!(check_runtime(&p).is_empty());
}

#[test]
fn runtime_service_type_mismatch() {
    let mut p = project(".", vec![]);
    p.runtime_graph = RuntimeGraph {
        nodes: vec![
            RuntimeNode { package: "p".to_string(), executable: "server".to_string(), name: None },
            RuntimeNode { package: "p".to_string(), executable: "client".to_string(), name: None },
        ],
        topics: vec![],
        services: vec![RuntimeService { name: "add".to_string(), srv_type: "pkg/srv/Add".to_string() }],
        topic_publishers: vec![],
        topic_subscribers: vec![],
        service_servers: vec![(0, 0)],
        service_clients: vec![(1, 0), (1, 0)],
        topic_publisher_types: vec![],
        topic_subscriber_types: vec![],
        service_server_types: vec!["pkg/srv/Add".to_string()],
        service_client_types: vec!["pkg/srv/Add".to_string(), "pkg/srv/Sub".to_string()],
    };
    let findings = check_runtime(&p);
    assert_eq!(findings.len(), 1);
    assert_eq!(findings[0].rule_id, "runtime/service_type_mismatch");
    assert_eq!(findings[0].severity, Severity::Error);
    assert_eq!(
        findings[0].message,
        "Service 'add' has server/client type mismatch: servers use [\"pkg/srv/Add\"], clients use [\"pkg/srv/Add\", \"pkg/srv/Sub\"]"
    );
    assert_eq!(findings[0].location.as_ref().unwrap().context.as_deref(), Some("pkg/srv/Add"));
}

#[test]
fn launch_include_cycle_and_missing_package() {
    let mut p = project(".", vec![package(manifest("a"), None)]);
    let g = &mut p.launch_include_graph.0;
    let x = g.add_node(LaunchRef { package: "a".to_string(), file: "x.launch.py".to_string() });
    let y = g.add_node(LaunchRef { package: "a".to_string(), file: "y.launch.py".to_string() });
    g.add_edge(x, y, ());
    g.add_edge(y, x, ());
    let findings = check_launch(&p);
    assert_eq!(findings.len(), 1);
    assert_eq!(findings[0].rule_id, "launch/include_cycle");
    assert_eq!(findings[0].severity, Severity::Error);
}

#[test]
fn runtime_topic_without_publisher_and_without_subscriber() {
    let mut p = project(".", vec![]);
    p.runtime_graph = RuntimeGraph {
        nodes: vec![RuntimeNode { package: "p".to_string(), executable: "e".to_string(), name: None }],
        topics: vec![
            RuntimeTopic { name: "in".to_string(), msg_type: "std_msgs/msg/String".to_string() },
            RuntimeTopic { name: "out".to_string(), msg_type: String::new() },
        ],
        services: vec![],
        topic_publishers: vec![(0, 1)],
        topic_subscribers: vec![(0, 0)],
        service_servers: vec![],
        service_clients: vec![],
        topic_publisher_types: vec![],
        topic_subscriber_types: vec![],
        service_server_types: vec![],
        service_client_types: vec![],
    };
    let findings = check_runtime(&p);
    assert_eq!(findings.len(), 2);
    assert_eq!(findings[0].rule_id, "runtime/topic_no_publisher");
    assert_eq!(findings[0].severity, Severity::Warn);
    assert_eq!(findings[1].rule_id, "runtime/topic_no_subscriber");
    assert_eq!(findings[1].severity, Severity::Info);
}

#[test]
fn run_checks_keeps_only_findings_at_minimum_severity() {
    let mut m = manifest("test_pkg");
    m.description = None;
    let mut cmake = CmakePackageInfo::default();
    cmake.find_package = vec!["sensor_msgs".to_string()];
    let p = project(".", vec![package(m, Some(cmake))]);
    let opts = CheckOpts { min_severity: Severity::Error, rule_set: RuleSet::All, fail_on: FailOn::Error, config: None };
    let findings = run_checks(&p, &opts);
    assert_eq!(findings.len(), 1);
    assert_eq!(findings[0].rule_id, "dep/find_package_missing");
    let opts = CheckOpts { min_severity: Severity::Info, ..opts };
    assert_eq!(run_checks(&p, &opts).len(), 2);
    let opts = CheckOpts { rule_set: RuleSet::Manifest, ..opts };
    let only = run_checks(&p, &opts);
    assert_eq!(only.len(), 1);
    assert_eq!(only[0].rule_id, "manifest/missing_description");
}

#[test]
fn sarif_levels_and_rule_table() {
    assert_eq!(severity_to_sarif_level(Severity::Error), "error");
    assert_eq!(severity_to_sarif_level(Severity::Warn), "warning");
    assert_eq!(severity_to_sarif_level(Severity::Info), "note");
    assert_eq!(rule_description("dep/circular"), "Circular dependency in package graph");
    assert_eq!(rule_description("no/such_rule"), "ROS2 project analysis finding");
}

#[test]
fn sarif_rules_once_each_and_locations_relative() {
    let mut pk = package(manifest("pkg"), None);
    pk.path = "/ws/src/pkg".to_string();
    let project = project("/ws", vec![pk]);
    let loc = Location { package: Some("pkg".to_string()), file: Some("CMakeLists.txt".to_string()), line: Some(3), context: None };
    let findings = vec![
        Finding::new("dep/circular", Severity::Error, "a").with_location(loc),
        Finding::new("manifest/no_maintainer", Severity::Warn, "b"),
        Finding::new("dep/circular", Severity::Error, "c").with_location(Location::default()),
    ];
    let sarif = findings_to_sarif(&findings, &project);
    assert_eq!(sarif.rules.len(), 2);
    assert_eq!(sarif.rules[0].id, "dep/circular");
    assert_eq!(sarif.rules[1].id, "manifest/no_maintainer");
    assert_eq!(sarif.results.len(), 3);
    let l = sarif.results[0].location.as_ref().unwrap();
    assert_eq!(l.uri, "src/pkg/CMakeLists.txt");
    assert_eq!(l.start_line, 3);
    assert!(sarif.results[1].location.is_none());
    let l = sarif.results[2].location.as_ref().unwrap();
    assert_eq!(l.uri, "unknown");
    assert_eq!(l.start_line, 1);
}

#[test]
fn location_uri_is_the_file_in_the_package_directory() {
    let mut pk = package(manifest("p"), None);
    pk.path = "/ws/src/p".to_string();
    let project = project("/ws", vec![pk]);
    let loc = Location { package: Some("p".to_string()), file: Some("CMakeLists.txt".to_string()), line: None, context: None };
    assert_eq!(location_uri(&loc, &project), Some("src/p/CMakeLists.txt".to_string()));
    let outside = Location { package: Some("p".to_string()), file: Some("/elsewhere/x.txt".to_string()), line: None, context: None };
    assert_eq!(location_uri(&outside, &project), Some("/elsewhere/x.txt".to_string()));
    let unknown = Location { package: Some("q".to_string()), file: Some("CMakeLists.txt".to_string()), line: None, context: None };
    assert_eq!(location_uri(&unknown, &project), None);
    let no_file = Location { package: Some("p".to_string()), file: None, line: None, context: None };
    assert_eq!(location_uri(&no_file, &project), None);
}
