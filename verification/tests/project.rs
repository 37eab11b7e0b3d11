use babel42::checks::runtime::check_runtime;
use babel42::checks::model::Severity;
use babel42::launch::{LaunchFileInfo, LaunchNode};
use babel42::model::{
    BuildType, Dependency, DependencyRole, LaunchFile, Package, PackageManifest,
};
use babel42::project::runtime::{known_external_publishers_exec, normalize_topic_exec};
use babel42::project::{
    assemble_project, build_dependency_graph, build_launch_include_graph, is_config_file,
    is_cpp_source, is_launch_file, is_python_source, last_package_index, wants_cmake,
    wants_setup_py, within_graph_limits, ProjectError,
};
use babel42::package_xml::PackageXmlError;
use babel42::python_nodes::{PyNodeInterface, PyNodeInterfaceKind, PythonNodeFile};
use babel42::setup_py::SetupPyInfo;

fn manifest(name: &str, deps: Vec<(&str, DependencyRole)>) -> PackageManifest {
    PackageManifest {
        format: 3,
        name: name.to_string(),
        version: "1.0.0".to_string(),
        description: Some("d".to_string()),
        maintainers: vec![],
        license: None,
        urls: vec![],
        authors: vec![],
        dependencies: deps
            .into_iter()
            .map(|(n, role)| Dependency { name: n.to_string(), role })
            .collect(),
        build_types: vec![],
        member_of_groups: vec![],
        is_metapackage: false,
    }
}

fn package(manifest: PackageManifest) -> Package {
    Package {
        manifest,
        path: "src/p".to_string(),
        messages: vec![],
        services: vec![],
        actions: vec![],
        cmake_info: None,
        setup_py_info: None,
        xacro_files: vec![],
        launch_files: vec![],
        config_files: vec![],
        python_node_files: vec![],
        cpp_node_files: vec![],
    }
}

fn launch_file(path: &str, includes: Vec<(&str, &str)>, nodes: Vec<(&str, &str)>) -> LaunchFile {
    LaunchFile {
        path: path.to_string(),
        info: LaunchFileInfo {
            included_launches: includes.into_iter().map(|(a, b)| (a.to_string(), b.to_string())).collect(),
            package_refs: vec![],
            nodes: nodes
                .into_iter()
                .map(|(p, e)| LaunchNode {
                    package: p.to_string(),
                    executable: e.to_string(),
                    name: None,
                    remappings: vec![],
                })
                .collect(),
        },
    }
}

#[test]
fn dependency_graph_edges_point_to_workspace_packages() {
    let pkgs = vec![
        package(manifest("a", vec![("b", DependencyRole::Depend), ("rclcpp", DependencyRole::Depend)])),
        package(manifest("b", vec![])),
    ];
    let g = build_dependency_graph(&pkgs);
    let names: Vec<&String> = g.node_weights().collect();
    assert_eq!(names, ["a", "b"]);
    assert_eq!(g.edge_count(), 1);
    let e = &g.raw_edges()[0];
    assert_eq!((e.source().index(), e.target().index()), (0, 1));
    assert_eq!(e.weight.role, DependencyRole::Depend);
}

#[test]
fn last_package_of_a_name_wins() {
    let pkgs = vec![package(manifest("a", vec![])), package(manifest("a", vec![]))];
    assert_eq!(last_package_index(&pkgs, "a"), Some(1));
    assert_eq!(last_package_index(&pkgs, "z"), None);
}

#[test]
fn launch_include_graph_shares_nodes() {
    let mut a = package(manifest("a", vec![]));
    a.launch_files = vec![
        launch_file("launch/x.launch.py", vec![("a", "y.launch.py")], vec![]),
        launch_file("launch\\z.launch.py", vec![("a", "y.launch.py")], vec![]),
    ];
    let g = build_launch_include_graph(&vec![a]).0;
    let files: Vec<&str> = g.node_weights().map(|r| r.file.as_str()).collect();
    assert_eq!(files, ["launch/x.launch.py", "y.launch.py", "launch/z.launch.py"]);
    let edges: Vec<(usize, usize)> = g.raw_edges().iter().map(|e| (e.source().index(), e.target().index())).collect();
    assert_eq!(edges, [(0, 1), (2, 1)]);
}

#[test]
fn assembled_project_has_runtime_graph() {
    let mut demo = package(manifest("demo", vec![]));
    demo.setup_py_info = Some(SetupPyInfo {
        entry_points: vec!["talker".to_string()],
        entry_point_modules: vec![("talker".to_string(), "demo.talker".to_string())],
    });
    demo.python_node_files = vec![PythonNodeFile {
        path: "demo/talker.py".to_string(),
        interfaces: vec![PyNodeInterface {
            kind: PyNodeInterfaceKind::Publisher,
            name: "/chatter".to_string(),
            interface_type: "std_msgs/msg/String".to_string(),
            line: Some(3),
        }],
    }];
    let pkgs = vec![demo];
    assert!(within_graph_limits(&pkgs));
    let p = assemble_project("/ws".to_string(), pkgs);
    let rg = &p.runtime_graph;
    assert_eq!(rg.nodes.len(), 1);
    assert_eq!(rg.nodes[0].executable, "talker");
    assert_eq!(rg.topics.len(), 1);
    assert_eq!(rg.topics[0].name, "/chatter");
    assert_eq!(rg.topic_publishers, [(0, 0)]);
    let findings = check_runtime(&p);
    assert_eq!(findings.len(), 1);
    assert_eq!(findings[0].rule_id, "runtime/topic_no_subscriber");
    assert_eq!(findings[0].message, "Topic '/chatter' has 1 publisher(s) but no subscribers");
}

#[test]
fn remapped_joint_state_publisher_publishes_remapped_topic() {
    let mut b = package(manifest("bringup", vec![]));
    let mut lf = launch_file("launch/a.launch.py", vec![], vec![]);
    lf.info.nodes.push(LaunchNode {
        package: "joint_state_publisher_gui".to_string(),
        executable: "joint_state_publisher_gui".to_string(),
        name: None,
        remappings: vec![("/joint_states".to_string(), "/joint_commands".to_string())],
    });
    b.launch_files = vec![lf];
    let p = assemble_project("/ws".to_string(), vec![b]);
    assert_eq!(p.runtime_graph.nodes.len(), 1);
    assert_eq!(p.runtime_graph.topics.len(), 1);
    assert_eq!(p.runtime_graph.topics[0].name, "/joint_commands");
    assert_eq!(p.runtime_graph.topics[0].msg_type, "sensor_msgs/msg/JointState");
    assert_eq!(p.runtime_graph.topic_publishers, [(0, 0)]);
}

#[test]
fn launched_node_without_remapping_adds_no_topic() {
    let mut b = package(manifest("bringup", vec![]));
    b.launch_files = vec![launch_file(
        "launch/a.launch.py",
        vec![],
        vec![("joint_state_publisher_gui", "joint_state_publisher_gui"), ("joint_state_publisher_gui", "joint_state_publisher_gui")],
    )];
    let p = assemble_project("/ws".to_string(), vec![b]);
    assert_eq!(p.runtime_graph.nodes.len(), 1);
    assert!(p.runtime_graph.topics.is_empty());
}

#[test]
fn known_publishers_table() {
    assert_eq!(known_external_publishers_exec("joint_state_publisher", "joint_state_publisher").len(), 1);
    assert!(known_external_publishers_exec("joint_state_publisher", "other").is_empty());
}

#[test]
fn topic_names_lose_leading_slashes() {
    assert_eq!(normalize_topic_exec("//ns/topic"), "ns/topic");
    assert_eq!(normalize_topic_exec("topic"), "topic");
}

#[test]
fn which_build_files_a_package_asks_for() {
    let mut m = manifest("p", vec![("ament_cmake", DependencyRole::BuildTool)]);
    assert!(wants_cmake(&m));
    assert!(!wants_setup_py(&m));
    m.dependencies.clear();
    assert!(!wants_cmake(&m));
    m.build_types.push(BuildType::from_str(" Ament_Python "));
    assert!(wants_setup_py(&m));
    assert!(matches!(BuildType::from_str("catkin"), BuildType::Other(ref s) if s == "catkin"));
}

#[test]
fn file_kinds_by_name() {
    assert!(is_launch_file("launch/bringup.launch.py"));
    assert!(!is_launch_file("scripts/node.py"));
    assert!(is_python_source("scripts/node.py"));
    assert!(!is_python_source("launch/bringup.launch.py"));
    assert!(is_cpp_source("src/a.cc") && is_cpp_source("include/a.hpp") && !is_cpp_source("a.h"));
    assert!(is_config_file("config/p.yaml") && is_config_file("c.yml") && !is_config_file("c.json"));
}

#[test]
fn project_error_message() {
    let e = ProjectError::PackageXml(PackageXmlError::Xml("no <name>".to_string()));
    assert_eq!(e.message(), "package.xml: failed to parse XML: no <name>");
}

#[test]
fn exec_and_build_dependencies() {
    let m = manifest(
        "p",
        vec![
            ("a", DependencyRole::Depend),
            ("b", DependencyRole::Build),
            ("c", DependencyRole::Exec),
            ("d", DependencyRole::Test),
            ("e", DependencyRole::BuildTool),
        ],
    );
    let p = package(m);
    assert_eq!(p.exec_deps(), ["a", "c"]);
    assert_eq!(p.build_deps(), ["a", "b", "e"]);
    assert_eq!(p.name(), "p");
}

#[test]
fn topic_type_is_the_first_mentioned_and_a_mismatch_is_reported() {
    let mut demo = package(manifest("demo", vec![]));
    demo.setup_py_info = Some(SetupPyInfo {
        entry_points: vec!["talker".to_string(), "listener".to_string()],
        entry_point_modules: vec![
            ("talker".to_string(), "demo.talker".to_string()),
            ("listener".to_string(), "demo.listener".to_string()),
        ],
    });
    let iface = |kind, ty: &str| PyNodeInterface {
        kind,
        name: "/chatter".to_string(),
        interface_type: ty.to_string(),
        line: Some(1),
    };
    demo.python_node_files = vec![
        PythonNodeFile { path: "demo/talker.py".to_string(), interfaces: vec![iface(PyNodeInterfaceKind::Publisher, "std_msgs/msg/String")] },
        PythonNodeFile { path: "demo/listener.py".to_string(), interfaces: vec![iface(PyNodeInterfaceKind::Subscriber, "std_msgs/msg/Int32")] },
    ];
    let p = assemble_project("/ws".to_string(), vec![demo]);
    let rg = &p.runtime_graph;
    assert_eq!(rg.nodes.len(), 2);
    assert_eq!(rg.topics.len(), 1);
    assert_eq!(rg.topics[0].msg_type, "std_msgs/msg/String");
    assert_eq!(rg.topic_publishers, [(0, 0)]);
    assert_eq!(rg.topic_subscribers, [(1, 0)]);
    assert_eq!(rg.topic_publisher_types, ["std_msgs/msg/String"]);
    assert_eq!(rg.topic_subscriber_types, ["std_msgs/msg/Int32"]);
    let findings = check_runtime(&p);
    assert_eq!(findings.len(), 1);
    assert_eq!(findings[0].rule_id, "runtime/topic_type_mismatch");
    assert_eq!(findings[0].severity, Severity::Error);
    assert_eq!(
        findings[0].message,
        "Topic '/chatter' has publisher/subscriber type mismatch: publishers use [\"std_msgs/msg/String\"], subscribers use [\"std_msgs/msg/Int32\"]"
    );
}

#[test]
fn runtime_edges_stay_within_nodes_and_topics() {
    let mut demo = package(manifest("demo", vec![]));
    demo.setup_py_info = Some(SetupPyInfo {
        entry_points: vec!["a".to_string()],
        entry_point_modules: vec![("a".to_string(), "demo.a".to_string())],
    });
    demo.python_node_files = vec![PythonNodeFile {
        path: "demo/a.py".to_string(),
        interfaces: vec![
            PyNodeInterface { kind: PyNodeInterfaceKind::Publisher, name: "x".to_string(), interface_type: "T".to_string(), line: None },
            PyNodeInterface { kind: PyNodeInterfaceKind::Subscriber, name: "/x".to_string(), interface_type: "T".to_string(), line: None },
            PyNodeInterface { kind: PyNodeInterfaceKind::Service, name: "s".to_string(), interface_type: "S".to_string(), line: None },
            PyNodeInterface { kind: PyNodeInterfaceKind::Client, name: "s".to_string(), interface_type: "S".to_string(), line: None },
        ],
    }];
    let p = assemble_project("/ws".to_string(), vec![demo]);
    let rg = &p.runtime_graph;
    assert_eq!(rg.topics.len(), 1);
    assert_eq!(rg.services.len(), 1);
    for &(n, t) in rg.topic_publishers.iter().chain(rg.topic_subscribers.iter()) {
        assert!(n < rg.nodes.len() && t < rg.topics.len());
    }
    for &(n, s) in rg.service_servers.iter().chain(rg.service_clients.iter()) {
        assert!(n < rg.nodes.len() && s < rg.services.len());
    }
    assert!(check_runtime(&p).is_empty());
}

#[test]
fn assembled_project_reports_service_type_mismatch() {
    let mut demo = package(manifest("demo", vec![]));
    demo.setup_py_info = Some(SetupPyInfo {
        entry_points: vec!["server".to_string(), "client".to_string()],
        entry_point_modules: vec![
            ("server".to_string(), "demo.server".to_string()),
            ("client".to_string(), "demo.client".to_string()),
        ],
    });
    let iface = |kind, ty: &str| PyNodeInterface {
        kind,
        name: "add".to_string(),
        interface_type: ty.to_string(),
        line: Some(1),
    };
    demo.python_node_files = vec![
        PythonNodeFile { path: "demo/server.py".to_string(), interfaces: vec![iface(PyNodeInterfaceKind::Service, "pkg/srv/Add")] },
        PythonNodeFile { path: "demo/client.py".to_string(), interfaces: vec![iface(PyNodeInterfaceKind::Client, "pkg/srv/Sub")] },
    ];
    let p = assemble_project("/ws".to_string(), vec![demo]);
    let rg = &p.runtime_graph;
    assert_eq!(rg.services.len(), 1);
    assert_eq!(rg.service_server_types, ["pkg/srv/Add"]);
    assert_eq!(rg.service_client_types, ["pkg/srv/Sub"]);
    let findings = check_runtime(&p);
    assert_eq!(findings.len(), 1);
    assert_eq!(findings[0].rule_id, "runtime/service_type_mismatch");
    assert_eq!(
        findings[0].message,
        "Service 'add' has server/client type mismatch: servers use [\"pkg/srv/Add\"], clients use [\"pkg/srv/Sub\"]"
    );
}
