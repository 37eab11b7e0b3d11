use babel42::launch::parse_launch_str;

#[test]
fn parse_get_package_share_directory() {
    let s = r#"get_package_share_directory("arduinobot_controller")"#;
    let info = parse_launch_str(s).unwrap();
    assert!(info.package_refs.contains(&"arduinobot_controller".to_string()));
}

#[test]
fn parse_include_launch_description() {
    let s = r#"
IncludeLaunchDescription(
    os.path.join(
        get_package_share_directory("arduinobot_moveit"),
        "launch",
        "moveit.launch.py"
    ),
    launch_arguments={"is_sim": "True"}.items()
)"#;
    let info = parse_launch_str(s).unwrap();
    assert_eq!(info.included_launches.len(), 1);
    assert_eq!(info.included_launches[0].0, "arduinobot_moveit");
    assert_eq!(info.included_launches[0].1, "moveit.launch.py");
}

#[test]
fn parse_node() {
    let s = r#"
Node(
    package="moveit_ros_move_group",
    executable="move_group",
    output="screen",
)
"#;
    let info = parse_launch_str(s).unwrap();
    assert_eq!(info.nodes.len(), 1);
    assert_eq!(info.nodes[0].package, "moveit_ros_move_group");
    assert_eq!(info.nodes[0].executable, "move_group");
    assert!(info.nodes[0].remappings.is_empty());
}

#[test]
fn parse_node_with_remappings() {
    let s = r#"
Node(
    package='joint_state_publisher_gui',
    executable='joint_state_publisher_gui',
    remappings=[
        ('/joint_states', '/joint_commands'),
    ]
)
"#;
    let info = parse_launch_str(s).unwrap();
    assert_eq!(info.nodes.len(), 1);
    assert_eq!(info.nodes[0].package, "joint_state_publisher_gui");
    assert_eq!(info.nodes[0].remappings.len(), 1);
    assert_eq!(info.nodes[0].remappings[0].0, "/joint_states");
    assert_eq!(info.nodes[0].remappings[0].1, "/joint_commands");
}

#[test]
fn launch_package_refs_sorted_and_unique() {
    let s = r#"
a = get_package_share_directory("zeta")
b = get_package_share_directory("alpha")
c = get_package_share_directory("zeta")
"#;
    let info = parse_launch_str(s).unwrap();
    assert_eq!(info.package_refs, ["alpha", "zeta"]);
}

#[test]
fn launch_node_name_is_read() {
    let s = r#"Node(package="p", executable="e", name="n")"#;
    let info = parse_launch_str(s).unwrap();
    assert_eq!(info.nodes[0].name.as_deref(), Some("n"));
}

#[test]
fn launch_node_without_executable_is_not_a_node() {
    let s = r#"Node(package="p")"#;
    let info = parse_launch_str(s).unwrap();
    assert!(info.nodes.is_empty());
}

#[test]
fn launch_empty_text_reads_as_nothing() {
    let info = parse_launch_str("").unwrap();
    assert!(info.nodes.is_empty());
    assert!(info.included_launches.is_empty());
    assert!(info.package_refs.is_empty());
}

#[test]
fn launch_qualified_node_call_is_not_a_node() {
    let info = parse_launch_str(r#"launch_ros.actions.Node(package="p", executable="e")"#).unwrap();
    assert!(info.nodes.is_empty());
}

#[test]
fn launch_include_through_source_call_is_not_an_include() {
    let s = r#"IncludeLaunchDescription(PythonLaunchDescriptionSource(os.path.join(get_package_share_directory("a"), "launch", "x.launch.py")))"#;
    let info = parse_launch_str(s).unwrap();
    assert!(info.included_launches.is_empty());
    assert_eq!(info.package_refs, ["a"]);
}

#[test]
fn launch_join_takes_last_share_directory() {
    let s = r#"IncludeLaunchDescription(os.path.join(get_package_share_directory("a"), get_package_share_directory("b"), "x.launch.py"))"#;
    let info = parse_launch_str(s).unwrap();
    assert_eq!(info.included_launches, [("b".to_string(), "x.launch.py".to_string())]);
    assert_eq!(info.package_refs, ["a", "b"]);
}

#[test]
fn launch_node_needs_string_package_and_executable() {
    let info = parse_launch_str(r#"Node(package="p", executable=exe)"#).unwrap();
    assert!(info.nodes.is_empty());
    let info = parse_launch_str(r#"Node("x", package="p", executable="e", remappings=[("/a",), ("/b", "/c")])"#).unwrap();
    assert_eq!(info.nodes.len(), 1);
    assert_eq!(info.nodes[0].remappings, [("/b".to_string(), "/c".to_string())]);
}
