use babel42::cmake::{normalize_cmake_source, parse_cmake_lists_str, unquote, CmakeError};

#[test]
fn parse_find_package() {
    let s = r#"find_package(ament_cmake REQUIRED)
find_package(std_msgs REQUIRED)
"#;
    let info = parse_cmake_lists_str(s).unwrap();
    assert_eq!(info.find_package, ["ament_cmake", "std_msgs"]);
}

#[test]
fn parse_find_package_components_skipped() {
    let s = r#"find_package(OpenCV REQUIRED COMPONENTS core highgui imgcodecs imgproc videoio)
"#;
    let info = parse_cmake_lists_str(s).unwrap();
    assert_eq!(info.find_package, ["OpenCV"]);
}

#[test]
fn parse_rosidl_generate_interfaces() {
    let s = r#"rosidl_generate_interfaces(${PROJECT_NAME}
  "srv/AddTwoInts.srv"
  "srv/EulerToQuaternion.srv"
  "action/Fibonacci.action"
)
"#;
    let info = parse_cmake_lists_str(s).unwrap();
    assert!(info.rosidl_interfaces.contains(&"AddTwoInts.srv".to_string()));
    assert!(info.rosidl_interfaces.contains(&"EulerToQuaternion.srv".to_string()));
    assert!(info.rosidl_interfaces.contains(&"Fibonacci.action".to_string()));
}

#[test]
fn parse_ament_target_dependencies() {
    let s = r#"ament_target_dependencies(slider_control rclcpp trajectory_msgs sensor_msgs)
"#;
    let info = parse_cmake_lists_str(s).unwrap();
    assert_eq!(info.ament_target_deps.len(), 1);
    assert_eq!(info.ament_target_deps[0].0, "slider_control");
    assert!(info.ament_target_deps[0].1.contains(&"rclcpp".to_string()));
}

#[test]
fn parse_install_directories() {
    let s = r#"install(
  DIRECTORY launch config
  DESTINATION share/${PROJECT_NAME}
)
"#;
    let info = parse_cmake_lists_str(s).unwrap();
    assert!(info.install_directories.contains(&"launch".to_string()));
    assert!(info.install_directories.contains(&"config".to_string()));
}

#[test]
fn parse_find_package_skips_version() {
    let s = r#"find_package(Bullet 2.87 REQUIRED)
find_package(octomap 1.9.7...<1.10.0 REQUIRED)
"#;
    let info = parse_cmake_lists_str(s).unwrap();
    assert_eq!(info.find_package, ["Bullet", "octomap"]);
    assert!(!info.find_package.contains(&"2.87".to_string()));
    assert!(!info.find_package.contains(&"1.9.7...<1.10.0".to_string()));
}

#[test]
fn parse_find_package_boost_components_without_keyword() {
    let s = r#"find_package(
  Boost
  REQUIRED
  system
  filesystem
  date_time
  thread
  serialization)
"#;
    let info = parse_cmake_lists_str(s).unwrap();
    assert_eq!(info.find_package, ["Boost"]);
    assert!(!info.find_package.contains(&"system".to_string()));
}

#[test]
fn parse_find_package_qt5_without_components_keyword() {
    let s = r#"find_package(Qt5 ${QT_VERSION} REQUIRED Core Widgets)
"#;
    let info = parse_cmake_lists_str(s).unwrap();
    assert_eq!(info.find_package.len(), 1);
    assert!(info.find_package[0].to_lowercase().starts_with("qt5"));
    assert!(!info.find_package.contains(&"Core".to_string()));
    assert!(!info.find_package.contains(&"Widgets".to_string()));
}

#[test]
fn parse_find_package_skips_no_cmake_package_registry() {
    let s = r#"find_package(TBB REQUIRED NO_CMAKE_PACKAGE_REGISTRY)
"#;
    let info = parse_cmake_lists_str(s).unwrap();
    assert_eq!(info.find_package, ["TBB"]);
    assert!(!info.find_package.contains(&"NO_CMAKE_PACKAGE_REGISTRY".to_string()));
}

#[test]
fn parse_ament_target_dependencies_skips_scope() {
    let s = r#"ament_target_dependencies(moveit_ros_occupancy_map_server PUBLIC
                          ${THIS_PACKAGE_INCLUDE_DEPENDS})
"#;
    let info = parse_cmake_lists_str(s).unwrap();
    assert_eq!(info.ament_target_deps.len(), 1);
    assert!(!info.ament_target_deps[0].1.contains(&"PUBLIC".to_string()));
}

#[test]
fn parse_add_executable() {
    let s = r#"add_executable(slider_control src/slider_control.cpp)
ament_target_dependencies(slider_control rclcpp trajectory_msgs sensor_msgs)
"#;
    let info = parse_cmake_lists_str(s).unwrap();
    assert_eq!(info.add_executables.len(), 1);
    assert_eq!(info.add_executables[0].0, "slider_control");
    assert_eq!(info.add_executables[0].1, ["src/slider_control.cpp"]);
}

#[test]
fn cmake_unbalanced_parenthesis_is_a_parse_error() {
    let r = parse_cmake_lists_str("find_package(rclcpp REQUIRED\n");
    assert!(matches!(r, Err(CmakeError::Parse(_))));
}

#[test]
fn cmake_comments_and_case_of_command_names() {
    let s = "# find_package(hidden)\nFIND_PACKAGE(rclcpp REQUIRED) # trailing\n";
    let info = parse_cmake_lists_str(s).unwrap();
    assert_eq!(info.find_package, ["rclcpp"]);
}

#[test]
fn cmake_empty_text_gives_empty_info() {
    let info = parse_cmake_lists_str("").unwrap();
    assert!(info.find_package.is_empty());
    assert!(info.add_executables.is_empty());
    assert!(info.install_directories.is_empty());
}

#[test]
fn cmake_source_normalized_with_one_newline() {
    assert_eq!(normalize_cmake_source("project(x)  \n\n"), "project(x)\n");
    assert_eq!(normalize_cmake_source(""), "\n");
}

#[test]
fn unquote_strips_one_pair_of_quotes() {
    assert_eq!(unquote("\"srv/A.srv\""), "srv/A.srv");
    assert_eq!(unquote("plain"), "plain");
}

#[test]
fn cmake_implicit_component_mode_ends_at_other_name() {
    let info = parse_cmake_lists_str("find_package(Boost REQUIRED system OpenCV)\n").unwrap();
    assert_eq!(info.find_package, ["Boost", "OpenCV"]);
}

#[test]
fn cmake_variables_are_passed_over() {
    let info = parse_cmake_lists_str("find_package(rclcpp ${VER} REQUIRED)\n").unwrap();
    assert_eq!(info.find_package, ["rclcpp"]);
}

#[test]
fn cmake_add_executable_keeps_c_sources_only() {
    let info = parse_cmake_lists_str("add_executable(n src/a.cpp include/a.hpp src/b.c)\n").unwrap();
    assert_eq!(info.add_executables[0].1, ["src/a.cpp", "src/b.c"]);
    let none = parse_cmake_lists_str("add_executable(n include/a.hpp)\n").unwrap();
    assert!(none.add_executables.is_empty());
}

#[test]
fn cmake_install_reads_first_directory_list_only() {
    let info = parse_cmake_lists_str("install(DIRECTORY a DESTINATION x DIRECTORY b)\n").unwrap();
    assert_eq!(info.install_directories, ["a"]);
}

#[test]
fn cmake_target_without_dependencies_is_not_listed() {
    let info = parse_cmake_lists_str("ament_target_dependencies(t)\n").unwrap();
    assert!(info.ament_target_deps.is_empty());
}

#[test]
fn cmake_rosidl_takes_file_names_of_interface_files() {
    let s = "rosidl_generate_interfaces(${PROJECT_NAME} \"msg/A.msg\" DEPENDENCIES std_msgs)\n";
    let info = parse_cmake_lists_str(s).unwrap();
    assert_eq!(info.rosidl_interfaces, ["A.msg"]);
}
