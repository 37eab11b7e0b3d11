use babel42::config::config_file;
use babel42::project_config::{default_max_depth, Babel42Config, WorkspaceConfig};
use babel42::skip_config::{
    dep_should_skip_package, implicit_components_for, is_find_package_option,
    is_implicit_component_package, is_scope_keyword, is_system_vendor_package,
    is_test_only_package,
};
use babel42::syntax::quoted_value_exec;
use babel42::workspace::{is_ignore_marker, max_depth_of, workspace_from};
use babel42::xml::{attr_get, split_qname};

#[test]
fn find_package_options_in_any_case() {
    assert!(is_find_package_option("REQUIRED"));
    assert!(is_find_package_option("no_cmake_package_registry"));
    assert!(!is_find_package_option("rclcpp"));
}

#[test]
fn scope_keywords_in_any_case() {
    assert!(is_scope_keyword("public"));
    assert!(is_scope_keyword("INTERFACE"));
    assert!(!is_scope_keyword("rclcpp"));
}

#[test]
fn implicit_components() {
    assert!(implicit_components_for("boost").unwrap().contains(&"filesystem"));
    assert!(implicit_components_for("qt5widgets").unwrap().contains(&"widgets"));
    assert!(implicit_components_for("opencv").is_none());
    assert!(is_implicit_component_package("Qt6"));
    assert!(!is_implicit_component_package("OpenCV"));
}

#[test]
fn test_only_and_vendor_packages() {
    assert!(is_test_only_package("ament_cmake_GTEST"));
    assert!(!is_test_only_package("rclcpp"));
    assert!(is_system_vendor_package("TBB"));
    assert!(!is_system_vendor_package("rclcpp"));
}

#[test]
fn dep_skip_by_list_prefix_and_project() {
    assert!(dep_should_skip_package("Eigen3", None));
    assert!(dep_should_skip_package("Qt5Widgets", None));
    assert!(!dep_should_skip_package("my_lib", None));
    let skip = vec!["My_Lib".to_string()];
    assert!(dep_should_skip_package("my_lib", Some(&skip)));
}

#[test]
fn config_defaults() {
    assert_eq!(default_max_depth(), 8);
    let c = Babel42Config::default();
    assert!(c.skip_packages.is_empty());
    assert_eq!(c.workspace.max_depth, 8);
    assert_eq!(max_depth_of(None), 8);
    assert_eq!(max_depth_of(Some(&WorkspaceConfig { max_depth: 3 })), 3);
}

#[test]
fn workspace_root_package_first_and_no_repeat() {
    let found = vec!["/ws/package.xml".to_string(), "/ws/lib/k/package.xml".to_string()];
    let w = workspace_from("/ws", "/ws/package.xml", true, &found).unwrap();
    assert_eq!(w.root, "/ws");
    assert_eq!(w.packages, ["/ws/package.xml", "/ws/lib/k/package.xml"]);
}

#[test]
fn workspace_without_manifests_is_none() {
    assert!(workspace_from("/empty", "/empty/package.xml", false, &vec![]).is_none());
    let w = workspace_from("/ws", "/ws/package.xml", false, &vec!["/ws/src/a/package.xml".to_string()]).unwrap();
    assert_eq!(w.packages, ["/ws/src/a/package.xml"]);
}

#[test]
fn qualified_names_and_attributes() {
    assert_eq!(split_qname("xacro:include"), ("include".to_string(), "xacro".to_string()));
    assert_eq!(split_qname("link"), ("link".to_string(), String::new()));
    let attrs = vec![("k".to_string(), "1".to_string()), ("k".to_string(), "2".to_string())];
    assert_eq!(attr_get(&attrs, "k").as_deref(), Some("2"));
    assert!(attr_get(&attrs, "x").is_none());
}

#[test]
fn quoted_values() {
    assert_eq!(quoted_value_exec(" \"abc\" ").as_deref(), Some("abc"));
    assert_eq!(quoted_value_exec("'x'").as_deref(), Some("x"));
    assert!(quoted_value_exec("abc").is_none());
    assert!(quoted_value_exec("\"").is_none());
}

#[test]
fn config_file_keeps_yaml_text_only() {
    let ok = config_file("config/a.yaml", Some("a: 1\nb: [x, y]\n".to_string()));
    assert_eq!(ok.path, "config/a.yaml");
    assert_eq!(ok.content.as_deref(), Some("a: 1\nb: [x, y]\n"));
    let bad = config_file("config/b.yaml", Some("a: [1, 2\n".to_string()));
    assert!(bad.content.is_none());
    assert!(config_file("config/c.yaml", None).content.is_none());
}

#[test]
fn ignore_markers() {
    assert!(is_ignore_marker("COLCON_IGNORE"));
    assert!(is_ignore_marker("AMENT_IGNORE"));
    assert!(!is_ignore_marker("colcon_ignore"));
    assert!(!is_ignore_marker("CATKIN_IGNORE"));
    assert!(!is_ignore_marker(""));
}
