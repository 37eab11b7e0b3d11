use babel42::model::{BuildType, DependencyRole};
use babel42::package_xml::{parse_package_xml_str, PackageXmlError};

#[test]
fn parse_format3_arduinobot_msgs() {
    let xml = r#"<?xml version="1.0"?>
<package format="3">
  <name>arduinobot_msgs</name>
  <version>0.0.0</version>
  <description>Definition of Interfaces for the Arduinobot</description>
  <maintainer email="antonio.brandi@outlook.it">Antonio Brandi</maintainer>
  <license>Apache 2.0</license>
  <buildtool_depend>ament_cmake</buildtool_depend>
  <build_depend>rosidl_default_generators</build_depend>
  <depend>std_msgs</depend>
  <depend>action_msgs</depend>
  <exec_depend>rosidl_default_runtime</exec_depend>
  <member_of_group>rosidl_interface_packages</member_of_group>
  <export>
    <build_type>ament_cmake</build_type>
  </export>
</package>"#;
    let m = parse_package_xml_str(xml).unwrap();
    assert_eq!(m.format, 3);
    assert_eq!(m.name, "arduinobot_msgs");
    assert_eq!(m.maintainers.len(), 1);
    assert_eq!(m.maintainers[0].email.as_deref(), Some("antonio.brandi@outlook.it"));
    assert_eq!(m.member_of_groups, ["rosidl_interface_packages"]);
    assert_eq!(m.build_types.len(), 1);
    assert!(matches!(m.build_types[0], BuildType::AmentCmake));
    let dep_names: Vec<_> = m.dependencies.iter().map(|d| &d.name).collect();
    assert!(dep_names.contains(&&"std_msgs".to_string()));
    assert!(m
        .dependencies
        .iter()
        .any(|d| d.role == DependencyRole::BuildTool && d.name == "ament_cmake"));
}

#[test]
fn parse_run_depend() {
    let xml = r#"<?xml version="1.0"?>
<package>
  <name>karto_sdk</name>
  <version>1.1.4</version>
  <description>Catkinized ROS packaging of the OpenKarto library</description>
  <maintainer email="mferguson@fetchrobotics.com">Michael Ferguson</maintainer>
  <license>LGPLv3</license>
  <buildtool_depend>ament_cmake</buildtool_depend>
  <build_depend>boost</build_depend>
  <run_depend>boost</run_depend>
  <run_depend>tbb</run_depend>
</package>"#;
    let m = parse_package_xml_str(xml).unwrap();
    assert_eq!(m.name, "karto_sdk");
    let run_deps: Vec<_> = m
        .dependencies
        .iter()
        .filter(|d| d.role == DependencyRole::Exec)
        .map(|d| d.name.as_str())
        .collect();
    assert_eq!(run_deps, ["boost", "tbb"]);
}

#[test]
fn package_xml_without_name_is_an_error() {
    let xml = "<package format=\"3\"><version>1.0.0</version></package>";
    assert!(parse_package_xml_str(xml).is_err());
}

#[test]
fn package_xml_malformed_is_an_error() {
    let r = parse_package_xml_str("<package><name>x</nam></package>");
    assert!(r.is_err());
}

#[test]
fn package_xml_without_format_attribute() {
    let m = parse_package_xml_str("<package><name>p</name></package>").unwrap();
    assert_eq!(m.name, "p");
    assert!(m.description.is_none());
    assert!(m.maintainers.is_empty());
}

#[test]
fn package_xml_error_messages() {
    let e = PackageXmlError::Xml("bad".to_string());
    assert_eq!(e.message(), "failed to parse XML: bad");
    let e = PackageXmlError::Io("gone".to_string());
    assert_eq!(e.message(), "failed to read file: gone");
}

#[test]
fn package_xml_urls_authors_roles_and_defaults() {
    let xml = r#"<package format="x">
  <name>p</name>
  <description>
     Tools &amp; more
  </description>
  <url>https://example.org</url>
  <url type="repository">https://example.org/repo</url>
  <author email="b@c.d">Bob</author>
  <build_export_depend>a</build_export_depend>
  <doc_depend>b</doc_depend>
  <test_depend>c</test_depend>
  <metapackage>yes</metapackage>
  <export>
    <metapackage>yes</metapackage>
    <build_type>Ament_Python</build_type>
  </export>
</package>"#;
    let m = parse_package_xml_str(xml).unwrap();
    assert_eq!(m.format, 2);
    assert_eq!(m.version, "0.0.0");
    assert_eq!(m.description.as_deref(), Some("Tools & more"));
    assert_eq!(m.urls.len(), 2);
    assert_eq!(m.urls[0].url_type, "website");
    assert_eq!(m.urls[1].url_type, "repository");
    assert_eq!(m.urls[1].url, "https://example.org/repo");
    assert_eq!(m.authors.len(), 1);
    assert_eq!(m.authors[0].email.as_deref(), Some("b@c.d"));
    let roles: Vec<DependencyRole> = m.dependencies.iter().map(|d| d.role).collect();
    assert_eq!(roles, [DependencyRole::BuildExport, DependencyRole::Doc, DependencyRole::Test]);
    assert!(m.is_metapackage);
    assert!(matches!(m.build_types[0], BuildType::AmentPython));
}

#[test]
fn package_xml_metapackage_outside_export_does_not_count() {
    let xml = "<package><name>p</name><metapackage>yes</metapackage></package>";
    let m = parse_package_xml_str(xml).unwrap();
    assert!(!m.is_metapackage);
}
