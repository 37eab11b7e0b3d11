use babel42::xacro::{extract_package_refs, parse_include_filename, parse_xacro_str};

#[test]
fn parse_include_and_refs() {
    let s = r#"<?xml version="1.0"?>
<robot xmlns:xacro="http://www.ros.org/wiki/xacro">
    <xacro:include filename="$(find arduinobot_description)/urdf/arduinobot_gazebo.xacro" />
    <mesh filename="package://arduinobot_description/meshes/base.STL"/>
</robot>"#;
    let info = parse_xacro_str(s).unwrap();
    assert_eq!(info.includes.len(), 1);
    assert_eq!(info.includes[0].0, "arduinobot_description");
    assert!(info.package_refs.contains(&"arduinobot_description".to_string()));
}

#[test]
fn parse_ros2_control_plugin_text() {
    let s = r#"<?xml version="1.0"?>
<robot xmlns:xacro="http://www.ros.org/wiki/xacro">
    <ros2_control name="RobotSystem">
        <hardware>
            <plugin>gazebo_ros2_control/GazeboSystem</plugin>
        </hardware>
    </ros2_control>
</robot>"#;
    let info = parse_xacro_str(s).unwrap();
    assert!(info
        .ros2_control_plugins
        .contains(&"gazebo_ros2_control/GazeboSystem".to_string()));
}

#[test]
fn include_filename_splits_package_and_path() {
    let r = parse_include_filename("$(find my_pkg)/urdf/a.xacro").unwrap();
    assert_eq!(r.0, "my_pkg");
    assert_eq!(r.1, "urdf/a.xacro");
    assert!(parse_include_filename("urdf/a.xacro").is_none());
}

#[test]
fn package_refs_of_all_three_forms() {
    let refs = extract_package_refs("$(find a_pkg) $(find-pkg b_pkg) package://c_pkg/x.stl");
    assert!(refs.contains(&"a_pkg".to_string()));
    assert!(refs.contains(&"b_pkg".to_string()));
    assert!(refs.contains(&"c_pkg".to_string()));
}

#[test]
fn xacro_properties_args_macros_joints() {
    let s = r#"<robot xmlns:xacro="http://www.ros.org/wiki/xacro">
  <xacro:property name="width" value="0.2"/>
  <xacro:arg name="is_sim" default="true"/>
  <xacro:macro name="wheel" params="side"/>
  <ros2_control name="S"><joint name="joint_1"/></ros2_control>
  <gazebo><plugin filename="libgazebo_ros2_control.so" name="g"/></gazebo>
</robot>"#;
    let info = parse_xacro_str(s).unwrap();
    assert_eq!(info.properties, ["width"]);
    assert_eq!(info.args, ["is_sim"]);
    assert_eq!(info.macros, ["wheel"]);
    assert_eq!(info.ros2_control_joints, ["joint_1"]);
    assert_eq!(info.gazebo_plugins, ["libgazebo_ros2_control.so"]);
}

#[test]
fn xacro_malformed_is_an_error() {
    assert!(parse_xacro_str("<robot><link></robot>").is_err());
}

#[test]
fn xacro_package_refs_sorted_and_unique() {
    let s = r#"<robot>
  <mesh filename="package://zeta_pkg/a.stl"/>
  <mesh filename="package://alpha_pkg/b.stl"/>
  <param>$(find zeta_pkg)/config.yaml</param>
</robot>"#;
    let info = parse_xacro_str(s).unwrap();
    assert_eq!(info.package_refs, ["alpha_pkg", "zeta_pkg"]);
}

#[test]
fn xacro_plugin_start_tag_goes_by_gazebo_ancestor() {
    let s = r#"<robot>
  <gazebo><plugin filename="libfoo.so" name="x"></plugin></gazebo>
  <ros2_control name="s"><hardware><plugin filename="hw.so"></plugin></hardware></ros2_control>
  <plugin filename="libgazebo_y.so"/>
  <plugin filename="other.so"/>
</robot>"#;
    let info = parse_xacro_str(s).unwrap();
    assert_eq!(info.gazebo_plugins, ["libfoo.so", "libgazebo_y.so"]);
    assert_eq!(info.ros2_control_plugins, ["hw.so", "other.so"]);
}

#[test]
fn xacro_include_start_tag_and_find_pkg() {
    let s = r#"<robot xmlns:xacro="http://www.ros.org/wiki/xacro">
  <xacro:include filename="$(find-pkg other_pkg)/urdf/b.xacro"></xacro:include>
</robot>"#;
    let info = parse_xacro_str(s).unwrap();
    assert_eq!(info.includes, [("other_pkg".to_string(), "urdf/b.xacro".to_string())]);
    assert_eq!(info.package_refs, ["other_pkg"]);
}
