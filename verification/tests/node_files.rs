use babel42::cmake::CmakePackageInfo;
use babel42::cpp_nodes::{cpp_node_file, resolve_executable, CppNodeInterfaceKind};
use babel42::python_nodes::{line_of_row_exec, python_node_file, PyNodeInterfaceKind};

#[test]
fn keyword_args_publisher() {
    let src = r#"
import rclpy
from rclpy.node import Node

class MyNode(Node):
    def __init__(self):
        super().__init__('my_node')
        self.pub = self.create_publisher(msg_type="std_msgs/msg/String", topic="/foo", qos_profile=10)
"#;
    let ifaces = python_node_file("my_pkg/node.py", src).unwrap().interfaces;
    assert_eq!(ifaces.len(), 1);
    assert_eq!(ifaces[0].kind, PyNodeInterfaceKind::Publisher);
    assert_eq!(ifaces[0].name, "/foo");
    assert!(ifaces[0].line.is_some());
}

#[test]
fn python_nodes_create_action_server() {
    let src = r#"
import rclpy

def main():
    rclpy.init()
    node = rclpy.create_node('fibonacci_server')
    node.create_action_server(action_type="my_interfaces/action/Fibonacci", action_name="fibonacci", execute_callback=execute)
"#;
    let ifaces = python_node_file("srv.py", src).unwrap().interfaces;
    assert_eq!(ifaces.len(), 1);
    assert_eq!(ifaces[0].kind, PyNodeInterfaceKind::ActionServer);
    assert_eq!(ifaces[0].name, "fibonacci");
    assert!(ifaces[0].line.is_some());
}

#[test]
fn create_publisher_template() {
    let src = r#"
#include <rclcpp/rclcpp.hpp>
void foo(rclcpp::Node* node) {
    auto pub = node->create_publisher<std_msgs::msg::String>("/topic", 10);
}
"#;
    let ifaces = cpp_node_file("src/a.cpp", src, None).unwrap().interfaces;
    assert_eq!(ifaces.len(), 1);
    assert_eq!(ifaces[0].kind, CppNodeInterfaceKind::Publisher);
    assert_eq!(ifaces[0].name, "/topic");
    assert_eq!(ifaces[0].interface_type, "std_msgs/msg/String");
    assert!(ifaces[0].line.is_some());
}

#[test]
fn cpp_nodes_create_action_server() {
    let src = r#"
#include <rclcpp/rclcpp.hpp>
void foo(rclcpp::Node* node) {
    node->create_action_server<my_interfaces::action::Fibonacci>("fibonacci", nullptr);
}
"#;
    let ifaces = cpp_node_file("src/a.cpp", src, None).unwrap().interfaces;
    assert_eq!(ifaces.len(), 1);
    assert_eq!(ifaces[0].kind, CppNodeInterfaceKind::ActionServer);
    assert_eq!(ifaces[0].name, "fibonacci");
}

#[test]
fn no_regex_fallback() {
    let src = "create_publisher<std_msgs::msg::String>(\"incomplete";
    let ifaces = cpp_node_file("src/a.cpp", src, None)
        .map(|f| f.interfaces)
        .unwrap_or_default();
    assert!(ifaces.len() <= 1);
}

#[test]
fn python_file_without_rclpy_is_no_node() {
    let src = "def f():\n    node.create_publisher(String, '/x', 10)\n";
    assert!(python_node_file("a.py", src).is_none());
}

#[test]
fn python_single_string_argument_is_the_type() {
    let src = "import rclpy\nnode.create_subscription(String, '/chatter', cb, 10)\n";
    let f = python_node_file("a.py", src).unwrap();
    assert_eq!(f.path, "a.py");
    assert_eq!(f.interfaces.len(), 1);
    assert_eq!(f.interfaces[0].kind, PyNodeInterfaceKind::Subscriber);
    assert_eq!(f.interfaces[0].interface_type, "/chatter");
    assert_eq!(f.interfaces[0].name, "");
    assert_eq!(f.interfaces[0].line, Some(2));
}

#[test]
fn python_two_string_arguments_type_has_slash() {
    let src = "import rclpy\nnode.create_publisher('chatter', 'std_msgs/msg/String', 10)\n";
    let f = python_node_file("a.py", src).unwrap();
    assert_eq!(f.interfaces[0].interface_type, "std_msgs/msg/String");
    assert_eq!(f.interfaces[0].name, "chatter");
}

#[test]
fn line_numbers_count_from_one() {
    assert_eq!(line_of_row_exec(0), 1);
    assert_eq!(line_of_row_exec(41), 42);
}

#[test]
fn cpp_file_without_interfaces_is_no_node() {
    assert!(cpp_node_file("src/a.cpp", "int main() { return 0; }\n", None).is_none());
}

#[test]
fn cpp_executable_from_add_executable() {
    let mut info = CmakePackageInfo::default();
    info.add_executables.push(("talker".to_string(), vec!["src/talker.cpp".to_string()]));
    assert_eq!(resolve_executable("src/talker.cpp", Some(&info)).as_deref(), Some("talker"));
    assert_eq!(resolve_executable("./src/talker.cpp", Some(&info)).as_deref(), Some("talker"));
    assert!(resolve_executable("src/other.cpp", Some(&info)).is_none());
    assert!(resolve_executable("src/talker.cpp", None).is_none());
}

#[test]
fn cpp_service_type_with_slashes() {
    let src = "void f() { this->create_service<example_interfaces::srv::AddTwoInts>(\"add\", cb); }\n";
    let f = cpp_node_file("src/s.cpp", src, None).unwrap();
    assert_eq!(f.interfaces.len(), 1);
    assert_eq!(f.interfaces[0].kind, CppNodeInterfaceKind::Service);
    assert_eq!(f.interfaces[0].name, "add");
    assert_eq!(f.interfaces[0].interface_type, "example_interfaces/srv/AddTwoInts");
    assert_eq!(f.interfaces[0].line, Some(1));
}

#[test]
fn cpp_call_without_template_has_empty_type() {
    let src = "void f() {\n  node->create_subscription(\"chatter\", 10, cb);\n}\n";
    let f = cpp_node_file("src/s.cpp", src, None).unwrap();
    assert_eq!(f.interfaces[0].kind, CppNodeInterfaceKind::Subscriber);
    assert_eq!(f.interfaces[0].name, "chatter");
    assert_eq!(f.interfaces[0].interface_type, "");
    assert_eq!(f.interfaces[0].line, Some(2));
}

#[test]
fn cpp_raw_string_literal_is_not_a_name() {
    let src = "void f() { node->create_publisher<std_msgs::msg::String>(R\"(raw)\", 10); }\n";
    assert!(cpp_node_file("src/s.cpp", src, None).is_none());
}

#[test]
fn cpp_call_without_string_argument_is_skipped() {
    let src = "void f() { node->create_publisher<std_msgs::msg::String>(topic, 10); }\n";
    assert!(cpp_node_file("src/s.cpp", src, None).is_none());
}
