use babel42::setup_py::{entry_point_regex, parse_setup_py_str, setup_py_info_from};

#[test]
fn parse_simple_entry_points() {
    let s = r#"
from setuptools import setup

setup(
    name='my_pkg',
    version='0.1.0',
    entry_points={
        'console_scripts': [
            'my_node=my_pkg.main:main',
            'other_node=my_pkg.other:run',
        ],
    },
)
"#;
    let info = parse_setup_py_str(s);
    assert_eq!(info.entry_points, ["my_node", "other_node"]);
}

#[test]
fn parse_double_quoted() {
    let s = r#"
entry_points={"console_scripts": ["listener=py_pkg.listener:main"]}
"#;
    let info = parse_setup_py_str(s);
    assert_eq!(info.entry_points, ["listener"]);
}

#[test]
fn parse_hyphen_in_name() {
    let s = r#"
'hello-world=tim.pkg:hello_world',
"#;
    let info = parse_setup_py_str(s);
    assert_eq!(info.entry_points, ["hello-world"]);
}

#[test]
fn parse_empty() {
    let info = parse_setup_py_str("setup(name='x')");
    assert!(info.entry_points.is_empty());
    assert!(info.entry_point_modules.is_empty());
}

#[test]
fn parse_entry_point_modules() {
    let s = "'talker=my_pkg.publisher:main',";
    let info = parse_setup_py_str(s);
    assert_eq!(info.entry_point_modules.len(), 1);
    assert_eq!(info.entry_point_modules[0], ("talker".to_string(), "my_pkg.publisher".to_string()));
}

#[test]
fn entry_point_module_is_text_before_colon() {
    let caps = vec![
        ("a".to_string(), "pkg.mod:main".to_string()),
        ("b".to_string(), "nocolon".to_string()),
    ];
    let info = setup_py_info_from(&caps);
    assert_eq!(info.entry_points, ["a", "b"]);
    assert_eq!(info.entry_point_modules[0].1, "pkg.mod");
    assert_eq!(info.entry_point_modules[1].1, "nocolon");
}

#[test]
fn entry_point_without_function_is_not_matched() {
    let info = parse_setup_py_str("'x=pkg.mod'");
    assert!(info.entry_points.is_empty());
}

#[test]
fn entry_point_pattern_text() {
    assert!(entry_point_regex().contains("=([a-zA-Z0-9_.]+:[a-zA-Z0-9_]+)"));
}
