//! Static analysis of ROS2 workspaces: manifest, interface, CMake, launch
//! and node parsing, the project model, and the check rules over it.

pub mod text;
pub mod skip_config;
pub mod model;
pub mod interfaces;
pub mod cmake;
pub mod project_config;
pub mod config;
pub mod checks;
pub mod launch;
pub mod xacro;
pub mod setup_py;
pub mod python_nodes;
pub mod cpp_nodes;
pub mod graph;
pub mod paths;
pub mod project;
pub mod workspace;
pub mod xml;
pub mod package_xml;
pub mod syntax;
pub mod report;
