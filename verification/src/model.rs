//! ROS2 data model: packages, interfaces, and the project graphs.

use vstd::prelude::*;
use crate::cmake::CmakePackageInfo;
use crate::cpp_nodes::CppNodeFile;
use crate::launch::LaunchFileInfo;
use crate::python_nodes::PythonNodeFile;
use crate::setup_py::SetupPyInfo;
use crate::text::{chars_of, chars_eq_str, lower_chars, lowercase, string_of, trim, trim_chars};
use crate::xacro::XacroFileInfo;
use crate::graph::{
    dep_edge_pairs, dep_graph_nodes, dep_node_weight, dep_toposort, dep_toposort_outcome, has_cycle,
    is_build_order, is_topological_order, lemma_reversed_build_order, reversed,
};
use petgraph::graph::DiGraph;

verus! {

// =============================================================================
// Package manifest (from package.xml)
// =============================================================================

/// Build system type: ament_cmake, ament_python, cmake, etc.
pub enum BuildType {
    AmentCmake,
    AmentPython,
    Cmake,
    PythonDistutils,
    /// Unknown or custom build type
    Other(String),
}

/// The value of a build type.
pub enum BuildTypeSpec {
    AmentCmake,
    AmentPython,
    Cmake,
    PythonDistutils,
    Other(Seq<char>),
}

impl View for BuildType {
    type V = BuildTypeSpec;

    open spec fn view(&self) -> BuildTypeSpec {
        match self {
            BuildType::AmentCmake => BuildTypeSpec::AmentCmake,
            BuildType::AmentPython => BuildTypeSpec::AmentPython,
            BuildType::Cmake => BuildTypeSpec::Cmake,
            BuildType::PythonDistutils => BuildTypeSpec::PythonDistutils,
            BuildType::Other(s) => BuildTypeSpec::Other(s@),
        }
    }
}

/// The build type that a `<build_type>` text names: the text trimmed and
/// lowercased, matched against the known names.
pub open spec fn spec_build_type(s: Seq<char>) -> BuildTypeSpec {
    let l = lowercase(trim(s));
    if l == "ament_cmake"@ {
        BuildTypeSpec::AmentCmake
    } else if l == "ament_python"@ {
        BuildTypeSpec::AmentPython
    } else if l == "cmake"@ {
        BuildTypeSpec::Cmake
    } else if l == "python_distutils"@ || l == "python-setuptools"@ {
        BuildTypeSpec::PythonDistutils
    } else {
        BuildTypeSpec::Other(l)
    }
}

impl BuildType {
    /// The build type that a `<build_type>` text names, in any case and
    /// surrounded by any whitespace.
    pub fn from_str(s: &str) -> (r: Self)
        ensures
            r@ == spec_build_type(s@),
    {
        let v = chars_of(s);
        let t = trim_chars(v.as_slice());
        let l = lower_chars(t.as_slice());
        if chars_eq_str(l.as_slice(), "ament_cmake") {
            BuildType::AmentCmake
        } else if chars_eq_str(l.as_slice(), "ament_python") {
            BuildType::AmentPython
        } else if chars_eq_str(l.as_slice(), "cmake") {
            BuildType::Cmake
        } else if chars_eq_str(l.as_slice(), "python_distutils") || chars_eq_str(
            l.as_slice(),
            "python-setuptools",
        ) {
            BuildType::PythonDistutils
        } else {
            BuildType::Other(string_of(l.as_slice()))
        }
    }

    /// Whether this is `AmentCmake`.
    pub fn is_ament_cmake(&self) -> (r: bool)
        ensures
            r == (self@ == BuildTypeSpec::AmentCmake),
    {
        match self {
            BuildType::AmentCmake => true,
            _ => false,
        }
    }

    /// Whether this is `AmentPython`.
    pub fn is_ament_python(&self) -> (r: bool)
        ensures
            r == (self@ == BuildTypeSpec::AmentPython),
    {
        match self {
            BuildType::AmentPython => true,
            _ => false,
        }
    }
}

/// The role in which a package.xml declares a dependency.
#[derive(Clone, Copy, Debug, PartialEq, Eq, Structural)]
pub enum DependencyRole {
    Build,
    BuildTool,
    BuildExport,
    Exec,
    Test,
    Doc,
    /// Format 3: unified depend
    Depend,
}

/// Dependency with role (build, exec, test, etc.).
pub struct Dependency {
    pub name: String,
    pub role: DependencyRole,
}

/// A maintainer of a package.
pub struct Maintainer {
    pub email: Option<String>,
    pub name: String,
}

/// An author of a package.
pub struct Author {
    pub email: Option<String>,
    pub name: String,
}

/// A URL of a package, with its type (website, repository, bugtracker).
pub struct PackageUrl {
    pub url_type: String,
    pub url: String,
}

/// Full package manifest parsed from package.xml (REP-140/149).
pub struct PackageManifest {
    pub format: u32,
    pub name: String,
    pub version: String,
    pub description: Option<String>,
    pub maintainers: Vec<Maintainer>,
    pub license: Option<String>,
    pub urls: Vec<PackageUrl>,
    pub authors: Vec<Author>,
    pub dependencies: Vec<Dependency>,
    pub build_types: Vec<BuildType>,
    pub member_of_groups: Vec<String>,
    pub is_metapackage: bool,
}

/// The (name, role) pairs of a sequence of dependencies.
pub open spec fn dep_views(v: Seq<Dependency>) -> Seq<(Seq<char>, DependencyRole)> {
    v.map_values(|d: Dependency| (d.name@, d.role))
}

// =============================================================================
// Interface definitions (.msg, .srv, .action)
// =============================================================================

/// A single field in a msg/srv/action definition.
pub struct FieldDef {
    /// Type: primitive (int32, string) or composite (geometry_msgs/Point)
    pub field_type: String,
    /// Name of the field
    pub name: String,
    /// Array modifier: None, Some(N) for fixed size N, Some(0) for unbounded
    pub array_len: Option<u32>,
}

/// The value of a field definition.
pub struct FieldSpec {
    pub field_type: Seq<char>,
    pub name: Seq<char>,
    pub array_len: Option<u32>,
}

impl View for FieldDef {
    type V = FieldSpec;

    open spec fn view(&self) -> FieldSpec {
        FieldSpec { field_type: self.field_type@, name: self.name@, array_len: self.array_len }
    }
}

/// The values of a sequence of field definitions.
pub open spec fn field_views(v: Seq<FieldDef>) -> Seq<FieldSpec> {
    v.map_values(|f: FieldDef| f@)
}

/// Message definition (.msg).
pub struct MsgDefinition {
    pub name: String,
    pub fields: Vec<FieldDef>,
}

/// Service definition (.srv): request and response.
pub struct SrvDefinition {
    pub name: String,
    pub request: Vec<FieldDef>,
    pub response: Vec<FieldDef>,
}

/// Action definition (.action): goal, result, feedback.
pub struct ActionDefinition {
    pub name: String,
    pub goal: Vec<FieldDef>,
    pub result: Vec<FieldDef>,
    pub feedback: Vec<FieldDef>,
}

} // verus!

verus! {

// =============================================================================
// Package (an in-workspace package with what was found in it)
// =============================================================================

/// Parsed xacro file with its path relative to the package.
pub struct XacroFile {
    pub path: String,
    pub info: XacroFileInfo,
}

/// Parsed launch file with its path relative to the package.
pub struct LaunchFile {
    pub path: String,
    pub info: LaunchFileInfo,
}

/// A YAML configuration file (config/*.yaml) and whether it parsed.
pub struct ConfigFile {
    /// Path relative to the package root (e.g. config/params.yaml)
    pub path: String,
    /// The YAML text, where it parsed
    pub content: Option<String>,
}

/// A ROS2 package in the workspace: manifest and discovered files.
pub struct Package {
    pub manifest: PackageManifest,
    /// The package directory (the one holding its package.xml)
    pub path: String,
    pub messages: Vec<MsgDefinition>,
    pub services: Vec<SrvDefinition>,
    pub actions: Vec<ActionDefinition>,
    /// Parsed from CMakeLists.txt (ament_cmake packages only)
    pub cmake_info: Option<CmakePackageInfo>,
    /// Parsed from setup.py (ament_python packages only)
    pub setup_py_info: Option<SetupPyInfo>,
    pub xacro_files: Vec<XacroFile>,
    pub launch_files: Vec<LaunchFile>,
    pub config_files: Vec<ConfigFile>,
    pub python_node_files: Vec<PythonNodeFile>,
    pub cpp_node_files: Vec<CppNodeFile>,
}

/// Whether a role makes a dependency an execution dependency.
pub open spec fn is_exec_role(r: DependencyRole) -> bool {
    r == DependencyRole::Exec || r == DependencyRole::Depend
}

/// Whether a role makes a dependency a build dependency.
pub open spec fn is_build_role(r: DependencyRole) -> bool {
    r == DependencyRole::Build || r == DependencyRole::BuildTool || r == DependencyRole::Depend
}

/// The names of the dependencies whose role satisfies `exec` (execution) or
/// otherwise the build roles, in manifest order.
pub open spec fn deps_with_role(deps: Seq<(Seq<char>, DependencyRole)>, exec: bool) -> Seq<Seq<char>>
    decreases deps.len(),
{
    if deps.len() == 0 {
        Seq::empty()
    } else {
        let rest = deps_with_role(deps.drop_last(), exec);
        let d = deps.last();
        if (exec && is_exec_role(d.1)) || (!exec && is_build_role(d.1)) {
            rest.push(d.0)
        } else {
            rest
        }
    }
}

/// A `Depend` dependency is both a build and an execution dependency: its
/// name is among the execution dependencies and among the build dependencies.
pub proof fn lemma_depend_is_exec_and_build(deps: Seq<(Seq<char>, DependencyRole)>, j: int)
    requires
        0 <= j < deps.len(),
        deps[j].1 == DependencyRole::Depend,
    ensures
        deps_with_role(deps, true).contains(deps[j].0),
        deps_with_role(deps, false).contains(deps[j].0),
    decreases deps.len(),
{
    let k = deps.len() - 1;
    if j < k {
        lemma_depend_is_exec_and_build(deps.drop_last(), j);
        assert(deps.drop_last()[j] == deps[j]);
        let a = deps_with_role(deps.drop_last(), true);
        let b = deps_with_role(deps.drop_last(), false);
        let ia = choose|i: int| 0 <= i < a.len() && a[i] == deps[j].0;
        let ib = choose|i: int| 0 <= i < b.len() && b[i] == deps[j].0;
        assert(deps_with_role(deps, true)[ia] == deps[j].0);
        assert(deps_with_role(deps, false)[ib] == deps[j].0);
    } else {
        let a = deps_with_role(deps.drop_last(), true);
        let b = deps_with_role(deps.drop_last(), false);
        assert(deps_with_role(deps, true)[a.len() as int] == deps[j].0);
        assert(deps_with_role(deps, false)[b.len() as int] == deps[j].0);
    }
}

impl Package {
    /// The package's name.
    pub fn name(&self) -> (r: &str)
        ensures
            r@ == self.manifest.name@,
    {
        self.manifest.name.as_str()
    }

    fn deps_of_kind(&self, exec: bool) -> (r: Vec<String>)
        ensures
            crate::text::str_views(r@) == deps_with_role(dep_views(self.manifest.dependencies@), exec),
    {
        let deps = &self.manifest.dependencies;
        let ghost dv = dep_views(deps@);
        let mut out: Vec<String> = Vec::new();
        let mut i: usize = 0;
        assert(dv.take(0) =~= Seq::<(Seq<char>, DependencyRole)>::empty());
        assert(crate::text::str_views(out@) =~= Seq::<Seq<char>>::empty());
        while i < deps.len()
            invariant
                i <= deps@.len(),
                dv == dep_views(deps@),
                crate::text::str_views(out@) == deps_with_role(dv.take(i as int), exec),
            decreases deps.len() - i,
        {
            let d = &deps[i];
            assert(dv.take(i + 1).drop_last() =~= dv.take(i as int));
            assert(dv.take(i + 1).last() == (d.name@, d.role));
            let ghost old_out = crate::text::str_views(out@);
            let is_exec = d.role == DependencyRole::Exec || d.role == DependencyRole::Depend;
            let is_build = d.role == DependencyRole::Build || d.role == DependencyRole::BuildTool
                || d.role == DependencyRole::Depend;
            if (exec && is_exec) || (!exec && is_build) {
                out.push(d.name.clone());
                assert(crate::text::str_views(out@) =~= old_out.push(d.name@));
            }
            i += 1;
        }
        assert(dv.take(i as int) =~= dv);
        out
    }

    /// Names of the execution dependencies (exec_depend, run_depend, depend), in manifest order.
    pub fn exec_deps(&self) -> (r: Vec<String>)
        ensures
            crate::text::str_views(r@) == deps_with_role(dep_views(self.manifest.dependencies@), true),
    {
        self.deps_of_kind(true)
    }

    /// Names of the build dependencies (build_depend, buildtool_depend, depend), in manifest order.
    pub fn build_deps(&self) -> (r: Vec<String>)
        ensures
            crate::text::str_views(r@) == deps_with_role(dep_views(self.manifest.dependencies@), false),
    {
        self.deps_of_kind(false)
    }
}

// =============================================================================
// Project with its graphs
// =============================================================================

/// Node in the package dependency graph.
pub enum GraphNode {
    Package { name: String, index: usize },
}

/// Edge in the package dependency graph.
#[derive(Clone, Copy, Debug, PartialEq, Eq, Structural)]
pub struct DependencyEdge {
    pub role: DependencyRole,
}

/// Reference to a launch file: (package, relative path).
pub struct LaunchRef {
    pub package: String,
    pub file: String,
}

/// Graph of launch file includes: an edge from a launch file to each launch file it includes.
pub struct LaunchIncludeGraph(pub DiGraph<LaunchRef, ()>);

/// ROS2 runtime node (from launch or inferred).
pub struct RuntimeNode {
    pub package: String,
    pub executable: String,
    pub name: Option<String>,
}

/// ROS2 runtime topic.
pub struct RuntimeTopic {
    pub name: String,
    pub msg_type: String,
}

/// ROS2 runtime service.
pub struct RuntimeService {
    pub name: String,
    pub srv_type: String,
}

/// ROS2 runtime graph: nodes, topics, services, and their connections.
pub struct RuntimeGraph {
    pub nodes: Vec<RuntimeNode>,
    pub topics: Vec<RuntimeTopic>,
    pub services: Vec<RuntimeService>,
    /// (node_index, topic_index) for publishers
    pub topic_publishers: Vec<(usize, usize)>,
    /// (node_index, topic_index) for subscribers
    pub topic_subscribers: Vec<(usize, usize)>,
    /// (node_index, service_index) for service servers
    pub service_servers: Vec<(usize, usize)>,
    /// (node_index, service_index) for service clients
    pub service_clients: Vec<(usize, usize)>,
    /// The message type each publisher uses, one per entry of `topic_publishers`
    pub topic_publisher_types: Vec<String>,
    /// The message type each subscriber uses, one per entry of `topic_subscribers`
    pub topic_subscriber_types: Vec<String>,
    /// The service type each server uses, one per entry of `service_servers`
    pub service_server_types: Vec<String>,
    /// The service type each client uses, one per entry of `service_clients`
    pub service_client_types: Vec<String>,
}

/// ROS2 project model: workspace with packages and graphs.
pub struct Project {
    pub workspace_root: String,
    pub packages: Vec<Package>,
    /// Dependency graph: packages as nodes, dependencies as edges
    pub dependency_graph: DiGraph<String, DependencyEdge>,
    /// Graph of launch file includes
    pub launch_include_graph: LaunchIncludeGraph,
    /// Runtime graph: nodes, topics, services (from launch, Python and C++ interfaces)
    pub runtime_graph: RuntimeGraph,
}

/// The names of a sequence of packages.
pub open spec fn package_names(pkgs: Seq<Package>) -> Seq<Seq<char>> {
    pkgs.map_values(|p: Package| p.manifest.name@)
}

/// The index under which a name is found among packages: the last package of that name.
pub open spec fn last_index_named(names: Seq<Seq<char>>, name: Seq<char>) -> Option<int>
    decreases names.len(),
{
    if names.len() == 0 {
        None
    } else if names.last() == name {
        Some(names.len() - 1)
    } else {
        last_index_named(names.drop_last(), name)
    }
}

pub proof fn lemma_last_index_named(names: Seq<Seq<char>>, name: Seq<char>)
    ensures
        last_index_named(names, name) matches Some(i) ==> 0 <= i < names.len() && names[i] == name,
        last_index_named(names, name) is None ==> !names.contains(name),
    decreases names.len(),
{
    if names.len() > 0 && names.last() != name {
        lemma_last_index_named(names.drop_last(), name);
        if names.contains(name) {
            let k = choose|k: int| 0 <= k < names.len() && names[k] == name;
            assert(names.drop_last()[k] == name);
        }
    }
}

impl Project {
    /// Index of the package of this name (the last one where names repeat).
    pub fn package_index(&self, name: &str) -> (r: Option<usize>)
        ensures
            match r {
                Some(i) => last_index_named(package_names(self.packages@), name@) == Some(i as int),
                None => last_index_named(package_names(self.packages@), name@) is None,
            },
    {
        let ghost names = package_names(self.packages@);
        let mut j = self.packages.len();
        assert(names.take(j as int) =~= names);
        while j > 0
            invariant
                j <= self.packages@.len(),
                names == package_names(self.packages@),
                last_index_named(names, name@) == last_index_named(names.take(j as int), name@),
            decreases j,
        {
            assert(names.take(j as int).drop_last() =~= names.take(j - 1));
            assert(names.take(j as int).last() == self.packages@[j - 1].manifest.name@);
            if crate::text::chars_eq_str(
                chars_of(self.packages[j - 1].manifest.name.as_str()).as_slice(),
                name,
            ) {
                return Some(j - 1);
            }
            j -= 1;
        }
        None
    }

    /// The build order of the packages: `toposort` read back to front, so that
    /// every dependency comes before the packages that depend on it (the
    /// graph's edges go from a package to its dependencies); empty where the
    /// dependency graph has a cycle.
    pub fn topological_order(&self) -> (r: Vec<&str>)
        ensures
            match dep_toposort_outcome(self.dependency_graph) {
                Ok(order) => r@.len() == order.len() && forall|i: int|
                    0 <= i < order.len() ==> (#[trigger] r@[i])@ == dep_graph_nodes(
                        self.dependency_graph,
                    )[reversed(order)[i] as int],
                Err(_) => r@.len() == 0,
            },
            has_cycle(dep_graph_nodes(self.dependency_graph).len(), dep_edge_pairs(self.dependency_graph))
                ==> r@.len() == 0,
            !has_cycle(dep_graph_nodes(self.dependency_graph).len(), dep_edge_pairs(self.dependency_graph))
                ==> exists|order: Seq<usize>|
                is_build_order(
                    dep_graph_nodes(self.dependency_graph).len(),
                    dep_edge_pairs(self.dependency_graph),
                    order,
                ) && r@.len() == order.len() && forall|i: int|
                    0 <= i < order.len() ==> (#[trigger] r@[i])@ == dep_graph_nodes(
                        self.dependency_graph,
                    )[order[i] as int],
    {
        let g = &self.dependency_graph;
        match dep_toposort(g) {
            Ok(order) => {
                let ghost n = dep_graph_nodes(*g).len();
                let ghost rev = reversed(order@);
                proof {
                    lemma_reversed_build_order(n, dep_edge_pairs(*g), order@);
                }
                let mut r: Vec<&str> = Vec::new();
                let mut i: usize = 0;
                while i < order.len()
                    invariant
                        i <= order@.len(),
                        r@.len() == i,
                        n == dep_graph_nodes(*g).len(),
                        rev == reversed(order@),
                        is_topological_order(n, dep_edge_pairs(*g), order@),
                        forall|k: int| 0 <= k < order@.len() ==> (#[trigger] order@[k]) < u32::MAX,
                        forall|k: int| 0 <= k < i ==> (#[trigger] r@[k])@ == dep_graph_nodes(*g)[rev[k] as int],
                    decreases order.len() - i,
                {
                    let ix = order[order.len() - 1 - i];
                    assert(ix == rev[i as int]);
                    assert(ix < n);
                    match dep_node_weight(g, ix) {
                        Some(w) => r.push(w.as_str()),
                        None => {},
                    }
                    i += 1;
                }
                r
            },
            Err(_) => Vec::new(),
        }
    }

    /// Look up a package by name (the last one where names repeat).
    pub fn get_package(&self, name: &str) -> (r: Option<&Package>)
        ensures
            match r {
                Some(p) => exists|i: int|
                    last_index_named(package_names(self.packages@), name@) == Some(i) && *p
                        == self.packages@[i],
                None => last_index_named(package_names(self.packages@), name@) is None,
            },
    {
        match self.package_index(name) {
            Some(i) => {
                proof {
                    lemma_last_index_named(package_names(self.packages@), name@);
                }
                Some(&self.packages[i])
            },
            None => None,
        }
    }
}

} // verus!
