//! Building the project model from parsed packages: the dependency graph,
//! the launch include graph and the runtime graph.
//!
//! Reading the workspace (package.xml, CMakeLists.txt, setup.py, launch and
//! node files) is the caller's; what is decided here is which files a package
//! asks for and how the parsed packages make up the project.

pub mod runtime;

use vstd::prelude::*;
use crate::launch::LaunchFileInfo;
use crate::package_xml::PackageXmlError;
use crate::model::{
    BuildType, BuildTypeSpec, Dependency, DependencyEdge, DependencyRole,
    LaunchFile, LaunchIncludeGraph, LaunchRef, Package, PackageManifest, Project, RuntimeGraph,
    last_index_named, lemma_last_index_named, package_names,
};
use crate::checks::launch::include_views;
use crate::graph::{
    add_dep_edge, add_dep_node, add_launch_edge, add_launch_node, dep_graph_edges, dep_graph_nodes,
    edges_in_range, launch_graph_edges, launch_graph_nodes, new_dep_graph, new_launch_graph,
};
use petgraph::graph::DiGraph;
use crate::paths::{extension_of, file_stem_of, path_extension, path_file_stem};
use crate::text::{chars_eq, chars_of, ends_with_str, push_str, replace_char, replace_char_exec, string_of};

verus! {

/// Errors of building a project.
#[derive(Debug)]
pub enum ProjectError {
    /// A package.xml of the workspace could not be read.
    PackageXml(PackageXmlError),
}

impl ProjectError {
    /// The error as a line of text.
    pub fn message(&self) -> (r: String)
        ensures
            r@ == match self {
                ProjectError::PackageXml(e) => "package.xml: "@ + match e {
                    PackageXmlError::Io(m) => "failed to read file: "@ + m@,
                    PackageXmlError::Xml(m) => "failed to parse XML: "@ + m@,
                },
            },
    {
        match self {
            ProjectError::PackageXml(e) => {
                let mut m: Vec<char> = Vec::new();
                push_str(&mut m, "package.xml: ");
                let inner = e.message();
                push_str(&mut m, inner.as_str());
                string_of(m.as_slice())
            },
        }
    }
}

// =============================================================================
// Which files a package asks for
// =============================================================================

/// A package is built with ament_cmake: it says so in its build types, or it
/// has `ament_cmake` as a build tool dependency.
pub open spec fn uses_ament_cmake(m: PackageManifest) -> bool {
    (exists|k: int| 0 <= k < m.build_types@.len() && m.build_types@[k]@ == BuildTypeSpec::AmentCmake)
        || (exists|k: int|
        0 <= k < m.dependencies@.len() && m.dependencies@[k].role == DependencyRole::BuildTool
            && m.dependencies@[k].name@ == "ament_cmake"@)
}

/// A package is built with ament_python: it says so in its build types, or it
/// has `ament_python` as a build tool dependency.
pub open spec fn uses_ament_python(m: PackageManifest) -> bool {
    (exists|k: int| 0 <= k < m.build_types@.len() && m.build_types@[k]@ == BuildTypeSpec::AmentPython)
        || (exists|k: int|
        0 <= k < m.dependencies@.len() && m.dependencies@[k].role == DependencyRole::BuildTool
            && m.dependencies@[k].name@ == "ament_python"@)
}

fn has_build_tool(deps: &Vec<Dependency>, tool: &str) -> (r: bool)
    ensures
        r == exists|k: int|
            0 <= k < deps@.len() && deps@[k].role == DependencyRole::BuildTool && deps@[k].name@
                == tool@,
{
    let t = chars_of(tool);
    let mut i: usize = 0;
    while i < deps.len()
        invariant
            i <= deps@.len(),
            t@ == tool@,
            forall|k: int|
                0 <= k < i ==> !((#[trigger] deps@[k]).role == DependencyRole::BuildTool
                    && deps@[k].name@ == tool@),
        decreases deps.len() - i,
    {
        let n = chars_of(deps[i].name.as_str());
        if deps[i].role == DependencyRole::BuildTool && chars_eq(n.as_slice(), t.as_slice()) {
            return true;
        }
        i += 1;
    }
    false
}

/// Whether the package's CMakeLists.txt is read: it is built with ament_cmake.
pub fn wants_cmake(m: &PackageManifest) -> (r: bool)
    ensures
        r == uses_ament_cmake(*m),
{
    let mut i: usize = 0;
    while i < m.build_types.len()
        invariant
            i <= m.build_types@.len(),
            forall|k: int| 0 <= k < i ==> (#[trigger] m.build_types@[k])@ != BuildTypeSpec::AmentCmake,
        decreases m.build_types.len() - i,
    {
        if m.build_types[i].is_ament_cmake() {
            return true;
        }
        i += 1;
    }
    has_build_tool(&m.dependencies, "ament_cmake")
}

/// Whether the package's setup.py is read: it is built with ament_python.
pub fn wants_setup_py(m: &PackageManifest) -> (r: bool)
    ensures
        r == uses_ament_python(*m),
{
    let mut i: usize = 0;
    while i < m.build_types.len()
        invariant
            i <= m.build_types@.len(),
            forall|k: int|
                0 <= k < i ==> (#[trigger] m.build_types@[k])@ != BuildTypeSpec::AmentPython,
        decreases m.build_types.len() - i,
    {
        if m.build_types[i].is_ament_python() {
            return true;
        }
        i += 1;
    }
    has_build_tool(&m.dependencies, "ament_python")
}

/// The path's extension is `ext`.
pub open spec fn has_extension(path: Seq<char>, ext: Seq<char>) -> bool {
    path_extension(path) == Some(ext)
}

/// The path's file stem ends in `.launch` (as in `bringup.launch.py`).
pub open spec fn launch_stem(path: Seq<char>) -> bool {
    match path_file_stem(path) {
        Some(s) => ".launch"@.is_suffix_of(s),
        None => false,
    }
}

/// Whether the path has extension `ext`.
pub fn has_extension_exec(path: &str, ext: &str) -> (r: bool)
    ensures
        r == has_extension(path@, ext@),
{
    match extension_of(path) {
        Some(e) => {
            let ev = chars_of(e.as_str());
            let xv = chars_of(ext);
            chars_eq(ev.as_slice(), xv.as_slice())
        },
        None => false,
    }
}

fn launch_stem_exec(path: &str) -> (r: bool)
    ensures
        r == launch_stem(path@),
{
    match file_stem_of(path) {
        Some(s) => {
            let v = chars_of(s.as_str());
            ends_with_str(v.as_slice(), ".launch")
        },
        None => false,
    }
}

/// A launch file: `*.launch.py`.
pub fn is_launch_file(path: &str) -> (r: bool)
    ensures
        r == (has_extension(path@, "py"@) && launch_stem(path@)),
{
    has_extension_exec(path, "py") && launch_stem_exec(path)
}

/// A Python source that may hold a node: `*.py` but not a launch file.
pub fn is_python_source(path: &str) -> (r: bool)
    ensures
        r == (has_extension(path@, "py"@) && !launch_stem(path@)),
{
    has_extension_exec(path, "py") && !launch_stem_exec(path)
}

/// A C++ source: `.cpp`, `.cxx`, `.cc` or `.hpp`.
pub fn is_cpp_source(path: &str) -> (r: bool)
    ensures
        r == (has_extension(path@, "cpp"@) || has_extension(path@, "cxx"@) || has_extension(
            path@,
            "cc"@,
        ) || has_extension(path@, "hpp"@)),
{
    has_extension_exec(path, "cpp") || has_extension_exec(path, "cxx") || has_extension_exec(path, "cc")
        || has_extension_exec(path, "hpp")
}

/// A YAML configuration file: `.yaml` or `.yml`.
pub fn is_config_file(path: &str) -> (r: bool)
    ensures
        r == (has_extension(path@, "yaml"@) || has_extension(path@, "yml"@)),
{
    has_extension_exec(path, "yaml") || has_extension_exec(path, "yml")
}

// =============================================================================
// Dependency graph
// =============================================================================

/// The edges from package `from` to each workspace package among its
/// dependencies (the last package of that name), in manifest order.
pub open spec fn dep_edges_of(names: Seq<Seq<char>>, from: int, deps: Seq<Dependency>) -> Seq<
    (usize, usize, DependencyEdge),
>
    decreases deps.len(),
{
    if deps.len() == 0 {
        Seq::empty()
    } else {
        let rest = dep_edges_of(names, from, deps.drop_last());
        match last_index_named(names, deps.last().name@) {
            Some(t) => rest.push((from as usize, t as usize, DependencyEdge { role: deps.last().role })),
            None => rest,
        }
    }
}

/// The dependency edges of the packages, package by package.
pub open spec fn dependency_edges(names: Seq<Seq<char>>, pkgs: Seq<Package>) -> Seq<
    (usize, usize, DependencyEdge),
>
    decreases pkgs.len(),
{
    if pkgs.len() == 0 {
        Seq::empty()
    } else {
        dependency_edges(names, pkgs.drop_last()) + match last_index_named(
            names,
            pkgs.last().manifest.name@,
        ) {
            Some(f) => dep_edges_of(names, f, pkgs.last().manifest.dependencies@),
            None => Seq::empty(),
        }
    }
}

/// Index of the last package of this name.
pub fn last_package_index(pkgs: &Vec<Package>, name: &str) -> (r: Option<usize>)
    ensures
        match r {
            Some(i) => last_index_named(package_names(pkgs@), name@) == Some(i as int),
            None => last_index_named(package_names(pkgs@), name@) is None,
        },
{
    let ghost names = package_names(pkgs@);
    let n = chars_of(name);
    let mut j = pkgs.len();
    assert(names.take(j as int) =~= names);
    while j > 0
        invariant
            j <= pkgs@.len(),
            n@ == name@,
            names == package_names(pkgs@),
            last_index_named(names, name@) == last_index_named(names.take(j as int), name@),
        decreases j,
    {
        assert(names.take(j as int).drop_last() =~= names.take(j - 1));
        assert(names.take(j as int).last() == pkgs@[j - 1].manifest.name@);
        let m = chars_of(pkgs[j - 1].manifest.name.as_str());
        if chars_eq(m.as_slice(), n.as_slice()) {
            return Some(j - 1);
        }
        j -= 1;
    }
    None
}

/// Every edge of `edges` joins two of the `n` nodes.
pub open spec fn triples_in_range(n: nat, edges: Seq<(usize, usize, DependencyEdge)>) -> bool {
    forall|k: int| 0 <= k < edges.len() ==> (#[trigger] edges[k]).0 < n && edges[k].1 < n
}

proof fn lemma_dep_edges_in_range(names: Seq<Seq<char>>, from: int, deps: Seq<Dependency>)
    requires
        0 <= from < names.len(),
    ensures
        triples_in_range(names.len(), dep_edges_of(names, from, deps)),
    decreases deps.len(),
{
    if deps.len() > 0 {
        lemma_dep_edges_in_range(names, from, deps.drop_last());
        lemma_last_index_named(names, deps.last().name@);
    }
}

/// The dependency graph: a node per package, named by it, and an edge from a
/// package to each workspace package it declares a dependency on.
pub fn build_dependency_graph(pkgs: &Vec<Package>) -> (g: DiGraph<String, DependencyEdge>)
    requires
        pkgs@.len() < u32::MAX,
        dependency_count(pkgs@) < u32::MAX,
    ensures
        dep_graph_nodes(g) == package_names(pkgs@),
        dep_graph_edges(g) == dependency_edges(package_names(pkgs@), pkgs@),
{
    let ghost names = package_names(pkgs@);
    let mut nodes: Vec<String> = Vec::new();
    let mut i: usize = 0;
    while i < pkgs.len()
        invariant
            i <= pkgs@.len(),
            names == package_names(pkgs@),
            crate::text::str_views(nodes@) == names.take(i as int),
        decreases pkgs.len() - i,
    {
        let ghost before = nodes@;
        nodes.push(pkgs[i].manifest.name.clone());
        assert(names[i as int] == pkgs@[i as int].manifest.name@);
        assert(crate::text::str_views(nodes@) =~= crate::text::str_views(before).push(names[i as int]));
        i += 1;
        assert(names.take(i as int) =~= names.take(i - 1).push(names[i - 1]));
    }
    assert(names.take(i as int) =~= names);
    let mut edges: Vec<(usize, usize, DependencyEdge)> = Vec::new();
    let mut i: usize = 0;
    assert(pkgs@.take(0) =~= Seq::<Package>::empty());
    while i < pkgs.len()
        invariant
            i <= pkgs@.len(),
            names == package_names(pkgs@),
            edges@ == dependency_edges(names, pkgs@.take(i as int)),
        decreases pkgs.len() - i,
    {
        assert(pkgs@.take(i + 1).drop_last() =~= pkgs@.take(i as int));
        let pkg = &pkgs[i];
        match last_package_index(pkgs, pkg.name()) {
            Some(from) => {
                let ghost before = edges@;
                let deps = &pkg.manifest.dependencies;
                let mut k: usize = 0;
                assert(deps@.take(0) =~= Seq::<Dependency>::empty());
                assert(edges@ =~= before + dep_edges_of(names, from as int, deps@.take(0)));
                while k < deps.len()
                    invariant
                        k <= deps@.len(),
                        names == package_names(pkgs@),
                        edges@ == before + dep_edges_of(names, from as int, deps@.take(k as int)),
                    decreases deps.len() - k,
                {
                    assert(deps@.take(k + 1).drop_last() =~= deps@.take(k as int));
                    match last_package_index(pkgs, deps[k].name.as_str()) {
                        Some(t) => {
                            edges.push((from, t, DependencyEdge { role: deps[k].role }));
                        },
                        None => {},
                    }
                    k += 1;
                }
                assert(deps@.take(k as int) =~= deps@);
            },
            None => {
                assert(edges@ =~= edges@ + Seq::<(usize, usize, DependencyEdge)>::empty());
            },
        }
        i += 1;
    }
    assert(pkgs@.take(i as int) =~= pkgs@);
    proof {
        lemma_dependency_edges_in_range(names, pkgs@);
        lemma_dependency_edges_len(names, pkgs@);
        assert(crate::text::str_views(nodes@).len() == nodes@.len());
    }
    dep_graph_from(&nodes, &edges)
}

/// The dependency graph with these nodes and edges, added in order.
fn dep_graph_from(nodes: &Vec<String>, edges: &Vec<(usize, usize, DependencyEdge)>) -> (g: DiGraph<
    String,
    DependencyEdge,
>)
    requires
        nodes@.len() < u32::MAX,
        edges@.len() < u32::MAX,
        triples_in_range(nodes@.len(), edges@),
    ensures
        dep_graph_nodes(g) == crate::text::str_views(nodes@),
        dep_graph_edges(g) == edges@,
{
    let mut g = new_dep_graph();
    let mut i: usize = 0;
    while i < nodes.len()
        invariant
            i <= nodes@.len(),
            nodes@.len() < u32::MAX,
            dep_graph_nodes(g) == crate::text::str_views(nodes@).take(i as int),
            dep_graph_edges(g) == Seq::<(usize, usize, DependencyEdge)>::empty(),
        decreases nodes.len() - i,
    {
        add_dep_node(&mut g, nodes[i].clone());
        i += 1;
        assert(dep_graph_nodes(g) =~= crate::text::str_views(nodes@).take(i as int));
    }
    assert(crate::text::str_views(nodes@).take(i as int) =~= crate::text::str_views(nodes@));
    let mut k: usize = 0;
    while k < edges.len()
        invariant
            k <= edges@.len(),
            edges@.len() < u32::MAX,
            triples_in_range(nodes@.len(), edges@),
            dep_graph_nodes(g) == crate::text::str_views(nodes@),
            dep_graph_edges(g) == edges@.take(k as int),
        decreases edges.len() - k,
    {
        let e = edges[k];
        assert(e.0 < nodes@.len() && e.1 < nodes@.len());
        add_dep_edge(&mut g, e.0, e.1, e.2);
        k += 1;
        assert(dep_graph_edges(g) =~= edges@.take(k as int));
    }
    assert(edges@.take(k as int) =~= edges@);
    g
}

/// The number of dependency declarations of the packages.
pub open spec fn dependency_count(pkgs: Seq<Package>) -> nat
    decreases pkgs.len(),
{
    if pkgs.len() == 0 {
        0
    } else {
        dependency_count(pkgs.drop_last()) + pkgs.last().manifest.dependencies@.len()
    }
}

proof fn lemma_dep_edges_of_len(names: Seq<Seq<char>>, from: int, deps: Seq<Dependency>)
    ensures
        dep_edges_of(names, from, deps).len() <= deps.len(),
    decreases deps.len(),
{
    if deps.len() > 0 {
        lemma_dep_edges_of_len(names, from, deps.drop_last());
    }
}

proof fn lemma_dependency_edges_len(names: Seq<Seq<char>>, pkgs: Seq<Package>)
    ensures
        dependency_edges(names, pkgs).len() <= dependency_count(pkgs),
    decreases pkgs.len(),
{
    if pkgs.len() > 0 {
        lemma_dependency_edges_len(names, pkgs.drop_last());
        if let Some(f) = last_index_named(names, pkgs.last().manifest.name@) {
            lemma_dep_edges_of_len(names, f, pkgs.last().manifest.dependencies@);
        }
    }
}

proof fn lemma_dependency_count_prefix(pkgs: Seq<Package>, i: int)
    requires
        0 <= i <= pkgs.len(),
    ensures
        dependency_count(pkgs.take(i)) <= dependency_count(pkgs),
    decreases pkgs.len() - i,
{
    if i < pkgs.len() {
        lemma_dependency_count_prefix(pkgs, i + 1);
        assert(pkgs.take(i + 1).drop_last() =~= pkgs.take(i));
    } else {
        assert(pkgs.take(i) =~= pkgs);
    }
}

/// Whether the packages declare fewer than `u32::MAX` dependencies in all.
fn dependency_count_within(pkgs: &Vec<Package>) -> (r: bool)
    ensures
        r == (dependency_count(pkgs@) < u32::MAX),
{
    let mut count: usize = 0;
    let mut i: usize = 0;
    assert(pkgs@.take(0) =~= Seq::<Package>::empty());
    while i < pkgs.len()
        invariant
            i <= pkgs@.len(),
            count == dependency_count(pkgs@.take(i as int)),
            count < u32::MAX,
        decreases pkgs.len() - i,
    {
        assert(pkgs@.take(i + 1).drop_last() =~= pkgs@.take(i as int));
        let n = pkgs[i].manifest.dependencies.len();
        if n >= 0xffff_ffffusize - count {
            proof {
                lemma_dependency_count_prefix(pkgs@, i + 1);
            }
            return false;
        }
        count = count + n;
        i += 1;
    }
    assert(pkgs@.take(i as int) =~= pkgs@);
    true
}



proof fn lemma_dependency_edges_in_range(names: Seq<Seq<char>>, pkgs: Seq<Package>)
    ensures
        triples_in_range(names.len(), dependency_edges(names, pkgs)),
    decreases pkgs.len(),
{
    if pkgs.len() > 0 {
        let init = pkgs.drop_last();
        lemma_dependency_edges_in_range(names, init);
        lemma_last_index_named(names, pkgs.last().manifest.name@);
        if let Some(f) = last_index_named(names, pkgs.last().manifest.name@) {
            lemma_dep_edges_in_range(names, f, pkgs.last().manifest.dependencies@);
        }
        let a = dependency_edges(names, init);
        let b = match last_index_named(names, pkgs.last().manifest.name@) {
            Some(f) => dep_edges_of(names, f, pkgs.last().manifest.dependencies@),
            None => Seq::empty(),
        };
        assert forall|k: int| 0 <= k < (a + b).len() implies (#[trigger] (a + b)[k]).0 < names.len()
            && (a + b)[k].1 < names.len() by {
            if k < a.len() {
                assert((a + b)[k] == a[k]);
            } else {
                assert((a + b)[k] == b[k - a.len()]);
            }
        }
    }
}

// =============================================================================
// Launch include graph
// =============================================================================

/// `s` without repeats: each item where it first occurs.
pub open spec fn dedup<T>(s: Seq<T>) -> Seq<T>
    decreases s.len(),
{
    if s.len() == 0 {
        Seq::empty()
    } else {
        let d = dedup(s.drop_last());
        if d.contains(s.last()) {
            d
        } else {
            d.push(s.last())
        }
    }
}

/// `dedup(s)` holds each item of `s` once, and nothing else.
pub proof fn lemma_dedup<T>(s: Seq<T>)
    ensures
        dedup(s).no_duplicates(),
        forall|x: T| dedup(s).contains(x) <==> s.contains(x),
    decreases s.len(),
{
    if s.len() > 0 {
        let init = s.drop_last();
        lemma_dedup(init);
        let d = dedup(init);
        let e = dedup(s);
        assert forall|x: T| e.contains(x) <==> s.contains(x) by {
            if e.contains(x) {
                if d.contains(x) {
                    assert(init.contains(x));
                    let k = choose|k: int| 0 <= k < init.len() && init[k] == x;
                    assert(s[k] == x);
                } else {
                    let j = choose|j: int| 0 <= j < e.len() && e[j] == x;
                    if j < d.len() {
                        assert(d[j] == x);
                    }
                    assert(s[s.len() - 1] == x);
                }
            }
            if s.contains(x) {
                let k = choose|k: int| 0 <= k < s.len() && s[k] == x;
                if k < s.len() - 1 {
                    assert(init[k] == x);
                    assert(init.contains(x));
                    assert(d.contains(x));
                    let j = choose|j: int| 0 <= j < d.len() && d[j] == x;
                    assert(e[j] == x);
                } else if d.contains(s.last()) {
                    assert(e == d);
                } else {
                    assert(e[d.len() as int] == s.last());
                }
            }
        }
        if !d.contains(s.last()) {
            assert forall|i: int, j: int| 0 <= i < e.len() && 0 <= j < e.len() && i != j implies e[i]
                != e[j] by {
                if i < d.len() && j < d.len() {
                    assert(e[i] == d[i] && e[j] == d[j]);
                } else if i < d.len() {
                    assert(e[i] == d[i]);
                } else if j < d.len() {
                    assert(e[j] == d[j]);
                }
            }
        }
    }
}

/// The launch file as the include graph names it: its package and its path
/// with `/` separators.
pub open spec fn launch_ref_of(pkg: Seq<char>, lf: LaunchFile) -> (Seq<char>, Seq<char>) {
    (pkg, replace_char(lf.path@, '\\', '/'))
}

/// The (from, to) pairs of the includes of one launch file.
pub open spec fn file_include_pairs(from: (Seq<char>, Seq<char>), incs: Seq<(Seq<char>, Seq<char>)>) -> Seq<
    ((Seq<char>, Seq<char>), (Seq<char>, Seq<char>)),
> {
    incs.map_values(|t: (Seq<char>, Seq<char>)| (from, t))
}

/// The launch references in the order the graph meets them: each launch file,
/// then the files it includes.
pub open spec fn file_refs(pkg: Seq<char>, lfs: Seq<LaunchFile>) -> Seq<(Seq<char>, Seq<char>)>
    decreases lfs.len(),
{
    if lfs.len() == 0 {
        Seq::empty()
    } else {
        file_refs(pkg, lfs.drop_last()) + seq![launch_ref_of(pkg, lfs.last())] + include_views(
            lfs.last().info.included_launches@,
        )
    }
}

/// The launch references of all packages, package by package.
pub open spec fn launch_refs(pkgs: Seq<Package>) -> Seq<(Seq<char>, Seq<char>)>
    decreases pkgs.len(),
{
    if pkgs.len() == 0 {
        Seq::empty()
    } else {
        launch_refs(pkgs.drop_last()) + file_refs(pkgs.last().manifest.name@, pkgs.last().launch_files@)
    }
}

/// The include pairs of the launch files of one package.
pub open spec fn package_include_pairs(pkg: Seq<char>, lfs: Seq<LaunchFile>) -> Seq<
    ((Seq<char>, Seq<char>), (Seq<char>, Seq<char>)),
>
    decreases lfs.len(),
{
    if lfs.len() == 0 {
        Seq::empty()
    } else {
        package_include_pairs(pkg, lfs.drop_last()) + file_include_pairs(
            launch_ref_of(pkg, lfs.last()),
            include_views(lfs.last().info.included_launches@),
        )
    }
}

/// The include pairs of all packages, package by package.
pub open spec fn include_pairs(pkgs: Seq<Package>) -> Seq<
    ((Seq<char>, Seq<char>), (Seq<char>, Seq<char>)),
>
    decreases pkgs.len(),
{
    if pkgs.len() == 0 {
        Seq::empty()
    } else {
        include_pairs(pkgs.drop_last()) + package_include_pairs(
            pkgs.last().manifest.name@,
            pkgs.last().launch_files@,
        )
    }
}

/// The (package, file) value of a launch reference.
pub open spec fn ref_views(v: Seq<LaunchRef>) -> Seq<(Seq<char>, Seq<char>)> {
    v.map_values(|r: LaunchRef| (r.package@, r.file@))
}

/// The edges join, in order, the nodes of the include pairs.
pub open spec fn include_edges_match(
    nodes: Seq<(Seq<char>, Seq<char>)>,
    edges: Seq<(usize, usize)>,
    pairs: Seq<((Seq<char>, Seq<char>), (Seq<char>, Seq<char>))>,
) -> bool {
    &&& edges.len() == pairs.len()
    &&& forall|j: int|
        0 <= j < edges.len() ==> (#[trigger] edges[j]).0 < nodes.len() && edges[j].1 < nodes.len()
            && nodes[edges[j].0 as int] == pairs[j].0 && nodes[edges[j].1 as int] == pairs[j].1
}

/// What the launch include graph is for these packages: a node per distinct
/// launch reference, in the order first met, and an edge per include.
pub open spec fn launch_graph_spec(pkgs: Seq<Package>, g: LaunchIncludeGraph) -> bool {
    &&& launch_graph_nodes(g.0) == dedup(launch_refs(pkgs))
    &&& include_edges_match(launch_graph_nodes(g.0), launch_graph_edges(g.0), include_pairs(pkgs))
}

/// Index of the node for `r`, added where it is new.
fn ensure_ref(nodes: &mut Vec<LaunchRef>, package: &str, file: &str) -> (i: usize)
    ensures
        ref_views(final(nodes)@) == (if ref_views(old(nodes)@).contains((package@, file@)) {
            ref_views(old(nodes)@)
        } else {
            ref_views(old(nodes)@).push((package@, file@))
        }),
        i < final(nodes)@.len(),
        ref_views(final(nodes)@)[i as int] == (package@, file@),
{
    let p = chars_of(package);
    let f = chars_of(file);
    let mut k: usize = 0;
    while k < nodes.len()
        invariant
            k <= nodes@.len(),
            p@ == package@,
            f@ == file@,
            nodes@ == old(nodes)@,
            forall|j: int| 0 <= j < k ==> (#[trigger] ref_views(nodes@)[j]) != (package@, file@),
        decreases nodes.len() - k,
    {
        let a = chars_of(nodes[k].package.as_str());
        let b = chars_of(nodes[k].file.as_str());
        if chars_eq(a.as_slice(), p.as_slice()) && chars_eq(b.as_slice(), f.as_slice()) {
            assert(ref_views(nodes@)[k as int] == (package@, file@));
            return k;
        }
        k += 1;
    }
    assert(!ref_views(nodes@).contains((package@, file@))) by {
        if ref_views(nodes@).contains((package@, file@)) {
            let j = choose|j: int| 0 <= j < ref_views(nodes@).len() && ref_views(nodes@)[j] == (package@, file@);
            assert(ref_views(nodes@)[j] != (package@, file@));
        }
    }
    let ghost before = nodes@;
    nodes.push(LaunchRef { package: string_of(p.as_slice()), file: string_of(f.as_slice()) });
    assert(ref_views(nodes@) =~= ref_views(before).push((package@, file@)));
    nodes.len() - 1
}

/// The launch include graph: a node per launch file and per included file,
/// and an edge from each launch file to each file it includes.
pub fn build_launch_include_graph(pkgs: &Vec<Package>) -> (g: LaunchIncludeGraph)
    requires
        launch_refs(pkgs@).len() < u32::MAX,
    ensures
        launch_graph_spec(pkgs@, g),
{
    let mut nodes: Vec<LaunchRef> = Vec::new();
    let mut edges: Vec<(usize, usize)> = Vec::new();
    let mut i: usize = 0;
    assert(pkgs@.take(0) =~= Seq::<Package>::empty());
    assert(ref_views(nodes@) =~= dedup(launch_refs(pkgs@.take(0))));
    while i < pkgs.len()
        invariant
            i <= pkgs@.len(),
            ref_views(nodes@) == dedup(launch_refs(pkgs@.take(i as int))),
            include_edges_match(ref_views(nodes@), edges@, include_pairs(pkgs@.take(i as int))),
        decreases pkgs.len() - i,
    {
        assert(pkgs@.take(i + 1).drop_last() =~= pkgs@.take(i as int));
        let pkg = &pkgs[i];
        let ghost refs0 = launch_refs(pkgs@.take(i as int));
        let ghost pairs0 = include_pairs(pkgs@.take(i as int));
        let ghost pname = pkg.manifest.name@;
        let lfs = &pkg.launch_files;
        let mut j: usize = 0;
        assert(lfs@.take(0) =~= Seq::<LaunchFile>::empty());
        assert(refs0 + file_refs(pname, lfs@.take(0)) =~= refs0);
        assert(pairs0 + package_include_pairs(pname, lfs@.take(0)) =~= pairs0);
        while j < lfs.len()
            invariant
                j <= lfs@.len(),
                pname == pkg.manifest.name@,
                ref_views(nodes@) == dedup(refs0 + file_refs(pname, lfs@.take(j as int))),
                include_edges_match(
                    ref_views(nodes@),
                    edges@,
                    pairs0 + package_include_pairs(pname, lfs@.take(j as int)),
                ),
            decreases lfs.len() - j,
        {
            assert(lfs@.take(j + 1).drop_last() =~= lfs@.take(j as int));
            let lf = &lfs[j];
            let pv = chars_of(lf.path.as_str());
            let fixed = replace_char_exec(pv.as_slice(), '\\', '/');
            let fixed_s = string_of(fixed.as_slice());
            let ghost from = launch_ref_of(pname, *lf);
            let ghost refs_a = refs0 + file_refs(pname, lfs@.take(j as int));
            let ghost pairs_a = pairs0 + package_include_pairs(pname, lfs@.take(j as int));
            let ghost nodes_before = ref_views(nodes@);
            let from_idx = ensure_ref(&mut nodes, pkg.name(), fixed_s.as_str());
            assert(refs_a.push(from).drop_last() =~= refs_a);
            assert(ref_views(nodes@) == dedup(refs_a.push(from)));
            proof {
                assert forall|q: int| 0 <= q < edges@.len() implies (#[trigger] edges@[q]).0 < ref_views(nodes@).len()
                    && edges@[q].1 < ref_views(nodes@).len()
                    && ref_views(nodes@)[edges@[q].0 as int] == pairs_a[q].0
                    && ref_views(nodes@)[edges@[q].1 as int] == pairs_a[q].1 by {
                    assert(ref_views(nodes@)[edges@[q].0 as int] == nodes_before[edges@[q].0 as int]);
                    assert(ref_views(nodes@)[edges@[q].1 as int] == nodes_before[edges@[q].1 as int]);
                }
            }
            let incs = &lf.info.included_launches;
            let ghost iv = include_views(incs@);
            let mut k: usize = 0;
            assert(iv.take(0) =~= Seq::<(Seq<char>, Seq<char>)>::empty());
            assert(refs_a.push(from) + iv.take(0) =~= refs_a.push(from));
            assert(pairs_a + file_include_pairs(from, iv.take(0)) =~= pairs_a);
            while k < incs.len()
                invariant
                    k <= incs@.len(),
                    iv == include_views(incs@),
                    from_idx < nodes@.len(),
                    ref_views(nodes@)[from_idx as int] == from,
                    ref_views(nodes@) == dedup(refs_a.push(from) + iv.take(k as int)),
                    include_edges_match(
                        ref_views(nodes@),
                        edges@,
                        pairs_a + file_include_pairs(from, iv.take(k as int)),
                    ),
                decreases incs.len() - k,
            {
                let ghost nb = ref_views(nodes@);
                let ghost pb = pairs_a + file_include_pairs(from, iv.take(k as int));
                assert(iv[k as int] == (incs@[k as int].0@, incs@[k as int].1@));
                let to_idx = ensure_ref(&mut nodes, incs[k].0.as_str(), incs[k].1.as_str());
                assert(refs_a.push(from) + iv.take(k + 1) =~= (refs_a.push(from) + iv.take(k as int)).push(iv[k as int]));
                assert((refs_a.push(from) + iv.take(k as int)).push(iv[k as int]).drop_last() =~= refs_a.push(from) + iv.take(k as int));
                assert(pairs_a + file_include_pairs(from, iv.take(k + 1)) =~= pb.push((from, iv[k as int])));
                edges.push((from_idx, to_idx));
                proof {
                    let pn = pb.push((from, iv[k as int]));
                    assert forall|q: int| 0 <= q < edges@.len() implies (#[trigger] edges@[q]).0 < ref_views(nodes@).len()
                        && edges@[q].1 < ref_views(nodes@).len()
                        && ref_views(nodes@)[edges@[q].0 as int] == pn[q].0
                        && ref_views(nodes@)[edges@[q].1 as int] == pn[q].1 by {
                        if q < edges@.len() - 1 {
                            assert(ref_views(nodes@)[edges@[q].0 as int] == nb[edges@[q].0 as int]);
                            assert(ref_views(nodes@)[edges@[q].1 as int] == nb[edges@[q].1 as int]);
                        }
                    }
                }
                k += 1;
            }
            assert(iv.take(k as int) =~= iv);
            assert(refs0 + file_refs(pname, lfs@.take(j + 1)) =~= refs_a.push(from) + iv);
            assert(pairs0 + package_include_pairs(pname, lfs@.take(j + 1)) =~= pairs_a
                + file_include_pairs(from, iv));
            j += 1;
        }
        assert(lfs@.take(j as int) =~= lfs@);
        i += 1;
    }
    assert(pkgs@.take(i as int) =~= pkgs@);
    proof {
        lemma_dedup_len(launch_refs(pkgs@));
        lemma_include_pairs_len(pkgs@);
        assert(ref_views(nodes@).len() == nodes@.len());
    }
    LaunchIncludeGraph(launch_graph_from(&nodes, &edges))
}

/// The launch include graph with these nodes and edges, added in order.
fn launch_graph_from(nodes: &Vec<LaunchRef>, edges: &Vec<(usize, usize)>) -> (g: DiGraph<LaunchRef, ()>)
    requires
        nodes@.len() < u32::MAX,
        edges@.len() < u32::MAX,
        edges_in_range(nodes@.len(), edges@),
    ensures
        launch_graph_nodes(g) == ref_views(nodes@),
        launch_graph_edges(g) == edges@,
{
    let mut g = new_launch_graph();
    let mut i: usize = 0;
    while i < nodes.len()
        invariant
            i <= nodes@.len(),
            nodes@.len() < u32::MAX,
            launch_graph_nodes(g) == ref_views(nodes@).take(i as int),
            launch_graph_edges(g) == Seq::<(usize, usize)>::empty(),
        decreases nodes.len() - i,
    {
        let r = LaunchRef { package: nodes[i].package.clone(), file: nodes[i].file.clone() };
        add_launch_node(&mut g, r);
        i += 1;
        assert(launch_graph_nodes(g) =~= ref_views(nodes@).take(i as int));
    }
    assert(ref_views(nodes@).take(i as int) =~= ref_views(nodes@));
    let mut k: usize = 0;
    while k < edges.len()
        invariant
            k <= edges@.len(),
            edges@.len() < u32::MAX,
            edges_in_range(nodes@.len(), edges@),
            launch_graph_nodes(g) == ref_views(nodes@),
            launch_graph_edges(g) == edges@.take(k as int),
        decreases edges.len() - k,
    {
        let e = edges[k];
        assert(e.0 < nodes@.len() && e.1 < nodes@.len());
        add_launch_edge(&mut g, e.0, e.1);
        k += 1;
        assert(launch_graph_edges(g) =~= edges@.take(k as int));
    }
    assert(edges@.take(k as int) =~= edges@);
    g
}

proof fn lemma_file_include_len(pkg: Seq<char>, lfs: Seq<LaunchFile>)
    ensures
        package_include_pairs(pkg, lfs).len() <= file_refs(pkg, lfs).len(),
    decreases lfs.len(),
{
    if lfs.len() > 0 {
        lemma_file_include_len(pkg, lfs.drop_last());
    }
}

proof fn lemma_include_pairs_len(pkgs: Seq<Package>)
    ensures
        include_pairs(pkgs).len() <= launch_refs(pkgs).len(),
    decreases pkgs.len(),
{
    if pkgs.len() > 0 {
        lemma_include_pairs_len(pkgs.drop_last());
        lemma_file_include_len(pkgs.last().manifest.name@, pkgs.last().launch_files@);
    }
}

// =============================================================================
// The project
// =============================================================================

proof fn lemma_dedup_len<T>(s: Seq<T>)
    ensures
        dedup(s).len() <= s.len(),
    decreases s.len(),
{
    if s.len() > 0 {
        lemma_dedup_len(s.drop_last());
    }
}

/// The project over parsed packages: the packages in the order found, the
/// dependency graph, the launch include graph and the runtime graph.
pub fn assemble_project(workspace_root: String, packages: Vec<Package>) -> (p: Project)
    requires
        packages@.len() < u32::MAX,
        dependency_count(packages@) < u32::MAX,
        launch_refs(packages@).len() < u32::MAX,
    ensures
        p.workspace_root@ == workspace_root@,
        p.packages@ == packages@,
        dep_graph_nodes(p.dependency_graph) == package_names(packages@),
        dep_graph_edges(p.dependency_graph) == dependency_edges(package_names(packages@), packages@),
        launch_graph_spec(packages@, p.launch_include_graph),
        crate::project::runtime::runtime_graph_spec(packages@, p.runtime_graph),
{
    let dependency_graph = build_dependency_graph(&packages);
    let launch_include_graph = build_launch_include_graph(&packages);
    let runtime_graph = crate::project::runtime::build_runtime_graph(&packages);
    Project {
        workspace_root,
        packages,
        dependency_graph,
        launch_include_graph,
        runtime_graph,
    }
}

/// Whether the packages stay within the graphs' size limits: fewer than
/// `u32::MAX` packages, dependency declarations and launch references.
pub fn within_graph_limits(pkgs: &Vec<Package>) -> (r: bool)
    ensures
        r == (pkgs@.len() < u32::MAX && dependency_count(pkgs@) < u32::MAX && launch_refs(pkgs@).len()
            < u32::MAX),
{
    if pkgs.len() >= 0xffff_ffffusize || !dependency_count_within(pkgs) {
        return false;
    }
    let mut count: u64 = 0;
    let mut i: usize = 0;
    assert(pkgs@.take(0) =~= Seq::<Package>::empty());
    while i < pkgs.len()
        invariant
            i <= pkgs@.len(),
            count == launch_refs(pkgs@.take(i as int)).len(),
            count < u32::MAX,
        decreases pkgs.len() - i,
    {
        assert(pkgs@.take(i + 1).drop_last() =~= pkgs@.take(i as int));
        let lfs = &pkgs[i].launch_files;
        let ghost pname = pkgs@[i as int].manifest.name@;
        let ghost c0 = count;
        let mut j: usize = 0;
        assert(lfs@.take(0) =~= Seq::<LaunchFile>::empty());
        while j < lfs.len()
            invariant
                j <= lfs@.len(),
                i < pkgs@.len(),
                lfs@ == pkgs@[i as int].launch_files@,
                c0 == launch_refs(pkgs@.take(i as int)).len(),
                pname == pkgs@[i as int].manifest.name@,
                count == c0 + file_refs(pname, lfs@.take(j as int)).len(),
                count < u32::MAX,
            decreases lfs.len() - j,
        {
            assert(lfs@.take(j + 1).drop_last() =~= lfs@.take(j as int));
            let n = lfs[j].info.included_launches.len();
            assert(include_views(lfs@[j as int].info.included_launches@).len() == n);
            assert(lfs@.take(j + 1).last() == lfs@[j as int]);
            assert(file_refs(pname, lfs@.take(j + 1)).len() == file_refs(pname, lfs@.take(j as int)).len() + 1 + n);
            if n as u64 >= 0xffff_fffeu64 - count {
                proof {
                    lemma_refs_monotone(pkgs@, i as int, pname, lfs@, j as int);
                }
                return false;
            }
            count = count + 1 + n as u64;
            j += 1;
        }
        assert(lfs@.take(j as int) =~= lfs@);
        i += 1;
    }
    assert(pkgs@.take(i as int) =~= pkgs@);
    true
}

proof fn lemma_file_refs_prefix(pkg: Seq<char>, lfs: Seq<LaunchFile>, j: int)
    requires
        0 <= j <= lfs.len(),
    ensures
        file_refs(pkg, lfs.take(j)).len() <= file_refs(pkg, lfs).len(),
    decreases lfs.len() - j,
{
    if j < lfs.len() {
        lemma_file_refs_prefix(pkg, lfs, j + 1);
        assert(lfs.take(j + 1).drop_last() =~= lfs.take(j));
    } else {
        assert(lfs.take(j) =~= lfs);
    }
}

proof fn lemma_launch_refs_prefix(pkgs: Seq<Package>, i: int)
    requires
        0 <= i <= pkgs.len(),
    ensures
        launch_refs(pkgs.take(i)).len() <= launch_refs(pkgs).len(),
    decreases pkgs.len() - i,
{
    if i < pkgs.len() {
        lemma_launch_refs_prefix(pkgs, i + 1);
        assert(pkgs.take(i + 1).drop_last() =~= pkgs.take(i));
    } else {
        assert(pkgs.take(i) =~= pkgs);
    }
}

/// Where the references met so far, with the next launch file's, reach the
/// limit, so do all of them.
proof fn lemma_refs_monotone(pkgs: Seq<Package>, i: int, pname: Seq<char>, lfs: Seq<LaunchFile>, j: int)
    requires
        0 <= i < pkgs.len(),
        pname == pkgs[i].manifest.name@,
        lfs == pkgs[i].launch_files@,
        0 <= j < lfs.len(),
    ensures
        launch_refs(pkgs.take(i)).len() + file_refs(pname, lfs.take(j + 1)).len() <= launch_refs(pkgs).len(),
{
    lemma_file_refs_prefix(pname, lfs, j + 1);
    lemma_launch_refs_prefix(pkgs, i + 1);
    assert(pkgs.take(i + 1).drop_last() =~= pkgs.take(i));
    assert(pkgs.take(i + 1).last() == pkgs[i]);
}

} // verus!
