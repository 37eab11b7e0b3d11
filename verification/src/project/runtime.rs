//! The runtime graph: the nodes that launch files start and that setup.py
//! declares, the topics and services their source files use, and who
//! publishes, subscribes, serves and calls.
//!
//! The graph is described by the sequence of uses ("mentions") of a topic or
//! service by a node, in the order the packages and files are read: topics are
//! the distinct mentioned topic names (up to leading slashes), services the
//! distinct service names, each with the type of its first mention, and each
//! mention is one edge, which keeps the type that the mention itself uses.

use vstd::prelude::*;
use crate::checks::launch::in_workspace;
use crate::checks::model::opt_view;
use crate::cpp_nodes::{CppNodeFile, CppNodeInterface, CppNodeInterfaceKind};
use crate::launch::LaunchNode;
use crate::model::{
    LaunchFile, Package, RuntimeGraph, RuntimeNode, RuntimeService, RuntimeTopic, package_names,
};
use crate::paths::{file_stem_of, path_file_stem};
use crate::python_nodes::{PyNodeInterface, PyNodeInterfaceKind, PythonNodeFile};
use crate::setup_py::SetupPyInfo;
use crate::text::{
    chars_eq, chars_eq_str, chars_of, ends_with_str, replace_char, replace_char_exec, string_of,
    str_views, sub_chars, trim_start_char, trim_start_char_exec,
};

verus! {

// =============================================================================
// Small pieces
// =============================================================================

/// The last index at which `x` occurs in `s`.
pub open spec fn last_index_of<T>(s: Seq<T>, x: T) -> Option<int>
    decreases s.len(),
{
    if s.len() == 0 {
        None
    } else if s.last() == x {
        Some(s.len() - 1)
    } else {
        last_index_of(s.drop_last(), x)
    }
}

pub proof fn lemma_last_index_of<T>(s: Seq<T>, x: T)
    ensures
        last_index_of(s, x) matches Some(i) ==> 0 <= i < s.len() && s[i] == x,
        last_index_of(s, x) is None ==> !s.contains(x),
    decreases s.len(),
{
    if s.len() > 0 && s.last() != x {
        lemma_last_index_of(s.drop_last(), x);
        if s.contains(x) {
            let k = choose|k: int| 0 <= k < s.len() && s[k] == x;
            assert(s.drop_last()[k] == x);
        }
    }
}

/// A topic name without its leading slashes.
pub open spec fn normalize_topic(s: Seq<char>) -> Seq<char> {
    trim_start_char(s, '/')
}

/// Normalize a topic name for comparison: strip leading slashes.
pub fn normalize_topic_exec(s: &str) -> (r: String)
    ensures
        r@ == normalize_topic(s@),
{
    let v = chars_of(s);
    let t = trim_start_char_exec(v.as_slice(), '/');
    string_of(t.as_slice())
}

/// The topics that known external nodes publish by default: for
/// joint_state_publisher and joint_state_publisher_gui, `joint_states` of type
/// `sensor_msgs/msg/JointState`.
pub open spec fn known_external_publishers(package: Seq<char>, executable: Seq<char>) -> Seq<
    (Seq<char>, Seq<char>),
> {
    if (package == "joint_state_publisher_gui"@ && executable == "joint_state_publisher_gui"@) || (
    package == "joint_state_publisher"@ && executable == "joint_state_publisher"@) {
        seq![("joint_states"@, "sensor_msgs/msg/JointState"@)]
    } else {
        Seq::empty()
    }
}

/// Known external ROS2 nodes: (package, executable) to the (topic, msg_type)
/// pairs they publish by default.
pub fn known_external_publishers_exec(package: &str, executable: &str) -> (r: Vec<(String, String)>)
    ensures
        r@.map_values(|p: (String, String)| (p.0@, p.1@)) == known_external_publishers(
            package@,
            executable@,
        ),
{
    let p = chars_of(package);
    let e = chars_of(executable);
    if (chars_eq_str(p.as_slice(), "joint_state_publisher_gui") && chars_eq_str(
        e.as_slice(),
        "joint_state_publisher_gui",
    )) || (chars_eq_str(p.as_slice(), "joint_state_publisher") && chars_eq_str(
        e.as_slice(),
        "joint_state_publisher",
    )) {
        let t = chars_of("joint_states");
        let m = chars_of("sensor_msgs/msg/JointState");
        let r = vec![(string_of(t.as_slice()), string_of(m.as_slice()))];
        assert(r@.map_values(|p: (String, String)| (p.0@, p.1@)) =~= known_external_publishers(
            package@,
            executable@,
        ));
        r
    } else {
        let r: Vec<(String, String)> = Vec::new();
        assert(r@.map_values(|p: (String, String)| (p.0@, p.1@)) =~= known_external_publishers(
            package@,
            executable@,
        ));
        r
    }
}

// =============================================================================
// Nodes
// =============================================================================

/// The (package, executable, name) value of a runtime node.
pub open spec fn node_views(v: Seq<RuntimeNode>) -> Seq<(Seq<char>, Seq<char>, Option<Seq<char>>)> {
    v.map_values(|n: RuntimeNode| (n.package@, n.executable@, opt_view(n.name)))
}

/// The (package, executable) key of a node entry.
pub open spec fn node_keys(v: Seq<(Seq<char>, Seq<char>, Option<Seq<char>>)>) -> Seq<(Seq<char>, Seq<char>)> {
    v.map_values(|e: (Seq<char>, Seq<char>, Option<Seq<char>>)| (e.0, e.1))
}

/// The node entries of launched nodes.
pub open spec fn launched_entries(ns: Seq<LaunchNode>) -> Seq<(Seq<char>, Seq<char>, Option<Seq<char>>)> {
    ns.map_values(|n: LaunchNode| (n.package@, n.executable@, opt_view(n.name)))
}

/// The node entries of the nodes that launch files start, file by file.
pub open spec fn file_node_entries(lfs: Seq<LaunchFile>) -> Seq<(Seq<char>, Seq<char>, Option<Seq<char>>)>
    decreases lfs.len(),
{
    if lfs.len() == 0 {
        Seq::empty()
    } else {
        file_node_entries(lfs.drop_last()) + launched_entries(lfs.last().info.nodes@)
    }
}

/// The node entries of launched nodes, package by package.
pub open spec fn launch_node_entries(pkgs: Seq<Package>) -> Seq<(Seq<char>, Seq<char>, Option<Seq<char>>)>
    decreases pkgs.len(),
{
    if pkgs.len() == 0 {
        Seq::empty()
    } else {
        launch_node_entries(pkgs.drop_last()) + file_node_entries(pkgs.last().launch_files@)
    }
}

/// The node entries of a package's setup.py entry points, unnamed.
pub open spec fn entry_point_entries_of(p: Package) -> Seq<(Seq<char>, Seq<char>, Option<Seq<char>>)> {
    match p.setup_py_info {
        Some(sp) => sp.entry_points@.map_values(
            |e: String| (p.manifest.name@, e@, None::<Seq<char>>),
        ),
        None => Seq::empty(),
    }
}

/// The node entries of setup.py entry points, package by package.
pub open spec fn entry_point_entries(pkgs: Seq<Package>) -> Seq<(Seq<char>, Seq<char>, Option<Seq<char>>)>
    decreases pkgs.len(),
{
    if pkgs.len() == 0 {
        Seq::empty()
    } else {
        entry_point_entries(pkgs.drop_last()) + entry_point_entries_of(pkgs.last())
    }
}

/// Node entries without repeated keys: each key with its first entry.
pub open spec fn dedup_nodes(es: Seq<(Seq<char>, Seq<char>, Option<Seq<char>>)>) -> Seq<
    (Seq<char>, Seq<char>, Option<Seq<char>>),
>
    decreases es.len(),
{
    if es.len() == 0 {
        Seq::empty()
    } else {
        let d = dedup_nodes(es.drop_last());
        if node_keys(d).contains((es.last().0, es.last().1)) {
            d
        } else {
            d.push(es.last())
        }
    }
}

/// The runtime nodes: launched nodes, then setup.py entry points, one per
/// (package, executable), with the name of its first launch.
pub open spec fn runtime_nodes(pkgs: Seq<Package>) -> Seq<(Seq<char>, Seq<char>, Option<Seq<char>>)> {
    dedup_nodes(launch_node_entries(pkgs) + entry_point_entries(pkgs))
}

/// Index of the node with this key.
fn find_node(nodes: &Vec<RuntimeNode>, package: &str, executable: &str) -> (r: Option<usize>)
    ensures
        match r {
            Some(i) => last_index_of(node_keys(node_views(nodes@)), (package@, executable@)) == Some(
                i as int,
            ),
            None => last_index_of(node_keys(node_views(nodes@)), (package@, executable@)) is None,
        },
{
    let ghost keys = node_keys(node_views(nodes@));
    let p = chars_of(package);
    let e = chars_of(executable);
    let mut j = nodes.len();
    assert(keys.take(j as int) =~= keys);
    while j > 0
        invariant
            j <= nodes@.len(),
            p@ == package@,
            e@ == executable@,
            keys == node_keys(node_views(nodes@)),
            last_index_of(keys, (package@, executable@)) == last_index_of(
                keys.take(j as int),
                (package@, executable@),
            ),
        decreases j,
    {
        assert(keys.take(j as int).drop_last() =~= keys.take(j - 1));
        assert(keys.take(j as int).last() == (nodes@[j - 1].package@, nodes@[j - 1].executable@));
        let a = chars_of(nodes[j - 1].package.as_str());
        let b = chars_of(nodes[j - 1].executable.as_str());
        if chars_eq(a.as_slice(), p.as_slice()) && chars_eq(b.as_slice(), e.as_slice()) {
            return Some(j - 1);
        }
        j -= 1;
    }
    None
}

fn copy_opt(o: &Option<String>) -> (r: Option<String>)
    ensures
        opt_view(r) == opt_view(*o),
{
    match o {
        Some(s) => Some(s.clone()),
        None => None,
    }
}

/// Adds the node where its key is new.
fn add_node(nodes: &mut Vec<RuntimeNode>, package: &String, executable: &String, name: Option<String>)
    ensures
        node_views(final(nodes)@) == (if node_keys(node_views(old(nodes)@)).contains(
            (package@, executable@),
        ) {
            node_views(old(nodes)@)
        } else {
            node_views(old(nodes)@).push((package@, executable@, opt_view(name)))
        }),
{
    match find_node(nodes, package.as_str(), executable.as_str()) {
        Some(i) => {
            proof {
                lemma_last_index_of(node_keys(node_views(nodes@)), (package@, executable@));
            }
        },
        None => {
            proof {
                lemma_last_index_of(node_keys(node_views(nodes@)), (package@, executable@));
            }
            let ghost before = nodes@;
            nodes.push(
                RuntimeNode { package: package.clone(), executable: executable.clone(), name },
            );
            assert(node_views(nodes@) =~= node_views(before).push(
                (package@, executable@, opt_view(name)),
            ));
        },
    }
}

/// The runtime nodes of the packages.
fn collect_nodes(pkgs: &Vec<Package>) -> (r: Vec<RuntimeNode>)
    ensures
        node_views(r@) == runtime_nodes(pkgs@),
{
    let mut nodes: Vec<RuntimeNode> = Vec::new();
    let ghost all = launch_node_entries(pkgs@) + entry_point_entries(pkgs@);
    let mut i: usize = 0;
    assert(pkgs@.take(0) =~= Seq::<Package>::empty());
    assert(node_views(nodes@) =~= dedup_nodes(launch_node_entries(pkgs@.take(0))));
    while i < pkgs.len()
        invariant
            i <= pkgs@.len(),
            node_views(nodes@) == dedup_nodes(launch_node_entries(pkgs@.take(i as int))),
        decreases pkgs.len() - i,
    {
        assert(pkgs@.take(i + 1).drop_last() =~= pkgs@.take(i as int));
        let ghost e0 = launch_node_entries(pkgs@.take(i as int));
        let lfs = &pkgs[i].launch_files;
        let mut j: usize = 0;
        assert(lfs@.take(0) =~= Seq::<LaunchFile>::empty());
        assert(e0 + file_node_entries(lfs@.take(0)) =~= e0);
        while j < lfs.len()
            invariant
                j <= lfs@.len(),
                node_views(nodes@) == dedup_nodes(e0 + file_node_entries(lfs@.take(j as int))),
            decreases lfs.len() - j,
        {
            assert(lfs@.take(j + 1).drop_last() =~= lfs@.take(j as int));
            let ghost e1 = e0 + file_node_entries(lfs@.take(j as int));
            let ns = &lfs[j].info.nodes;
            let mut k: usize = 0;
            assert(e1 + launched_entries(ns@.take(0)) =~= e1);
            while k < ns.len()
                invariant
                    k <= ns@.len(),
                    node_views(nodes@) == dedup_nodes(e1 + launched_entries(ns@.take(k as int))),
                decreases ns.len() - k,
            {
                let n = &ns[k];
                let ghost prev = e1 + launched_entries(ns@.take(k as int));
                add_node(&mut nodes, &n.package, &n.executable, copy_opt(&n.name));
                assert(e1 + launched_entries(ns@.take(k + 1)) =~= prev.push(
                    (n.package@, n.executable@, opt_view(n.name)),
                ));
                assert(prev.push((n.package@, n.executable@, opt_view(n.name))).drop_last() =~= prev);
                k += 1;
            }
            assert(ns@.take(k as int) =~= ns@);
            assert(e0 + file_node_entries(lfs@.take(j + 1)) =~= e1 + launched_entries(ns@));
            j += 1;
        }
        assert(lfs@.take(j as int) =~= lfs@);
        i += 1;
    }
    assert(pkgs@.take(i as int) =~= pkgs@);
    let ghost base = launch_node_entries(pkgs@);
    let mut i: usize = 0;
    assert(base + entry_point_entries(pkgs@.take(0)) =~= base);
    while i < pkgs.len()
        invariant
            i <= pkgs@.len(),
            base == launch_node_entries(pkgs@),
            node_views(nodes@) == dedup_nodes(base + entry_point_entries(pkgs@.take(i as int))),
        decreases pkgs.len() - i,
    {
        assert(pkgs@.take(i + 1).drop_last() =~= pkgs@.take(i as int));
        let pkg = &pkgs[i];
        let ghost e0 = base + entry_point_entries(pkgs@.take(i as int));
        match &pkg.setup_py_info {
            Some(sp) => {
                let eps = &sp.entry_points;
                let ghost pe = eps@.map_values(
                    |e: String| (pkg.manifest.name@, e@, None::<Seq<char>>),
                );
                let mut k: usize = 0;
                assert(e0 + pe.take(0) =~= e0);
                while k < eps.len()
                    invariant
                        k <= eps@.len(),
                        pe == eps@.map_values(
                            |e: String| (pkg.manifest.name@, e@, None::<Seq<char>>),
                        ),
                        node_views(nodes@) == dedup_nodes(e0 + pe.take(k as int)),
                    decreases eps.len() - k,
                {
                    let ghost prev = e0 + pe.take(k as int);
                    add_node(&mut nodes, &pkg.manifest.name, &eps[k], None);
                    assert(e0 + pe.take(k + 1) =~= prev.push(pe[k as int]));
                    assert(prev.push(pe[k as int]).drop_last() =~= prev);
                    k += 1;
                }
                assert(pe.take(k as int) =~= pe);
                assert(base + entry_point_entries(pkgs@.take(i + 1)) =~= e0 + pe);
            },
            None => {
                assert(base + entry_point_entries(pkgs@.take(i + 1)) =~= e0);
            },
        }
        i += 1;
    }
    assert(pkgs@.take(i as int) =~= pkgs@);
    nodes
}

// =============================================================================
// Mentions: uses of a topic or service by a node
// =============================================================================

/// How a node uses a topic or a service.
#[derive(Clone, Copy, Debug, PartialEq, Eq, Structural)]
pub enum EdgeKind {
    Publisher,
    Subscriber,
    Server,
    Client,
}

/// A use of a topic or service by the node of index `node`.
pub struct MentionSpec {
    pub node: usize,
    pub kind: EdgeKind,
    pub name: Seq<char>,
    pub ty: Seq<char>,
}

struct Mention {
    node: usize,
    kind: EdgeKind,
    name: String,
    ty: String,
}

impl View for Mention {
    type V = MentionSpec;

    closed spec fn view(&self) -> MentionSpec {
        MentionSpec { node: self.node, kind: self.kind, name: self.name@, ty: self.ty@ }
    }
}

spec fn mention_views(v: Seq<Mention>) -> Seq<MentionSpec> {
    v.map_values(|m: Mention| m@)
}

/// The use that a Python interface kind makes (actions make none).
pub open spec fn py_edge_kind(k: PyNodeInterfaceKind) -> Option<EdgeKind> {
    match k {
        PyNodeInterfaceKind::Publisher => Some(EdgeKind::Publisher),
        PyNodeInterfaceKind::Subscriber => Some(EdgeKind::Subscriber),
        PyNodeInterfaceKind::Service => Some(EdgeKind::Server),
        PyNodeInterfaceKind::Client => Some(EdgeKind::Client),
        _ => None,
    }
}

/// The use that a C++ interface kind makes (actions make none).
pub open spec fn cpp_edge_kind(k: CppNodeInterfaceKind) -> Option<EdgeKind> {
    match k {
        CppNodeInterfaceKind::Publisher => Some(EdgeKind::Publisher),
        CppNodeInterfaceKind::Subscriber => Some(EdgeKind::Subscriber),
        CppNodeInterfaceKind::Service => Some(EdgeKind::Server),
        CppNodeInterfaceKind::Client => Some(EdgeKind::Client),
        _ => None,
    }
}

/// The mentions of node `node` made by the interfaces of a Python file.
pub open spec fn py_iface_mentions(node: usize, ifs: Seq<PyNodeInterface>) -> Seq<MentionSpec>
    decreases ifs.len(),
{
    if ifs.len() == 0 {
        Seq::empty()
    } else {
        let rest = py_iface_mentions(node, ifs.drop_last());
        let i = ifs.last();
        match py_edge_kind(i.kind) {
            Some(k) => rest.push(MentionSpec { node, kind: k, name: i.name@, ty: i.interface_type@ }),
            None => rest,
        }
    }
}

/// The mentions of node `node` made by the interfaces of a C++ file.
pub open spec fn cpp_iface_mentions(node: usize, ifs: Seq<CppNodeInterface>) -> Seq<MentionSpec>
    decreases ifs.len(),
{
    if ifs.len() == 0 {
        Seq::empty()
    } else {
        let rest = cpp_iface_mentions(node, ifs.drop_last());
        let i = ifs.last();
        match cpp_edge_kind(i.kind) {
            Some(k) => rest.push(MentionSpec { node, kind: k, name: i.name@, ty: i.interface_type@ }),
            None => rest,
        }
    }
}

/// `s` with the suffix `suf` removed as often as it ends `s` (`str::trim_end_matches`).
pub open spec fn trim_suffix_repeatedly(s: Seq<char>, suf: Seq<char>) -> Seq<char>
    decreases s.len(),
{
    if suf.len() > 0 && suf.is_suffix_of(s) {
        trim_suffix_repeatedly(s.take(s.len() - suf.len()), suf)
    } else {
        s
    }
}

/// The module a Python file implements: `my_pkg/publisher.py` is `my_pkg.publisher`.
pub open spec fn path_to_module(path: Seq<char>) -> Seq<char> {
    replace_char(trim_suffix_repeatedly(replace_char(path, '\\', '/'), ".py"@), '/', '.')
}

/// The executable whose entry point is `module`: the first such entry point.
pub open spec fn module_executable(mods: Seq<(String, String)>, module: Seq<char>) -> Option<Seq<char>>
    decreases mods.len(),
{
    if mods.len() == 0 {
        None
    } else if mods[0].1@ == module {
        Some(mods[0].0@)
    } else {
        module_executable(mods.drop_first(), module)
    }
}

/// The executable a Python node file runs as: through setup.py's entry points
/// where the package has a setup.py, else the file's stem.
pub open spec fn py_executable(sp: Option<SetupPyInfo>, path: Seq<char>) -> Option<Seq<char>> {
    match sp {
        Some(sp) => module_executable(sp.entry_point_modules@, path_to_module(path)),
        None => path_file_stem(path),
    }
}

/// The executable a C++ file is built into: its add_executable target, else
/// the file's stem.
pub open spec fn cpp_executable(f: CppNodeFile) -> Option<Seq<char>> {
    match f.executable {
        Some(e) => Some(e@),
        None => path_file_stem(f.path@),
    }
}

/// The mentions made by the Python node files of package `pkg`.
pub open spec fn py_files_mentions(
    keys: Seq<(Seq<char>, Seq<char>)>,
    pkg: Seq<char>,
    sp: Option<SetupPyInfo>,
    files: Seq<PythonNodeFile>,
) -> Seq<MentionSpec>
    decreases files.len(),
{
    if files.len() == 0 {
        Seq::empty()
    } else {
        py_files_mentions(keys, pkg, sp, files.drop_last()) + match py_executable(
            sp,
            files.last().path@,
        ) {
            Some(e) => match last_index_of(keys, (pkg, e)) {
                Some(i) => py_iface_mentions(i as usize, files.last().interfaces@),
                None => Seq::empty(),
            },
            None => Seq::empty(),
        }
    }
}

/// The mentions made by the C++ node files of package `pkg`.
pub open spec fn cpp_files_mentions(
    keys: Seq<(Seq<char>, Seq<char>)>,
    pkg: Seq<char>,
    files: Seq<CppNodeFile>,
) -> Seq<MentionSpec>
    decreases files.len(),
{
    if files.len() == 0 {
        Seq::empty()
    } else {
        cpp_files_mentions(keys, pkg, files.drop_last()) + match cpp_executable(files.last()) {
            Some(e) => match last_index_of(keys, (pkg, e)) {
                Some(i) => cpp_iface_mentions(i as usize, files.last().interfaces@),
                None => Seq::empty(),
            },
            None => Seq::empty(),
        }
    }
}

/// The mentions made by node source files: per package, its Python files,
/// then its C++ files.
pub open spec fn code_mentions(keys: Seq<(Seq<char>, Seq<char>)>, pkgs: Seq<Package>) -> Seq<MentionSpec>
    decreases pkgs.len(),
{
    if pkgs.len() == 0 {
        Seq::empty()
    } else {
        let p = pkgs.last();
        code_mentions(keys, pkgs.drop_last()) + py_files_mentions(
            keys,
            p.manifest.name@,
            p.setup_py_info,
            p.python_node_files@,
        ) + cpp_files_mentions(keys, p.manifest.name@, p.cpp_node_files@)
    }
}

/// The publications of node `node` under the remappings of its default topic
/// `from_default` (of type `ty`): one per remapping from that topic.
pub open spec fn remapped_publications(
    node: usize,
    from_default: Seq<char>,
    ty: Seq<char>,
    remaps: Seq<(String, String)>,
) -> Seq<MentionSpec>
    decreases remaps.len(),
{
    if remaps.len() == 0 {
        Seq::empty()
    } else {
        let rest = remapped_publications(node, from_default, ty, remaps.drop_last());
        if normalize_topic(remaps.last().0@) == normalize_topic(from_default) {
            rest.push(
                MentionSpec { node, kind: EdgeKind::Publisher, name: remaps.last().1@, ty },
            )
        } else {
            rest
        }
    }
}

/// The remapped publications of node `node` for each of its default topics.
pub open spec fn defaults_publications(
    node: usize,
    defaults: Seq<(Seq<char>, Seq<char>)>,
    remaps: Seq<(String, String)>,
) -> Seq<MentionSpec>
    decreases defaults.len(),
{
    if defaults.len() == 0 {
        Seq::empty()
    } else {
        defaults_publications(node, defaults.drop_last(), remaps) + remapped_publications(
            node,
            defaults.last().0,
            defaults.last().1,
            remaps,
        )
    }
}

/// The remapped publications of one launched node: only for a known external
/// node (from a package outside the workspace) with remappings.
pub open spec fn node_remap_mentions(
    keys: Seq<(Seq<char>, Seq<char>)>,
    ws: Seq<Seq<char>>,
    n: LaunchNode,
) -> Seq<MentionSpec> {
    if n.remappings@.len() == 0 {
        Seq::empty()
    } else {
        match last_index_of(keys, (n.package@, n.executable@)) {
            Some(i) => if ws.contains(n.package@) {
                Seq::empty()
            } else {
                defaults_publications(
                    i as usize,
                    known_external_publishers(n.package@, n.executable@),
                    n.remappings@,
                )
            },
            None => Seq::empty(),
        }
    }
}

pub open spec fn nodes_remap_mentions(
    keys: Seq<(Seq<char>, Seq<char>)>,
    ws: Seq<Seq<char>>,
    ns: Seq<LaunchNode>,
) -> Seq<MentionSpec>
    decreases ns.len(),
{
    if ns.len() == 0 {
        Seq::empty()
    } else {
        nodes_remap_mentions(keys, ws, ns.drop_last()) + node_remap_mentions(keys, ws, ns.last())
    }
}

pub open spec fn files_remap_mentions(
    keys: Seq<(Seq<char>, Seq<char>)>,
    ws: Seq<Seq<char>>,
    lfs: Seq<LaunchFile>,
) -> Seq<MentionSpec>
    decreases lfs.len(),
{
    if lfs.len() == 0 {
        Seq::empty()
    } else {
        files_remap_mentions(keys, ws, lfs.drop_last()) + nodes_remap_mentions(
            keys,
            ws,
            lfs.last().info.nodes@,
        )
    }
}

/// The remapped publications of launched nodes, package by package.
pub open spec fn remap_mentions(
    keys: Seq<(Seq<char>, Seq<char>)>,
    ws: Seq<Seq<char>>,
    pkgs: Seq<Package>,
) -> Seq<MentionSpec>
    decreases pkgs.len(),
{
    if pkgs.len() == 0 {
        Seq::empty()
    } else {
        remap_mentions(keys, ws, pkgs.drop_last()) + files_remap_mentions(
            keys,
            ws,
            pkgs.last().launch_files@,
        )
    }
}

/// All mentions: those of node source files, then the remapped publications
/// of known external nodes.
pub open spec fn runtime_mentions(pkgs: Seq<Package>) -> Seq<MentionSpec> {
    let keys = node_keys(runtime_nodes(pkgs));
    code_mentions(keys, pkgs) + remap_mentions(keys, package_names(pkgs), pkgs)
}

fn module_of_path(path: &str) -> (r: Vec<char>)
    ensures
        r@ == path_to_module(path@),
{
    let v = chars_of(path);
    let slashed = replace_char_exec(v.as_slice(), '\\', '/');
    let ghost full = slashed@;
    let mut cur = slashed;
    proof {
        reveal_strlit(".py");
    }
    while ends_with_str(cur.as_slice(), ".py")
        invariant
            trim_suffix_repeatedly(full, ".py"@) == trim_suffix_repeatedly(cur@, ".py"@),
            ".py"@.len() == 3,
        decreases cur@.len(),
    {
        let n = cur.len();
        cur = sub_chars(cur.as_slice(), 0, n - 3);
    }
    replace_char_exec(cur.as_slice(), '/', '.')
}

fn find_module_executable(mods: &Vec<(String, String)>, module: &[char]) -> (r: Option<String>)
    ensures
        opt_view(r) == module_executable(mods@, module@),
{
    let mut i: usize = 0;
    assert(mods@.skip(0) =~= mods@);
    while i < mods.len()
        invariant
            i <= mods@.len(),
            module_executable(mods@, module@) == module_executable(mods@.skip(i as int), module@),
        decreases mods.len() - i,
    {
        assert(mods@.skip(i as int)[0] == mods@[i as int]);
        assert(mods@.skip(i as int).drop_first() =~= mods@.skip(i + 1));
        let m = chars_of(mods[i].1.as_str());
        if chars_eq(m.as_slice(), module) {
            return Some(mods[i].0.clone());
        }
        i += 1;
    }
    None
}

/// The executable a Python node file runs as.
fn python_executable(sp: &Option<SetupPyInfo>, path: &str) -> (r: Option<String>)
    ensures
        opt_view(r) == py_executable(*sp, path@),
{
    match sp {
        Some(info) => {
            let module = module_of_path(path);
            find_module_executable(&info.entry_point_modules, module.as_slice())
        },
        None => file_stem_of(path),
    }
}

/// The executable a C++ node file is built into.
fn cpp_executable_of(f: &CppNodeFile) -> (r: Option<String>)
    ensures
        opt_view(r) == cpp_executable(*f),
{
    match &f.executable {
        Some(e) => Some(e.clone()),
        None => file_stem_of(f.path.as_str()),
    }
}

fn py_kind_exec(k: PyNodeInterfaceKind) -> (r: Option<EdgeKind>)
    ensures
        r == py_edge_kind(k),
{
    match k {
        PyNodeInterfaceKind::Publisher => Some(EdgeKind::Publisher),
        PyNodeInterfaceKind::Subscriber => Some(EdgeKind::Subscriber),
        PyNodeInterfaceKind::Service => Some(EdgeKind::Server),
        PyNodeInterfaceKind::Client => Some(EdgeKind::Client),
        _ => None,
    }
}

fn cpp_kind_exec(k: CppNodeInterfaceKind) -> (r: Option<EdgeKind>)
    ensures
        r == cpp_edge_kind(k),
{
    match k {
        CppNodeInterfaceKind::Publisher => Some(EdgeKind::Publisher),
        CppNodeInterfaceKind::Subscriber => Some(EdgeKind::Subscriber),
        CppNodeInterfaceKind::Service => Some(EdgeKind::Server),
        CppNodeInterfaceKind::Client => Some(EdgeKind::Client),
        _ => None,
    }
}

fn push_py_ifaces(node: usize, ifs: &Vec<PyNodeInterface>, out: &mut Vec<Mention>)
    ensures
        mention_views(final(out)@) == mention_views(old(out)@) + py_iface_mentions(node, ifs@),
{
    let ghost o = mention_views(out@);
    let mut i: usize = 0;
    assert(ifs@.take(0) =~= Seq::<PyNodeInterface>::empty());
    assert(mention_views(out@) =~= o + py_iface_mentions(node, ifs@.take(0)));
    while i < ifs.len()
        invariant
            i <= ifs@.len(),
            mention_views(out@) == o + py_iface_mentions(node, ifs@.take(i as int)),
        decreases ifs.len() - i,
    {
        assert(ifs@.take(i + 1).drop_last() =~= ifs@.take(i as int));
        let ghost before = mention_views(out@);
        match py_kind_exec(ifs[i].kind) {
            Some(k) => {
                out.push(
                    Mention {
                        node,
                        kind: k,
                        name: ifs[i].name.clone(),
                        ty: ifs[i].interface_type.clone(),
                    },
                );
                assert(mention_views(out@) =~= before.push(
                    MentionSpec { node, kind: k, name: ifs@[i as int].name@, ty: ifs@[i as int].interface_type@ },
                ));
            },
            None => {},
        }
        i += 1;
    }
    assert(ifs@.take(i as int) =~= ifs@);
}

fn push_cpp_ifaces(node: usize, ifs: &Vec<CppNodeInterface>, out: &mut Vec<Mention>)
    ensures
        mention_views(final(out)@) == mention_views(old(out)@) + cpp_iface_mentions(node, ifs@),
{
    let ghost o = mention_views(out@);
    let mut i: usize = 0;
    assert(ifs@.take(0) =~= Seq::<CppNodeInterface>::empty());
    assert(mention_views(out@) =~= o + cpp_iface_mentions(node, ifs@.take(0)));
    while i < ifs.len()
        invariant
            i <= ifs@.len(),
            mention_views(out@) == o + cpp_iface_mentions(node, ifs@.take(i as int)),
        decreases ifs.len() - i,
    {
        assert(ifs@.take(i + 1).drop_last() =~= ifs@.take(i as int));
        let ghost before = mention_views(out@);
        match cpp_kind_exec(ifs[i].kind) {
            Some(k) => {
                out.push(
                    Mention {
                        node,
                        kind: k,
                        name: ifs[i].name.clone(),
                        ty: ifs[i].interface_type.clone(),
                    },
                );
                assert(mention_views(out@) =~= before.push(
                    MentionSpec { node, kind: k, name: ifs@[i as int].name@, ty: ifs@[i as int].interface_type@ },
                ));
            },
            None => {},
        }
        i += 1;
    }
    assert(ifs@.take(i as int) =~= ifs@);
}

fn push_package_code_mentions(nodes: &Vec<RuntimeNode>, pkg: &Package, out: &mut Vec<Mention>)
    ensures
        mention_views(final(out)@) == mention_views(old(out)@) + py_files_mentions(
            node_keys(node_views(nodes@)),
            pkg.manifest.name@,
            pkg.setup_py_info,
            pkg.python_node_files@,
        ) + cpp_files_mentions(node_keys(node_views(nodes@)), pkg.manifest.name@, pkg.cpp_node_files@),
{
    let ghost keys = node_keys(node_views(nodes@));
    let ghost o = mention_views(out@);
    let pyf = &pkg.python_node_files;
    let mut i: usize = 0;
    assert(pyf@.take(0) =~= Seq::<PythonNodeFile>::empty());
    assert(mention_views(out@) =~= o + py_files_mentions(keys, pkg.manifest.name@, pkg.setup_py_info, pyf@.take(0)));
    while i < pyf.len()
        invariant
            i <= pyf@.len(),
            keys == node_keys(node_views(nodes@)),
            mention_views(out@) == o + py_files_mentions(
                keys,
                pkg.manifest.name@,
                pkg.setup_py_info,
                pyf@.take(i as int),
            ),
        decreases pyf.len() - i,
    {
        assert(pyf@.take(i + 1).drop_last() =~= pyf@.take(i as int));
        let ghost before = mention_views(out@);
        let f = &pyf[i];
        match python_executable(&pkg.setup_py_info, f.path.as_str()) {
            Some(e) => {
                match find_node(nodes, pkg.name(), e.as_str()) {
                    Some(n) => {
                        push_py_ifaces(n, &f.interfaces, out);
                    },
                    None => {
                        assert(mention_views(out@) =~= before + Seq::<MentionSpec>::empty());
                    },
                }
            },
            None => {
                assert(mention_views(out@) =~= before + Seq::<MentionSpec>::empty());
            },
        }
        assert(o + py_files_mentions(keys, pkg.manifest.name@, pkg.setup_py_info, pyf@.take(i + 1))
            =~= before + match py_executable(pkg.setup_py_info, f.path@) {
            Some(e) => match last_index_of(keys, (pkg.manifest.name@, e)) {
                Some(n) => py_iface_mentions(n as usize, f.interfaces@),
                None => Seq::empty(),
            },
            None => Seq::empty(),
        });
        i += 1;
    }
    assert(pyf@.take(i as int) =~= pyf@);
    let ghost mid = mention_views(out@);
    let cf = &pkg.cpp_node_files;
    let mut i: usize = 0;
    assert(cf@.take(0) =~= Seq::<CppNodeFile>::empty());
    assert(mention_views(out@) =~= mid + cpp_files_mentions(keys, pkg.manifest.name@, cf@.take(0)));
    while i < cf.len()
        invariant
            i <= cf@.len(),
            keys == node_keys(node_views(nodes@)),
            mention_views(out@) == mid + cpp_files_mentions(keys, pkg.manifest.name@, cf@.take(i as int)),
        decreases cf.len() - i,
    {
        assert(cf@.take(i + 1).drop_last() =~= cf@.take(i as int));
        let ghost before = mention_views(out@);
        let f = &cf[i];
        match cpp_executable_of(f) {
            Some(e) => {
                match find_node(nodes, pkg.name(), e.as_str()) {
                    Some(n) => {
                        push_cpp_ifaces(n, &f.interfaces, out);
                    },
                    None => {
                        assert(mention_views(out@) =~= before + Seq::<MentionSpec>::empty());
                    },
                }
            },
            None => {
                assert(mention_views(out@) =~= before + Seq::<MentionSpec>::empty());
            },
        }
        assert(mid + cpp_files_mentions(keys, pkg.manifest.name@, cf@.take(i + 1)) =~= before
            + match cpp_executable(*f) {
            Some(e) => match last_index_of(keys, (pkg.manifest.name@, e)) {
                Some(n) => cpp_iface_mentions(n as usize, f.interfaces@),
                None => Seq::empty(),
            },
            None => Seq::empty(),
        });
        i += 1;
    }
    assert(cf@.take(i as int) =~= cf@);
}

fn push_remapped(
    node: usize,
    from_default: &String,
    ty: &String,
    remaps: &Vec<(String, String)>,
    out: &mut Vec<Mention>,
)
    ensures
        mention_views(final(out)@) == mention_views(old(out)@) + remapped_publications(
            node,
            from_default@,
            ty@,
            remaps@,
        ),
{
    let ghost o = mention_views(out@);
    let from_norm = normalize_topic_exec(from_default.as_str());
    let fnv = chars_of(from_norm.as_str());
    let mut i: usize = 0;
    assert(remaps@.take(0) =~= Seq::<(String, String)>::empty());
    assert(mention_views(out@) =~= o + remapped_publications(node, from_default@, ty@, remaps@.take(0)));
    while i < remaps.len()
        invariant
            i <= remaps@.len(),
            fnv@ == normalize_topic(from_default@),
            mention_views(out@) == o + remapped_publications(node, from_default@, ty@, remaps@.take(i as int)),
        decreases remaps.len() - i,
    {
        assert(remaps@.take(i + 1).drop_last() =~= remaps@.take(i as int));
        let ghost before = mention_views(out@);
        let n = normalize_topic_exec(remaps[i].0.as_str());
        let nv = chars_of(n.as_str());
        if chars_eq(nv.as_slice(), fnv.as_slice()) {
            out.push(
                Mention {
                    node,
                    kind: EdgeKind::Publisher,
                    name: remaps[i].1.clone(),
                    ty: ty.clone(),
                },
            );
            assert(mention_views(out@) =~= before.push(
                MentionSpec { node, kind: EdgeKind::Publisher, name: remaps@[i as int].1@, ty: ty@ },
            ));
        }
        i += 1;
    }
    assert(remaps@.take(i as int) =~= remaps@);
}

fn push_node_remaps(
    pkgs: &Vec<Package>,
    nodes: &Vec<RuntimeNode>,
    n: &LaunchNode,
    out: &mut Vec<Mention>,
)
    ensures
        mention_views(final(out)@) == mention_views(old(out)@) + node_remap_mentions(
            node_keys(node_views(nodes@)),
            package_names(pkgs@),
            *n,
        ),
{
    let ghost o = mention_views(out@);
    if n.remappings.len() == 0 {
        assert(mention_views(out@) =~= o + Seq::<MentionSpec>::empty());
        return;
    }
    match find_node(nodes, n.package.as_str(), n.executable.as_str()) {
        None => {
            assert(mention_views(out@) =~= o + Seq::<MentionSpec>::empty());
        },
        Some(nidx) => {
            if in_workspace(pkgs, n.package.as_str()) {
                assert(mention_views(out@) =~= o + Seq::<MentionSpec>::empty());
            } else {
                let defaults = known_external_publishers_exec(n.package.as_str(), n.executable.as_str());
                let ghost dv = defaults@.map_values(|p: (String, String)| (p.0@, p.1@));
                let mut k: usize = 0;
                assert(dv.take(0) =~= Seq::<(Seq<char>, Seq<char>)>::empty());
                assert(mention_views(out@) =~= o + defaults_publications(nidx, dv.take(0), n.remappings@));
                while k < defaults.len()
                    invariant
                        k <= defaults@.len(),
                        dv == defaults@.map_values(|p: (String, String)| (p.0@, p.1@)),
                        mention_views(out@) == o + defaults_publications(nidx, dv.take(k as int), n.remappings@),
                    decreases defaults.len() - k,
                {
                    assert(dv.take(k + 1).drop_last() =~= dv.take(k as int));
                    assert(dv.take(k + 1).last() == (defaults@[k as int].0@, defaults@[k as int].1@));
                    push_remapped(nidx, &defaults[k].0, &defaults[k].1, &n.remappings, out);
                    k += 1;
                }
                assert(dv.take(k as int) =~= dv);
            }
        },
    }
}

fn push_remap_mentions(pkgs: &Vec<Package>, nodes: &Vec<RuntimeNode>, out: &mut Vec<Mention>)
    ensures
        mention_views(final(out)@) == mention_views(old(out)@) + remap_mentions(
            node_keys(node_views(nodes@)),
            package_names(pkgs@),
            pkgs@,
        ),
{
    let ghost keys = node_keys(node_views(nodes@));
    let ghost ws = package_names(pkgs@);
    let ghost o = mention_views(out@);
    let mut i: usize = 0;
    assert(pkgs@.take(0) =~= Seq::<Package>::empty());
    assert(mention_views(out@) =~= o + remap_mentions(keys, ws, pkgs@.take(0)));
    while i < pkgs.len()
        invariant
            i <= pkgs@.len(),
            keys == node_keys(node_views(nodes@)),
            ws == package_names(pkgs@),
            mention_views(out@) == o + remap_mentions(keys, ws, pkgs@.take(i as int)),
        decreases pkgs.len() - i,
    {
        assert(pkgs@.take(i + 1).drop_last() =~= pkgs@.take(i as int));
        let ghost m0 = mention_views(out@);
        let lfs = &pkgs[i].launch_files;
        let mut j: usize = 0;
        assert(lfs@.take(0) =~= Seq::<LaunchFile>::empty());
        assert(mention_views(out@) =~= m0 + files_remap_mentions(keys, ws, lfs@.take(0)));
        while j < lfs.len()
            invariant
                j <= lfs@.len(),
                keys == node_keys(node_views(nodes@)),
                ws == package_names(pkgs@),
                mention_views(out@) == m0 + files_remap_mentions(keys, ws, lfs@.take(j as int)),
            decreases lfs.len() - j,
        {
            assert(lfs@.take(j + 1).drop_last() =~= lfs@.take(j as int));
            let ghost m1 = mention_views(out@);
            let ns = &lfs[j].info.nodes;
            let mut k: usize = 0;
            assert(ns@.take(0) =~= Seq::<LaunchNode>::empty());
            assert(mention_views(out@) =~= m1 + nodes_remap_mentions(keys, ws, ns@.take(0)));
            while k < ns.len()
                invariant
                    k <= ns@.len(),
                    keys == node_keys(node_views(nodes@)),
                    ws == package_names(pkgs@),
                    mention_views(out@) == m1 + nodes_remap_mentions(keys, ws, ns@.take(k as int)),
                decreases ns.len() - k,
            {
                assert(ns@.take(k + 1).drop_last() =~= ns@.take(k as int));
                push_node_remaps(pkgs, nodes, &ns[k], out);
                k += 1;
            }
            assert(ns@.take(k as int) =~= ns@);
            j += 1;
        }
        assert(lfs@.take(j as int) =~= lfs@);
        i += 1;
    }
    assert(pkgs@.take(i as int) =~= pkgs@);
}

fn collect_mentions(pkgs: &Vec<Package>, nodes: &Vec<RuntimeNode>) -> (r: Vec<Mention>)
    requires
        node_views(nodes@) == runtime_nodes(pkgs@),
    ensures
        mention_views(r@) == runtime_mentions(pkgs@),
{
    let ghost keys = node_keys(node_views(nodes@));
    let mut out: Vec<Mention> = Vec::new();
    let mut i: usize = 0;
    assert(pkgs@.take(0) =~= Seq::<Package>::empty());
    assert(mention_views(out@) =~= code_mentions(keys, pkgs@.take(0)));
    while i < pkgs.len()
        invariant
            i <= pkgs@.len(),
            keys == node_keys(node_views(nodes@)),
            mention_views(out@) == code_mentions(keys, pkgs@.take(i as int)),
        decreases pkgs.len() - i,
    {
        assert(pkgs@.take(i + 1).drop_last() =~= pkgs@.take(i as int));
        push_package_code_mentions(nodes, &pkgs[i], &mut out);
        i += 1;
    }
    assert(pkgs@.take(i as int) =~= pkgs@);
    push_remap_mentions(pkgs, nodes, &mut out);
    out
}

// =============================================================================
// Topics, services and edges
// =============================================================================

/// Publishing and subscribing use a topic; serving and calling use a service.
pub open spec fn is_topic_edge(k: EdgeKind) -> bool {
    k == EdgeKind::Publisher || k == EdgeKind::Subscriber
}

/// The (name, type) of each topic mention, in order.
pub open spec fn topic_items(ms: Seq<MentionSpec>) -> Seq<(Seq<char>, Seq<char>)>
    decreases ms.len(),
{
    if ms.len() == 0 {
        Seq::empty()
    } else if is_topic_edge(ms.last().kind) {
        topic_items(ms.drop_last()).push((ms.last().name, ms.last().ty))
    } else {
        topic_items(ms.drop_last())
    }
}

/// The (name, type) of each service mention, in order.
pub open spec fn service_items(ms: Seq<MentionSpec>) -> Seq<(Seq<char>, Seq<char>)>
    decreases ms.len(),
{
    if ms.len() == 0 {
        Seq::empty()
    } else if !is_topic_edge(ms.last().kind) {
        service_items(ms.drop_last()).push((ms.last().name, ms.last().ty))
    } else {
        service_items(ms.drop_last())
    }
}

/// The normalized names of topics.
pub open spec fn topic_keys(ts: Seq<(Seq<char>, Seq<char>)>) -> Seq<Seq<char>> {
    ts.map_values(|t: (Seq<char>, Seq<char>)| normalize_topic(t.0))
}

/// The names of services.
pub open spec fn service_keys(ts: Seq<(Seq<char>, Seq<char>)>) -> Seq<Seq<char>> {
    ts.map_values(|t: (Seq<char>, Seq<char>)| t.0)
}

/// Topics without repeats: one per normalized name, as first mentioned.
pub open spec fn dedup_topics(items: Seq<(Seq<char>, Seq<char>)>) -> Seq<(Seq<char>, Seq<char>)>
    decreases items.len(),
{
    if items.len() == 0 {
        Seq::empty()
    } else {
        let d = dedup_topics(items.drop_last());
        if topic_keys(d).contains(normalize_topic(items.last().0)) {
            d
        } else {
            d.push(items.last())
        }
    }
}

/// Services without repeats: one per name, as first mentioned.
pub open spec fn dedup_services(items: Seq<(Seq<char>, Seq<char>)>) -> Seq<(Seq<char>, Seq<char>)>
    decreases items.len(),
{
    if items.len() == 0 {
        Seq::empty()
    } else {
        let d = dedup_services(items.drop_last());
        if service_keys(d).contains(items.last().0) {
            d
        } else {
            d.push(items.last())
        }
    }
}

/// The mentions of one kind, in order.
pub open spec fn of_kind(ms: Seq<MentionSpec>, k: EdgeKind) -> Seq<MentionSpec>
    decreases ms.len(),
{
    if ms.len() == 0 {
        Seq::empty()
    } else if ms.last().kind == k {
        of_kind(ms.drop_last(), k).push(ms.last())
    } else {
        of_kind(ms.drop_last(), k)
    }
}

/// Edge `j` joins the node of mention `j` to the topic of its name.
pub open spec fn topic_edges_match(
    edges: Seq<(usize, usize)>,
    topics: Seq<(Seq<char>, Seq<char>)>,
    ms: Seq<MentionSpec>,
) -> bool {
    &&& edges.len() == ms.len()
    &&& forall|j: int|
        0 <= j < edges.len() ==> (#[trigger] edges[j]).0 == ms[j].node && edges[j].1 < topics.len()
            && normalize_topic(topics[edges[j].1 as int].0) == normalize_topic(ms[j].name)
}

/// Edge `j` joins the node of mention `j` to the service of its name.
pub open spec fn service_edges_match(
    edges: Seq<(usize, usize)>,
    services: Seq<(Seq<char>, Seq<char>)>,
    ms: Seq<MentionSpec>,
) -> bool {
    &&& edges.len() == ms.len()
    &&& forall|j: int|
        0 <= j < edges.len() ==> (#[trigger] edges[j]).0 == ms[j].node && edges[j].1 < services.len()
            && services[edges[j].1 as int].0 == ms[j].name
}

/// The (name, type) values of topics.
pub open spec fn topic_views(v: Seq<RuntimeTopic>) -> Seq<(Seq<char>, Seq<char>)> {
    v.map_values(|t: RuntimeTopic| (t.name@, t.msg_type@))
}

/// The (name, type) values of services.
pub open spec fn service_views(v: Seq<RuntimeService>) -> Seq<(Seq<char>, Seq<char>)> {
    v.map_values(|t: RuntimeService| (t.name@, t.srv_type@))
}

/// The types that the mentions use, in order.
pub open spec fn mention_types(ms: Seq<MentionSpec>) -> Seq<Seq<char>> {
    ms.map_values(|m: MentionSpec| m.ty)
}

/// What the runtime graph of these packages is: its nodes, the distinct
/// topics and services of the mentions, and one edge per mention, with the
/// type that mention uses.
pub open spec fn runtime_graph_spec(pkgs: Seq<Package>, rg: RuntimeGraph) -> bool {
    let ms = runtime_mentions(pkgs);
    let topics = dedup_topics(topic_items(ms));
    let services = dedup_services(service_items(ms));
    &&& node_views(rg.nodes@) == runtime_nodes(pkgs)
    &&& topic_views(rg.topics@) == topics
    &&& service_views(rg.services@) == services
    &&& topic_edges_match(rg.topic_publishers@, topics, of_kind(ms, EdgeKind::Publisher))
    &&& topic_edges_match(rg.topic_subscribers@, topics, of_kind(ms, EdgeKind::Subscriber))
    &&& service_edges_match(rg.service_servers@, services, of_kind(ms, EdgeKind::Server))
    &&& service_edges_match(rg.service_clients@, services, of_kind(ms, EdgeKind::Client))
    &&& str_views(rg.topic_publisher_types@) == mention_types(of_kind(ms, EdgeKind::Publisher))
    &&& str_views(rg.topic_subscriber_types@) == mention_types(of_kind(ms, EdgeKind::Subscriber))
    &&& str_views(rg.service_server_types@) == mention_types(of_kind(ms, EdgeKind::Server))
    &&& str_views(rg.service_client_types@) == mention_types(of_kind(ms, EdgeKind::Client))
}

fn ensure_topic(topics: &mut Vec<RuntimeTopic>, name: &String, ty: &String) -> (i: usize)
    ensures
        topic_views(final(topics)@) == (if topic_keys(topic_views(old(topics)@)).contains(
            normalize_topic(name@),
        ) {
            topic_views(old(topics)@)
        } else {
            topic_views(old(topics)@).push((name@, ty@))
        }),
        i < final(topics)@.len(),
        normalize_topic(topic_views(final(topics)@)[i as int].0) == normalize_topic(name@),
{
    let key = normalize_topic_exec(name.as_str());
    let kv = chars_of(key.as_str());
    let mut k: usize = 0;
    while k < topics.len()
        invariant
            k <= topics@.len(),
            kv@ == normalize_topic(name@),
            topics@ == old(topics)@,
            forall|j: int| 0 <= j < k ==> (#[trigger] topic_keys(topic_views(topics@))[j]) != normalize_topic(name@),
        decreases topics.len() - k,
    {
        let n = normalize_topic_exec(topics[k].name.as_str());
        let nv = chars_of(n.as_str());
        if chars_eq(nv.as_slice(), kv.as_slice()) {
            assert(topic_keys(topic_views(topics@))[k as int] == normalize_topic(name@));
            return k;
        }
        k += 1;
    }
    assert(!topic_keys(topic_views(topics@)).contains(normalize_topic(name@))) by {
        if topic_keys(topic_views(topics@)).contains(normalize_topic(name@)) {
            let j = choose|j: int|
                0 <= j < topic_keys(topic_views(topics@)).len() && topic_keys(topic_views(topics@))[j]
                    == normalize_topic(name@);
            assert(topic_keys(topic_views(topics@))[j] != normalize_topic(name@));
        }
    }
    let ghost before = topics@;
    topics.push(RuntimeTopic { name: name.clone(), msg_type: ty.clone() });
    assert(topic_views(topics@) =~= topic_views(before).push((name@, ty@)));
    topics.len() - 1
}

fn ensure_service(services: &mut Vec<RuntimeService>, name: &String, ty: &String) -> (i: usize)
    ensures
        service_views(final(services)@) == (if service_keys(service_views(old(services)@)).contains(
            name@,
        ) {
            service_views(old(services)@)
        } else {
            service_views(old(services)@).push((name@, ty@))
        }),
        i < final(services)@.len(),
        service_views(final(services)@)[i as int].0 == name@,
{
    let kv = chars_of(name.as_str());
    let mut k: usize = 0;
    while k < services.len()
        invariant
            k <= services@.len(),
            kv@ == name@,
            services@ == old(services)@,
            forall|j: int| 0 <= j < k ==> (#[trigger] service_keys(service_views(services@))[j]) != name@,
        decreases services.len() - k,
    {
        let nv = chars_of(services[k].name.as_str());
        if chars_eq(nv.as_slice(), kv.as_slice()) {
            assert(service_keys(service_views(services@))[k as int] == name@);
            return k;
        }
        k += 1;
    }
    assert(!service_keys(service_views(services@)).contains(name@)) by {
        if service_keys(service_views(services@)).contains(name@) {
            let j = choose|j: int|
                0 <= j < service_keys(service_views(services@)).len() && service_keys(
                    service_views(services@),
                )[j] == name@;
            assert(service_keys(service_views(services@))[j] != name@);
        }
    }
    let ghost before = services@;
    services.push(RuntimeService { name: name.clone(), srv_type: ty.clone() });
    assert(service_views(services@) =~= service_views(before).push((name@, ty@)));
    services.len() - 1
}

/// Topic edges stay as they were when topics are only added.
proof fn lemma_topic_edges_grow(
    edges: Seq<(usize, usize)>,
    t0: Seq<(Seq<char>, Seq<char>)>,
    t1: Seq<(Seq<char>, Seq<char>)>,
    ms: Seq<MentionSpec>,
)
    requires
        topic_edges_match(edges, t0, ms),
        t0.len() <= t1.len(),
        forall|i: int| 0 <= i < t0.len() ==> t1[i] == t0[i],
    ensures
        topic_edges_match(edges, t1, ms),
{
    assert forall|j: int| 0 <= j < edges.len() implies (#[trigger] edges[j]).0 == ms[j].node && edges[j].1 < t1.len()
        && normalize_topic(t1[edges[j].1 as int].0) == normalize_topic(ms[j].name) by {
        assert(t1[edges[j].1 as int] == t0[edges[j].1 as int]);
    }
}

/// Service edges stay as they were when services are only added.
proof fn lemma_service_edges_grow(
    edges: Seq<(usize, usize)>,
    t0: Seq<(Seq<char>, Seq<char>)>,
    t1: Seq<(Seq<char>, Seq<char>)>,
    ms: Seq<MentionSpec>,
)
    requires
        service_edges_match(edges, t0, ms),
        t0.len() <= t1.len(),
        forall|i: int| 0 <= i < t0.len() ==> t1[i] == t0[i],
    ensures
        service_edges_match(edges, t1, ms),
{
    assert forall|j: int| 0 <= j < edges.len() implies (#[trigger] edges[j]).0 == ms[j].node && edges[j].1 < t1.len()
        && t1[edges[j].1 as int].0 == ms[j].name by {
        assert(t1[edges[j].1 as int] == t0[edges[j].1 as int]);
    }
}

/// The runtime graph of the packages: launched and entry-point nodes, the
/// topics and services their source files use, and an edge per use.
pub fn build_runtime_graph(pkgs: &Vec<Package>) -> (rg: RuntimeGraph)
    ensures
        runtime_graph_spec(pkgs@, rg),
{
    let nodes = collect_nodes(pkgs);
    let ms = collect_mentions(pkgs, &nodes);
    let ghost mv = mention_views(ms@);
    let mut topics: Vec<RuntimeTopic> = Vec::new();
    let mut services: Vec<RuntimeService> = Vec::new();
    let mut topic_publishers: Vec<(usize, usize)> = Vec::new();
    let mut topic_subscribers: Vec<(usize, usize)> = Vec::new();
    let mut service_servers: Vec<(usize, usize)> = Vec::new();
    let mut service_clients: Vec<(usize, usize)> = Vec::new();
    let mut topic_publisher_types: Vec<String> = Vec::new();
    let mut topic_subscriber_types: Vec<String> = Vec::new();
    let mut service_server_types: Vec<String> = Vec::new();
    let mut service_client_types: Vec<String> = Vec::new();
    let mut i: usize = 0;
    assert(mv.take(0) =~= Seq::<MentionSpec>::empty());
    assert(topic_views(topics@) =~= dedup_topics(topic_items(mv.take(0))));
    assert(service_views(services@) =~= dedup_services(service_items(mv.take(0))));
    while i < ms.len()
        invariant
            i <= ms@.len(),
            mv == mention_views(ms@),
            topic_views(topics@) == dedup_topics(topic_items(mv.take(i as int))),
            service_views(services@) == dedup_services(service_items(mv.take(i as int))),
            topic_edges_match(
                topic_publishers@,
                topic_views(topics@),
                of_kind(mv.take(i as int), EdgeKind::Publisher),
            ),
            topic_edges_match(
                topic_subscribers@,
                topic_views(topics@),
                of_kind(mv.take(i as int), EdgeKind::Subscriber),
            ),
            service_edges_match(
                service_servers@,
                service_views(services@),
                of_kind(mv.take(i as int), EdgeKind::Server),
            ),
            service_edges_match(
                service_clients@,
                service_views(services@),
                of_kind(mv.take(i as int), EdgeKind::Client),
            ),
            str_views(topic_publisher_types@) == mention_types(of_kind(mv.take(i as int), EdgeKind::Publisher)),
            str_views(topic_subscriber_types@) == mention_types(of_kind(mv.take(i as int), EdgeKind::Subscriber)),
            str_views(service_server_types@) == mention_types(of_kind(mv.take(i as int), EdgeKind::Server)),
            str_views(service_client_types@) == mention_types(of_kind(mv.take(i as int), EdgeKind::Client)),
        decreases ms.len() - i,
    {
        let ghost p = mv.take(i as int);
        let ghost q = mv.take(i + 1);
        assert(q.drop_last() =~= p);
        assert(q.last() == ms@[i as int]@);
        let m = &ms[i];
        let ghost t0 = topic_views(topics@);
        let ghost s0 = service_views(services@);
        proof {
            let x = (m.name@, m.ty@);
            if is_topic_edge(m.kind) {
                assert(topic_items(q) == topic_items(p).push(x));
                assert(topic_items(p).push(x).drop_last() =~= topic_items(p));
                assert(service_items(q) == service_items(p));
            } else {
                assert(service_items(q) == service_items(p).push(x));
                assert(service_items(p).push(x).drop_last() =~= service_items(p));
                assert(topic_items(q) == topic_items(p));
            }
        }
        match m.kind {
            EdgeKind::Publisher => {
                let t = ensure_topic(&mut topics, &m.name, &m.ty);
                let ghost pb = topic_publishers@;
                topic_publishers.push((m.node, t));
                let ghost ty0 = str_views(topic_publisher_types@);
                topic_publisher_types.push(m.ty.clone());
                proof {
                    assert(str_views(topic_publisher_types@) =~= ty0.push(m.ty@));
                    assert(mention_types(of_kind(q, EdgeKind::Publisher)) =~= mention_types(of_kind(p, EdgeKind::Publisher)).push(m.ty@));
                    lemma_topic_edges_grow(pb, t0, topic_views(topics@), of_kind(p, EdgeKind::Publisher));
                    lemma_topic_edges_grow(topic_subscribers@, t0, topic_views(topics@), of_kind(p, EdgeKind::Subscriber));
                    let ok = of_kind(q, EdgeKind::Publisher);
                    assert forall|j: int| 0 <= j < topic_publishers@.len() implies (#[trigger] topic_publishers@[j]).0 == ok[j].node
                        && topic_publishers@[j].1 < topic_views(topics@).len()
                        && normalize_topic(topic_views(topics@)[topic_publishers@[j].1 as int].0) == normalize_topic(ok[j].name) by {
                        if j < pb.len() {
                            assert(topic_publishers@[j] == pb[j]);
                        }
                    }
                }
            },
            EdgeKind::Subscriber => {
                let t = ensure_topic(&mut topics, &m.name, &m.ty);
                let ghost sb = topic_subscribers@;
                topic_subscribers.push((m.node, t));
                let ghost ty0 = str_views(topic_subscriber_types@);
                topic_subscriber_types.push(m.ty.clone());
                proof {
                    assert(str_views(topic_subscriber_types@) =~= ty0.push(m.ty@));
                    assert(mention_types(of_kind(q, EdgeKind::Subscriber)) =~= mention_types(of_kind(p, EdgeKind::Subscriber)).push(m.ty@));
                    lemma_topic_edges_grow(sb, t0, topic_views(topics@), of_kind(p, EdgeKind::Subscriber));
                    lemma_topic_edges_grow(topic_publishers@, t0, topic_views(topics@), of_kind(p, EdgeKind::Publisher));
                    let ok = of_kind(q, EdgeKind::Subscriber);
                    assert forall|j: int| 0 <= j < topic_subscribers@.len() implies (#[trigger] topic_subscribers@[j]).0 == ok[j].node
                        && topic_subscribers@[j].1 < topic_views(topics@).len()
                        && normalize_topic(topic_views(topics@)[topic_subscribers@[j].1 as int].0) == normalize_topic(ok[j].name) by {
                        if j < sb.len() {
                            assert(topic_subscribers@[j] == sb[j]);
                        }
                    }
                }
            },
            EdgeKind::Server => {
                let t = ensure_service(&mut services, &m.name, &m.ty);
                let ghost sv = service_servers@;
                service_servers.push((m.node, t));
                let ghost ty0 = str_views(service_server_types@);
                service_server_types.push(m.ty.clone());
                proof {
                    assert(str_views(service_server_types@) =~= ty0.push(m.ty@));
                    assert(mention_types(of_kind(q, EdgeKind::Server)) =~= mention_types(of_kind(p, EdgeKind::Server)).push(m.ty@));
                    lemma_service_edges_grow(sv, s0, service_views(services@), of_kind(p, EdgeKind::Server));
                    lemma_service_edges_grow(service_clients@, s0, service_views(services@), of_kind(p, EdgeKind::Client));
                    let ok = of_kind(q, EdgeKind::Server);
                    assert forall|j: int| 0 <= j < service_servers@.len() implies (#[trigger] service_servers@[j]).0 == ok[j].node
                        && service_servers@[j].1 < service_views(services@).len()
                        && service_views(services@)[service_servers@[j].1 as int].0 == ok[j].name by {
                        if j < sv.len() {
                            assert(service_servers@[j] == sv[j]);
                        }
                    }
                }
            },
            EdgeKind::Client => {
                let t = ensure_service(&mut services, &m.name, &m.ty);
                let ghost cl = service_clients@;
                service_clients.push((m.node, t));
                let ghost ty0 = str_views(service_client_types@);
                service_client_types.push(m.ty.clone());
                proof {
                    assert(str_views(service_client_types@) =~= ty0.push(m.ty@));
                    assert(mention_types(of_kind(q, EdgeKind::Client)) =~= mention_types(of_kind(p, EdgeKind::Client)).push(m.ty@));
                    lemma_service_edges_grow(cl, s0, service_views(services@), of_kind(p, EdgeKind::Client));
                    lemma_service_edges_grow(service_servers@, s0, service_views(services@), of_kind(p, EdgeKind::Server));
                    let ok = of_kind(q, EdgeKind::Client);
                    assert forall|j: int| 0 <= j < service_clients@.len() implies (#[trigger] service_clients@[j]).0 == ok[j].node
                        && service_clients@[j].1 < service_views(services@).len()
                        && service_views(services@)[service_clients@[j].1 as int].0 == ok[j].name by {
                        if j < cl.len() {
                            assert(service_clients@[j] == cl[j]);
                        }
                    }
                }
            },
        }
        i += 1;
    }
    assert(mv.take(i as int) =~= mv);
    RuntimeGraph {
        nodes,
        topics,
        services,
        topic_publishers,
        topic_subscribers,
        service_servers,
        service_clients,
        topic_publisher_types,
        topic_subscriber_types,
        service_server_types,
        service_client_types,
    }
}

// =============================================================================
// The graph is well formed
// =============================================================================

/// Every mention is made by one of the first `n` nodes.
pub open spec fn nodes_below(ms: Seq<MentionSpec>, n: nat) -> bool {
    forall|k: int| 0 <= k < ms.len() ==> (#[trigger] ms[k]).node < n
}

proof fn lemma_below_concat(a: Seq<MentionSpec>, b: Seq<MentionSpec>, n: nat)
    requires
        nodes_below(a, n),
        nodes_below(b, n),
    ensures
        nodes_below(a + b, n),
{
    assert forall|k: int| 0 <= k < (a + b).len() implies (#[trigger] (a + b)[k]).node < n by {
        if k < a.len() {
            assert((a + b)[k] == a[k]);
        } else {
            assert((a + b)[k] == b[k - a.len()]);
        }
    }
}

proof fn lemma_py_iface_below(node: usize, ifs: Seq<PyNodeInterface>, n: nat)
    requires
        node < n,
    ensures
        nodes_below(py_iface_mentions(node, ifs), n),
    decreases ifs.len(),
{
    if ifs.len() > 0 {
        lemma_py_iface_below(node, ifs.drop_last(), n);
    }
}

proof fn lemma_cpp_iface_below(node: usize, ifs: Seq<CppNodeInterface>, n: nat)
    requires
        node < n,
    ensures
        nodes_below(cpp_iface_mentions(node, ifs), n),
    decreases ifs.len(),
{
    if ifs.len() > 0 {
        lemma_cpp_iface_below(node, ifs.drop_last(), n);
    }
}

proof fn lemma_py_files_below(
    keys: Seq<(Seq<char>, Seq<char>)>,
    pkg: Seq<char>,
    sp: Option<SetupPyInfo>,
    files: Seq<PythonNodeFile>,
)
    ensures
        nodes_below(py_files_mentions(keys, pkg, sp, files), keys.len()),
    decreases files.len(),
{
    if files.len() > 0 {
        lemma_py_files_below(keys, pkg, sp, files.drop_last());
        let tail = match py_executable(sp, files.last().path@) {
            Some(e) => match last_index_of(keys, (pkg, e)) {
                Some(i) => py_iface_mentions(i as usize, files.last().interfaces@),
                None => Seq::empty(),
            },
            None => Seq::empty(),
        };
        if let Some(e) = py_executable(sp, files.last().path@) {
            lemma_last_index_of(keys, (pkg, e));
            if let Some(i) = last_index_of(keys, (pkg, e)) {
                lemma_py_iface_below(i as usize, files.last().interfaces@, keys.len());
            }
        }
        lemma_below_concat(py_files_mentions(keys, pkg, sp, files.drop_last()), tail, keys.len());
    }
}

proof fn lemma_cpp_files_below(
    keys: Seq<(Seq<char>, Seq<char>)>,
    pkg: Seq<char>,
    files: Seq<CppNodeFile>,
)
    ensures
        nodes_below(cpp_files_mentions(keys, pkg, files), keys.len()),
    decreases files.len(),
{
    if files.len() > 0 {
        lemma_cpp_files_below(keys, pkg, files.drop_last());
        let tail = match cpp_executable(files.last()) {
            Some(e) => match last_index_of(keys, (pkg, e)) {
                Some(i) => cpp_iface_mentions(i as usize, files.last().interfaces@),
                None => Seq::empty(),
            },
            None => Seq::empty(),
        };
        if let Some(e) = cpp_executable(files.last()) {
            lemma_last_index_of(keys, (pkg, e));
            if let Some(i) = last_index_of(keys, (pkg, e)) {
                lemma_cpp_iface_below(i as usize, files.last().interfaces@, keys.len());
            }
        }
        lemma_below_concat(cpp_files_mentions(keys, pkg, files.drop_last()), tail, keys.len());
    }
}

proof fn lemma_code_below(keys: Seq<(Seq<char>, Seq<char>)>, pkgs: Seq<Package>)
    ensures
        nodes_below(code_mentions(keys, pkgs), keys.len()),
    decreases pkgs.len(),
{
    if pkgs.len() > 0 {
        let p = pkgs.last();
        lemma_code_below(keys, pkgs.drop_last());
        lemma_py_files_below(keys, p.manifest.name@, p.setup_py_info, p.python_node_files@);
        lemma_cpp_files_below(keys, p.manifest.name@, p.cpp_node_files@);
        let a = code_mentions(keys, pkgs.drop_last());
        let b = py_files_mentions(keys, p.manifest.name@, p.setup_py_info, p.python_node_files@);
        let c = cpp_files_mentions(keys, p.manifest.name@, p.cpp_node_files@);
        lemma_below_concat(a, b, keys.len());
        lemma_below_concat(a + b, c, keys.len());
    }
}

proof fn lemma_remapped_below(
    node: usize,
    from_default: Seq<char>,
    ty: Seq<char>,
    remaps: Seq<(String, String)>,
    n: nat,
)
    requires
        node < n,
    ensures
        nodes_below(remapped_publications(node, from_default, ty, remaps), n),
    decreases remaps.len(),
{
    if remaps.len() > 0 {
        lemma_remapped_below(node, from_default, ty, remaps.drop_last(), n);
    }
}

proof fn lemma_defaults_below(
    node: usize,
    defaults: Seq<(Seq<char>, Seq<char>)>,
    remaps: Seq<(String, String)>,
    n: nat,
)
    requires
        node < n,
    ensures
        nodes_below(defaults_publications(node, defaults, remaps), n),
    decreases defaults.len(),
{
    if defaults.len() > 0 {
        lemma_defaults_below(node, defaults.drop_last(), remaps, n);
        lemma_remapped_below(node, defaults.last().0, defaults.last().1, remaps, n);
        lemma_below_concat(
            defaults_publications(node, defaults.drop_last(), remaps),
            remapped_publications(node, defaults.last().0, defaults.last().1, remaps),
            n,
        );
    }
}

proof fn lemma_nodes_remap_below(
    keys: Seq<(Seq<char>, Seq<char>)>,
    ws: Seq<Seq<char>>,
    ns: Seq<LaunchNode>,
)
    ensures
        nodes_below(nodes_remap_mentions(keys, ws, ns), keys.len()),
    decreases ns.len(),
{
    if ns.len() > 0 {
        lemma_nodes_remap_below(keys, ws, ns.drop_last());
        let n = ns.last();
        lemma_last_index_of(keys, (n.package@, n.executable@));
        if let Some(i) = last_index_of(keys, (n.package@, n.executable@)) {
            lemma_defaults_below(
                i as usize,
                known_external_publishers(n.package@, n.executable@),
                n.remappings@,
                keys.len(),
            );
        }
        lemma_below_concat(
            nodes_remap_mentions(keys, ws, ns.drop_last()),
            node_remap_mentions(keys, ws, n),
            keys.len(),
        );
    }
}

proof fn lemma_files_remap_below(
    keys: Seq<(Seq<char>, Seq<char>)>,
    ws: Seq<Seq<char>>,
    lfs: Seq<LaunchFile>,
)
    ensures
        nodes_below(files_remap_mentions(keys, ws, lfs), keys.len()),
    decreases lfs.len(),
{
    if lfs.len() > 0 {
        lemma_files_remap_below(keys, ws, lfs.drop_last());
        lemma_nodes_remap_below(keys, ws, lfs.last().info.nodes@);
        lemma_below_concat(
            files_remap_mentions(keys, ws, lfs.drop_last()),
            nodes_remap_mentions(keys, ws, lfs.last().info.nodes@),
            keys.len(),
        );
    }
}

proof fn lemma_remap_below(keys: Seq<(Seq<char>, Seq<char>)>, ws: Seq<Seq<char>>, pkgs: Seq<Package>)
    ensures
        nodes_below(remap_mentions(keys, ws, pkgs), keys.len()),
    decreases pkgs.len(),
{
    if pkgs.len() > 0 {
        lemma_remap_below(keys, ws, pkgs.drop_last());
        lemma_files_remap_below(keys, ws, pkgs.last().launch_files@);
        lemma_below_concat(
            remap_mentions(keys, ws, pkgs.drop_last()),
            files_remap_mentions(keys, ws, pkgs.last().launch_files@),
            keys.len(),
        );
    }
}

proof fn lemma_of_kind_below(ms: Seq<MentionSpec>, k: EdgeKind, n: nat)
    requires
        nodes_below(ms, n),
    ensures
        nodes_below(of_kind(ms, k), n),
    decreases ms.len(),
{
    if ms.len() > 0 {
        lemma_of_kind_below(ms.drop_last(), k, n);
        assert(ms[ms.len() - 1] == ms.last());
    }
}

proof fn lemma_dedup_nodes_unique(es: Seq<(Seq<char>, Seq<char>, Option<Seq<char>>)>)
    ensures
        node_keys(dedup_nodes(es)).no_duplicates(),
    decreases es.len(),
{
    if es.len() > 0 {
        lemma_dedup_nodes_unique(es.drop_last());
        let d = dedup_nodes(es.drop_last());
        let x = es.last();
        if !node_keys(d).contains((x.0, x.1)) {
            let k = node_keys(d.push(x));
            assert forall|i: int, j: int| 0 <= i < k.len() && 0 <= j < k.len() && i != j implies k[i] != k[j] by {
                if i < d.len() && j < d.len() {
                    assert(k[i] == node_keys(d)[i] && k[j] == node_keys(d)[j]);
                } else if i < d.len() {
                    assert(k[i] == node_keys(d)[i]);
                } else if j < d.len() {
                    assert(k[j] == node_keys(d)[j]);
                }
            }
        }
    }
}

proof fn lemma_dedup_topics_unique(items: Seq<(Seq<char>, Seq<char>)>)
    ensures
        topic_keys(dedup_topics(items)).no_duplicates(),
    decreases items.len(),
{
    if items.len() > 0 {
        lemma_dedup_topics_unique(items.drop_last());
        let d = dedup_topics(items.drop_last());
        let x = items.last();
        if !topic_keys(d).contains(normalize_topic(x.0)) {
            let k = topic_keys(d.push(x));
            assert forall|i: int, j: int| 0 <= i < k.len() && 0 <= j < k.len() && i != j implies k[i] != k[j] by {
                if i < d.len() && j < d.len() {
                    assert(k[i] == topic_keys(d)[i] && k[j] == topic_keys(d)[j]);
                } else if i < d.len() {
                    assert(k[i] == topic_keys(d)[i]);
                } else if j < d.len() {
                    assert(k[j] == topic_keys(d)[j]);
                }
            }
        }
    }
}

proof fn lemma_dedup_services_unique(items: Seq<(Seq<char>, Seq<char>)>)
    ensures
        service_keys(dedup_services(items)).no_duplicates(),
    decreases items.len(),
{
    if items.len() > 0 {
        lemma_dedup_services_unique(items.drop_last());
        let d = dedup_services(items.drop_last());
        let x = items.last();
        if !service_keys(d).contains(x.0) {
            let k = service_keys(d.push(x));
            assert forall|i: int, j: int| 0 <= i < k.len() && 0 <= j < k.len() && i != j implies k[i] != k[j] by {
                if i < d.len() && j < d.len() {
                    assert(k[i] == service_keys(d)[i] && k[j] == service_keys(d)[j]);
                } else if i < d.len() {
                    assert(k[i] == service_keys(d)[i]);
                } else if j < d.len() {
                    assert(k[j] == service_keys(d)[j]);
                }
            }
        }
    }
}

/// Every edge joins the graph's own nodes, topics and services.
pub open spec fn edges_within(edges: Seq<(usize, usize)>, nodes: nat, targets: nat) -> bool {
    forall|j: int| 0 <= j < edges.len() ==> (#[trigger] edges[j]).0 < nodes && edges[j].1 < targets
}

/// The runtime graph is well formed: one node per (package, executable), one
/// topic per name up to leading slashes, one service per name, and every edge
/// joins a node of the graph to a topic or service of the graph, with the type
/// that use records. So each edge names its topic or service unambiguously.
pub proof fn lemma_runtime_graph_wf(pkgs: Seq<Package>, rg: RuntimeGraph)
    requires
        runtime_graph_spec(pkgs, rg),
    ensures
        node_keys(node_views(rg.nodes@)).no_duplicates(),
        topic_keys(topic_views(rg.topics@)).no_duplicates(),
        service_keys(service_views(rg.services@)).no_duplicates(),
        edges_within(rg.topic_publishers@, rg.nodes@.len(), rg.topics@.len()),
        edges_within(rg.topic_subscribers@, rg.nodes@.len(), rg.topics@.len()),
        edges_within(rg.service_servers@, rg.nodes@.len(), rg.services@.len()),
        edges_within(rg.service_clients@, rg.nodes@.len(), rg.services@.len()),
        rg.topic_publisher_types@.len() == rg.topic_publishers@.len(),
        rg.topic_subscriber_types@.len() == rg.topic_subscribers@.len(),
        rg.service_server_types@.len() == rg.service_servers@.len(),
        rg.service_client_types@.len() == rg.service_clients@.len(),
{
    let ms = runtime_mentions(pkgs);
    let keys = node_keys(runtime_nodes(pkgs));
    lemma_dedup_nodes_unique(launch_node_entries(pkgs) + entry_point_entries(pkgs));
    lemma_dedup_topics_unique(topic_items(ms));
    lemma_dedup_services_unique(service_items(ms));
    lemma_code_below(keys, pkgs);
    lemma_remap_below(keys, package_names(pkgs), pkgs);
    lemma_below_concat(code_mentions(keys, pkgs), remap_mentions(keys, package_names(pkgs), pkgs), keys.len());
    assert(keys.len() == rg.nodes@.len());
    lemma_of_kind_below(ms, EdgeKind::Publisher, keys.len());
    lemma_of_kind_below(ms, EdgeKind::Subscriber, keys.len());
    lemma_of_kind_below(ms, EdgeKind::Server, keys.len());
    lemma_of_kind_below(ms, EdgeKind::Client, keys.len());
    assert(topic_views(rg.topics@).len() == rg.topics@.len());
    assert(service_views(rg.services@).len() == rg.services@.len());
    let op = of_kind(ms, EdgeKind::Publisher);
    assert forall|j: int| 0 <= j < rg.topic_publishers@.len() implies (#[trigger] rg.topic_publishers@[j]).0 < rg.nodes@.len()
        && rg.topic_publishers@[j].1 < rg.topics@.len() by {
        assert(op[j].node < keys.len());
    }
    let os = of_kind(ms, EdgeKind::Subscriber);
    assert forall|j: int| 0 <= j < rg.topic_subscribers@.len() implies (#[trigger] rg.topic_subscribers@[j]).0 < rg.nodes@.len()
        && rg.topic_subscribers@[j].1 < rg.topics@.len() by {
        assert(os[j].node < keys.len());
    }
    let ov = of_kind(ms, EdgeKind::Server);
    assert forall|j: int| 0 <= j < rg.service_servers@.len() implies (#[trigger] rg.service_servers@[j]).0 < rg.nodes@.len()
        && rg.service_servers@[j].1 < rg.services@.len() by {
        assert(ov[j].node < keys.len());
    }
    assert(str_views(rg.topic_publisher_types@).len() == rg.topic_publisher_types@.len());
    assert(str_views(rg.topic_subscriber_types@).len() == rg.topic_subscriber_types@.len());
    assert(str_views(rg.service_server_types@).len() == rg.service_server_types@.len());
    assert(str_views(rg.service_client_types@).len() == rg.service_client_types@.len());
    let oc = of_kind(ms, EdgeKind::Client);
    assert forall|j: int| 0 <= j < rg.service_clients@.len() implies (#[trigger] rg.service_clients@[j]).0 < rg.nodes@.len()
        && rg.service_clients@[j].1 < rg.services@.len() by {
        assert(oc[j].node < keys.len());
    }
}

} // verus!
