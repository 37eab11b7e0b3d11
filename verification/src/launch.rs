//! Python launch file (.launch.py) reading: included launch files, package
//! references and launched nodes.
//!
//! The file is parsed with tree-sitter's Python grammar (see `syntax`); every
//! call is looked at, in preorder: `IncludeLaunchDescription(os.path.join(
//! get_package_share_directory("pkg"), ..., "file.launch.py"))`,
//! `get_package_share_directory("pkg")` and `Node(package=..., executable=...,
//! name=..., remappings=[...])`.

use vstd::prelude::*;
use crate::checks::model::opt_view;
use crate::syntax::{
    SyntaxNode, SyntaxRead, SyntaxSpec, Tree, child_at, field_child, kids, lemma_first_with_field,
    lemma_kids_below, python_syntax, python_tree, quoted_value, quoted_value_exec, syntax_views,
    SyntaxReadSpec,
};
use crate::text::{chars_eq_str, chars_of, ends_with_str, insert_sorted, sorted_unique, str_views, string_of, trim};
use crate::xml::string_pairs;

verus! {

/// Errors of the launch file reader.
#[derive(Debug)]
pub enum LaunchError {
    /// The file could not be read.
    Io(String),
    /// The Python grammar was refused, or no tree came back.
    Parse(String),
}

/// Topic remapping `(from, to)`: the node's `from` appears as `to` at runtime.
pub type Remapping = (String, String);

/// A node launched by a launch file.
pub struct LaunchNode {
    pub package: String,
    pub executable: String,
    pub name: Option<String>,
    /// Topic remappings: (from, to), e.g. ("/joint_states", "/joint_commands")
    pub remappings: Vec<Remapping>,
}

/// What a launch file declares.
pub struct LaunchFileInfo {
    /// Included launch files: (package, launch_file_path)
    pub included_launches: Vec<(String, String)>,
    /// Package names from get_package_share_directory("pkg"), sorted, each once
    pub package_refs: Vec<String>,
    /// Nodes launched
    pub nodes: Vec<LaunchNode>,
}

/// The value of a launched node.
pub struct LaunchNodeSpec {
    pub package: Seq<char>,
    pub executable: Seq<char>,
    pub name: Option<Seq<char>>,
    pub remappings: Seq<(Seq<char>, Seq<char>)>,
}

impl View for LaunchNode {
    type V = LaunchNodeSpec;

    open spec fn view(&self) -> LaunchNodeSpec {
        LaunchNodeSpec {
            package: self.package@,
            executable: self.executable@,
            name: opt_view(self.name),
            remappings: string_pairs(self.remappings@),
        }
    }
}

/// The values of launched nodes.
pub open spec fn launch_node_views(v: Seq<LaunchNode>) -> Seq<LaunchNodeSpec> {
    v.map_values(|n: LaunchNode| n@)
}

// =============================================================================
// What calls mean
// =============================================================================

/// The name of the function a call calls: the text of an identifier or
/// attribute, or the name of the call that is called (`f()()`).
pub open spec fn launch_call_name(t: Seq<SyntaxSpec>, i: int) -> Option<Seq<char>>
    decreases t.len() - i,
    when 0 <= i
{
    match child_at(t, i, 0) {
        None => None,
        Some(c) => if c <= i || c >= t.len() {
            None
        } else if t[c].kind == "identifier"@ || t[c].kind == "attribute"@ {
            Some(trim(t[c].text))
        } else if t[c].kind == "call"@ {
            launch_call_name(t, c)
        } else {
            None
        },
    }
}

/// The package of `get_package_share_directory("pkg")` (the first argument,
/// where it is a string literal).
pub open spec fn share_dir_package(t: Seq<SyntaxSpec>, i: int) -> Option<Seq<char>> {
    match launch_call_name(t, i) {
        Some(name) => if "get_package_share_directory"@.is_suffix_of(name) {
            match field_child(t, i, "arguments"@) {
                Some(a) => match child_at(t, a, 1) {
                    Some(f) => if t[f].kind == "string"@ {
                        quoted_value(t[f].text)
                    } else {
                        None
                    },
                    None => None,
                },
                None => None,
            }
        } else {
            None
        },
        None => None,
    }
}

/// What the arguments of an `os.path.join(...)` give: the package of its last
/// call argument (read as `get_package_share_directory`), and its string
/// arguments in order.
pub open spec fn join_args(t: Seq<SyntaxSpec>, ks: Seq<int>) -> (Option<Seq<char>>, Seq<Seq<char>>)
    decreases ks.len(),
{
    if ks.len() == 0 {
        (None, Seq::empty())
    } else {
        let (pkg, ss) = join_args(t, ks.drop_last());
        let c = ks.last();
        if t[c].kind == "call"@ {
            (share_dir_package(t, c), ss)
        } else if t[c].kind == "string"@ {
            match quoted_value(t[c].text) {
                Some(s) => (pkg, ss.push(s)),
                None => (pkg, ss),
            }
        } else {
            (pkg, ss)
        }
    }
}

/// The first of the strings that ends in `suf`.
pub open spec fn first_ending(ss: Seq<Seq<char>>, suf: Seq<char>) -> Option<Seq<char>>
    decreases ss.len(),
{
    if ss.len() == 0 {
        None
    } else if suf.is_suffix_of(ss[0]) {
        Some(ss[0])
    } else {
        first_ending(ss.drop_first(), suf)
    }
}

/// `os.path.join(get_package_share_directory("pkg"), "launch", "file.launch.py")`
/// names (pkg, file.launch.py).
pub open spec fn package_and_launch_from_join(t: Seq<SyntaxSpec>, n: int) -> Option<(Seq<char>, Seq<char>)> {
    if t[n].kind != "call"@ {
        None
    } else {
        match launch_call_name(t, n) {
            Some(name) => if "join"@.is_suffix_of(name) {
                match field_child(t, n, "arguments"@) {
                    Some(a) => {
                        let (pkg, ss) = join_args(t, kids(t, a));
                        match pkg {
                            Some(p) => match first_ending(ss, ".launch.py"@) {
                                Some(f) => Some((p, f)),
                                None => None,
                            },
                            None => None,
                        }
                    },
                    None => None,
                }
            } else {
                None
            },
            None => None,
        }
    }
}

/// The (package, file) that `IncludeLaunchDescription(...)` includes.
pub open spec fn include_launch(t: Seq<SyntaxSpec>, i: int) -> Option<(Seq<char>, Seq<char>)> {
    match launch_call_name(t, i) {
        Some(name) => if name == "IncludeLaunchDescription"@ {
            match field_child(t, i, "arguments"@) {
                Some(a) => match child_at(t, a, 1) {
                    Some(f) => package_and_launch_from_join(t, f),
                    None => None,
                },
                None => None,
            }
        } else {
            None
        },
        None => None,
    }
}

/// The string literals among the nodes `ks`, in order.
pub open spec fn string_values(t: Seq<SyntaxSpec>, ks: Seq<int>) -> Seq<Seq<char>>
    decreases ks.len(),
{
    if ks.len() == 0 {
        Seq::empty()
    } else {
        let rest = string_values(t, ks.drop_last());
        if t[ks.last()].kind == "string"@ {
            match quoted_value(t[ks.last()].text) {
                Some(s) => rest.push(s),
                None => rest,
            }
        } else {
            rest
        }
    }
}

/// The remappings of a list of tuples `[("/a", "/b"), ...]`: the first two
/// strings of each tuple that has two.
pub open spec fn remappings_of(t: Seq<SyntaxSpec>, ks: Seq<int>) -> Seq<(Seq<char>, Seq<char>)>
    decreases ks.len(),
{
    if ks.len() == 0 {
        Seq::empty()
    } else {
        let rest = remappings_of(t, ks.drop_last());
        let c = ks.last();
        if t[c].kind == "tuple"@ {
            let parts = string_values(t, kids(t, c));
            if parts.len() >= 2 {
                rest.push((parts[0], parts[1]))
            } else {
                rest
            }
        } else {
            rest
        }
    }
}

/// What the keyword arguments of a `Node(...)` set so far.
pub struct NodeArgs {
    pub package: Option<Seq<char>>,
    pub executable: Option<Seq<char>>,
    pub name: Option<Seq<char>>,
    pub remappings: Seq<(Seq<char>, Seq<char>)>,
}

/// What the arguments `ks` of a `Node(...)` set, in order; none where a
/// keyword argument lacks its name or value.
pub open spec fn node_args(t: Seq<SyntaxSpec>, ks: Seq<int>) -> Option<NodeArgs>
    decreases ks.len(),
{
    if ks.len() == 0 {
        Some(NodeArgs { package: None, executable: None, name: None, remappings: Seq::empty() })
    } else {
        match node_args(t, ks.drop_last()) {
            None => None,
            Some(acc) => {
                let c = ks.last();
                if t[c].kind == "keyword_argument"@ {
                    match (field_child(t, c, "name"@), field_child(t, c, "value"@)) {
                        (Some(n), Some(v)) => {
                            let key = trim(t[n].text);
                            if key == "remappings"@ && t[v].kind == "list"@ {
                                Some(NodeArgs { remappings: remappings_of(t, kids(t, v)), ..acc })
                            } else if t[v].kind == "string"@ {
                                match quoted_value(t[v].text) {
                                    Some(s) => if key == "package"@ {
                                        Some(NodeArgs { package: Some(s), ..acc })
                                    } else if key == "executable"@ {
                                        Some(NodeArgs { executable: Some(s), ..acc })
                                    } else if key == "name"@ {
                                        Some(NodeArgs { name: Some(s), ..acc })
                                    } else {
                                        Some(acc)
                                    },
                                    None => Some(acc),
                                }
                            } else {
                                Some(acc)
                            }
                        },
                        _ => None,
                    }
                } else {
                    Some(acc)
                }
            },
        }
    }
}

/// The node that `Node(package=..., executable=..., ...)` launches: both
/// package and executable must be given.
pub open spec fn launch_node(t: Seq<SyntaxSpec>, i: int) -> Option<LaunchNodeSpec> {
    match launch_call_name(t, i) {
        Some(name) => if name == "Node"@ {
            match field_child(t, i, "arguments"@) {
                Some(a) => match node_args(t, kids(t, a)) {
                    Some(acc) => match (acc.package, acc.executable) {
                        (Some(p), Some(e)) => Some(
                            LaunchNodeSpec {
                                package: p,
                                executable: e,
                                name: acc.name,
                                remappings: acc.remappings,
                            },
                        ),
                        _ => None,
                    },
                    None => None,
                },
                None => None,
            }
        } else {
            None
        },
        None => None,
    }
}

/// What the calls among the first `n` nodes declare: includes, package
/// references (repeats kept) and nodes, in preorder.
pub open spec fn launch_fold(t: Seq<SyntaxSpec>, n: int) -> (
    Seq<(Seq<char>, Seq<char>)>,
    Seq<Seq<char>>,
    Seq<LaunchNodeSpec>,
)
    decreases n,
{
    if n <= 0 {
        (Seq::empty(), Seq::empty(), Seq::empty())
    } else {
        let (incs, refs, nodes) = launch_fold(t, n - 1);
        let i = n - 1;
        if t[i].kind == "call"@ {
            match include_launch(t, i) {
                Some(p) => (incs.push(p), refs.push(p.0), nodes),
                None => match share_dir_package(t, i) {
                    Some(pkg) => (incs, refs.push(pkg), nodes),
                    None => match launch_node(t, i) {
                        Some(nd) => (incs, refs, nodes.push(nd)),
                        None => (incs, refs, nodes),
                    },
                },
            }
        } else {
            (incs, refs, nodes)
        }
    }
}

/// The launch information holds what the calls of the tree declare; the
/// package references sorted, each once.
pub open spec fn launch_info_of(info: LaunchFileInfo, t: Seq<SyntaxSpec>) -> bool {
    let (incs, refs, nodes) = launch_fold(t, t.len() as int);
    &&& string_pairs(info.included_launches@) == incs
    &&& sorted_unique(str_views(info.package_refs@))
    &&& str_views(info.package_refs@).to_set() == refs.to_set()
    &&& launch_node_views(info.nodes@) == nodes
}

// =============================================================================
// Reading the calls
// =============================================================================

proof fn lemma_kids_in_range(t: Seq<SyntaxSpec>, i: int)
    ensures
        forall|q: int| 0 <= q < kids(t, i).len() ==> 0 <= #[trigger] kids(t, i)[q] < t.len(),
{
    lemma_kids_below(t, i, t.len() as int);
}

fn kid_at(t: &Tree, a: usize, k: usize) -> (c: usize)
    requires
        t.wf(),
        a < t.spec_nodes().len(),
        k < kids(t.spec_nodes(), a as int).len(),
    ensures
        c as int == kids(t.spec_nodes(), a as int)[k as int],
        c < t.spec_nodes().len(),
{
    proof {
        lemma_kids_in_range(t.spec_nodes(), a as int);
    }
    assert(t.kids@[a as int]@.map_values(|x: usize| x as int)[k as int] == t.kids@[a as int]@[k as int] as int);
    t.kids[a][k]
}

fn kid_count(t: &Tree, a: usize) -> (n: usize)
    requires
        t.wf(),
        a < t.spec_nodes().len(),
    ensures
        n == kids(t.spec_nodes(), a as int).len(),
{
    assert(t.kids@[a as int]@.map_values(|x: usize| x as int).len() == t.kids@[a as int]@.len());
    t.kids[a].len()
}

fn launch_call_name_exec(t: &Tree, i: usize) -> (r: Option<Vec<char>>)
    requires
        t.wf(),
        i < t.spec_nodes().len(),
    ensures
        match r {
            Some(v) => launch_call_name(t.spec_nodes(), i as int) == Some(v@),
            None => launch_call_name(t.spec_nodes(), i as int) is None,
        },
    decreases t.spec_nodes().len() - i,
{
    match t.child(i, 0) {
        None => None,
        Some(c) => {
            if c <= i {
                None
            } else if t.kind_is(c, "identifier") || t.kind_is(c, "attribute") {
                Some(t.trimmed_text(c))
            } else if t.kind_is(c, "call") {
                launch_call_name_exec(t, c)
            } else {
                None
            }
        },
    }
}

fn string_literal(t: &Tree, f: usize) -> (r: Option<String>)
    requires
        f < t.spec_nodes().len(),
    ensures
        opt_view(r) == (if t.spec_nodes()[f as int].kind == "string"@ {
            quoted_value(t.spec_nodes()[f as int].text)
        } else {
            None
        }),
{
    if t.kind_is(f, "string") {
        quoted_value_exec(t.nodes[f].text.as_str())
    } else {
        None
    }
}

fn share_dir_package_exec(t: &Tree, i: usize) -> (r: Option<String>)
    requires
        t.wf(),
        i < t.spec_nodes().len(),
    ensures
        opt_view(r) == share_dir_package(t.spec_nodes(), i as int),
{
    match launch_call_name_exec(t, i) {
        None => None,
        Some(name) => {
            if !ends_with_str(name.as_slice(), "get_package_share_directory") {
                return None;
            }
            match t.field_child(i, "arguments") {
                None => None,
                Some(a) => match t.child(a, 1) {
                    None => None,
                    Some(f) => string_literal(t, f),
                },
            }
        },
    }
}

fn package_and_launch_exec(t: &Tree, n: usize) -> (r: Option<(String, String)>)
    requires
        t.wf(),
        n < t.spec_nodes().len(),
    ensures
        match r {
            Some(p) => package_and_launch_from_join(t.spec_nodes(), n as int) == Some((p.0@, p.1@)),
            None => package_and_launch_from_join(t.spec_nodes(), n as int) is None,
        },
{
    let ghost ts = t.spec_nodes();
    if !t.kind_is(n, "call") {
        return None;
    }
    let name = match launch_call_name_exec(t, n) {
        None => return None,
        Some(name) => name,
    };
    if !ends_with_str(name.as_slice(), "join") {
        return None;
    }
    let a = match t.field_child(n, "arguments") {
        None => return None,
        Some(a) => a,
    };
    let ghost ks = kids(ts, a as int);
    let cnt = kid_count(t, a);
    let mut pkg: Option<String> = None;
    let mut strings: Vec<String> = Vec::new();
    let mut k: usize = 0;
    assert(ks.take(0) =~= Seq::<int>::empty());
    while k < cnt
        invariant
            t.wf(),
            ts == t.spec_nodes(),
            a < ts.len(),
            ks == kids(ts, a as int),
            cnt == ks.len(),
            k <= cnt,
            (opt_view(pkg), str_views(strings@)) == join_args(ts, ks.take(k as int)),
        decreases cnt - k,
    {
        let c = kid_at(t, a, k);
        assert(ks.take(k + 1).drop_last() =~= ks.take(k as int));
        assert(ks.take(k + 1).last() == c as int);
        if t.kind_is(c, "call") {
            pkg = share_dir_package_exec(t, c);
        } else if t.kind_is(c, "string") {
            match quoted_value_exec(t.nodes[c].text.as_str()) {
                Some(s) => {
                    let ghost before = strings@;
                    strings.push(s);
                    assert(str_views(strings@) =~= str_views(before).push(s@));
                },
                None => {},
            }
        }
        k += 1;
    }
    assert(ks.take(k as int) =~= ks);
    let p = match pkg {
        None => return None,
        Some(p) => p,
    };
    let ghost sv = str_views(strings@);
    let mut j: usize = 0;
    assert(sv.skip(0) =~= sv);
    assert(package_and_launch_from_join(ts, n as int) == match first_ending(sv, ".launch.py"@) {
        Some(f) => Some((p@, f)),
        None => None::<(Seq<char>, Seq<char>)>,
    });
    while j < strings.len()
        invariant
            j <= strings@.len(),
            sv == str_views(strings@),
            ts == t.spec_nodes(),
            package_and_launch_from_join(ts, n as int) == match first_ending(sv, ".launch.py"@) {
                Some(f) => Some((p@, f)),
                None => None::<(Seq<char>, Seq<char>)>,
            },
            first_ending(sv, ".launch.py"@) == first_ending(sv.skip(j as int), ".launch.py"@),
        decreases strings.len() - j,
    {
        assert(sv.skip(j as int)[0] == strings@[j as int]@);
        assert(sv.skip(j as int).drop_first() =~= sv.skip(j + 1));
        let v = chars_of(strings[j].as_str());
        if ends_with_str(v.as_slice(), ".launch.py") {
            assert(first_ending(sv.skip(j as int), ".launch.py"@) == Some(strings@[j as int]@));
            let f = strings[j].clone();
            assert(f@ == strings@[j as int]@);
            return Some((p, f));
        }
        j += 1;
    }
    None
}

fn include_launch_exec(t: &Tree, i: usize) -> (r: Option<(String, String)>)
    requires
        t.wf(),
        i < t.spec_nodes().len(),
    ensures
        match r {
            Some(p) => include_launch(t.spec_nodes(), i as int) == Some((p.0@, p.1@)),
            None => include_launch(t.spec_nodes(), i as int) is None,
        },
{
    match launch_call_name_exec(t, i) {
        None => None,
        Some(name) => {
            if !chars_eq_str(name.as_slice(), "IncludeLaunchDescription") {
                return None;
            }
            match t.field_child(i, "arguments") {
                None => None,
                Some(a) => match t.child(a, 1) {
                    None => None,
                    Some(f) => package_and_launch_exec(t, f),
                },
            }
        },
    }
}

fn string_values_exec(t: &Tree, a: usize) -> (r: Vec<String>)
    requires
        t.wf(),
        a < t.spec_nodes().len(),
    ensures
        str_views(r@) == string_values(t.spec_nodes(), kids(t.spec_nodes(), a as int)),
{
    let ghost ts = t.spec_nodes();
    let ghost ks = kids(ts, a as int);
    let cnt = kid_count(t, a);
    let mut out: Vec<String> = Vec::new();
    let mut k: usize = 0;
    assert(ks.take(0) =~= Seq::<int>::empty());
    assert(str_views(out@) =~= string_values(ts, ks.take(0)));
    while k < cnt
        invariant
            t.wf(),
            ts == t.spec_nodes(),
            a < ts.len(),
            ks == kids(ts, a as int),
            cnt == ks.len(),
            k <= cnt,
            str_views(out@) == string_values(ts, ks.take(k as int)),
        decreases cnt - k,
    {
        let c = kid_at(t, a, k);
        assert(ks.take(k + 1).drop_last() =~= ks.take(k as int));
        assert(ks.take(k + 1).last() == c as int);
        match string_literal(t, c) {
            Some(s) => {
                let ghost before = out@;
                out.push(s);
                assert(str_views(out@) =~= str_views(before).push(s@));
            },
            None => {},
        }
        k += 1;
    }
    assert(ks.take(k as int) =~= ks);
    out
}

fn remappings_exec(t: &Tree, a: usize) -> (r: Vec<(String, String)>)
    requires
        t.wf(),
        a < t.spec_nodes().len(),
    ensures
        string_pairs(r@) == remappings_of(t.spec_nodes(), kids(t.spec_nodes(), a as int)),
{
    let ghost ts = t.spec_nodes();
    let ghost ks = kids(ts, a as int);
    let cnt = kid_count(t, a);
    let mut out: Vec<(String, String)> = Vec::new();
    let mut k: usize = 0;
    assert(ks.take(0) =~= Seq::<int>::empty());
    assert(string_pairs(out@) =~= remappings_of(ts, ks.take(0)));
    while k < cnt
        invariant
            t.wf(),
            ts == t.spec_nodes(),
            a < ts.len(),
            ks == kids(ts, a as int),
            cnt == ks.len(),
            k <= cnt,
            string_pairs(out@) == remappings_of(ts, ks.take(k as int)),
        decreases cnt - k,
    {
        let c = kid_at(t, a, k);
        assert(ks.take(k + 1).drop_last() =~= ks.take(k as int));
        assert(ks.take(k + 1).last() == c as int);
        if t.kind_is(c, "tuple") {
            let parts = string_values_exec(t, c);
            if parts.len() >= 2 {
                let ghost before = out@;
                let pair = (parts[0].clone(), parts[1].clone());
                assert(str_views(parts@)[0] == parts@[0]@ && str_views(parts@)[1] == parts@[1]@);
                out.push(pair);
                assert(string_pairs(out@) =~= string_pairs(before).push((parts@[0]@, parts@[1]@)));
            }
        }
        k += 1;
    }
    assert(ks.take(k as int) =~= ks);
    out
}

proof fn lemma_node_args_none(t: Seq<SyntaxSpec>, ks: Seq<int>, k: int)
    requires
        0 <= k <= ks.len(),
        node_args(t, ks.take(k)) is None,
    ensures
        node_args(t, ks) is None,
    decreases ks.len() - k,
{
    if k < ks.len() {
        assert(ks.take(k + 1).drop_last() =~= ks.take(k));
        lemma_node_args_none(t, ks, k + 1);
    } else {
        assert(ks.take(k) =~= ks);
    }
}

fn launch_node_exec(t: &Tree, i: usize) -> (r: Option<LaunchNode>)
    requires
        t.wf(),
        i < t.spec_nodes().len(),
    ensures
        match r {
            Some(n) => launch_node(t.spec_nodes(), i as int) == Some(n@),
            None => launch_node(t.spec_nodes(), i as int) is None,
        },
{
    let ghost ts = t.spec_nodes();
    let name = match launch_call_name_exec(t, i) {
        None => return None,
        Some(name) => name,
    };
    if !chars_eq_str(name.as_slice(), "Node") {
        return None;
    }
    let a = match t.field_child(i, "arguments") {
        None => return None,
        Some(a) => a,
    };
    let ghost ks = kids(ts, a as int);
    let cnt = kid_count(t, a);
    let mut package: Option<String> = None;
    let mut executable: Option<String> = None;
    let mut node_name: Option<String> = None;
    let mut remappings: Vec<(String, String)> = Vec::new();
    let mut k: usize = 0;
    assert(ks.take(0) =~= Seq::<int>::empty());
    assert(string_pairs(remappings@) =~= Seq::<(Seq<char>, Seq<char>)>::empty());
    while k < cnt
        invariant
            t.wf(),
            ts == t.spec_nodes(),
            a < ts.len(),
            ks == kids(ts, a as int),
            cnt == ks.len(),
            k <= cnt,
            launch_call_name(ts, i as int) == Some("Node"@),
            field_child(ts, i as int, "arguments"@) == Some(a as int),
            node_args(ts, ks.take(k as int)) == Some(
                NodeArgs {
                    package: opt_view(package),
                    executable: opt_view(executable),
                    name: opt_view(node_name),
                    remappings: string_pairs(remappings@),
                },
            ),
        decreases cnt - k,
    {
        let c = kid_at(t, a, k);
        assert(ks.take(k + 1).drop_last() =~= ks.take(k as int));
        assert(ks.take(k + 1).last() == c as int);
        if t.kind_is(c, "keyword_argument") {
            let n = match t.field_child(c, "name") {
                None => {
                    proof {
                        lemma_node_args_none(ts, ks, k + 1);
                    }
                    return None;
                },
                Some(n) => n,
            };
            let key = t.trimmed_text(n);
            let v = match t.field_child(c, "value") {
                None => {
                    proof {
                        lemma_node_args_none(ts, ks, k + 1);
                    }
                    return None;
                },
                Some(v) => v,
            };
            if chars_eq_str(key.as_slice(), "remappings") && t.kind_is(v, "list") {
                remappings = remappings_exec(t, v);
            } else if t.kind_is(v, "string") {
                match quoted_value_exec(t.nodes[v].text.as_str()) {
                    Some(s) => {
                        if chars_eq_str(key.as_slice(), "package") {
                            package = Some(s);
                        } else if chars_eq_str(key.as_slice(), "executable") {
                            executable = Some(s);
                        } else if chars_eq_str(key.as_slice(), "name") {
                            node_name = Some(s);
                        }
                    },
                    None => {},
                }
            }
        }
        k += 1;
    }
    assert(ks.take(k as int) =~= ks);
    match (package, executable) {
        (Some(p), Some(e)) => Some(LaunchNode { package: p, executable: e, name: node_name, remappings }),
        _ => None,
    }
}

/// The launch information that the syntax tree of a launch file gives: its
/// includes, package references and nodes.
pub fn launch_info_from_nodes(nodes: Vec<SyntaxNode>) -> (r: LaunchFileInfo)
    ensures
        launch_info_of(r, syntax_views(nodes@)),
{
    let t = Tree::new(nodes);
    let ghost ts = t.spec_nodes();
    let n = t.len();
    let mut incs: Vec<(String, String)> = Vec::new();
    let mut refs: Vec<String> = Vec::new();
    let mut launched: Vec<LaunchNode> = Vec::new();
    let mut i: usize = 0;
    assert(string_pairs(incs@) =~= Seq::<(Seq<char>, Seq<char>)>::empty());
    assert(str_views(refs@) =~= Seq::<Seq<char>>::empty());
    assert(launch_node_views(launched@) =~= Seq::<LaunchNodeSpec>::empty());
    while i < n
        invariant
            t.wf(),
            ts == t.spec_nodes(),
            n == ts.len(),
            i <= n,
            launch_fold(ts, i as int) == (string_pairs(incs@), str_views(refs@), launch_node_views(launched@)),
        decreases n - i,
    {
        let ghost (i0, r0, n0) = launch_fold(ts, i as int);
        if t.kind_is(i, "call") {
            match include_launch_exec(&t, i) {
                Some(p) => {
                    let ghost pv = (p.0@, p.1@);
                    refs.push(p.0.clone());
                    incs.push(p);
                    assert(string_pairs(incs@) =~= i0.push(pv));
                    assert(str_views(refs@) =~= r0.push(pv.0));
                },
                None => match share_dir_package_exec(&t, i) {
                    Some(pkg) => {
                        let ghost pv = pkg@;
                        refs.push(pkg);
                        assert(str_views(refs@) =~= r0.push(pv));
                    },
                    None => match launch_node_exec(&t, i) {
                        Some(nd) => {
                            let ghost nv = nd@;
                            launched.push(nd);
                            assert(launch_node_views(launched@) =~= n0.push(nv));
                        },
                        None => {},
                    },
                },
            }
        }
        i += 1;
    }
    let ghost all = str_views(refs@);
    let mut sorted: Vec<String> = Vec::new();
    let mut k: usize = 0;
    assert(str_views(sorted@).to_set() =~= all.take(0).to_set());
    while k < refs.len()
        invariant
            k <= refs@.len(),
            all == str_views(refs@),
            sorted_unique(str_views(sorted@)),
            str_views(sorted@).to_set() == all.take(k as int).to_set(),
        decreases refs.len() - k,
    {
        insert_sorted(&mut sorted, refs[k].as_str());
        assert(all.take(k + 1) =~= all.take(k as int).push(refs@[k as int]@));
        proof {
            all.take(k as int).lemma_push_to_set_commute(refs@[k as int]@);
        }
        k += 1;
    }
    assert(all.take(k as int) =~= all);
    LaunchFileInfo { included_launches: incs, package_refs: sorted, nodes: launched }
}

/// What reading a launch file's text gives: its information, or the parse
/// error (the grammar's refusal, or `parse failed` where no tree came back).
pub open spec fn launch_result(src: Seq<char>, r: Result<LaunchFileInfo, LaunchError>) -> bool {
    match python_syntax(src) {
        SyntaxReadSpec::Tree(t) => r matches Ok(info) && launch_info_of(info, t),
        SyntaxReadSpec::LanguageRefused(e) => r matches Err(LaunchError::Parse(m)) && m@ == e,
        SyntaxReadSpec::NoTree => r matches Err(LaunchError::Parse(m)) && m@ == "parse failed"@,
    }
}

/// Reads a launch file's text.
pub fn parse_launch_str(content: &str) -> (r: Result<LaunchFileInfo, LaunchError>)
    ensures
        launch_result(content@, r),
{
    match python_tree(content) {
        SyntaxRead::Tree(nodes) => Ok(launch_info_from_nodes(nodes)),
        SyntaxRead::LanguageRefused(e) => Err(LaunchError::Parse(e)),
        SyntaxRead::NoTree => {
            let m = chars_of("parse failed");
            Err(LaunchError::Parse(string_of(m.as_slice())))
        },
    }
}

} // verus!
