//! Python node reading: publishers, subscribers, services, clients and actions
//! that a Python script creates.
//!
//! The script is parsed with tree-sitter's Python grammar (see `syntax`); each
//! call of `create_publisher`, `create_subscription`, `create_service`,
//! `create_client`, `create_action_client` or `create_action_server` (as a
//! method or function) gives an interface, with its name and type from the
//! keyword arguments (`topic`/`srv_name`/`action_name`,
//! `msg_type`/`srv_type`/`action_type`) or else from the string arguments.

use vstd::prelude::*;
use crate::checks::model::opt_view;
use crate::syntax::{
    SyntaxNode, SyntaxRead, SyntaxReadSpec, SyntaxSpec, Tree, child_at, field_child, kids,
    lemma_kids_below, python_syntax, python_tree, quoted_value, quoted_value_exec, syntax_views,
};
use crate::text::{
    chars_eq_str, chars_of, contains_char, contains_str, contains_sub, ends_with_str, string_of,
    trim,
};
use crate::xml::{attr_get, attr_lookup, string_pairs};

verus! {

/// Kind of ROS2 communication interface used by a Python node.
#[derive(Clone, Copy, Debug, PartialEq, Eq, Structural)]
pub enum PyNodeInterfaceKind {
    Publisher,
    Subscriber,
    Service,
    Client,
    ActionClient,
    ActionServer,
}

/// A single interface (pub/sub/service/client) used by a Python node.
pub struct PyNodeInterface {
    pub kind: PyNodeInterfaceKind,
    /// Topic, service, or action name
    pub name: String,
    /// Message, service, or action type (e.g. "std_msgs/msg/String")
    pub interface_type: String,
    /// Line number in source (1-based)
    pub line: Option<u32>,
}

/// A Python node file and the interfaces found in it.
pub struct PythonNodeFile {
    /// Path relative to the package root
    pub path: String,
    pub interfaces: Vec<PyNodeInterface>,
}

/// The value of an interface.
pub struct PyInterfaceSpec {
    pub kind: PyNodeInterfaceKind,
    pub name: Seq<char>,
    pub interface_type: Seq<char>,
    pub line: Option<u32>,
}

impl View for PyNodeInterface {
    type V = PyInterfaceSpec;

    open spec fn view(&self) -> PyInterfaceSpec {
        PyInterfaceSpec {
            kind: self.kind,
            name: self.name@,
            interface_type: self.interface_type@,
            line: self.line,
        }
    }
}

/// The values of interfaces.
pub open spec fn py_interface_views(v: Seq<PyNodeInterface>) -> Seq<PyInterfaceSpec> {
    v.map_values(|i: PyNodeInterface| i@)
}

/// The 1-based line of a 0-based row (as a `u32`, wrapping).
pub open spec fn line_of_row(row: usize) -> u32 {
    if (row as u32) < u32::MAX {
        ((row as u32) + 1) as u32
    } else {
        0
    }
}

/// The 1-based line of a 0-based row.
pub fn line_of_row_exec(row: usize) -> (r: u32)
    ensures
        r == line_of_row(row),
{
    #[verifier::truncate]
    let r32 = row as u32;
    if r32 < u32::MAX {
        r32 + 1
    } else {
        0
    }
}

/// The text of the first child of a call (what is called), trimmed.
pub open spec fn py_call_name(t: Seq<SyntaxSpec>, i: int) -> Option<Seq<char>> {
    match child_at(t, i, 0) {
        Some(c) => Some(trim(t[c].text)),
        None => None,
    }
}

/// The interface kind of a called name, by the method it ends with.
pub open spec fn py_kind_of_name(name: Seq<char>) -> Option<PyNodeInterfaceKind> {
    if "create_publisher"@.is_suffix_of(name) {
        Some(PyNodeInterfaceKind::Publisher)
    } else if "create_subscription"@.is_suffix_of(name) {
        Some(PyNodeInterfaceKind::Subscriber)
    } else if "create_service"@.is_suffix_of(name) {
        Some(PyNodeInterfaceKind::Service)
    } else if "create_client"@.is_suffix_of(name) {
        Some(PyNodeInterfaceKind::Client)
    } else if "create_action_client"@.is_suffix_of(name) {
        Some(PyNodeInterfaceKind::ActionClient)
    } else if "create_action_server"@.is_suffix_of(name) {
        Some(PyNodeInterfaceKind::ActionServer)
    } else {
        None
    }
}

/// The string arguments (positional, in order) and the string-valued keyword
/// arguments (key, value; in order) among the arguments `ks`; none where a
/// keyword argument lacks its name or value.
pub open spec fn py_call_args(t: Seq<SyntaxSpec>, ks: Seq<int>) -> Option<(Seq<Seq<char>>, Seq<(Seq<char>, Seq<char>)>)>
    decreases ks.len(),
{
    if ks.len() == 0 {
        Some((Seq::empty(), Seq::empty()))
    } else {
        match py_call_args(t, ks.drop_last()) {
            None => None,
            Some((pos, kw)) => {
                let c = ks.last();
                if t[c].kind == "keyword_argument"@ {
                    match (field_child(t, c, "name"@), field_child(t, c, "value"@)) {
                        (Some(n), Some(v)) => if t[v].kind == "string"@ {
                            match quoted_value(t[v].text) {
                                Some(s) => Some((pos, kw.push((trim(t[n].text), s)))),
                                None => Some((pos, kw)),
                            }
                        } else {
                            Some((pos, kw))
                        },
                        _ => None,
                    }
                } else if t[c].kind == "string"@ {
                    match quoted_value(t[c].text) {
                        Some(s) => Some((pos.push(s), kw)),
                        None => Some((pos, kw)),
                    }
                } else {
                    Some((pos, kw))
                }
            },
        }
    }
}

/// The first of three keyword values present.
pub open spec fn first_of(
    kw: Seq<(Seq<char>, Seq<char>)>,
    a: Seq<char>,
    b: Seq<char>,
    c: Seq<char>,
) -> Option<Seq<char>> {
    match attr_lookup(kw, a) {
        Some(v) => Some(v),
        None => match attr_lookup(kw, b) {
            Some(v) => Some(v),
            None => attr_lookup(kw, c),
        },
    }
}

/// The (type, name) that two positional strings give: the one with a `/` is
/// the type where only one has it, else the first.
pub open spec fn type_and_name(a0: Seq<char>, a1: Seq<char>) -> (Seq<char>, Seq<char>) {
    if a0.contains('/') && !a1.contains('/') {
        (a0, a1)
    } else if a1.contains('/') && !a0.contains('/') {
        (a1, a0)
    } else {
        (a0, a1)
    }
}

/// The (type, name) of an interface: from the keywords, with the positional
/// strings filling what the keywords leave out.
pub open spec fn resolve_type_and_name(
    pos: Seq<Seq<char>>,
    kw: Seq<(Seq<char>, Seq<char>)>,
) -> (Option<Seq<char>>, Option<Seq<char>>) {
    let ty = first_of(kw, "msg_type"@, "srv_type"@, "action_type"@);
    let nm = first_of(kw, "topic"@, "srv_name"@, "action_name"@);
    if ty is None || nm is None {
        if pos.len() >= 2 {
            let (t, n) = type_and_name(pos[0], pos[1]);
            (
                match ty {
                    Some(x) => Some(x),
                    None => Some(t),
                },
                match nm {
                    Some(x) => Some(x),
                    None => Some(n),
                },
            )
        } else if pos.len() == 1 {
            (
                match ty {
                    Some(x) => Some(x),
                    None => Some(pos[0]),
                },
                match nm {
                    Some(x) => Some(x),
                    None => Some(Seq::empty()),
                },
            )
        } else {
            (ty, nm)
        }
    } else {
        (ty, nm)
    }
}

/// The interface that call `i` creates, where it is one of the create_*
/// calls with a non-empty type.
pub open spec fn py_interface(t: Seq<SyntaxSpec>, i: int) -> Option<PyInterfaceSpec> {
    match py_call_name(t, i) {
        None => None,
        Some(name) => match py_kind_of_name(name) {
            None => None,
            Some(kind) => match field_child(t, i, "arguments"@) {
                None => None,
                Some(a) => match py_call_args(t, kids(t, a)) {
                    None => None,
                    Some((pos, kw)) => {
                        let (ty, nm) = resolve_type_and_name(pos, kw);
                        let ty = match ty {
                            Some(x) => x,
                            None => Seq::empty(),
                        };
                        let nm = match nm {
                            Some(x) => x,
                            None => Seq::empty(),
                        };
                        if ty.len() == 0 {
                            None
                        } else {
                            Some(
                                PyInterfaceSpec {
                                    kind,
                                    name: nm,
                                    interface_type: ty,
                                    line: Some(line_of_row(t[i].row)),
                                },
                            )
                        }
                    },
                },
            },
        },
    }
}

/// The interfaces created by the calls among the first `n` nodes, in preorder.
pub open spec fn py_interfaces_upto(t: Seq<SyntaxSpec>, n: int) -> Seq<PyInterfaceSpec>
    decreases n,
{
    if n <= 0 {
        Seq::empty()
    } else {
        let rest = py_interfaces_upto(t, n - 1);
        if t[n - 1].kind == "call"@ {
            match py_interface(t, n - 1) {
                Some(x) => rest.push(x),
                None => rest,
            }
        } else {
            rest
        }
    }
}

/// The interfaces a parsed Python source creates.
pub open spec fn py_interfaces(t: Seq<SyntaxSpec>) -> Seq<PyInterfaceSpec> {
    py_interfaces_upto(t, t.len() as int)
}

proof fn lemma_suffix_char(a: Seq<char>, n: Seq<char>, k: int)
    requires
        a.is_suffix_of(n),
        0 <= k < a.len(),
    ensures
        n[n.len() - 1 - k] == a[a.len() - 1 - k],
{
    assert(a[a.len() - 1 - k] == n.subrange(n.len() - a.len(), n.len() as int)[a.len() - 1 - k]);
}

/// The kind that a called name gives is the create_* method it ends with:
/// a name ending in `create_client` gives a client (never a service), one
/// ending in `create_service` a service, `create_publisher` a publisher,
/// `create_subscription` a subscriber.
pub proof fn lemma_py_kind_of_name(name: Seq<char>)
    ensures
        py_kind_of_name(name) == Some(PyNodeInterfaceKind::Client) <==> "create_client"@.is_suffix_of(name),
        py_kind_of_name(name) == Some(PyNodeInterfaceKind::Service) <==> "create_service"@.is_suffix_of(name),
        py_kind_of_name(name) == Some(PyNodeInterfaceKind::Publisher) <==> "create_publisher"@.is_suffix_of(name),
        py_kind_of_name(name) == Some(PyNodeInterfaceKind::Subscriber) <==> "create_subscription"@.is_suffix_of(
            name,
        ),
        py_kind_of_name(name) == Some(PyNodeInterfaceKind::ActionClient)
            <==> "create_action_client"@.is_suffix_of(name),
        py_kind_of_name(name) == Some(PyNodeInterfaceKind::ActionServer)
            <==> "create_action_server"@.is_suffix_of(name),
{
    reveal_strlit("create_publisher");
    reveal_strlit("create_subscription");
    reveal_strlit("create_service");
    reveal_strlit("create_client");
    let p = "create_publisher"@;
    let b = "create_subscription"@;
    let v = "create_service"@;
    let c = "create_client"@;
    assert(p.last() == 'r' && b.last() == 'n' && v.last() == 'e' && c.last() == 't');
    if p.is_suffix_of(name) {
        lemma_suffix_char(p, name, 0);
    }
    if b.is_suffix_of(name) {
        lemma_suffix_char(b, name, 0);
    }
    if v.is_suffix_of(name) {
        lemma_suffix_char(v, name, 0);
    }
    if c.is_suffix_of(name) {
        lemma_suffix_char(c, name, 0);
    }
    reveal_strlit("create_action_client");
    reveal_strlit("create_action_server");
    let ac = "create_action_client"@;
    let asv = "create_action_server"@;
    assert(ac.last() == 't' && asv.last() == 'r' && c[0] == 'c' && ac[7] == 'a' && p[13] == 'h'
        && asv[17] == 'v');
    if ac.is_suffix_of(name) {
        lemma_suffix_char(ac, name, 0);
        lemma_suffix_char(ac, name, 12);
        if c.is_suffix_of(name) {
            lemma_suffix_char(c, name, 12);
        }
    }
    if asv.is_suffix_of(name) {
        lemma_suffix_char(asv, name, 0);
        lemma_suffix_char(asv, name, 2);
        if p.is_suffix_of(name) {
            lemma_suffix_char(p, name, 2);
        }
    }
}

proof fn lemma_py_interfaces_from_calls(t: Seq<SyntaxSpec>, n: int)
    ensures
        forall|k: int|
            0 <= k < py_interfaces_upto(t, n).len() ==> exists|i: int|
                0 <= i < n && t[i].kind == "call"@ && py_interface(t, i) == Some(
                    #[trigger] py_interfaces_upto(t, n)[k],
                ),
    decreases n,
{
    if n > 0 {
        lemma_py_interfaces_from_calls(t, n - 1);
        let rest = py_interfaces_upto(t, n - 1);
        assert forall|k: int| 0 <= k < py_interfaces_upto(t, n).len() implies exists|i: int|
            0 <= i < n && t[i].kind == "call"@ && py_interface(t, i) == Some(
                #[trigger] py_interfaces_upto(t, n)[k],
            ) by {
            if k < rest.len() {
                assert(py_interfaces_upto(t, n)[k] == rest[k]);
                let i = choose|i: int| 0 <= i < n - 1 && t[i].kind == "call"@ && py_interface(t, i) == Some(
                    #[trigger] rest[k],
                );
            } else {
                assert(py_interface(t, n - 1) == Some(py_interfaces_upto(t, n)[k]));
            }
        }
    }
}

/// Each interface that a parsed Python source yields comes from a call whose
/// called name fixes its kind: a client exactly where the name ends in
/// `create_client`, a service exactly where it ends in `create_service`, a
/// publisher exactly where it ends in `create_publisher`, a subscriber exactly
/// where it ends in `create_subscription`.
pub proof fn lemma_py_interface_kinds(t: Seq<SyntaxSpec>, k: int)
    requires
        0 <= k < py_interfaces(t).len(),
    ensures
        exists|i: int|
            #![trigger py_call_name(t, i)]
            {
                &&& 0 <= i < t.len()
                &&& t[i].kind == "call"@
                &&& py_interface(t, i) == Some(py_interfaces(t)[k])
                &&& py_call_name(t, i) is Some
                &&& (py_interfaces(t)[k].kind == PyNodeInterfaceKind::Client
                    <==> "create_client"@.is_suffix_of(py_call_name(t, i).unwrap()))
                &&& (py_interfaces(t)[k].kind == PyNodeInterfaceKind::Service
                    <==> "create_service"@.is_suffix_of(py_call_name(t, i).unwrap()))
                &&& (py_interfaces(t)[k].kind == PyNodeInterfaceKind::Publisher
                    <==> "create_publisher"@.is_suffix_of(py_call_name(t, i).unwrap()))
                &&& (py_interfaces(t)[k].kind == PyNodeInterfaceKind::Subscriber
                    <==> "create_subscription"@.is_suffix_of(py_call_name(t, i).unwrap()))
            },
{
    lemma_py_interfaces_from_calls(t, t.len() as int);
    let x = py_interfaces(t)[k];
    let i = choose|i: int|
        0 <= i < t.len() && t[i].kind == "call"@ && py_interface(t, i) == Some(
            #[trigger] py_interfaces_upto(t, t.len() as int)[k],
        );
    let name = py_call_name(t, i).unwrap();
    assert(py_kind_of_name(name) == Some(x.kind));
    lemma_py_kind_of_name(name);
}

fn py_kind_exec(name: &[char]) -> (r: Option<PyNodeInterfaceKind>)
    ensures
        r == py_kind_of_name(name@),
{
    if ends_with_str(name, "create_publisher") {
        Some(PyNodeInterfaceKind::Publisher)
    } else if ends_with_str(name, "create_subscription") {
        Some(PyNodeInterfaceKind::Subscriber)
    } else if ends_with_str(name, "create_service") {
        Some(PyNodeInterfaceKind::Service)
    } else if ends_with_str(name, "create_client") {
        Some(PyNodeInterfaceKind::Client)
    } else if ends_with_str(name, "create_action_client") {
        Some(PyNodeInterfaceKind::ActionClient)
    } else if ends_with_str(name, "create_action_server") {
        Some(PyNodeInterfaceKind::ActionServer)
    } else {
        None
    }
}

proof fn lemma_py_call_args_none(t: Seq<SyntaxSpec>, ks: Seq<int>, k: int)
    requires
        0 <= k <= ks.len(),
        py_call_args(t, ks.take(k)) is None,
    ensures
        py_call_args(t, ks) is None,
    decreases ks.len() - k,
{
    if k < ks.len() {
        assert(ks.take(k + 1).drop_last() =~= ks.take(k));
        lemma_py_call_args_none(t, ks, k + 1);
    } else {
        assert(ks.take(k) =~= ks);
    }
}

fn py_call_args_exec(t: &Tree, a: usize) -> (r: Option<(Vec<String>, Vec<(String, String)>)>)
    requires
        t.wf(),
        a < t.spec_nodes().len(),
    ensures
        match r {
            Some((pos, kw)) => py_call_args(t.spec_nodes(), kids(t.spec_nodes(), a as int)) == Some(
                (crate::text::str_views(pos@), string_pairs(kw@)),
            ),
            None => py_call_args(t.spec_nodes(), kids(t.spec_nodes(), a as int)) is None,
        },
{
    let ghost ts = t.spec_nodes();
    let ghost ks = kids(ts, a as int);
    proof {
        lemma_kids_below(ts, a as int, ts.len() as int);
    }
    assert(t.kids@[a as int]@.map_values(|x: usize| x as int) == ks);
    let cnt = t.kids[a].len();
    let mut pos: Vec<String> = Vec::new();
    let mut kw: Vec<(String, String)> = Vec::new();
    let mut k: usize = 0;
    assert(ks.take(0) =~= Seq::<int>::empty());
    assert(crate::text::str_views(pos@) =~= Seq::<Seq<char>>::empty());
    assert(string_pairs(kw@) =~= Seq::<(Seq<char>, Seq<char>)>::empty());
    while k < cnt
        invariant
            t.wf(),
            ts == t.spec_nodes(),
            a < ts.len(),
            ks == kids(ts, a as int),
            t.kids@[a as int]@.map_values(|x: usize| x as int) == ks,
            cnt == ks.len(),
            k <= cnt,
            forall|q: int| 0 <= q < ks.len() ==> 0 <= #[trigger] ks[q] < ts.len(),
            py_call_args(ts, ks.take(k as int)) == Some(
                (crate::text::str_views(pos@), string_pairs(kw@)),
            ),
        decreases cnt - k,
    {
        let c = t.kids[a][k];
        assert(ks[k as int] == c as int);
        assert(ks.take(k + 1).drop_last() =~= ks.take(k as int));
        assert(ks.take(k + 1).last() == c as int);
        if t.kind_is(c, "keyword_argument") {
            let n = match t.field_child(c, "name") {
                None => {
                    proof {
                        lemma_py_call_args_none(ts, ks, k + 1);
                    }
                    return None;
                },
                Some(n) => n,
            };
            let v = match t.field_child(c, "value") {
                None => {
                    proof {
                        lemma_py_call_args_none(ts, ks, k + 1);
                    }
                    return None;
                },
                Some(v) => v,
            };
            if t.kind_is(v, "string") {
                match quoted_value_exec(t.nodes[v].text.as_str()) {
                    Some(s) => {
                        let key = t.trimmed_text(n);
                        let ghost before = kw@;
                        let ghost sv = s@;
                        kw.push((string_of(key.as_slice()), s));
                        assert(string_pairs(kw@) =~= string_pairs(before).push((key@, sv)));
                    },
                    None => {},
                }
            }
        } else if t.kind_is(c, "string") {
            match quoted_value_exec(t.nodes[c].text.as_str()) {
                Some(s) => {
                    let ghost before = pos@;
                    let ghost sv = s@;
                    pos.push(s);
                    assert(crate::text::str_views(pos@) =~= crate::text::str_views(before).push(sv));
                },
                None => {},
            }
        }
        k += 1;
    }
    assert(ks.take(k as int) =~= ks);
    Some((pos, kw))
}

fn first_of_exec(kw: &Vec<(String, String)>, a: &str, b: &str, c: &str) -> (r: Option<String>)
    ensures
        opt_view(r) == first_of(string_pairs(kw@), a@, b@, c@),
{
    match attr_get(kw, a) {
        Some(v) => Some(v),
        None => match attr_get(kw, b) {
            Some(v) => Some(v),
            None => attr_get(kw, c),
        },
    }
}

fn py_interface_exec(t: &Tree, i: usize) -> (r: Option<PyNodeInterface>)
    requires
        t.wf(),
        i < t.spec_nodes().len(),
    ensures
        match r {
            Some(x) => py_interface(t.spec_nodes(), i as int) == Some(x@),
            None => py_interface(t.spec_nodes(), i as int) is None,
        },
{
    let name = match t.child(i, 0) {
        None => return None,
        Some(c) => t.trimmed_text(c),
    };
    let kind = match py_kind_exec(name.as_slice()) {
        None => return None,
        Some(k) => k,
    };
    let a = match t.field_child(i, "arguments") {
        None => return None,
        Some(a) => a,
    };
    let (pos, kw) = match py_call_args_exec(t, a) {
        None => return None,
        Some(x) => x,
    };
    let ghost pv = crate::text::str_views(pos@);
    let ghost kv = string_pairs(kw@);
    let mut ty = first_of_exec(&kw, "msg_type", "srv_type", "action_type");
    let mut nm = first_of_exec(&kw, "topic", "srv_name", "action_name");
    if ty.is_none() || nm.is_none() {
        if pos.len() >= 2 {
            let a0 = chars_of(pos[0].as_str());
            let a1 = chars_of(pos[1].as_str());
            let s0 = contains_char(a0.as_slice(), '/');
            let s1 = contains_char(a1.as_slice(), '/');
            let (tt, nn) = if s0 && !s1 {
                (pos[0].clone(), pos[1].clone())
            } else if s1 && !s0 {
                (pos[1].clone(), pos[0].clone())
            } else {
                (pos[0].clone(), pos[1].clone())
            };
            assert(pv[0] == pos@[0]@ && pv[1] == pos@[1]@);
            if ty.is_none() {
                ty = Some(tt);
            }
            if nm.is_none() {
                nm = Some(nn);
            }
        } else if pos.len() == 1 {
            assert(pv[0] == pos@[0]@);
            if ty.is_none() {
                ty = Some(pos[0].clone());
            }
            if nm.is_none() {
                let e: Vec<char> = Vec::new();
                assert(e@ =~= Seq::<char>::empty());
                nm = Some(string_of(e.as_slice()));
            }
        }
    }
    assert((opt_view(ty), opt_view(nm)) == resolve_type_and_name(pv, kv));
    let ty = match ty {
        Some(x) => x,
        None => {
            let e: Vec<char> = Vec::new();
            assert(e@ =~= Seq::<char>::empty());
            string_of(e.as_slice())
        },
    };
    let nm = match nm {
        Some(x) => x,
        None => {
            let e: Vec<char> = Vec::new();
            assert(e@ =~= Seq::<char>::empty());
            string_of(e.as_slice())
        },
    };
    let tyv = chars_of(ty.as_str());
    if tyv.len() == 0 {
        return None;
    }
    let line = line_of_row_exec(t.nodes[i].row);
    Some(PyNodeInterface { kind, name: nm, interface_type: ty, line: Some(line) })
}

/// The interfaces that the syntax tree of a Python source creates, in preorder.
pub fn py_interfaces_from_nodes(nodes: Vec<SyntaxNode>) -> (r: Vec<PyNodeInterface>)
    ensures
        py_interface_views(r@) == py_interfaces(syntax_views(nodes@)),
{
    let t = Tree::new(nodes);
    let ghost ts = t.spec_nodes();
    let n = t.len();
    let mut out: Vec<PyNodeInterface> = Vec::new();
    let mut i: usize = 0;
    assert(py_interface_views(out@) =~= Seq::<PyInterfaceSpec>::empty());
    while i < n
        invariant
            t.wf(),
            ts == t.spec_nodes(),
            n == ts.len(),
            i <= n,
            py_interface_views(out@) == py_interfaces_upto(ts, i as int),
        decreases n - i,
    {
        if t.kind_is(i, "call") {
            match py_interface_exec(&t, i) {
                Some(x) => {
                    let ghost before = out@;
                    let ghost xv = x@;
                    out.push(x);
                    assert(py_interface_views(out@) =~= py_interface_views(before).push(xv));
                },
                None => {},
            }
        }
        i += 1;
    }
    out
}

/// A Python source imports rclpy: it holds `import rclpy` or `from rclpy`.
pub open spec fn imports_rclpy(src: Seq<char>) -> bool {
    contains_sub(src, "import rclpy"@) || contains_sub(src, "from rclpy"@)
}

/// What a Python source file found at `path` contributes: the interfaces it
/// creates, where it parses, imports rclpy and creates at least one.
pub open spec fn python_node_file_spec(src: Seq<char>) -> Option<Seq<PyInterfaceSpec>> {
    match python_syntax(src) {
        SyntaxReadSpec::Tree(t) => if imports_rclpy(src) && py_interfaces(t).len() > 0 {
            Some(py_interfaces(t))
        } else {
            None
        },
        _ => None,
    }
}

/// The node file for a Python source at `path` (relative to the package):
/// none where the source does not parse, does not import rclpy, or creates
/// no interface.
pub fn python_node_file(path: &str, content: &str) -> (r: Option<PythonNodeFile>)
    ensures
        match r {
            Some(f) => f.path@ == path@ && python_node_file_spec(content@) == Some(
                py_interface_views(f.interfaces@),
            ),
            None => python_node_file_spec(content@) is None,
        },
{
    let tree = python_tree(content);
    let nodes = match tree {
        SyntaxRead::Tree(nodes) => nodes,
        _ => return None,
    };
    let c = chars_of(content);
    if !(contains_str(c.as_slice(), "import rclpy") || contains_str(c.as_slice(), "from rclpy")) {
        return None;
    }
    let interfaces = py_interfaces_from_nodes(nodes);
    if interfaces.len() == 0 {
        return None;
    }
    Some(PythonNodeFile { path: path.to_string(), interfaces })
}

} // verus!
