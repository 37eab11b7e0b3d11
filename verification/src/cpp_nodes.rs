//! C++ node reading: publishers, subscribers, services, clients and actions
//! that C++ source creates.
//!
//! The source is parsed with tree-sitter's C++ grammar (see `syntax`); each
//! call whose method is `create_publisher`, `create_subscription`,
//! `create_service`, `create_client`, `create_action_client` or
//! `create_action_server` gives an interface, named by its first string
//! argument and typed by its first template type argument (`::` read as `/`).

use vstd::prelude::*;
use crate::checks::model::opt_view;
use crate::cmake::{CmakePackageInfo, pair_views};
use crate::python_nodes::{line_of_row, line_of_row_exec};
use crate::syntax::{
    SyntaxNode, SyntaxRead, SyntaxReadSpec, SyntaxSpec, Tree, cpp_syntax, cpp_tree, field_child,
    kids, lemma_kids_below, syntax_views,
};
use crate::text::{
    chars_eq_str, chars_of, ends_with, last_index_of, lemma_last_index_of, occurs_at,
    occurs_at_exec, replace_all, replace_char, replace_char_exec, replace_str, rfind_char,
    starts_with_str, str_views, string_of, sub_chars, trim,
};

verus! {

/// Kind of ROS2 communication interface in C++.
#[derive(Clone, Copy, Debug, PartialEq, Eq, Structural)]
pub enum CppNodeInterfaceKind {
    Publisher,
    Subscriber,
    Service,
    Client,
    ActionClient,
    ActionServer,
}

/// A single interface (pub/sub/service/client) found in C++ source.
pub struct CppNodeInterface {
    pub kind: CppNodeInterfaceKind,
    pub name: String,
    pub interface_type: String,
    pub line: Option<u32>,
}

/// A C++ source file and the interfaces found in it.
pub struct CppNodeFile {
    pub path: String,
    pub interfaces: Vec<CppNodeInterface>,
    /// Executable name if this file is a known add_executable target
    pub executable: Option<String>,
}

/// The value of an interface.
pub struct CppInterfaceSpec {
    pub kind: CppNodeInterfaceKind,
    pub name: Seq<char>,
    pub interface_type: Seq<char>,
    pub line: Option<u32>,
}

impl View for CppNodeInterface {
    type V = CppInterfaceSpec;

    open spec fn view(&self) -> CppInterfaceSpec {
        CppInterfaceSpec {
            kind: self.kind,
            name: self.name@,
            interface_type: self.interface_type@,
            line: self.line,
        }
    }
}

/// The values of interfaces.
pub open spec fn cpp_interface_views(v: Seq<CppNodeInterface>) -> Seq<CppInterfaceSpec> {
    v.map_values(|i: CppNodeInterface| i@)
}

// =============================================================================
// What a call means
// =============================================================================

/// The last `::` in `s`, by its starting index.
pub open spec fn last_scope_sep(s: Seq<char>, n: int) -> Option<int>
    decreases n,
{
    if n <= 0 {
        None
    } else if occurs_at(s, "::"@, n - 1) {
        Some(n - 1)
    } else {
        last_scope_sep(s, n - 1)
    }
}

/// What follows the last `::` (all of `s` where there is none).
pub open spec fn last_segment(s: Seq<char>) -> Seq<char> {
    match last_scope_sep(s, s.len() as int) {
        Some(k) => s.skip(k + 2),
        None => s,
    }
}

/// The method that a call's function part names.
pub open spec fn cpp_method_name(t: Seq<SyntaxSpec>, f: int) -> Option<Seq<char>>
    decreases t.len() - f,
    when 0 <= f
{
    if t[f].kind == "template_function"@ {
        match field_child(t, f, "name"@) {
            Some(n) => Some(trim(t[n].text)),
            None => None,
        }
    } else if t[f].kind == "template_method"@ {
        match field_child(t, f, "name"@) {
            Some(n) => Some(last_segment(trim(t[n].text))),
            None => None,
        }
    } else if t[f].kind == "field_expression"@ {
        match field_child(t, f, "field"@) {
            Some(fld) => if t[fld].kind == "template_method"@ {
                if f < fld < t.len() {
                    cpp_method_name(t, fld)
                } else {
                    None
                }
            } else {
                Some(last_segment(trim(t[fld].text)))
            },
            None => None,
        }
    } else if t[f].kind == "qualified_identifier"@ {
        Some(last_segment(trim(t[f].text)))
    } else if t[f].kind == "identifier"@ {
        Some(trim(t[f].text))
    } else {
        None
    }
}

/// The interface kind of an rclcpp method.
pub open spec fn cpp_kind_of_method(m: Seq<char>) -> Option<CppNodeInterfaceKind> {
    if m == "create_publisher"@ {
        Some(CppNodeInterfaceKind::Publisher)
    } else if m == "create_subscription"@ {
        Some(CppNodeInterfaceKind::Subscriber)
    } else if m == "create_service"@ {
        Some(CppNodeInterfaceKind::Service)
    } else if m == "create_client"@ {
        Some(CppNodeInterfaceKind::Client)
    } else if m == "create_action_client"@ {
        Some(CppNodeInterfaceKind::ActionClient)
    } else if m == "create_action_server"@ {
        Some(CppNodeInterfaceKind::ActionServer)
    } else {
        None
    }
}

/// The value of a C++ string literal: `"..."` without its quotes, or a raw
/// string `R"...` up to its last `"`.
pub open spec fn cpp_string_value(text: Seq<char>) -> Option<Seq<char>> {
    let s = trim(text);
    if s.len() >= 2 && s[0] == '"' && s.last() == '"' {
        Some(s.subrange(1, s.len() - 1))
    } else if "R\""@.is_prefix_of(s) {
        let r = s.skip(2);
        match last_index_of(r, '"') {
            Some(i) => Some(r.take(i)),
            None => None,
        }
    } else {
        None
    }
}

/// The value of the first string literal among the arguments `ks`.
pub open spec fn cpp_first_string(t: Seq<SyntaxSpec>, ks: Seq<int>) -> Option<Seq<char>>
    decreases ks.len(),
{
    if ks.len() == 0 {
        None
    } else if t[ks[0]].kind == "string_literal"@ {
        cpp_string_value(t[ks[0]].text)
    } else {
        cpp_first_string(t, ks.drop_first())
    }
}

/// A node kind that spells a type.
pub open spec fn is_type_kind(k: Seq<char>) -> bool {
    k == "type_descriptor"@ || k == "sized_type_specifier"@ || k == "qualified_type_identifier"@
        || k == "template_type"@ || k == "type_identifier"@
}

/// Text that is more than commas and angle brackets.
pub open spec fn has_type_text(raw: Seq<char>) -> bool {
    raw.len() > 0 && exists|k: int| 0 <= k < raw.len() && raw[k] != ',' && raw[k] != '<' && raw[k] != '>'
}

/// The first type in the subtree of node `n`, in preorder, with `::` as `/`.
pub open spec fn first_type(t: Seq<SyntaxSpec>, n: int) -> Option<Seq<char>>
    decreases t.len() - n, t.len() + 1,
    when 0 <= n <= t.len()
{
    if n < t.len() && is_type_kind(t[n].kind) && has_type_text(trim(t[n].text)) {
        Some(replace_all(trim(t[n].text), "::"@, "/"@))
    } else {
        proof {
            lemma_kids_below(t, n, t.len() as int);
        }
        first_type_among(t, n, kids(t, n))
    }
}

/// The first type in the subtrees of the nodes `ks` (children of `n`).
pub open spec fn first_type_among(t: Seq<SyntaxSpec>, n: int, ks: Seq<int>) -> Option<Seq<char>>
    decreases t.len() - n, ks.len(),
    when 0 <= n <= t.len() && ks.len() <= t.len()
{
    if ks.len() == 0 {
        None
    } else {
        let head = if n < ks[0] < t.len() {
            first_type(t, ks[0])
        } else {
            None
        };
        match head {
            Some(x) => Some(x),
            None => first_type_among(t, n, ks.drop_first()),
        }
    }
}

/// The type that a call's template arguments give.
pub open spec fn template_type(t: Seq<SyntaxSpec>, f: int) -> Option<Seq<char>> {
    let tn = if t[f].kind == "field_expression"@ {
        field_child(t, f, "field"@)
    } else {
        Some(f)
    };
    match tn {
        Some(m) => match field_child(t, m, "arguments"@) {
            Some(a) => first_type(t, a),
            None => None,
        },
        None => None,
    }
}

/// The interface that call expression `i` creates, where it calls an rclcpp
/// create_* method with a string first argument.
pub open spec fn cpp_interface(t: Seq<SyntaxSpec>, i: int) -> Option<CppInterfaceSpec> {
    match field_child(t, i, "function"@) {
        None => None,
        Some(f) => match cpp_method_name(t, f) {
            None => None,
            Some(m) => match cpp_kind_of_method(m) {
                None => None,
                Some(kind) => match field_child(t, i, "arguments"@) {
                    None => None,
                    Some(a) => match cpp_first_string(t, kids(t, a)) {
                        None => None,
                        Some(name) => Some(
                            CppInterfaceSpec {
                                kind,
                                name,
                                interface_type: match template_type(t, f) {
                                    Some(x) => x,
                                    None => Seq::empty(),
                                },
                                line: Some(line_of_row(t[i].row)),
                            },
                        ),
                    },
                },
            },
        },
    }
}

/// The interfaces created by the call expressions among the first `n` nodes.
pub open spec fn cpp_interfaces_upto(t: Seq<SyntaxSpec>, n: int) -> Seq<CppInterfaceSpec>
    decreases n,
{
    if n <= 0 {
        Seq::empty()
    } else {
        let rest = cpp_interfaces_upto(t, n - 1);
        if t[n - 1].kind == "call_expression"@ {
            match cpp_interface(t, n - 1) {
                Some(x) => rest.push(x),
                None => rest,
            }
        } else {
            rest
        }
    }
}

/// The interfaces a parsed C++ source creates, in preorder.
pub open spec fn cpp_interfaces(t: Seq<SyntaxSpec>) -> Seq<CppInterfaceSpec> {
    cpp_interfaces_upto(t, t.len() as int)
}

// =============================================================================
// Reading the calls
// =============================================================================

fn last_segment_exec(s: &[char]) -> (r: Vec<char>)
    ensures
        r@ == last_segment(s@),
{
    let sep = chars_of("::");
    proof {
        reveal_strlit("::");
    }
    let n = s.len();
    let mut j = n;
    assert(last_scope_sep(s@, n as int) == last_scope_sep(s@, j as int));
    while j > 0
        invariant
            j <= n,
            n == s@.len(),
            sep@ == "::"@,
            sep@.len() == 2,
            last_scope_sep(s@, n as int) == last_scope_sep(s@, j as int),
        decreases j,
    {
        if occurs_at_exec(s, sep.as_slice(), j - 1) {
            assert(last_scope_sep(s@, j as int) == Some(j - 1));
            let r = sub_chars(s, j + 1, n);
            assert(r@ =~= s@.skip(j + 1));
            return r;
        }
        j -= 1;
    }
    sub_chars(s, 0, n)
}

fn cpp_method_name_exec(t: &Tree, f: usize) -> (r: Option<Vec<char>>)
    requires
        t.wf(),
        f < t.spec_nodes().len(),
    ensures
        match r {
            Some(v) => cpp_method_name(t.spec_nodes(), f as int) == Some(v@),
            None => cpp_method_name(t.spec_nodes(), f as int) is None,
        },
    decreases t.spec_nodes().len() - f,
{
    if t.kind_is(f, "template_function") {
        match t.field_child(f, "name") {
            Some(n) => Some(t.trimmed_text(n)),
            None => None,
        }
    } else if t.kind_is(f, "template_method") {
        match t.field_child(f, "name") {
            Some(n) => {
                let txt = t.trimmed_text(n);
                Some(last_segment_exec(txt.as_slice()))
            },
            None => None,
        }
    } else if t.kind_is(f, "field_expression") {
        match t.field_child(f, "field") {
            Some(fld) => {
                if t.kind_is(fld, "template_method") {
                    if f < fld {
                        cpp_method_name_exec(t, fld)
                    } else {
                        None
                    }
                } else {
                    let txt = t.trimmed_text(fld);
                    Some(last_segment_exec(txt.as_slice()))
                }
            },
            None => None,
        }
    } else if t.kind_is(f, "qualified_identifier") {
        let txt = t.trimmed_text(f);
        Some(last_segment_exec(txt.as_slice()))
    } else if t.kind_is(f, "identifier") {
        Some(t.trimmed_text(f))
    } else {
        None
    }
}

fn cpp_kind_exec(m: &[char]) -> (r: Option<CppNodeInterfaceKind>)
    ensures
        r == cpp_kind_of_method(m@),
{
    if chars_eq_str(m, "create_publisher") {
        Some(CppNodeInterfaceKind::Publisher)
    } else if chars_eq_str(m, "create_subscription") {
        Some(CppNodeInterfaceKind::Subscriber)
    } else if chars_eq_str(m, "create_service") {
        Some(CppNodeInterfaceKind::Service)
    } else if chars_eq_str(m, "create_client") {
        Some(CppNodeInterfaceKind::Client)
    } else if chars_eq_str(m, "create_action_client") {
        Some(CppNodeInterfaceKind::ActionClient)
    } else if chars_eq_str(m, "create_action_server") {
        Some(CppNodeInterfaceKind::ActionServer)
    } else {
        None
    }
}

fn cpp_string_value_exec(t: &Tree, c: usize) -> (r: Option<String>)
    requires
        c < t.spec_nodes().len(),
    ensures
        opt_view(r) == cpp_string_value(t.spec_nodes()[c as int].text),
{
    let s = t.trimmed_text(c);
    let n = s.len();
    proof {
        reveal_strlit("R\"");
    }
    if n >= 2 && s[0] == '"' && s[n - 1] == '"' {
        let inner = sub_chars(s.as_slice(), 1, n - 1);
        Some(string_of(inner.as_slice()))
    } else if starts_with_str(s.as_slice(), "R\"") {
        let r = sub_chars(s.as_slice(), 2, n);
        assert(r@ =~= s@.skip(2));
        proof {
            lemma_last_index_of(r@, '"');
        }
        match rfind_char(r.as_slice(), '"') {
            Some(i) => {
                let v = sub_chars(r.as_slice(), 0, i);
                assert(v@ =~= r@.take(i as int));
                Some(string_of(v.as_slice()))
            },
            None => None,
        }
    } else {
        None
    }
}

fn cpp_first_string_exec(t: &Tree, a: usize) -> (r: Option<String>)
    requires
        t.wf(),
        a < t.spec_nodes().len(),
    ensures
        opt_view(r) == cpp_first_string(t.spec_nodes(), kids(t.spec_nodes(), a as int)),
{
    let ghost ts = t.spec_nodes();
    let ghost ks = kids(ts, a as int);
    proof {
        lemma_kids_below(ts, a as int, ts.len() as int);
    }
    assert(t.kids@[a as int]@.map_values(|x: usize| x as int) == ks);
    let cnt = t.kids[a].len();
    let mut k: usize = 0;
    assert(ks.skip(0) =~= ks);
    while k < cnt
        invariant
            ts == t.spec_nodes(),
            a < ts.len(),
            t.wf(),
            ks == kids(ts, a as int),
            t.kids@[a as int]@.map_values(|x: usize| x as int) == ks,
            cnt == ks.len(),
            k <= cnt,
            forall|q: int| 0 <= q < ks.len() ==> 0 <= #[trigger] ks[q] < ts.len(),
            cpp_first_string(ts, ks) == cpp_first_string(ts, ks.skip(k as int)),
        decreases cnt - k,
    {
        let c = t.kids[a][k];
        assert(ks[k as int] == c as int);
        assert(ks.skip(k as int)[0] == c as int);
        assert(ks.skip(k as int).drop_first() =~= ks.skip(k + 1));
        if t.kind_is(c, "string_literal") {
            return cpp_string_value_exec(t, c);
        }
        k += 1;
    }
    None
}

fn is_type_kind_exec(t: &Tree, n: usize) -> (r: bool)
    requires
        n < t.spec_nodes().len(),
    ensures
        r == is_type_kind(t.spec_nodes()[n as int].kind),
{
    t.kind_is(n, "type_descriptor") || t.kind_is(n, "sized_type_specifier") || t.kind_is(
        n,
        "qualified_type_identifier",
    ) || t.kind_is(n, "template_type") || t.kind_is(n, "type_identifier")
}

fn has_type_text_exec(raw: &[char]) -> (r: bool)
    ensures
        r == has_type_text(raw@),
{
    let mut k: usize = 0;
    while k < raw.len()
        invariant
            k <= raw@.len(),
            forall|q: int| 0 <= q < k ==> raw@[q] == ',' || raw@[q] == '<' || raw@[q] == '>',
        decreases raw.len() - k,
    {
        let c = raw[k];
        if c != ',' && c != '<' && c != '>' {
            return true;
        }
        k += 1;
    }
    false
}

fn first_type_exec(t: &Tree, n: usize) -> (r: Option<String>)
    requires
        t.wf(),
        n < t.spec_nodes().len(),
    ensures
        opt_view(r) == first_type(t.spec_nodes(), n as int),
    decreases t.spec_nodes().len() - n, t.spec_nodes().len() + 1,
{
    let ghost ts = t.spec_nodes();
    if is_type_kind_exec(t, n) {
        let raw = t.trimmed_text(n);
        if has_type_text_exec(raw.as_slice()) {
            proof {
                reveal_strlit("::");
            }
            let r = replace_str(raw.as_slice(), "::", "/");
            return Some(string_of(r.as_slice()));
        }
    }
    proof {
        lemma_kids_below(ts, n as int, ts.len() as int);
    }
    assert(kids(ts, n as int).skip(0) =~= kids(ts, n as int));
    first_type_among_exec(t, n, 0)
}

fn first_type_among_exec(t: &Tree, n: usize, k: usize) -> (r: Option<String>)
    requires
        t.wf(),
        n < t.spec_nodes().len(),
        k <= kids(t.spec_nodes(), n as int).len(),
    ensures
        opt_view(r) == first_type_among(
            t.spec_nodes(),
            n as int,
            kids(t.spec_nodes(), n as int).skip(k as int),
        ),
    decreases t.spec_nodes().len() - n, kids(t.spec_nodes(), n as int).len() - k,
{
    let ghost ts = t.spec_nodes();
    let ghost ks = kids(ts, n as int);
    proof {
        lemma_kids_below(ts, n as int, ts.len() as int);
    }
    assert(t.kids@[n as int]@.map_values(|x: usize| x as int) == ks);
    let cnt = t.kids[n].len();
    if k >= cnt {
        assert(ks.skip(k as int).len() == 0);
        return None;
    }
    let c = t.kids[n][k];
    assert(ks[k as int] == c as int);
    assert(ks.skip(k as int)[0] == c as int);
    assert(ks.skip(k as int).drop_first() =~= ks.skip(k + 1));
    let head = if n < c {
        first_type_exec(t, c)
    } else {
        None
    };
    match head {
        Some(x) => Some(x),
        None => first_type_among_exec(t, n, k + 1),
    }
}

fn template_type_exec(t: &Tree, f: usize) -> (r: Option<String>)
    requires
        t.wf(),
        f < t.spec_nodes().len(),
    ensures
        opt_view(r) == template_type(t.spec_nodes(), f as int),
{
    let tn = if t.kind_is(f, "field_expression") {
        t.field_child(f, "field")
    } else {
        Some(f)
    };
    match tn {
        Some(m) => match t.field_child(m, "arguments") {
            Some(a) => first_type_exec(t, a),
            None => None,
        },
        None => None,
    }
}

fn cpp_interface_exec(t: &Tree, i: usize) -> (r: Option<CppNodeInterface>)
    requires
        t.wf(),
        i < t.spec_nodes().len(),
    ensures
        match r {
            Some(x) => cpp_interface(t.spec_nodes(), i as int) == Some(x@),
            None => cpp_interface(t.spec_nodes(), i as int) is None,
        },
{
    let f = match t.field_child(i, "function") {
        None => return None,
        Some(f) => f,
    };
    let m = match cpp_method_name_exec(t, f) {
        None => return None,
        Some(m) => m,
    };
    let kind = match cpp_kind_exec(m.as_slice()) {
        None => return None,
        Some(k) => k,
    };
    let a = match t.field_child(i, "arguments") {
        None => return None,
        Some(a) => a,
    };
    let name = match cpp_first_string_exec(t, a) {
        None => return None,
        Some(n) => n,
    };
    let interface_type = match template_type_exec(t, f) {
        Some(x) => x,
        None => {
            let e: Vec<char> = Vec::new();
            assert(e@ =~= Seq::<char>::empty());
            string_of(e.as_slice())
        },
    };
    let line = line_of_row_exec(t.nodes[i].row);
    Some(CppNodeInterface { kind, name, interface_type, line: Some(line) })
}

/// The interfaces that the syntax tree of a C++ source creates, in preorder.
pub fn cpp_interfaces_from_nodes(nodes: Vec<SyntaxNode>) -> (r: Vec<CppNodeInterface>)
    ensures
        cpp_interface_views(r@) == cpp_interfaces(syntax_views(nodes@)),
{
    let t = Tree::new(nodes);
    let ghost ts = t.spec_nodes();
    let n = t.len();
    let mut out: Vec<CppNodeInterface> = Vec::new();
    let mut i: usize = 0;
    assert(cpp_interface_views(out@) =~= Seq::<CppInterfaceSpec>::empty());
    while i < n
        invariant
            t.wf(),
            ts == t.spec_nodes(),
            n == ts.len(),
            i <= n,
            cpp_interface_views(out@) == cpp_interfaces_upto(ts, i as int),
        decreases n - i,
    {
        if t.kind_is(i, "call_expression") {
            match cpp_interface_exec(&t, i) {
                Some(x) => {
                    let ghost before = out@;
                    let ghost xv = x@;
                    out.push(x);
                    assert(cpp_interface_views(out@) =~= cpp_interface_views(before).push(xv));
                },
                None => {},
            }
        }
        i += 1;
    }
    out
}

// =============================================================================
// Source files and executables
// =============================================================================

/// `s` without its leading `.` and `/` characters.
pub open spec fn trim_dots_slashes(s: Seq<char>) -> Seq<char>
    decreases s.len(),
{
    if s.len() > 0 && (s[0] == '.' || s[0] == '/') {
        trim_dots_slashes(s.drop_first())
    } else {
        s
    }
}

/// The first executable one of whose sources the path ends with (sources
/// without leading `.` and `/`, the path with `/` separators).
pub open spec fn executable_for(path: Seq<char>, exes: Seq<(Seq<char>, Seq<Seq<char>>)>) -> Option<Seq<char>>
    decreases exes.len(),
{
    if exes.len() == 0 {
        None
    } else if exists|k: int|
        0 <= k < exes[0].1.len() && trim_dots_slashes(#[trigger] exes[0].1[k]).is_suffix_of(
            replace_char(path, '\\', '/'),
        ) {
        Some(exes[0].0)
    } else {
        executable_for(path, exes.drop_first())
    }
}

fn trim_dots_slashes_exec(s: &[char]) -> (r: Vec<char>)
    ensures
        r@ == trim_dots_slashes(s@),
{
    let mut i: usize = 0;
    assert(s@.skip(0) =~= s@);
    while i < s.len() && (s[i] == '.' || s[i] == '/')
        invariant
            i <= s@.len(),
            trim_dots_slashes(s@) == trim_dots_slashes(s@.skip(i as int)),
        decreases s.len() - i,
    {
        assert(s@.skip(i as int).drop_first() =~= s@.skip(i + 1));
        i += 1;
    }
    let n = s.len();
    assert(s@.skip(i as int) =~= s@.subrange(i as int, n as int));
    sub_chars(s, i, n)
}

/// The executable a source file (path relative to the package) is built
/// into, by CMake's `add_executable` targets.
pub fn resolve_executable(rel_path: &str, cmake_info: Option<&CmakePackageInfo>) -> (r: Option<String>)
    ensures
        match cmake_info {
            None => r is None,
            Some(c) => opt_view(r) == executable_for(rel_path@, c@.add_executables),
        },
{
    let c = match cmake_info {
        None => return None,
        Some(c) => c,
    };
    let exes = &c.add_executables;
    let ghost ev = pair_views(exes@);
    let pv = chars_of(rel_path);
    let norm = replace_char_exec(pv.as_slice(), '\\', '/');
    let mut i: usize = 0;
    assert(ev.skip(0) =~= ev);
    while i < exes.len()
        invariant
            i <= exes@.len(),
            ev == pair_views(exes@),
            ev == c@.add_executables,
            cmake_info == Some(c),
            norm@ == replace_char(rel_path@, '\\', '/'),
            executable_for(rel_path@, ev) == executable_for(rel_path@, ev.skip(i as int)),
        decreases exes.len() - i,
    {
        assert(ev.skip(i as int)[0] == (exes@[i as int].0@, str_views(exes@[i as int].1@)));
        assert(ev.skip(i as int).drop_first() =~= ev.skip(i + 1));
        let sources = &exes[i].1;
        let ghost sv = str_views(sources@);
        let mut k: usize = 0;
        let mut hit = false;
        while k < sources.len() && !hit
            invariant
                k <= sources@.len(),
                sv == str_views(sources@),
                norm@ == replace_char(rel_path@, '\\', '/'),
                hit ==> exists|q: int| 0 <= q < sv.len() && trim_dots_slashes(#[trigger] sv[q]).is_suffix_of(norm@),
                !hit ==> forall|q: int| 0 <= q < k ==> !trim_dots_slashes(#[trigger] sv[q]).is_suffix_of(norm@),
            decreases sources.len() - k + (if hit { 0int } else { 1int }),
        {
            let sc = chars_of(sources[k].as_str());
            let trimmed = trim_dots_slashes_exec(sc.as_slice());
            assert(sv[k as int] == sources@[k as int]@);
            if ends_with(norm.as_slice(), trimmed.as_slice()) {
                hit = true;
            } else {
                k += 1;
            }
        }
        if hit {
            proof {
                let q = choose|q: int| 0 <= q < sv.len() && trim_dots_slashes(#[trigger] sv[q]).is_suffix_of(norm@);
                assert(ev.skip(i as int)[0].1 == sv);
                assert(ev.skip(i as int)[0].1[q] == sv[q]);
            }
            let e = exes[i].0.clone();
            assert(e@ == ev.skip(i as int)[0].0);
            return Some(e);
        }
        i += 1;
    }
    None
}

/// What a C++ source file contributes: the interfaces it creates, where it
/// parses and creates at least one.
pub open spec fn cpp_node_file_spec(src: Seq<char>) -> Option<Seq<CppInterfaceSpec>> {
    match cpp_syntax(src) {
        SyntaxReadSpec::Tree(t) => if cpp_interfaces(t).len() > 0 {
            Some(cpp_interfaces(t))
        } else {
            None
        },
        _ => None,
    }
}

/// The node file for a C++ source at `path` (relative to the package), with
/// the executable CMake builds it into: none where the source does not parse
/// or creates no interface.
pub fn cpp_node_file(path: &str, content: &str, cmake_info: Option<&CmakePackageInfo>) -> (r: Option<CppNodeFile>)
    ensures
        match r {
            Some(f) => f.path@ == path@ && cpp_node_file_spec(content@) == Some(
                cpp_interface_views(f.interfaces@),
            ) && opt_view(f.executable) == match cmake_info {
                None => None,
                Some(c) => executable_for(path@, c@.add_executables),
            },
            None => cpp_node_file_spec(content@) is None,
        },
{
    let nodes = match cpp_tree(content) {
        SyntaxRead::Tree(nodes) => nodes,
        _ => return None,
    };
    let interfaces = cpp_interfaces_from_nodes(nodes);
    if interfaces.len() == 0 {
        return None;
    }
    let executable = resolve_executable(path, cmake_info);
    Some(CppNodeFile { path: path.to_string(), interfaces, executable })
}

} // verus!
