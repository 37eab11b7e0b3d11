//! Xacro/URDF.xacro reading: includes, package references, properties, args,
//! macros, ros2_control hardware and Gazebo plugins.
//!
//! The document is read into XML events (see `xml`); what the file declares
//! is collected from the events in order.

use vstd::prelude::*;
use crate::checks::model::opt_view;
use crate::text::{
    chars_eq_str, chars_of, contains_str, contains_sub, find_char, first_index_of, insert_sorted,
    lemma_first_index_of, occurs_at, occurs_at_exec, push_str, sorted_unique, starts_with_str,
    str_views, string_of, sub_chars, trim, trim_chars, trim_start_char, trim_start_char_exec,
};
use crate::xml::{
    XmlKind, attribute_views, event_views, qname_local, qname_prefix, read_xml_attributes,
    read_xml_events, split_qname, string_pairs, xml_read,
};

verus! {

/// Errors of the xacro reader.
#[derive(Debug)]
pub enum XacroError {
    /// The file could not be read.
    Io(String),
    /// The content is not well-formed XML.
    Xml(String),
}

/// What a xacro file declares.
pub struct XacroFileInfo {
    /// Included files: (package, path) from xacro:include filename="$(find pkg)/path"
    pub includes: Vec<(String, String)>,
    /// Package names from $(find pkg), $(find-pkg pkg), package://pkg/, sorted, each once
    pub package_refs: Vec<String>,
    /// xacro:property names
    pub properties: Vec<String>,
    /// xacro:arg names
    pub args: Vec<String>,
    /// xacro:macro names
    pub macros: Vec<String>,
    /// ros2_control hardware plugins (e.g. gazebo_ros2_control/GazeboSystem)
    pub ros2_control_plugins: Vec<String>,
    /// Joint names in ros2_control
    pub ros2_control_joints: Vec<String>,
    /// Gazebo plugin filenames (e.g. libgazebo_ros2_control.so)
    pub gazebo_plugins: Vec<String>,
}

// =============================================================================
// Package references
// =============================================================================

/// A character of a package name: ASCII letter or digit, or `_`.
pub open spec fn is_name_char(c: char) -> bool {
    ('a' <= c && c <= 'z') || ('A' <= c && c <= 'Z') || ('0' <= c && c <= '9') || c == '_'
}

/// Where the run of package name characters from `p` ends.
pub open spec fn name_run_end(s: Seq<char>, p: int) -> int
    decreases s.len() - p,
{
    if 0 <= p < s.len() && is_name_char(s[p]) {
        name_run_end(s, p + 1)
    } else {
        p
    }
}

pub proof fn lemma_name_run_end(s: Seq<char>, p: int)
    requires
        0 <= p <= s.len(),
    ensures
        p <= name_run_end(s, p) <= s.len(),
        forall|k: int| p <= k < name_run_end(s, p) ==> is_name_char(#[trigger] s[k]),
        name_run_end(s, p) < s.len() ==> !is_name_char(s[name_run_end(s, p)]),
    decreases s.len() - p,
{
    if p < s.len() && is_name_char(s[p]) {
        lemma_name_run_end(s, p + 1);
    }
}

/// The package name that starts at `start`, where the run of name characters
/// is non-empty and followed by `close`.
pub open spec fn ref_at(s: Seq<char>, start: int, close: char) -> Seq<Seq<char>> {
    let e = name_run_end(s, start);
    if e < s.len() && s[e] == close && e > start {
        seq![s.subrange(start, e)]
    } else {
        Seq::empty()
    }
}

/// The package references from position `i` on: each `$(find pkg)`,
/// `$(find-pkg pkg)` and `package://pkg/`, scanning left to right and
/// resuming after the character that ends each name.
pub open spec fn refs_from(s: Seq<char>, i: int) -> Seq<Seq<char>>
    decreases s.len() + 1 - i,
    when 0 <= i
{
    if i >= s.len() {
        Seq::empty()
    } else if occurs_at(s, "$(find "@, i) {
        proof {
            reveal_strlit("$(find ");
            lemma_name_run_end(s, i + 7);
        }
        ref_at(s, i + 7, ')') + refs_from(s, name_run_end(s, i + 7) + 1)
    } else if occurs_at(s, "$(find-pkg "@, i) {
        proof {
            reveal_strlit("$(find-pkg ");
            lemma_name_run_end(s, i + 11);
        }
        ref_at(s, i + 11, ')') + refs_from(s, name_run_end(s, i + 11) + 1)
    } else if occurs_at(s, "package://"@, i) {
        proof {
            reveal_strlit("package://");
            lemma_name_run_end(s, i + 10);
        }
        ref_at(s, i + 10, '/') + refs_from(s, name_run_end(s, i + 10) + 1)
    } else {
        refs_from(s, i + 1)
    }
}

/// The package references in a text, in order of appearance.
pub open spec fn package_refs_in(s: Seq<char>) -> Seq<Seq<char>> {
    refs_from(s, 0)
}

fn is_name_char_exec(c: char) -> (r: bool)
    ensures
        r == is_name_char(c),
{
    ('a' <= c && c <= 'z') || ('A' <= c && c <= 'Z') || ('0' <= c && c <= '9') || c == '_'
}

fn name_end_exec(s: &[char], p: usize) -> (r: usize)
    requires
        p <= s@.len(),
    ensures
        r as int == name_run_end(s@, p as int),
        p <= r <= s@.len(),
{
    let mut e = p;
    while e < s.len() && is_name_char_exec(s[e])
        invariant
            p <= e <= s@.len(),
            name_run_end(s@, p as int) == name_run_end(s@, e as int),
        decreases s.len() - e,
    {
        e += 1;
    }
    e
}

/// Package names from $(find pkg), $(find-pkg pkg) and package://pkg/ in a
/// text, in order of appearance.
pub fn extract_package_refs(text: &str) -> (r: Vec<String>)
    ensures
        str_views(r@) == package_refs_in(text@),
{
    let s = chars_of(text);
    let find = chars_of("$(find ");
    let find_pkg = chars_of("$(find-pkg ");
    let pkg_url = chars_of("package://");
    proof {
        reveal_strlit("$(find ");
        reveal_strlit("$(find-pkg ");
        reveal_strlit("package://");
    }
    let mut out: Vec<String> = Vec::new();
    let mut i: usize = 0;
    let n = s.len();
    while i < n
        invariant
            n == s@.len(),
            s@ == text@,
            find@ == "$(find "@,
            find_pkg@ == "$(find-pkg "@,
            pkg_url@ == "package://"@,
            find@.len() == 7,
            find_pkg@.len() == 11,
            pkg_url@.len() == 10,
            i <= n,
            str_views(out@) + refs_from(s@, i as int) == package_refs_in(text@),
        decreases n - i,
    {
        let ghost before = str_views(out@);
        let (start, close) = if occurs_at_exec(s.as_slice(), find.as_slice(), i) {
            (i + 7, ')')
        } else if occurs_at_exec(s.as_slice(), find_pkg.as_slice(), i) {
            (i + 11, ')')
        } else if occurs_at_exec(s.as_slice(), pkg_url.as_slice(), i) {
            (i + 10, '/')
        } else {
            (0, ' ')
        };
        if start == 0 {
            i += 1;
        } else {
            let e = name_end_exec(s.as_slice(), start);
            proof {
                lemma_name_run_end(s@, start as int);
            }
            if e < n && s[e] == close && e > start {
                let name = sub_chars(s.as_slice(), start, e);
                out.push(string_of(name.as_slice()));
                assert(str_views(out@) =~= before + ref_at(s@, start as int, close));
            } else {
                assert(str_views(out@) =~= before + ref_at(s@, start as int, close));
            }
            assert(refs_from(s@, i as int) == ref_at(s@, start as int, close) + refs_from(s@, e + 1));
            assert(str_views(out@) + refs_from(s@, e + 1) =~= before + refs_from(s@, i as int));
            if e < n {
                i = e + 1;
            } else {
                assert(refs_from(s@, e + 1) =~= refs_from(s@, n as int));
                i = n;
            }
        }
    }
    assert(refs_from(s@, i as int) =~= Seq::<Seq<char>>::empty());
    assert(str_views(out@) =~= str_views(out@) + refs_from(s@, i as int));
    out
}

// =============================================================================
// Include file names
// =============================================================================

/// `pkg)path` after a `$(find ` prefix: the package up to the first `)`,
/// trimmed, and the path after it, trimmed and without leading `/`.
pub open spec fn include_target(rest: Seq<char>) -> Option<(Seq<char>, Seq<char>)> {
    match first_index_of(rest, ')') {
        Some(e) => Some((trim(rest.take(e)), trim_start_char(trim(rest.skip(e + 1)), '/'))),
        None => None,
    }
}

/// The (package, path) that an include file name `$(find pkg)/path` or
/// `$(find-pkg pkg)/path` names.
pub open spec fn spec_include_filename(f: Seq<char>) -> Option<(Seq<char>, Seq<char>)> {
    let t = trim(f);
    if "$(find "@.is_prefix_of(t) && include_target(t.skip(7)) is Some {
        include_target(t.skip(7))
    } else if "$(find-pkg "@.is_prefix_of(t) {
        include_target(t.skip(11))
    } else {
        None
    }
}

fn include_target_exec(rest: &[char]) -> (r: Option<(String, String)>)
    ensures
        match r {
            Some(p) => include_target(rest@) == Some((p.0@, p.1@)),
            None => include_target(rest@) is None,
        },
{
    proof {
        lemma_first_index_of(rest@, ')');
    }
    match find_char(rest, ')') {
        Some(e) => {
            let n = rest.len();
            let head = sub_chars(rest, 0, e);
            let tail = sub_chars(rest, e + 1, n);
            assert(head@ =~= rest@.take(e as int));
            assert(tail@ =~= rest@.skip(e + 1));
            let pkg = trim_chars(head.as_slice());
            let tt = trim_chars(tail.as_slice());
            let path = trim_start_char_exec(tt.as_slice(), '/');
            Some((string_of(pkg.as_slice()), string_of(path.as_slice())))
        },
        None => None,
    }
}

/// Parses xacro:include filename="$(find pkg)/urdf/file.xacro" into
/// (pkg, urdf/file.xacro); also `$(find-pkg pkg)`.
pub fn parse_include_filename(filename: &str) -> (r: Option<(String, String)>)
    ensures
        match r {
            Some(p) => spec_include_filename(filename@) == Some((p.0@, p.1@)),
            None => spec_include_filename(filename@) is None,
        },
{
    let v = chars_of(filename);
    let t = trim_chars(v.as_slice());
    let n = t.len();
    proof {
        reveal_strlit("$(find ");
        reveal_strlit("$(find-pkg ");
    }
    if starts_with_str(t.as_slice(), "$(find ") {
        let rest = sub_chars(t.as_slice(), 7, n);
        assert(rest@ =~= t@.skip(7));
        let r = include_target_exec(rest.as_slice());
        if r.is_some() {
            return r;
        }
    }
    if starts_with_str(t.as_slice(), "$(find-pkg ") {
        let rest = sub_chars(t.as_slice(), 11, n);
        assert(rest@ =~= t@.skip(11));
        return include_target_exec(rest.as_slice());
    }
    None
}

// =============================================================================
// Reading the events
// =============================================================================

/// What the reader has collected after some of the events.
pub struct XacroState {
    pub includes: Seq<(Seq<char>, Seq<char>)>,
    /// Package references met in attribute values, in order (repeats kept)
    pub refs: Seq<Seq<char>>,
    pub properties: Seq<Seq<char>>,
    pub args: Seq<Seq<char>>,
    pub macros: Seq<Seq<char>>,
    pub plugins: Seq<Seq<char>>,
    pub joints: Seq<Seq<char>>,
    pub gazebo: Seq<Seq<char>>,
    /// Local names of the open elements, outermost first
    pub stack: Seq<Seq<char>>,
    /// The innermost open element is a `<plugin>` inside a `<hardware>`
    pub inside_hw_plugin: bool,
}

pub open spec fn initial_xacro_state() -> XacroState {
    XacroState {
        includes: Seq::empty(),
        refs: Seq::empty(),
        properties: Seq::empty(),
        args: Seq::empty(),
        macros: Seq::empty(),
        plugins: Seq::empty(),
        joints: Seq::empty(),
        gazebo: Seq::empty(),
        stack: Seq::empty(),
        inside_hw_plugin: false,
    }
}

/// The innermost open element is a `<plugin>` and a `<hardware>` is open.
pub open spec fn hw_plugin(stack: Seq<Seq<char>>) -> bool {
    stack.len() > 0 && stack.last() == "plugin"@ && stack.contains("hardware"@)
}

/// A `<gazebo>` is among the five innermost open elements.
pub open spec fn near_gazebo(stack: Seq<Seq<char>>) -> bool {
    exists|k: int| stack.len() - 5 <= k < stack.len() && 0 <= k && stack[k] == "gazebo"@
}

/// Attributes keyed by the local part of their names.
pub open spec fn local_attrs(attrs: Seq<(Seq<char>, Seq<char>)>) -> Seq<(Seq<char>, Seq<char>)> {
    attrs.map_values(|a: (Seq<char>, Seq<char>)| (qname_local(a.0), a.1))
}

/// The package references in the attribute values, in order.
pub open spec fn attr_refs(attrs: Seq<(Seq<char>, Seq<char>)>) -> Seq<Seq<char>>
    decreases attrs.len(),
{
    if attrs.len() == 0 {
        Seq::empty()
    } else {
        attr_refs(attrs.drop_last()) + package_refs_in(attrs.last().1)
    }
}

/// The values of the attributes with this key, in order.
pub open spec fn values_with_key(attrs: Seq<(Seq<char>, Seq<char>)>, key: Seq<char>) -> Seq<Seq<char>>
    decreases attrs.len(),
{
    if attrs.len() == 0 {
        Seq::empty()
    } else if attrs.last().0 == key {
        values_with_key(attrs.drop_last(), key).push(attrs.last().1)
    } else {
        values_with_key(attrs.drop_last(), key)
    }
}

/// The includes that these file names name, in order.
pub open spec fn include_targets(vals: Seq<Seq<char>>) -> Seq<(Seq<char>, Seq<char>)>
    decreases vals.len(),
{
    if vals.len() == 0 {
        Seq::empty()
    } else {
        match spec_include_filename(vals.last()) {
            Some(t) => include_targets(vals.drop_last()).push(t),
            None => include_targets(vals.drop_last()),
        }
    }
}

/// The values that mention gazebo (`want`), or those that do not.
pub open spec fn by_gazebo(vals: Seq<Seq<char>>, want: bool) -> Seq<Seq<char>>
    decreases vals.len(),
{
    if vals.len() == 0 {
        Seq::empty()
    } else if contains_sub(vals.last(), "gazebo"@) == want {
        by_gazebo(vals.drop_last(), want).push(vals.last())
    } else {
        by_gazebo(vals.drop_last(), want)
    }
}

/// The value of the first attribute with this key.
pub open spec fn first_value(attrs: Seq<(Seq<char>, Seq<char>)>, key: Seq<char>) -> Option<Seq<char>>
    decreases attrs.len(),
{
    if attrs.len() == 0 {
        None
    } else if attrs[0].0 == key {
        Some(attrs[0].1)
    } else {
        first_value(attrs.drop_first(), key)
    }
}

/// What a start tag does: it opens an element; `xacro:include`,
/// `xacro:property`, `xacro:arg` and `xacro:macro` record their file name or
/// name, `<plugin filename=...>` a Gazebo plugin (with a `<gazebo>` among the
/// five innermost open elements) or a ros2_control plugin, `<joint>` its name.
pub open spec fn xacro_start(st: XacroState, qname: Seq<char>, attrs: Seq<(Seq<char>, Seq<char>)>) -> XacroState {
    let local = qname_local(qname);
    let prefix = qname_prefix(qname);
    let stack = st.stack.push(local);
    let la = local_attrs(attrs);
    let st1 = XacroState {
        stack,
        inside_hw_plugin: hw_plugin(stack),
        refs: st.refs + attr_refs(la),
        ..st
    };
    if prefix == "xacro"@ && local == "include"@ {
        XacroState { includes: st1.includes + include_targets(values_with_key(la, "filename"@)), ..st1 }
    } else if prefix == "xacro"@ && local == "property"@ {
        XacroState { properties: st1.properties + values_with_key(la, "name"@), ..st1 }
    } else if prefix == "xacro"@ && local == "arg"@ {
        XacroState { args: st1.args + values_with_key(la, "name"@), ..st1 }
    } else if prefix == "xacro"@ && local == "macro"@ {
        XacroState { macros: st1.macros + values_with_key(la, "name"@), ..st1 }
    } else if local == "plugin"@ {
        match first_value(la, "filename"@) {
            Some(v) => if near_gazebo(stack) {
                XacroState { gazebo: st1.gazebo.push(v), ..st1 }
            } else {
                XacroState { plugins: st1.plugins.push(v), ..st1 }
            },
            None => st1,
        }
    } else if local == "joint"@ {
        XacroState { joints: st1.joints + values_with_key(la, "name"@), ..st1 }
    } else {
        st1
    }
}

/// What an empty tag does: as a start tag, without opening an element; a
/// plugin file name that mentions gazebo is a Gazebo plugin.
pub open spec fn xacro_empty(st: XacroState, qname: Seq<char>, attrs: Seq<(Seq<char>, Seq<char>)>) -> XacroState {
    let local = qname_local(qname);
    let prefix = qname_prefix(qname);
    let la = local_attrs(attrs);
    let st1 = XacroState { refs: st.refs + attr_refs(la), ..st };
    if prefix == "xacro"@ && local == "include"@ {
        XacroState { includes: st1.includes + include_targets(values_with_key(la, "filename"@)), ..st1 }
    } else if prefix == "xacro"@ && local == "property"@ {
        XacroState { properties: st1.properties + values_with_key(la, "name"@), ..st1 }
    } else if prefix == "xacro"@ && local == "arg"@ {
        XacroState { args: st1.args + values_with_key(la, "name"@), ..st1 }
    } else if prefix == "xacro"@ && local == "macro"@ {
        XacroState { macros: st1.macros + values_with_key(la, "name"@), ..st1 }
    } else if local == "plugin"@ {
        let vals = values_with_key(la, "filename"@);
        XacroState {
            gazebo: st1.gazebo + by_gazebo(vals, true),
            plugins: st1.plugins + by_gazebo(vals, false),
            ..st1
        }
    } else if local == "joint"@ {
        XacroState { joints: st1.joints + values_with_key(la, "name"@), ..st1 }
    } else {
        st1
    }
}

/// What one event does.
pub open spec fn xacro_step(st: XacroState, ev: (XmlKind, Seq<char>), attrs: Seq<(Seq<char>, Seq<char>)>) -> XacroState {
    match ev.0 {
        XmlKind::Start => xacro_start(st, ev.1, attrs),
        XmlKind::Empty => xacro_empty(st, ev.1, attrs),
        XmlKind::End => {
            let stack = if st.stack.len() > 0 {
                st.stack.drop_last()
            } else {
                st.stack
            };
            XacroState { stack, inside_hw_plugin: hw_plugin(stack), ..st }
        },
        XmlKind::Text => if st.inside_hw_plugin && trim(ev.1).len() > 0 {
            XacroState { plugins: st.plugins.push(trim(ev.1)), ..st }
        } else {
            st
        },
        XmlKind::Other => st,
    }
}

/// What the events say, read in order.
pub open spec fn xacro_fold(evs: Seq<(XmlKind, Seq<char>)>, attrs: Seq<Seq<(Seq<char>, Seq<char>)>>) -> XacroState
    decreases evs.len(),
{
    if evs.len() == 0 {
        initial_xacro_state()
    } else {
        xacro_step(xacro_fold(evs.drop_last(), attrs), evs.last(), attrs[evs.len() - 1])
    }
}

/// The views of (String, String) pairs.
pub open spec fn include_views(v: Seq<(String, String)>) -> Seq<(Seq<char>, Seq<char>)> {
    string_pairs(v)
}

/// The information holds what the final state says; the package references
/// are those of the attribute values and of the whole text, sorted, each once.
pub open spec fn info_of_state(info: XacroFileInfo, st: XacroState, content: Seq<char>) -> bool {
    &&& string_pairs(info.includes@) == st.includes
    &&& sorted_unique(str_views(info.package_refs@))
    &&& str_views(info.package_refs@).to_set() == (st.refs + package_refs_in(content)).to_set()
    &&& str_views(info.properties@) == st.properties
    &&& str_views(info.args@) == st.args
    &&& str_views(info.macros@) == st.macros
    &&& str_views(info.ros2_control_plugins@) == st.plugins
    &&& str_views(info.ros2_control_joints@) == st.joints
    &&& str_views(info.gazebo_plugins@) == st.gazebo
}

/// What reading a xacro file from these events gives: the reader's error
/// where reading stopped at one, else the information of the events.
pub open spec fn xacro_result(
    evs: Seq<(XmlKind, Seq<char>)>,
    attrs: Seq<Seq<(Seq<char>, Seq<char>)>>,
    error: Option<Seq<char>>,
    content: Seq<char>,
    r: Result<XacroFileInfo, String>,
) -> bool {
    match r {
        Ok(info) => error is None && info_of_state(info, xacro_fold(evs, attrs), content),
        Err(e) => error matches Some(x) && e@ == "XML error: "@ + x,
    }
}

fn local_attr_vec(attrs: &Vec<(String, String)>) -> (r: Vec<(String, String)>)
    ensures
        string_pairs(r@) == local_attrs(string_pairs(attrs@)),
{
    let mut r: Vec<(String, String)> = Vec::new();
    let mut i: usize = 0;
    while i < attrs.len()
        invariant
            i <= attrs@.len(),
            string_pairs(r@) == local_attrs(string_pairs(attrs@)).take(i as int),
        decreases attrs.len() - i,
    {
        let (local, _prefix) = split_qname(attrs[i].0.as_str());
        let ghost before = r@;
        r.push((local, attrs[i].1.clone()));
        assert(string_pairs(r@) =~= string_pairs(before).push(
            (qname_local(attrs@[i as int].0@), attrs@[i as int].1@),
        ));
        i += 1;
        assert(string_pairs(r@) =~= local_attrs(string_pairs(attrs@)).take(i as int));
    }
    assert(local_attrs(string_pairs(attrs@)).take(i as int) =~= local_attrs(string_pairs(attrs@)));
    r
}

fn append_strings(dst: &mut Vec<String>, src: Vec<String>)
    ensures
        str_views(final(dst)@) == str_views(old(dst)@) + str_views(src@),
{
    let mut src = src;
    let ghost a = dst@;
    let ghost b = src@;
    dst.append(&mut src);
    assert(dst@ =~= a + b);
    assert(str_views(dst@) =~= str_views(a) + str_views(b));
}

fn push_attr_refs(refs: &mut Vec<String>, la: &Vec<(String, String)>)
    ensures
        str_views(final(refs)@) == str_views(old(refs)@) + attr_refs(string_pairs(la@)),
{
    let ghost o = str_views(refs@);
    let ghost lv = string_pairs(la@);
    let mut i: usize = 0;
    assert(lv.take(0) =~= Seq::<(Seq<char>, Seq<char>)>::empty());
    assert(str_views(refs@) =~= o + attr_refs(lv.take(0)));
    while i < la.len()
        invariant
            i <= la@.len(),
            lv == string_pairs(la@),
            str_views(refs@) == o + attr_refs(lv.take(i as int)),
        decreases la.len() - i,
    {
        assert(lv.take(i + 1).drop_last() =~= lv.take(i as int));
        assert(lv.take(i + 1).last() == (la@[i as int].0@, la@[i as int].1@));
        let found = extract_package_refs(la[i].1.as_str());
        append_strings(refs, found);
        assert(str_views(refs@) =~= o + attr_refs(lv.take(i + 1)));
        i += 1;
    }
    assert(lv.take(i as int) =~= lv);
}

fn values_with_key_exec(la: &Vec<(String, String)>, key: &str) -> (r: Vec<String>)
    ensures
        str_views(r@) == values_with_key(string_pairs(la@), key@),
{
    let ghost lv = string_pairs(la@);
    let k = chars_of(key);
    let mut r: Vec<String> = Vec::new();
    let mut i: usize = 0;
    assert(lv.take(0) =~= Seq::<(Seq<char>, Seq<char>)>::empty());
    assert(str_views(r@) =~= values_with_key(lv.take(0), key@));
    while i < la.len()
        invariant
            i <= la@.len(),
            k@ == key@,
            lv == string_pairs(la@),
            str_views(r@) == values_with_key(lv.take(i as int), key@),
        decreases la.len() - i,
    {
        assert(lv.take(i + 1).drop_last() =~= lv.take(i as int));
        assert(lv.take(i + 1).last() == (la@[i as int].0@, la@[i as int].1@));
        let a = chars_of(la[i].0.as_str());
        if crate::text::chars_eq(a.as_slice(), k.as_slice()) {
            let ghost before = r@;
            r.push(la[i].1.clone());
            assert(str_views(r@) =~= str_views(before).push(la@[i as int].1@));
        }
        i += 1;
    }
    assert(lv.take(i as int) =~= lv);
    r
}

fn include_targets_exec(vals: &Vec<String>) -> (r: Vec<(String, String)>)
    ensures
        string_pairs(r@) == include_targets(str_views(vals@)),
{
    let ghost vv = str_views(vals@);
    let mut r: Vec<(String, String)> = Vec::new();
    let mut i: usize = 0;
    assert(vv.take(0) =~= Seq::<Seq<char>>::empty());
    assert(string_pairs(r@) =~= include_targets(vv.take(0)));
    while i < vals.len()
        invariant
            i <= vals@.len(),
            vv == str_views(vals@),
            string_pairs(r@) == include_targets(vv.take(i as int)),
        decreases vals.len() - i,
    {
        assert(vv.take(i + 1).drop_last() =~= vv.take(i as int));
        assert(vv.take(i + 1).last() == vals@[i as int]@);
        match parse_include_filename(vals[i].as_str()) {
            Some(t) => {
                let ghost before = r@;
                let ghost tv = (t.0@, t.1@);
                r.push(t);
                assert(string_pairs(r@) =~= string_pairs(before).push(tv));
            },
            None => {},
        }
        i += 1;
    }
    assert(vv.take(i as int) =~= vv);
    r
}

fn by_gazebo_exec(vals: &Vec<String>, want: bool) -> (r: Vec<String>)
    ensures
        str_views(r@) == by_gazebo(str_views(vals@), want),
{
    let ghost vv = str_views(vals@);
    let mut r: Vec<String> = Vec::new();
    let mut i: usize = 0;
    assert(vv.take(0) =~= Seq::<Seq<char>>::empty());
    assert(str_views(r@) =~= by_gazebo(vv.take(0), want));
    while i < vals.len()
        invariant
            i <= vals@.len(),
            vv == str_views(vals@),
            str_views(r@) == by_gazebo(vv.take(i as int), want),
        decreases vals.len() - i,
    {
        assert(vv.take(i + 1).drop_last() =~= vv.take(i as int));
        assert(vv.take(i + 1).last() == vals@[i as int]@);
        let v = chars_of(vals[i].as_str());
        if contains_str(v.as_slice(), "gazebo") == want {
            let ghost before = r@;
            r.push(vals[i].clone());
            assert(str_views(r@) =~= str_views(before).push(vals@[i as int]@));
        }
        i += 1;
    }
    assert(vv.take(i as int) =~= vv);
    r
}

fn first_value_exec(la: &Vec<(String, String)>, key: &str) -> (r: Option<String>)
    ensures
        opt_view(r) == first_value(string_pairs(la@), key@),
{
    let ghost lv = string_pairs(la@);
    let k = chars_of(key);
    let mut i: usize = 0;
    assert(lv.skip(0) =~= lv);
    while i < la.len()
        invariant
            i <= la@.len(),
            k@ == key@,
            lv == string_pairs(la@),
            first_value(lv, key@) == first_value(lv.skip(i as int), key@),
        decreases la.len() - i,
    {
        assert(lv.skip(i as int)[0] == (la@[i as int].0@, la@[i as int].1@));
        assert(lv.skip(i as int).drop_first() =~= lv.skip(i + 1));
        let a = chars_of(la[i].0.as_str());
        if crate::text::chars_eq(a.as_slice(), k.as_slice()) {
            return Some(la[i].1.clone());
        }
        i += 1;
    }
    None
}

fn hw_plugin_exec(stack: &Vec<String>) -> (r: bool)
    ensures
        r == hw_plugin(str_views(stack@)),
{
    let n = stack.len();
    if n == 0 {
        return false;
    }
    let last = chars_of(stack[n - 1].as_str());
    if !chars_eq_str(last.as_slice(), "plugin") {
        return false;
    }
    let mut i: usize = 0;
    while i < n
        invariant
            i <= n,
            n == stack@.len(),
            n > 0,
            stack@[n - 1]@ == "plugin"@,
            forall|k: int| 0 <= k < i ==> (#[trigger] stack@[k])@ != "hardware"@,
        decreases n - i,
    {
        let e = chars_of(stack[i].as_str());
        if chars_eq_str(e.as_slice(), "hardware") {
            assert(str_views(stack@)[i as int] == "hardware"@);
            assert(str_views(stack@).last() == stack@[n - 1]@);
            return true;
        }
        i += 1;
    }
    proof {
        if str_views(stack@).contains("hardware"@) {
            let k = choose|k: int| 0 <= k < str_views(stack@).len() && str_views(stack@)[k] == "hardware"@;
            assert(stack@[k]@ == "hardware"@);
        }
    }
    false
}

fn near_gazebo_exec(stack: &Vec<String>) -> (r: bool)
    ensures
        r == near_gazebo(str_views(stack@)),
{
    let n = stack.len();
    let lo: usize = if n >= 5 { n - 5 } else { 0 };
    let mut i = lo;
    while i < n
        invariant
            lo <= i <= n,
            n == stack@.len(),
            lo as int == (if n >= 5 { n - 5 } else { 0int }),
            forall|k: int| lo <= k < i ==> (#[trigger] stack@[k])@ != "gazebo"@,
        decreases n - i,
    {
        let e = chars_of(stack[i].as_str());
        if chars_eq_str(e.as_slice(), "gazebo") {
            assert(str_views(stack@)[i as int] == "gazebo"@);
            return true;
        }
        i += 1;
    }
    proof {
        if near_gazebo(str_views(stack@)) {
            let k = choose|k: int| str_views(stack@).len() - 5 <= k < str_views(stack@).len() && 0 <= k
                && str_views(stack@)[k] == "gazebo"@;
            assert(stack@[k]@ == "gazebo"@);
        }
    }
    false
}

fn copy_pairs(v: &Vec<(String, String)>) -> (r: Vec<(String, String)>)
    ensures
        string_pairs(r@) == string_pairs(v@),
{
    let mut r: Vec<(String, String)> = Vec::new();
    let mut i: usize = 0;
    while i < v.len()
        invariant
            i <= v@.len(),
            string_pairs(r@) == string_pairs(v@).take(i as int),
        decreases v.len() - i,
    {
        let ghost before = r@;
        r.push((v[i].0.clone(), v[i].1.clone()));
        assert(string_pairs(r@) =~= string_pairs(before).push((v@[i as int].0@, v@[i as int].1@)));
        i += 1;
        assert(string_pairs(r@) =~= string_pairs(v@).take(i as int));
    }
    assert(string_pairs(v@).take(i as int) =~= string_pairs(v@));
    r
}

struct XacroBuilder {
    includes: Vec<(String, String)>,
    refs: Vec<String>,
    properties: Vec<String>,
    args: Vec<String>,
    macros: Vec<String>,
    plugins: Vec<String>,
    joints: Vec<String>,
    gazebo: Vec<String>,
    stack: Vec<String>,
    inside_hw_plugin: bool,
}

impl View for XacroBuilder {
    type V = XacroState;

    closed spec fn view(&self) -> XacroState {
        XacroState {
            includes: string_pairs(self.includes@),
            refs: str_views(self.refs@),
            properties: str_views(self.properties@),
            args: str_views(self.args@),
            macros: str_views(self.macros@),
            plugins: str_views(self.plugins@),
            joints: str_views(self.joints@),
            gazebo: str_views(self.gazebo@),
            stack: str_views(self.stack@),
            inside_hw_plugin: self.inside_hw_plugin,
        }
    }
}

impl XacroBuilder {
    fn new() -> (r: Self)
        ensures
            r@ == initial_xacro_state(),
    {
        let r = XacroBuilder {
            includes: Vec::new(),
            refs: Vec::new(),
            properties: Vec::new(),
            args: Vec::new(),
            macros: Vec::new(),
            plugins: Vec::new(),
            joints: Vec::new(),
            gazebo: Vec::new(),
            stack: Vec::new(),
            inside_hw_plugin: false,
        };
        assert(string_pairs(r.includes@) =~= Seq::empty());
        assert(str_views(r.refs@) =~= Seq::empty());
        assert(str_views(r.properties@) =~= Seq::empty());
        assert(str_views(r.args@) =~= Seq::empty());
        assert(str_views(r.macros@) =~= Seq::empty());
        assert(str_views(r.plugins@) =~= Seq::empty());
        assert(str_views(r.joints@) =~= Seq::empty());
        assert(str_views(r.gazebo@) =~= Seq::empty());
        assert(str_views(r.stack@) =~= Seq::empty());
        r
    }

    /// Records what the element's attributes name (shared by start and empty tags,
    /// except for plugins).
    fn named(&mut self, prefix: &[char], local: &[char], la: &Vec<(String, String)>) -> (handled: bool)
        ensures
            handled == (prefix@ == "xacro"@ && (local@ == "include"@ || local@ == "property"@
                || local@ == "arg"@ || local@ == "macro"@)) || (local@ != "plugin"@ && local@
                == "joint"@),
            final(self)@ == (if prefix@ == "xacro"@ && local@ == "include"@ {
                XacroState {
                    includes: old(self)@.includes + include_targets(
                        values_with_key(string_pairs(la@), "filename"@),
                    ),
                    ..old(self)@
                }
            } else if prefix@ == "xacro"@ && local@ == "property"@ {
                XacroState {
                    properties: old(self)@.properties + values_with_key(string_pairs(la@), "name"@),
                    ..old(self)@
                }
            } else if prefix@ == "xacro"@ && local@ == "arg"@ {
                XacroState { args: old(self)@.args + values_with_key(string_pairs(la@), "name"@), ..old(self)@ }
            } else if prefix@ == "xacro"@ && local@ == "macro"@ {
                XacroState {
                    macros: old(self)@.macros + values_with_key(string_pairs(la@), "name"@),
                    ..old(self)@
                }
            } else if local@ != "plugin"@ && local@ == "joint"@ {
                XacroState {
                    joints: old(self)@.joints + values_with_key(string_pairs(la@), "name"@),
                    ..old(self)@
                }
            } else {
                old(self)@
            }),
    {
        let ghost st = self@;
        let xacro = chars_eq_str(prefix, "xacro");
        if xacro && chars_eq_str(local, "include") {
            let vals = values_with_key_exec(la, "filename");
            let mut t = include_targets_exec(&vals);
            let ghost a = self.includes@;
            let ghost b = t@;
            self.includes.append(&mut t);
            assert(self.includes@ =~= a + b);
            assert(string_pairs(self.includes@) =~= string_pairs(a) + string_pairs(b));
            true
        } else if xacro && chars_eq_str(local, "property") {
            let vals = values_with_key_exec(la, "name");
            append_strings(&mut self.properties, vals);
            true
        } else if xacro && chars_eq_str(local, "arg") {
            let vals = values_with_key_exec(la, "name");
            append_strings(&mut self.args, vals);
            true
        } else if xacro && chars_eq_str(local, "macro") {
            let vals = values_with_key_exec(la, "name");
            append_strings(&mut self.macros, vals);
            true
        } else if !chars_eq_str(local, "plugin") && chars_eq_str(local, "joint") {
            let vals = values_with_key_exec(la, "name");
            append_strings(&mut self.joints, vals);
            true
        } else {
            false
        }
    }

    fn start(&mut self, qname: &String, attrs: &Vec<(String, String)>)
        ensures
            final(self)@ == xacro_start(old(self)@, qname@, string_pairs(attrs@)),
    {
        let ghost st = self@;
        let (local, prefix) = split_qname(qname.as_str());
        let lv = chars_of(local.as_str());
        let pv = chars_of(prefix.as_str());
        let ghost sb = self.stack@;
        self.stack.push(local);
        assert(str_views(self.stack@) =~= str_views(sb).push(lv@));
        self.inside_hw_plugin = hw_plugin_exec(&self.stack);
        let la = local_attr_vec(attrs);
        push_attr_refs(&mut self.refs, &la);
        let ghost st1 = self@;
        let handled = self.named(pv.as_slice(), lv.as_slice(), &la);
        if !handled && chars_eq_str(lv.as_slice(), "plugin") {
            match first_value_exec(&la, "filename") {
                Some(v) => {
                    if near_gazebo_exec(&self.stack) {
                        let ghost g = self.gazebo@;
                        self.gazebo.push(v);
                        assert(str_views(self.gazebo@) =~= str_views(g).push(v@));
                    } else {
                        let ghost g = self.plugins@;
                        self.plugins.push(v);
                        assert(str_views(self.plugins@) =~= str_views(g).push(v@));
                    }
                },
                None => {},
            }
        }
        assert(self@ =~= xacro_start(st, qname@, string_pairs(attrs@)));
    }

    fn empty(&mut self, qname: &String, attrs: &Vec<(String, String)>)
        ensures
            final(self)@ == xacro_empty(old(self)@, qname@, string_pairs(attrs@)),
    {
        let ghost st = self@;
        let (local, prefix) = split_qname(qname.as_str());
        let lv = chars_of(local.as_str());
        let pv = chars_of(prefix.as_str());
        let la = local_attr_vec(attrs);
        push_attr_refs(&mut self.refs, &la);
        let handled = self.named(pv.as_slice(), lv.as_slice(), &la);
        if !handled && chars_eq_str(lv.as_slice(), "plugin") {
            let vals = values_with_key_exec(&la, "filename");
            let g = by_gazebo_exec(&vals, true);
            let p = by_gazebo_exec(&vals, false);
            append_strings(&mut self.gazebo, g);
            append_strings(&mut self.plugins, p);
        }
        assert(self@ =~= xacro_empty(st, qname@, string_pairs(attrs@)));
    }

    fn step(&mut self, kind: XmlKind, value: &String, attrs: &Vec<(String, String)>)
        ensures
            final(self)@ == xacro_step(old(self)@, (kind, value@), string_pairs(attrs@)),
    {
        let ghost st = self@;
        match kind {
            XmlKind::Start => self.start(value, attrs),
            XmlKind::Empty => self.empty(value, attrs),
            XmlKind::End => {
                let ghost sb = self.stack@;
                if self.stack.len() > 0 {
                    self.stack.pop();
                    assert(str_views(self.stack@) =~= str_views(sb).drop_last());
                }
                self.inside_hw_plugin = hw_plugin_exec(&self.stack);
                assert(self@ =~= xacro_step(st, (kind, value@), string_pairs(attrs@)));
            },
            XmlKind::Text => {
                if self.inside_hw_plugin {
                    let v = chars_of(value.as_str());
                    let t = trim_chars(v.as_slice());
                    if t.len() > 0 {
                        let ghost p = self.plugins@;
                        self.plugins.push(string_of(t.as_slice()));
                        assert(str_views(self.plugins@) =~= str_views(p).push(t@));
                    }
                }
                assert(self@ =~= xacro_step(st, (kind, value@), string_pairs(attrs@)));
            },
            XmlKind::Other => {},
        }
    }

    fn finish(self, content: &str) -> (r: XacroFileInfo)
        ensures
            info_of_state(r, self@, content@),
    {
        let ghost st = self@;
        let mut all = self.refs;
        let more = extract_package_refs(content);
        append_strings(&mut all, more);
        let ghost av = str_views(all@);
        let mut sorted: Vec<String> = Vec::new();
        let mut i: usize = 0;
        assert(str_views(sorted@).to_set() =~= av.take(0).to_set());
        while i < all.len()
            invariant
                i <= all@.len(),
                av == str_views(all@),
                sorted_unique(str_views(sorted@)),
                str_views(sorted@).to_set() == av.take(i as int).to_set(),
            decreases all.len() - i,
        {
            insert_sorted(&mut sorted, all[i].as_str());
            assert(av.take(i + 1) =~= av.take(i as int).push(all@[i as int]@));
            proof {
                av.take(i as int).lemma_push_to_set_commute(all@[i as int]@);
            }
            i += 1;
        }
        assert(av.take(i as int) =~= av);
        XacroFileInfo {
            includes: self.includes,
            package_refs: sorted,
            properties: self.properties,
            args: self.args,
            macros: self.macros,
            ros2_control_plugins: self.plugins,
            ros2_control_joints: self.joints,
            gazebo_plugins: self.gazebo,
        }
    }
}

/// The xacro information that these XML events of a file with text `content`
/// describe (the reader's error, where reading stopped at one, makes the error).
pub fn xacro_info_from_events(
    events: &Vec<(XmlKind, String)>,
    attrs: &Vec<Vec<(String, String)>>,
    error: Option<String>,
    content: &str,
) -> (r: Result<XacroFileInfo, String>)
    requires
        attrs@.len() == events@.len(),
    ensures
        xacro_result(event_views(events@), attribute_views(attrs@), opt_view(error), content@, r),
{
    if let Some(e) = error {
        let mut m: Vec<char> = Vec::new();
        push_str(&mut m, "XML error: ");
        push_str(&mut m, e.as_str());
        assert(m@ =~= "XML error: "@ + e@);
        return Err(string_of(m.as_slice()));
    }
    let ghost ev = event_views(events@);
    let ghost av = attribute_views(attrs@);
    let mut b = XacroBuilder::new();
    let mut i: usize = 0;
    assert(ev.take(0) =~= Seq::<(XmlKind, Seq<char>)>::empty());
    while i < events.len()
        invariant
            i <= events@.len(),
            attrs@.len() == events@.len(),
            ev == event_views(events@),
            av == attribute_views(attrs@),
            b@ == xacro_fold(ev.take(i as int), av),
        decreases events.len() - i,
    {
        assert(ev.take(i + 1).drop_last() =~= ev.take(i as int));
        assert(ev.take(i + 1).last() == (events@[i as int].0, events@[i as int].1@));
        assert(av[i as int] == string_pairs(attrs@[i as int]@));
        b.step(events[i].0, &events[i].1, &attrs[i]);
        i += 1;
    }
    assert(ev.take(i as int) =~= ev);
    Ok(b.finish(content))
}

/// Reads a xacro file: includes, package references, properties, args,
/// macros, ros2_control plugins and joints, Gazebo plugins.
pub fn parse_xacro_str(content: &str) -> (r: Result<XacroFileInfo, String>)
    ensures
        xacro_result(xml_read(content@).0, xml_read(content@).1, xml_read(content@).2, content@, r),
{
    let (events, error) = read_xml_events(content);
    let attrs = read_xml_attributes(content);
    xacro_info_from_events(&events, &attrs, error, content)
}

} // verus!
