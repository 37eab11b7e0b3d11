//! CMakeLists.txt reading: the ROS2/ament-relevant commands `find_package`,
//! `rosidl_generate_interfaces`, `ament_target_dependencies`, `install(DIRECTORY)`
//! and `add_executable`.

pub mod lexer;

use vstd::prelude::*;
use crate::cmake::lexer::{CommandSpec, read_commands, spec_commands};
use crate::paths::{file_name_of, path_file_name};
use crate::skip_config::{
    find_package_options, implicit_component_base, implicit_component_table,
    implicit_components_for, is_find_package_option, is_implicit_component_package,
    is_scope_keyword, list_contains, lit_views, scope_keywords,
};
use crate::text::{
    chars_of, contains_sub, contains_char, contains_str, ends_with_str, lowercase, lower_chars,
    replace_all, replace_str, str_views, string_of, sub_chars, trim, trim_chars, uppercase,
    upper_chars, chars_eq_str,
};

verus! {

/// What a CMakeLists.txt declares that the checks read.
pub struct CmakePackageInfo {
    /// Packages from find_package(xxx REQUIRED)
    pub find_package: Vec<String>,
    /// Interface files from rosidl_generate_interfaces(${PROJECT_NAME} "srv/X.srv" ...)
    pub rosidl_interfaces: Vec<String>,
    /// (target, deps) from ament_target_dependencies(target dep1 dep2)
    pub ament_target_deps: Vec<(String, Vec<String>)>,
    /// Directories from install(DIRECTORY x y DESTINATION ...)
    pub install_directories: Vec<String>,
    /// (executable_name, source_files) from add_executable(name src/a.cpp src/b.cpp)
    pub add_executables: Vec<(String, Vec<String>)>,
}

/// The value of a `CmakePackageInfo`.
pub struct CmakeInfoSpec {
    pub find_package: Seq<Seq<char>>,
    pub rosidl_interfaces: Seq<Seq<char>>,
    pub ament_target_deps: Seq<(Seq<char>, Seq<Seq<char>>)>,
    pub install_directories: Seq<Seq<char>>,
    pub add_executables: Seq<(Seq<char>, Seq<Seq<char>>)>,
}

/// The values of a sequence of (name, list) pairs.
pub open spec fn pair_views(v: Seq<(String, Vec<String>)>) -> Seq<(Seq<char>, Seq<Seq<char>>)> {
    v.map_values(|p: (String, Vec<String>)| (p.0@, str_views(p.1@)))
}

impl View for CmakePackageInfo {
    type V = CmakeInfoSpec;

    open spec fn view(&self) -> CmakeInfoSpec {
        CmakeInfoSpec {
            find_package: str_views(self.find_package@),
            rosidl_interfaces: str_views(self.rosidl_interfaces@),
            ament_target_deps: pair_views(self.ament_target_deps@),
            install_directories: str_views(self.install_directories@),
            add_executables: pair_views(self.add_executables@),
        }
    }
}

pub open spec fn empty_info() -> CmakeInfoSpec {
    CmakeInfoSpec {
        find_package: Seq::empty(),
        rosidl_interfaces: Seq::empty(),
        ament_target_deps: Seq::empty(),
        install_directories: Seq::empty(),
        add_executables: Seq::empty(),
    }
}

impl Default for CmakePackageInfo {
    fn default() -> (r: Self)
        ensures
            r@ == empty_info(),
    {
        let r = CmakePackageInfo {
            find_package: Vec::new(),
            rosidl_interfaces: Vec::new(),
            ament_target_deps: Vec::new(),
            install_directories: Vec::new(),
            add_executables: Vec::new(),
        };
        assert(r@.find_package =~= Seq::<Seq<char>>::empty());
        assert(r@.rosidl_interfaces =~= Seq::<Seq<char>>::empty());
        assert(r@.ament_target_deps =~= Seq::<(Seq<char>, Seq<Seq<char>>)>::empty());
        assert(r@.install_directories =~= Seq::<Seq<char>>::empty());
        assert(r@.add_executables =~= Seq::<(Seq<char>, Seq<Seq<char>>)>::empty());
        r
    }
}

/// Errors of the CMakeLists.txt reader (the read error is the caller's).
#[derive(Debug)]
pub enum CmakeError {
    Io(String),
    Parse(String),
}

// =============================================================================
// Argument values
// =============================================================================

/// A quoted argument without its quotes, with the escapes `\"`, `\\`, `\n`,
/// `\r`, `\t` replaced one after the other; any other text unchanged.
pub open spec fn spec_unquote(s: Seq<char>) -> Seq<char> {
    if s.len() >= 2 && s[0] == '"' && s.last() == '"' {
        let inner = s.subrange(1, s.len() - 1);
        let a = replace_all(inner, seq!['\\', '"'], seq!['"']);
        let b = replace_all(a, seq!['\\', '\\'], seq!['\\']);
        let c = replace_all(b, seq!['\\', 'n'], seq!['\n']);
        let d = replace_all(c, seq!['\\', 'r'], seq!['\r']);
        replace_all(d, seq!['\\', 't'], seq!['\t'])
    } else {
        s
    }
}

fn unquote_chars(s: &[char]) -> (r: Vec<char>)
    ensures
        r@ == spec_unquote(s@),
{
    let n = s.len();
    if n >= 2 && s[0] == '"' && s[n - 1] == '"' {
        let inner = sub_chars(s, 1, n - 1);
        let p1 = vec!['\\', '"'];
        let q1 = vec!['"'];
        let a = crate::text::replace_chars(inner.as_slice(), p1.as_slice(), q1.as_slice());
        let p2 = vec!['\\', '\\'];
        let q2 = vec!['\\'];
        let b = crate::text::replace_chars(a.as_slice(), p2.as_slice(), q2.as_slice());
        let p3 = vec!['\\', 'n'];
        let q3 = vec!['\n'];
        let c = crate::text::replace_chars(b.as_slice(), p3.as_slice(), q3.as_slice());
        let p4 = vec!['\\', 'r'];
        let q4 = vec!['\r'];
        let d = crate::text::replace_chars(c.as_slice(), p4.as_slice(), q4.as_slice());
        let p5 = vec!['\\', 't'];
        let q5 = vec!['\t'];
        assert(p1@ =~= seq!['\\', '"'] && q1@ =~= seq!['"']);
        assert(p2@ =~= seq!['\\', '\\'] && q2@ =~= seq!['\\']);
        assert(p3@ =~= seq!['\\', 'n'] && q3@ =~= seq!['\n']);
        assert(p4@ =~= seq!['\\', 'r'] && q4@ =~= seq!['\r']);
        assert(p5@ =~= seq!['\\', 't'] && q5@ =~= seq!['\t']);
        crate::text::replace_chars(d.as_slice(), p5.as_slice(), q5.as_slice())
    } else {
        sub_chars(s, 0, n)
    }
}

/// The value of a raw argument text: a quoted argument without its quotes and
/// with its escapes replaced; any other argument as written.
pub fn unquote(s: &str) -> (r: String)
    ensures
        r@ == spec_unquote(s@),
{
    let v = chars_of(s);
    let r = unquote_chars(v.as_slice());
    string_of(r.as_slice())
}

/// The argument values of a command: each raw argument trimmed, the empty ones
/// dropped, the rest unquoted.
pub open spec fn arg_values(raw: Seq<Seq<char>>) -> Seq<Seq<char>>
    decreases raw.len(),
{
    if raw.len() == 0 {
        Seq::empty()
    } else {
        let rest = arg_values(raw.drop_last());
        let t = trim(raw.last());
        if t.len() == 0 {
            rest
        } else {
            rest.push(spec_unquote(t))
        }
    }
}

pub open spec fn is_ascii_digit(c: char) -> bool {
    '0' <= c && c <= '9'
}

/// An argument that reads as a CMake version spec (`2.87`, `1.9.7...<1.10.0`):
/// after trimming it is non-empty and starts with a digit, or holds `...`, `<` or `>`.
pub open spec fn spec_looks_like_version(s: Seq<char>) -> bool {
    let t = trim(s);
    t.len() > 0 && (is_ascii_digit(t[0]) || contains_sub(t, "..."@) || t.contains('<')
        || t.contains('>'))
}

/// True if the argument looks like a CMake version spec (e.g. "2.87", "1.9.7...<1.10.0").
pub fn looks_like_version(s: &str) -> (r: bool)
    ensures
        r == spec_looks_like_version(s@),
{
    let v = chars_of(s);
    let t = trim_chars(v.as_slice());
    if t.len() == 0 {
        return false;
    }
    ('0' <= t[0] && t[0] <= '9') || contains_str(t.as_slice(), "...") || contains_char(
        t.as_slice(),
        '<',
    ) || contains_char(t.as_slice(), '>')
}

// =============================================================================
// find_package
// =============================================================================

/// The state of the `find_package` argument scan.
pub struct FpState {
    /// A COMPONENTS keyword was seen: the remaining arguments are components.
    pub skip_rest: bool,
    /// Components that the last implicit-component package accepts as plain arguments.
    pub mode: Option<Seq<Seq<char>>>,
    /// Package names found so far.
    pub out: Seq<Seq<char>>,
}

/// One argument of `find_package`.
pub open spec fn fp_step(st: FpState, arg: Seq<char>) -> FpState {
    let lower = lowercase(arg);
    if lower == "components"@ || lower == "optional_components"@ {
        FpState { skip_rest: true, mode: None, out: st.out }
    } else if st.skip_rest {
        st
    } else if spec_looks_like_version(arg) {
        st
    } else if find_package_options().contains(lowercase(lower)) {
        st
    } else if lowercase(lower) == "boost"@ || "qt5"@.is_prefix_of(lowercase(lower))
        || "qt6"@.is_prefix_of(lowercase(lower)) {
        FpState {
            skip_rest: st.skip_rest,
            mode: implicit_component_table(implicit_component_base(lower)),
            out: st.out.push(arg),
        }
    } else if st.mode matches Some(comps) && comps.contains(lower) {
        st
    } else if arg.len() > 0 && arg[0] == '$' {
        st
    } else {
        FpState {
            skip_rest: st.skip_rest,
            mode: None,
            out: if arg.len() > 0 {
                st.out.push(arg)
            } else {
                st.out
            },
        }
    }
}

/// The `find_package` scan over a prefix of its arguments.
pub open spec fn fp_run(args: Seq<Seq<char>>) -> FpState
    decreases args.len(),
{
    if args.len() == 0 {
        FpState { skip_rest: false, mode: None, out: Seq::empty() }
    } else {
        fp_step(fp_run(args.drop_last()), args.last())
    }
}

/// The package names of a `find_package` call: arguments after a COMPONENTS or
/// OPTIONAL_COMPONENTS keyword, version specs, options, components of Boost and
/// Qt given without the keyword, and CMake variables are no package names.
pub open spec fn find_package_names(args: Seq<Seq<char>>) -> Seq<Seq<char>> {
    fp_run(args).out
}

fn extract_find_package(args: &Vec<Vec<char>>, out: &mut Vec<String>)
    ensures
        str_views(final(out)@) == str_views(old(out)@) + find_package_names(
            crate::cmake::lexer::arg_views(args@),
        ),
{
    let ghost a = crate::cmake::lexer::arg_views(args@);
    let ghost base = str_views(out@);
    let mut skip_rest = false;
    let mut mode: Option<Vec<&'static str>> = None;
    let mut i: usize = 0;
    assert(a.take(0) =~= Seq::<Seq<char>>::empty());
    assert(str_views(out@) =~= base + Seq::<Seq<char>>::empty());
    while i < args.len()
        invariant
            i <= args@.len(),
            a == crate::cmake::lexer::arg_views(args@),
            fp_run(a.take(i as int)).skip_rest == skip_rest,
            fp_run(a.take(i as int)).mode == (match mode {
                Some(v) => Some(lit_views(v@)),
                None => None,
            }),
            str_views(out@) == base + fp_run(a.take(i as int)).out,
        decreases args.len() - i,
    {
        let arg = &args[i];
        assert(a.take(i + 1).drop_last() =~= a.take(i as int));
        assert(a.take(i + 1).last() == arg@);
        let ghost st = fp_run(a.take(i as int));
        let ghost old_out = str_views(out@);
        let lower = lower_chars(arg.as_slice());
        let lower_s = string_of(lower.as_slice());
        let arg_s = string_of(arg.as_slice());
        if chars_eq_str(lower.as_slice(), "components") || chars_eq_str(
            lower.as_slice(),
            "optional_components",
        ) {
            skip_rest = true;
            mode = None;
        } else if skip_rest {
        } else if looks_like_version(arg_s.as_str()) {
        } else if is_find_package_option(lower_s.as_str()) {
        } else if is_implicit_component_package(lower_s.as_str()) {
            mode = implicit_components_for(lower_s.as_str());
            out.push(arg_s);
            assert(str_views(out@) =~= old_out.push(arg@));
        } else {
            let in_mode = match &mode {
                Some(comps) => list_contains(comps, lower.as_slice()),
                None => false,
            };
            if in_mode {
            } else if arg.len() > 0 && arg[0] == '$' {
            } else {
                mode = None;
                if arg.len() > 0 {
                    out.push(arg_s);
                    assert(str_views(out@) =~= old_out.push(arg@));
                }
            }
        }
        i += 1;
    }
    assert(a.take(i as int) =~= a);
}

// =============================================================================
// rosidl_generate_interfaces
// =============================================================================

/// An interface file name: ends in `.msg`, `.srv` or `.action`.
pub open spec fn is_interface_file(a: Seq<char>) -> bool {
    ".msg"@.is_suffix_of(a) || ".srv"@.is_suffix_of(a) || ".action"@.is_suffix_of(a)
}

/// The file names of the interface files among `xs`.
pub open spec fn interface_files(xs: Seq<Seq<char>>) -> Seq<Seq<char>>
    decreases xs.len(),
{
    if xs.len() == 0 {
        Seq::empty()
    } else {
        let rest = interface_files(xs.drop_last());
        let a = xs.last();
        if is_interface_file(a) {
            rest.push(
                match path_file_name(a) {
                    Some(n) => n,
                    None => a,
                },
            )
        } else {
            rest
        }
    }
}

/// All arguments but the first (`args.iter().skip(1)`).
pub open spec fn tail(args: Seq<Seq<char>>) -> Seq<Seq<char>> {
    if args.len() == 0 {
        args
    } else {
        args.drop_first()
    }
}

fn extract_rosidl_interfaces(args: &Vec<Vec<char>>, out: &mut Vec<String>)
    ensures
        str_views(final(out)@) == str_views(old(out)@) + interface_files(
            tail(crate::cmake::lexer::arg_views(args@)),
        ),
{
    let ghost a = crate::cmake::lexer::arg_views(args@);
    let ghost t = tail(a);
    let ghost base = str_views(out@);
    if args.len() == 0 {
        assert(interface_files(t) =~= Seq::<Seq<char>>::empty());
        assert(str_views(out@) =~= base + Seq::<Seq<char>>::empty());
        return;
    }
    let mut i: usize = 1;
    assert(t.take(0) =~= Seq::<Seq<char>>::empty());
    assert(str_views(out@) =~= base + Seq::<Seq<char>>::empty());
    while i < args.len()
        invariant
            1 <= i <= args@.len(),
            a == crate::cmake::lexer::arg_views(args@),
            t == a.drop_first(),
            str_views(out@) == base + interface_files(t.take(i - 1)),
        decreases args.len() - i,
    {
        let arg = &args[i];
        assert(t.take(i as int).drop_last() =~= t.take(i - 1));
        assert(t.take(i as int).last() == arg@);
        let ghost old_out = str_views(out@);
        if ends_with_str(arg.as_slice(), ".msg") || ends_with_str(arg.as_slice(), ".srv")
            || ends_with_str(arg.as_slice(), ".action") {
            let s = string_of(arg.as_slice());
            let name = match file_name_of(s.as_str()) {
                Some(n) => n,
                None => s,
            };
            out.push(name);
            assert(str_views(out@) =~= old_out.push(str_views(out@).last()));
        }
        i += 1;
    }
    assert(t.take(i - 1) =~= t);
}

// =============================================================================
// ament_target_dependencies
// =============================================================================

/// The dependency arguments: non-empty and not a scope keyword.
pub open spec fn dep_args(xs: Seq<Seq<char>>) -> Seq<Seq<char>>
    decreases xs.len(),
{
    if xs.len() == 0 {
        Seq::empty()
    } else {
        let rest = dep_args(xs.drop_last());
        let a = xs.last();
        if a.len() > 0 && !scope_keywords().contains(uppercase(a)) {
            rest.push(a)
        } else {
            rest
        }
    }
}

/// The (target, dependencies) entry of an `ament_target_dependencies` call:
/// present when the target and the dependency list are non-empty.
pub open spec fn target_deps_of(args: Seq<Seq<char>>) -> Option<(Seq<char>, Seq<Seq<char>>)> {
    let target = if args.len() > 0 {
        args[0]
    } else {
        Seq::empty()
    };
    let deps = dep_args(tail(args));
    if target.len() > 0 && deps.len() > 0 {
        Some((target, deps))
    } else {
        None
    }
}

/// An argument of `ament_target_dependencies` after the target that names a
/// dependency: non-empty, and not `PUBLIC`, `PRIVATE` or `INTERFACE` in any case.
pub open spec fn is_dependency_argument(a: Seq<char>) -> bool {
    a.len() > 0 && uppercase(a) != "PUBLIC"@ && uppercase(a) != "PRIVATE"@ && uppercase(a)
        != "INTERFACE"@
}

proof fn lemma_dep_args_filter(xs: Seq<Seq<char>>)
    ensures
        dep_args(xs) == xs.filter(|a: Seq<char>| is_dependency_argument(a)),
    decreases xs.len(),
{
    reveal(Seq::filter);
    if xs.len() > 0 {
        lemma_dep_args_filter(xs.drop_last());
        let a = xs.last();
        let kw = scope_keywords();
        assert(kw[0] == "PUBLIC"@ && kw[1] == "PRIVATE"@ && kw[2] == "INTERFACE"@);
        if kw.contains(uppercase(a)) {
            let i = choose|i: int| 0 <= i < kw.len() && kw[i] == uppercase(a);
        } else {
            assert(!(uppercase(a) == kw[0]) && !(uppercase(a) == kw[1]) && !(uppercase(a) == kw[2]));
        }
    }
}

/// `ament_target_dependencies(target a1 ... an)` gives the entry (target,
/// deps) where deps is exactly those of a1 ... an that are non-empty and not
/// `PUBLIC`, `PRIVATE` or `INTERFACE`, in order; there is an entry exactly
/// when the target and that list are non-empty.
pub proof fn lemma_ament_target_entry(args: Seq<Seq<char>>)
    ensures
        target_deps_of(args) is Some <==> args.len() > 0 && args[0].len() > 0 && args.drop_first().filter(
            |a: Seq<char>| is_dependency_argument(a),
        ).len() > 0,
        target_deps_of(args) matches Some(p) ==> p.0 == args[0] && p.1 == args.drop_first().filter(
            |a: Seq<char>| is_dependency_argument(a),
        ),
{
    lemma_dep_args_filter(tail(args));
    if args.len() == 0 {
        lemma_dep_args_filter(args);
        reveal(Seq::filter);
    }
}

fn extract_ament_target_dependencies(args: &Vec<Vec<char>>, out: &mut Vec<(String, Vec<String>)>)
    ensures
        pair_views(final(out)@) == pair_views(old(out)@) + match target_deps_of(
            crate::cmake::lexer::arg_views(args@),
        ) {
            Some(p) => seq![p],
            None => Seq::empty(),
        },
{
    let ghost a = crate::cmake::lexer::arg_views(args@);
    let ghost t = tail(a);
    let ghost base = pair_views(out@);
    if args.len() == 0 {
        assert(pair_views(out@) =~= base + Seq::<(Seq<char>, Seq<Seq<char>>)>::empty());
        return;
    }
    let mut deps: Vec<String> = Vec::new();
    let mut i: usize = 1;
    assert(t.take(0) =~= Seq::<Seq<char>>::empty());
    assert(str_views(deps@) =~= Seq::<Seq<char>>::empty());
    while i < args.len()
        invariant
            1 <= i <= args@.len(),
            a == crate::cmake::lexer::arg_views(args@),
            t == a.drop_first(),
            str_views(deps@) == dep_args(t.take(i - 1)),
        decreases args.len() - i,
    {
        let arg = &args[i];
        assert(t.take(i as int).drop_last() =~= t.take(i - 1));
        assert(t.take(i as int).last() == arg@);
        let ghost old_d = str_views(deps@);
        let s = string_of(arg.as_slice());
        if arg.len() > 0 && !is_scope_keyword(s.as_str()) {
            deps.push(s);
            assert(str_views(deps@) =~= old_d.push(arg@));
        }
        i += 1;
    }
    assert(t.take(i - 1) =~= t);
    let target = string_of(args[0].as_slice());
    if args[0].len() > 0 && deps.len() > 0 {
        let ghost p = (target@, str_views(deps@));
        out.push((target, deps));
        assert(pair_views(out@) =~= base + seq![p]);
    } else {
        assert(pair_views(out@) =~= base + Seq::<(Seq<char>, Seq<Seq<char>>)>::empty());
    }
}

// =============================================================================
// add_executable
// =============================================================================

/// A C or C++ source file name: ends in `.cpp`, `.cxx`, `.cc` or `.c`.
pub open spec fn is_source_file(a: Seq<char>) -> bool {
    ".cpp"@.is_suffix_of(a) || ".cxx"@.is_suffix_of(a) || ".cc"@.is_suffix_of(a) || ".c"@.is_suffix_of(a)
}

/// The non-empty source file arguments among `xs`.
pub open spec fn source_args(xs: Seq<Seq<char>>) -> Seq<Seq<char>>
    decreases xs.len(),
{
    if xs.len() == 0 {
        Seq::empty()
    } else {
        let rest = source_args(xs.drop_last());
        let a = xs.last();
        if a.len() > 0 && is_source_file(a) {
            rest.push(a)
        } else {
            rest
        }
    }
}

/// The (executable, sources) entry of an `add_executable` call: present when
/// the name and the source list are non-empty.
pub open spec fn executable_of(args: Seq<Seq<char>>) -> Option<(Seq<char>, Seq<Seq<char>>)> {
    if args.len() == 0 || args[0].len() == 0 {
        None
    } else {
        let srcs = source_args(args.drop_first());
        if srcs.len() > 0 {
            Some((args[0], srcs))
        } else {
            None
        }
    }
}

fn extract_add_executable(args: &Vec<Vec<char>>, out: &mut Vec<(String, Vec<String>)>)
    ensures
        pair_views(final(out)@) == pair_views(old(out)@) + match executable_of(
            crate::cmake::lexer::arg_views(args@),
        ) {
            Some(p) => seq![p],
            None => Seq::empty(),
        },
{
    let ghost a = crate::cmake::lexer::arg_views(args@);
    let ghost base = pair_views(out@);
    if args.len() == 0 || args[0].len() == 0 {
        assert(pair_views(out@) =~= base + Seq::<(Seq<char>, Seq<Seq<char>>)>::empty());
        return;
    }
    let ghost t = a.drop_first();
    let mut srcs: Vec<String> = Vec::new();
    let mut i: usize = 1;
    assert(t.take(0) =~= Seq::<Seq<char>>::empty());
    assert(str_views(srcs@) =~= Seq::<Seq<char>>::empty());
    while i < args.len()
        invariant
            1 <= i <= args@.len(),
            a == crate::cmake::lexer::arg_views(args@),
            t == a.drop_first(),
            str_views(srcs@) == source_args(t.take(i - 1)),
        decreases args.len() - i,
    {
        let arg = &args[i];
        assert(t.take(i as int).drop_last() =~= t.take(i - 1));
        assert(t.take(i as int).last() == arg@);
        let ghost old_d = str_views(srcs@);
        if arg.len() > 0 && (ends_with_str(arg.as_slice(), ".cpp") || ends_with_str(
            arg.as_slice(),
            ".cxx",
        ) || ends_with_str(arg.as_slice(), ".cc") || ends_with_str(arg.as_slice(), ".c")) {
            let s = string_of(arg.as_slice());
            srcs.push(s);
            assert(str_views(srcs@) =~= old_d.push(arg@));
        }
        i += 1;
    }
    assert(t.take(i - 1) =~= t);
    if srcs.len() > 0 {
        let target = string_of(args[0].as_slice());
        let ghost p = (target@, str_views(srcs@));
        out.push((target, srcs));
        assert(pair_views(out@) =~= base + seq![p]);
    } else {
        assert(pair_views(out@) =~= base + Seq::<(Seq<char>, Seq<Seq<char>>)>::empty());
    }
}

// =============================================================================
// install(DIRECTORY ...)
// =============================================================================

/// The non-empty arguments of `xs` before the first DESTINATION keyword.
pub open spec fn dirs_until_destination(xs: Seq<Seq<char>>) -> Seq<Seq<char>>
    decreases xs.len(),
{
    if xs.len() == 0 || uppercase(xs[0]) == "DESTINATION"@ {
        Seq::empty()
    } else {
        let rest = dirs_until_destination(xs.drop_first());
        if xs[0].len() > 0 {
            seq![xs[0]] + rest
        } else {
            rest
        }
    }
}

/// The directories of an `install` call: the non-empty arguments after the
/// first DIRECTORY keyword and before the next DESTINATION keyword.
pub open spec fn install_dirs(xs: Seq<Seq<char>>) -> Seq<Seq<char>>
    decreases xs.len(),
{
    if xs.len() == 0 {
        Seq::empty()
    } else if uppercase(xs[0]) == "DIRECTORY"@ {
        dirs_until_destination(xs.drop_first())
    } else {
        install_dirs(xs.drop_first())
    }
}

fn extract_install_directories(args: &Vec<Vec<char>>, out: &mut Vec<String>)
    ensures
        str_views(final(out)@) == str_views(old(out)@) + install_dirs(
            crate::cmake::lexer::arg_views(args@),
        ),
{
    let ghost a = crate::cmake::lexer::arg_views(args@);
    let ghost base = str_views(out@);
    let mut i: usize = 0;
    assert(a.skip(0) =~= a);
    while i < args.len()
        invariant
            i <= args@.len(),
            a == crate::cmake::lexer::arg_views(args@),
            str_views(out@) == base,
            base == str_views(old(out)@),
            install_dirs(a) == install_dirs(a.skip(i as int)),
        decreases args.len() - i,
    {
        let up = upper_chars(args[i].as_slice());
        assert(a.skip(i as int)[0] == args@[i as int]@);
        assert(a.skip(i as int).drop_first() =~= a.skip(i + 1));
        if chars_eq_str(up.as_slice(), "DIRECTORY") {
            i += 1;
            assert(install_dirs(a) == dirs_until_destination(a.skip(i as int)));
            let ghost d = dirs_until_destination(a.skip(i as int));
            let mut stop = false;
            while i < args.len() && !stop
                invariant
                    i <= args@.len(),
                    a == crate::cmake::lexer::arg_views(args@),
                    str_views(out@) + dirs_until_destination(a.skip(i as int)) == base + d,
                    install_dirs(a) == d,
                    base == str_views(old(out)@),
                    stop ==> i < args@.len() && uppercase(a[i as int]) == "DESTINATION"@,
                decreases args.len() - i + (if stop { 0int } else { 1int }),
            {
                let up2 = upper_chars(args[i].as_slice());
                assert(a.skip(i as int)[0] == args@[i as int]@);
                assert(a.skip(i as int).drop_first() =~= a.skip(i + 1));
                if chars_eq_str(up2.as_slice(), "DESTINATION") {
                    stop = true;
                } else {
                    let ghost old_out = str_views(out@);
                    if args[i].len() > 0 {
                        let s = string_of(args[i].as_slice());
                        out.push(s);
                        assert(str_views(out@) =~= old_out.push(args@[i as int]@));
                        assert(old_out.push(args@[i as int]@) + dirs_until_destination(
                            a.skip(i + 1),
                        ) =~= old_out + (seq![args@[i as int]@] + dirs_until_destination(
                            a.skip(i + 1),
                        )));
                    }
                    i += 1;
                }
            }
            proof {
                if stop {
                    assert(a.skip(i as int)[0] == a[i as int]);
                    assert(dirs_until_destination(a.skip(i as int)) =~= Seq::<Seq<char>>::empty());
                } else {
                    assert(a.skip(i as int) =~= Seq::<Seq<char>>::empty());
                }
                assert(str_views(out@) + Seq::<Seq<char>>::empty() =~= str_views(out@));
            }
            return;
        }
        i += 1;
    }
    assert(a.skip(i as int) =~= Seq::<Seq<char>>::empty());
    assert(str_views(out@) =~= base + Seq::<Seq<char>>::empty());
}

// =============================================================================
// Whole file
// =============================================================================

/// One command applied to the information gathered from the commands before it.
pub open spec fn apply_command(info: CmakeInfoSpec, cmd: CommandSpec) -> CmakeInfoSpec {
    let name = lowercase(cmd.name);
    let args = arg_values(cmd.args);
    if name == "find_package"@ {
        CmakeInfoSpec { find_package: info.find_package + find_package_names(args), ..info }
    } else if name == "rosidl_generate_interfaces"@ {
        CmakeInfoSpec {
            rosidl_interfaces: info.rosidl_interfaces + interface_files(tail(args)),
            ..info
        }
    } else if name == "ament_target_dependencies"@ {
        CmakeInfoSpec {
            ament_target_deps: info.ament_target_deps + match target_deps_of(args) {
                Some(p) => seq![p],
                None => Seq::empty(),
            },
            ..info
        }
    } else if name == "install"@ {
        CmakeInfoSpec { install_directories: info.install_directories + install_dirs(args), ..info }
    } else if name == "add_executable"@ {
        CmakeInfoSpec {
            add_executables: info.add_executables + match executable_of(args) {
                Some(p) => seq![p],
                None => Seq::empty(),
            },
            ..info
        }
    } else {
        info
    }
}

/// The information that a sequence of commands declares, in order.
pub open spec fn info_of(cmds: Seq<CommandSpec>) -> CmakeInfoSpec
    decreases cmds.len(),
{
    if cmds.len() == 0 {
        empty_info()
    } else {
        apply_command(info_of(cmds.drop_last()), cmds.last())
    }
}

/// What a CMakeLists.txt text declares, or `None` where it does not follow the grammar.
pub open spec fn spec_cmake_info(s: Seq<char>) -> Option<CmakeInfoSpec> {
    match spec_commands(s) {
        Some(cmds) => Some(info_of(cmds)),
        None => None,
    }
}

fn argument_values(raw: &Vec<Vec<char>>) -> (r: Vec<Vec<char>>)
    ensures
        crate::cmake::lexer::arg_views(r@) == arg_values(crate::cmake::lexer::arg_views(raw@)),
{
    let ghost a = crate::cmake::lexer::arg_views(raw@);
    let mut r: Vec<Vec<char>> = Vec::new();
    let mut i: usize = 0;
    assert(a.take(0) =~= Seq::<Seq<char>>::empty());
    assert(crate::cmake::lexer::arg_views(r@) =~= Seq::<Seq<char>>::empty());
    while i < raw.len()
        invariant
            i <= raw@.len(),
            a == crate::cmake::lexer::arg_views(raw@),
            crate::cmake::lexer::arg_views(r@) == arg_values(a.take(i as int)),
        decreases raw.len() - i,
    {
        assert(a.take(i + 1).drop_last() =~= a.take(i as int));
        assert(a.take(i + 1).last() == raw@[i as int]@);
        let ghost old_r = crate::cmake::lexer::arg_views(r@);
        let t = trim_chars(raw[i].as_slice());
        if t.len() > 0 {
            let u = unquote_chars(t.as_slice());
            r.push(u);
            assert(crate::cmake::lexer::arg_views(r@) =~= old_r.push(spec_unquote(t@)));
        }
        i += 1;
    }
    assert(a.take(i as int) =~= a);
    r
}

/// Reads a CMakeLists.txt text; an error where it does not follow the grammar.
pub fn parse_cmake_lists_str(content: &str) -> (r: Result<CmakePackageInfo, CmakeError>)
    ensures
        match r {
            Ok(info) => spec_cmake_info(content@) == Some(info@),
            Err(e) => spec_cmake_info(content@) is None && (e matches CmakeError::Parse(m) && m@
                == "syntax error"@),
        },
{
    let v = chars_of(content);
    let cmds = match read_commands(v.as_slice()) {
        Some(c) => c,
        None => {
            let msg = chars_of("syntax error");
            return Err(CmakeError::Parse(string_of(msg.as_slice())));
        },
    };
    let ghost cs = crate::cmake::lexer::command_views(cmds@);
    let mut info = CmakePackageInfo::default();
    let mut i: usize = 0;
    assert(cs.take(0) =~= Seq::<CommandSpec>::empty());
    while i < cmds.len()
        invariant
            i <= cmds@.len(),
            cs == crate::cmake::lexer::command_views(cmds@),
            info@ == info_of(cs.take(i as int)),
        decreases cmds.len() - i,
    {
        let cmd = &cmds[i];
        assert(cs.take(i + 1).drop_last() =~= cs.take(i as int));
        assert(cs.take(i + 1).last() == cmd@);
        let args = argument_values(&cmd.args);
        let name = lower_chars(cmd.name.as_slice());
        if chars_eq_str(name.as_slice(), "find_package") {
            extract_find_package(&args, &mut info.find_package);
        } else if chars_eq_str(name.as_slice(), "rosidl_generate_interfaces") {
            extract_rosidl_interfaces(&args, &mut info.rosidl_interfaces);
        } else if chars_eq_str(name.as_slice(), "ament_target_dependencies") {
            extract_ament_target_dependencies(&args, &mut info.ament_target_deps);
        } else if chars_eq_str(name.as_slice(), "install") {
            extract_install_directories(&args, &mut info.install_directories);
        } else if chars_eq_str(name.as_slice(), "add_executable") {
            extract_add_executable(&args, &mut info.add_executables);
        }
        i += 1;
    }
    assert(cs.take(i as int) =~= cs);
    Ok(info)
}

/// The text handed to the CMake reader for a file's content: trailing
/// whitespace removed and one newline appended.
pub fn normalize_cmake_source(content: &str) -> (r: String)
    ensures
        r@ == crate::text::trim_end(content@).push('\n'),
{
    let v = chars_of(content);
    let mut e = v.len();
    assert(v@.take(e as int) =~= v@);
    while e > 0 && crate::text::is_whitespace(v[e - 1])
        invariant
            e <= v@.len(),
            crate::text::trim_end(content@) == crate::text::trim_end(v@.take(e as int)),
        decreases e,
    {
        assert(v@.take(e as int).drop_last() =~= v@.take(e - 1));
        e -= 1;
    }
    let mut out = sub_chars(v.as_slice(), 0, e);
    proof {
        let t = v@.take(e as int);
        if t.len() > 0 {
            assert(!crate::text::is_ws(t.last()));
        }
        assert(out@ =~= t);
    }
    out.push('\n');
    string_of(out.as_slice())
}

} // verus!
