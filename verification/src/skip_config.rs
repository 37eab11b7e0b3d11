//! Skip and filter tables for CMake parsing and dependency checks.
//!
//! Two concerns:
//! 1. CMake itself: `find_package` options and scope keywords, which are not package names.
//! 2. Policy: packages that the dependency checks skip (ament infrastructure, system
//!    libraries) or report with a lower severity.

use vstd::prelude::*;
use crate::text::{
    chars_eq, chars_eq_str, chars_of, lower_chars, lowercase, starts_with_str, str_views,
    upper_chars, uppercase,
};

verus! {

/// The character sequences of a sequence of string slices.
pub open spec fn lit_views(v: Seq<&str>) -> Seq<Seq<char>> {
    v.map_values(|x: &str| x@)
}

/// Whether `v` equals one of the string slices in `list`.
pub fn list_contains(list: &Vec<&str>, v: &[char]) -> (r: bool)
    ensures
        r == lit_views(list@).contains(v@),
{
    let mut i: usize = 0;
    while i < list.len()
        invariant
            i <= list@.len(),
            forall|k: int| 0 <= k < i ==> list@[k]@ != v@,
        decreases list.len() - i,
    {
        if chars_eq_str(v, list[i]) {
            assert(lit_views(list@)[i as int] == v@);
            return true;
        }
        i += 1;
    }
    assert(!lit_views(list@).contains(v@)) by {
        if lit_views(list@).contains(v@) {
            let k = choose|k: int| 0 <= k < lit_views(list@).len() && lit_views(list@)[k] == v@;
            assert(list@[k]@ == v@);
        }
    }
    false
}

/// Whether some string slice in `list` is a prefix of `v`.
pub fn list_has_prefix_of(list: &Vec<&str>, v: &[char]) -> (r: bool)
    ensures
        r == exists|k: int| 0 <= k < list@.len() && (#[trigger] list@[k])@.is_prefix_of(v@),
{
    let mut i: usize = 0;
    while i < list.len()
        invariant
            i <= list@.len(),
            forall|k: int| 0 <= k < i ==> !(#[trigger] list@[k])@.is_prefix_of(v@),
        decreases list.len() - i,
    {
        if starts_with_str(v, list[i]) {
            return true;
        }
        i += 1;
    }
    false
}

/// All `find_package` options, in lowercase (these are never package names).
pub open spec fn find_package_options() -> Seq<Seq<char>> {
    seq![
        "required"@, "quiet"@, "optional"@, "exact"@, "config"@, "module"@,
        "no_policy_scope"@, "no_module"@, "names"@, "configs"@, "paths"@,
        "path_suffixes"@, "hints"@, "no_default_path"@, "no_package_root_path"@,
        "no_cmake_path"@, "no_cmake_environment_path"@, "no_system_environment_path"@,
        "no_cmake_package_registry"@, "no_cmake_system_path"@,
        "no_cmake_system_package_registry"@, "cmake_find_root_path_both"@,
        "only_cmake_find_root_path"@, "no_cmake_find_root_path"@, "version"@,
        "components"@, "optional_components"@,
    ]
}

fn find_package_option_list() -> (r: Vec<&'static str>)
    ensures
        lit_views(r@) == find_package_options(),
{
    let r = vec![
        "required", "quiet", "optional", "exact", "config", "module", "no_policy_scope",
        "no_module", "names", "configs", "paths", "path_suffixes", "hints", "no_default_path",
        "no_package_root_path", "no_cmake_path", "no_cmake_environment_path",
        "no_system_environment_path", "no_cmake_package_registry", "no_cmake_system_path",
        "no_cmake_system_package_registry", "cmake_find_root_path_both",
        "only_cmake_find_root_path", "no_cmake_find_root_path", "version", "components",
        "optional_components",
    ];
    assert(lit_views(r@) =~= find_package_options());
    r
}

/// Scope keywords of `ament_target_dependencies(target SCOPE dep...)`.
pub open spec fn scope_keywords() -> Seq<Seq<char>> {
    seq!["PUBLIC"@, "PRIVATE"@, "INTERFACE"@]
}

fn scope_keyword_list() -> (r: Vec<&'static str>)
    ensures
        lit_views(r@) == scope_keywords(),
{
    let r = vec!["PUBLIC", "PRIVATE", "INTERFACE"];
    assert(lit_views(r@) =~= scope_keywords());
    r
}

/// True iff `s`, lowercased, is a `find_package` option.
pub fn is_find_package_option(s: &str) -> (r: bool)
    ensures
        r == find_package_options().contains(lowercase(s@)),
{
    let v = chars_of(s);
    let lower = lower_chars(v.as_slice());
    let list = find_package_option_list();
    list_contains(&list, lower.as_slice())
}

/// True iff `s`, uppercased, is a scope keyword.
pub fn is_scope_keyword(s: &str) -> (r: bool)
    ensures
        r == scope_keywords().contains(uppercase(s@)),
{
    let v = chars_of(s);
    let upper = upper_chars(v.as_slice());
    let list = scope_keyword_list();
    list_contains(&list, upper.as_slice())
}

/// Components that Boost accepts as plain arguments of `find_package`.
pub open spec fn boost_components() -> Seq<Seq<char>> {
    seq![
        "system"@, "filesystem"@, "date_time"@, "thread"@, "serialization"@,
        "program_options"@, "regex"@, "chrono"@, "atomic"@, "random"@,
    ]
}

/// Components that Qt5 and Qt6 accept as plain arguments of `find_package`.
pub open spec fn qt_components() -> Seq<Seq<char>> {
    seq![
        "core"@, "widgets"@, "gui"@, "network"@, "sql"@, "test"@, "concurrent"@, "xml"@,
        "dbus"@,
    ]
}

/// The implicit-component table: package base name and its components.
pub open spec fn implicit_component_table(base: Seq<char>) -> Option<Seq<Seq<char>>> {
    if base == "boost"@ {
        Some(boost_components())
    } else if base == "qt5"@ || base == "qt6"@ {
        Some(qt_components())
    } else {
        None
    }
}

/// The table key for a lowercased package name: names starting with `qt5` or
/// `qt6` map to that prefix, other names to themselves.
pub open spec fn implicit_component_base(package_lower: Seq<char>) -> Seq<char> {
    if "qt5"@.is_prefix_of(package_lower) {
        "qt5"@
    } else if "qt6"@.is_prefix_of(package_lower) {
        "qt6"@
    } else {
        package_lower
    }
}

/// The components of a package that takes components as plain arguments
/// (`find_package(Boost REQUIRED system)`, `find_package(Qt5 REQUIRED Core)`).
pub fn implicit_components_for(package_lower: &str) -> (r: Option<Vec<&'static str>>)
    ensures
        match r {
            Some(v) => implicit_component_table(implicit_component_base(package_lower@)) == Some(
                lit_views(v@),
            ),
            None => implicit_component_table(implicit_component_base(package_lower@)).is_none(),
        },
{
    let v = chars_of(package_lower);
    proof {
        reveal_strlit("qt5");
        reveal_strlit("qt6");
        reveal_strlit("boost");
    }
    if starts_with_str(v.as_slice(), "qt5") || starts_with_str(v.as_slice(), "qt6") {
        let r = vec!["core", "widgets", "gui", "network", "sql", "test", "concurrent", "xml", "dbus"];
        assert(lit_views(r@) =~= qt_components());
        Some(r)
    } else if chars_eq_str(v.as_slice(), "boost") {
        let r = vec![
            "system", "filesystem", "date_time", "thread", "serialization", "program_options",
            "regex", "chrono", "atomic", "random",
        ];
        assert(lit_views(r@) =~= boost_components());
        Some(r)
    } else {
        proof {
            if package_lower@ == "qt5"@ {
                assert("qt5"@.is_prefix_of(package_lower@));
            }
            if package_lower@ == "qt6"@ {
                assert("qt6"@.is_prefix_of(package_lower@));
            }
        }
        None
    }
}

/// True iff `s`, lowercased, is `boost` or starts with `qt5` or `qt6`.
pub fn is_implicit_component_package(s: &str) -> (r: bool)
    ensures
        r == (lowercase(s@) == "boost"@ || "qt5"@.is_prefix_of(lowercase(s@)) || "qt6"@.is_prefix_of(
            lowercase(s@),
        )),
{
    let v = chars_of(s);
    let lower = lower_chars(v.as_slice());
    chars_eq_str(lower.as_slice(), "boost") || starts_with_str(lower.as_slice(), "qt5")
        || starts_with_str(lower.as_slice(), "qt6")
}

/// Packages used only in tests; the fix hint suggests `<test_depend>`.
pub open spec fn test_only_packages() -> Seq<Seq<char>> {
    seq!["ament_cmake_gtest"@, "ament_cmake_gmock"@]
}

/// True iff `name`, lowercased, is a test-only package.
pub fn is_test_only_package(name: &str) -> (r: bool)
    ensures
        r == test_only_packages().contains(lowercase(name@)),
{
    let v = chars_of(name);
    let lower = lower_chars(v.as_slice());
    let list = vec!["ament_cmake_gtest", "ament_cmake_gmock"];
    assert(lit_views(list@) =~= test_only_packages());
    list_contains(&list, lower.as_slice())
}

/// Package names that the dependency checks never report as missing.
pub open spec fn dep_skip_exact() -> Seq<Seq<char>> {
    seq![
        "ament_cmake"@, "ament_cmake_core"@, "ament_cmake_python"@, "pkgconfig"@,
        "python3"@, "python"@, "eigen3"@, "eigen"@, "opencv"@, "qt5"@, "qt6"@, "boost"@,
        "bullet"@, "fcl"@, "octomap"@, "osqp"@, "opengl"@, "glew"@, "freeglut"@, "glut"@,
        "x11"@, "openmp"@, "core"@, "widgets"@,
    ]
}

/// Name prefixes that the dependency checks never report as missing.
pub open spec fn dep_skip_prefixes() -> Seq<Seq<char>> {
    seq!["qt5"@, "qt6"@]
}

/// System and vendor packages: still reported, but as a warning.
pub open spec fn system_vendor_packages() -> Seq<Seq<char>> {
    seq![
        "yaml-cpp"@, "tbb"@, "nanoflann"@, "nlohmann_json"@, "graphicsmagickcpp"@, "bond"@,
        "bondcpp"@,
    ]
}

/// True iff `name`, lowercased, is a known system or vendor package.
pub fn is_system_vendor_package(name: &str) -> (r: bool)
    ensures
        r == system_vendor_packages().contains(lowercase(name@)),
{
    let v = chars_of(name);
    let lower = lower_chars(v.as_slice());
    let list = vec![
        "yaml-cpp", "tbb", "nanoflann", "nlohmann_json", "graphicsmagickcpp", "bond", "bondcpp",
    ];
    assert(lit_views(list@) =~= system_vendor_packages());
    list_contains(&list, lower.as_slice())
}

/// Some entry of `skip`, lowercased, equals `lower`.
pub open spec fn in_skip_list(skip: Seq<Seq<char>>, lower: Seq<char>) -> bool {
    exists|k: int| 0 <= k < skip.len() && lowercase(#[trigger] skip[k]) == lower
}

/// Whether the dependency checks skip `name`: its lowercase form equals the
/// lowercase form of a project skip entry, is in the fixed skip list, or starts
/// with a skipped prefix.
pub open spec fn spec_dep_should_skip(name: Seq<char>, project_skip: Option<Seq<Seq<char>>>) -> bool {
    let lower = lowercase(name);
    ||| match project_skip {
        Some(skip) => in_skip_list(skip, lower),
        None => false,
    }
    ||| dep_skip_exact().contains(lower)
    ||| exists|k: int| 0 <= k < dep_skip_prefixes().len() && (#[trigger] dep_skip_prefixes()[k]).is_prefix_of(lower)
}

/// True if the dependency checks should not report `name` as missing.
/// `project_skip_packages` is the optional `skip_packages` list of the project configuration.
pub fn dep_should_skip_package(name: &str, project_skip_packages: Option<&[String]>) -> (r: bool)
    ensures
        r == spec_dep_should_skip(
            name@,
            match project_skip_packages {
                Some(s) => Some(str_views(s@)),
                None => None,
            },
        ),
{
    let v = chars_of(name);
    let lower = lower_chars(v.as_slice());
    let ghost ps = match project_skip_packages {
        Some(s) => Some(str_views(s@)),
        None => None::<Seq<Seq<char>>>,
    };
    if let Some(skip) = project_skip_packages {
        let mut i: usize = 0;
        while i < skip.len()
            invariant
                i <= skip@.len(),
                project_skip_packages == Some(skip),
                lower@ == lowercase(name@),
                forall|k: int| 0 <= k < i ==> lowercase(#[trigger] skip@[k]@) != lower@,
            decreases skip.len() - i,
        {
            let sv = chars_of(skip[i].as_str());
            let sl = lower_chars(sv.as_slice());
            if chars_eq(sl.as_slice(), lower.as_slice()) {
                assert(str_views(skip@)[i as int] == skip@[i as int]@);
                assert(lowercase(str_views(skip@)[i as int]) == lowercase(name@));
                assert(in_skip_list(str_views(skip@), lowercase(name@)));
                return true;
            }
            i += 1;
        }
        proof {
            assert forall|k: int| 0 <= k < str_views(skip@).len() implies lowercase(
                #[trigger] str_views(skip@)[k],
            ) != lower@ by {
                assert(str_views(skip@)[k] == skip@[k]@);
            }
        }
    }
    let exact = vec![
        "ament_cmake", "ament_cmake_core", "ament_cmake_python", "pkgconfig", "python3", "python",
        "eigen3", "eigen", "opencv", "qt5", "qt6", "boost", "bullet", "fcl", "octomap", "osqp",
        "opengl", "glew", "freeglut", "glut", "x11", "openmp", "core", "widgets",
    ];
    assert(lit_views(exact@) =~= dep_skip_exact());
    if list_contains(&exact, lower.as_slice()) {
        return true;
    }
    let prefixes = vec!["qt5", "qt6"];
    assert(lit_views(prefixes@) =~= dep_skip_prefixes());
    let r = list_has_prefix_of(&prefixes, lower.as_slice());
    proof {
        if r {
            let k = choose|k: int|
                0 <= k < prefixes@.len() && (#[trigger] prefixes@[k])@.is_prefix_of(lower@);
            assert(dep_skip_prefixes()[k] == prefixes@[k]@);
        } else {
            assert forall|k: int| 0 <= k < dep_skip_prefixes().len() implies !(
            #[trigger] dep_skip_prefixes()[k]).is_prefix_of(lower@) by {
                assert(dep_skip_prefixes()[k] == prefixes@[k]@);
            }
        }
    }
    r
}

} // verus!
