//! Dependency rules: find_package vs package.xml, ament_target_dependencies,
//! circular dependencies.

use vstd::prelude::*;
use crate::checks::model::{Finding, FindingSpec, Location, LocationSpec, Severity, finding_views};
use crate::graph::{dep_edge_pairs, dep_graph_nodes, dep_node_weight, dep_toposort, dep_toposort_outcome, has_cycle, on_cycle};
use crate::model::{Dependency, DependencyEdge, Package, Project, dep_views};
use petgraph::graph::DiGraph;
use crate::project_config::Babel42Config;
use crate::skip_config::{
    dep_should_skip_package, is_system_vendor_package, is_test_only_package, spec_dep_should_skip,
    system_vendor_packages, test_only_packages,
};
use crate::text::{
    chars_eq, chars_of, contains_str, contains_sub, lowercase, push_chars, push_str, str_views,
    string_of, trim, trim_chars,
};

verus! {

// =============================================================================
// What the rules report
// =============================================================================

/// The names that a package.xml declares, in any role.
pub open spec fn declared_names(deps: Seq<Dependency>) -> Seq<Seq<char>> {
    dep_views(deps).map_values(|d: (Seq<char>, crate::model::DependencyRole)| d.0)
}

/// A trimmed name that the rules pass over: empty, or a CMake variable (`$...`).
pub open spec fn is_blank_or_variable(t: Seq<char>) -> bool {
    t.len() == 0 || t[0] == '$'
}

/// The element that the fix hint suggests: `<test_depend>` for test-only packages.
pub open spec fn dep_tag(t: Seq<char>) -> Seq<char> {
    if test_only_packages().contains(lowercase(t)) {
        "test_depend"@
    } else {
        "depend"@
    }
}

/// System and vendor packages are reported as warnings, others as errors.
pub open spec fn dep_severity(t: Seq<char>) -> Severity {
    if system_vendor_packages().contains(lowercase(t)) {
        Severity::Warn
    } else {
        Severity::Error
    }
}

/// `Add <tag>name</tag> to package.xml`.
pub open spec fn dep_fix_hint(t: Seq<char>) -> Seq<char> {
    "Add <"@ + dep_tag(t) + ">"@ + t + "</"@ + dep_tag(t) + "> to package.xml"@
}

/// The location of a finding in a package's CMakeLists.txt.
pub open spec fn cmake_location(pkg: Seq<char>, context: Option<Seq<char>>) -> LocationSpec {
    LocationSpec { package: Some(pkg), file: Some("CMakeLists.txt"@), line: None, context }
}

/// `find_package(t)` in CMake without a matching package.xml dependency.
pub open spec fn find_package_missing_finding(pkg: Seq<char>, t: Seq<char>) -> FindingSpec {
    FindingSpec {
        rule_id: "dep/find_package_missing"@,
        severity: dep_severity(t),
        message: "find_package("@ + t + ") in CMake but not in package.xml"@,
        location: Some(cmake_location(pkg, None)),
        fix_hint: Some(dep_fix_hint(t)),
    }
}

/// `ament_target_dependencies(target ... t)` without a matching declaration.
pub open spec fn ament_target_undeclared_finding(
    pkg: Seq<char>,
    target: Seq<char>,
    t: Seq<char>,
) -> FindingSpec {
    FindingSpec {
        rule_id: "dep/ament_target_undeclared"@,
        severity: dep_severity(t),
        message: "ament_target_dependencies("@ + target + " ...) references '"@ + t
            + "' not in package.xml"@,
        location: Some(cmake_location(pkg, Some("target: "@ + target))),
        fix_hint: Some(dep_fix_hint(t)),
    }
}

/// The dependency graph has a cycle through package `name`.
pub open spec fn circular_finding(name: Seq<char>) -> FindingSpec {
    FindingSpec {
        rule_id: "dep/circular"@,
        severity: Severity::Error,
        message: "Circular dependency in package graph (involving '"@ + name + "')"@,
        location: Some(LocationSpec { package: Some(name), file: None, line: None, context: None }),
        fix_hint: Some("Remove circular dependency between packages"@),
    }
}

/// Findings for the `find_package` names of one package, in order.
pub open spec fn find_package_findings(
    pkg: Seq<char>,
    declared: Seq<Seq<char>>,
    fps: Seq<Seq<char>>,
    skip: Option<Seq<Seq<char>>>,
) -> Seq<FindingSpec>
    decreases fps.len(),
{
    if fps.len() == 0 {
        Seq::empty()
    } else {
        let rest = find_package_findings(pkg, declared, fps.drop_last(), skip);
        let t = trim(fps.last());
        if is_blank_or_variable(t) || spec_dep_should_skip(t, skip) || declared.contains(t) {
            rest
        } else {
            rest.push(find_package_missing_finding(pkg, t))
        }
    }
}

/// Some `find_package` name, trimmed, is `t`.
pub open spec fn found_by_find_package(fps: Seq<Seq<char>>, t: Seq<char>) -> bool {
    exists|k: int| 0 <= k < fps.len() && trim(#[trigger] fps[k]) == t
}

/// Findings for the dependencies of one `ament_target_dependencies` target.
pub open spec fn target_dep_findings(
    pkg: Seq<char>,
    declared: Seq<Seq<char>>,
    fps: Seq<Seq<char>>,
    target: Seq<char>,
    deps: Seq<Seq<char>>,
    skip: Option<Seq<Seq<char>>>,
) -> Seq<FindingSpec>
    decreases deps.len(),
{
    if deps.len() == 0 {
        Seq::empty()
    } else {
        let rest = target_dep_findings(pkg, declared, fps, target, deps.drop_last(), skip);
        let t = trim(deps.last());
        if is_blank_or_variable(t) || contains_sub(t, "${"@) || spec_dep_should_skip(t, skip)
            || declared.contains(t) || found_by_find_package(fps, t) {
            rest
        } else {
            rest.push(ament_target_undeclared_finding(pkg, target, t))
        }
    }
}

/// Findings for all `ament_target_dependencies` targets of one package.
pub open spec fn ament_target_findings(
    pkg: Seq<char>,
    declared: Seq<Seq<char>>,
    fps: Seq<Seq<char>>,
    atd: Seq<(Seq<char>, Seq<Seq<char>>)>,
    skip: Option<Seq<Seq<char>>>,
) -> Seq<FindingSpec>
    decreases atd.len(),
{
    if atd.len() == 0 {
        Seq::empty()
    } else {
        ament_target_findings(pkg, declared, fps, atd.drop_last(), skip) + target_dep_findings(
            pkg,
            declared,
            fps,
            atd.last().0,
            atd.last().1,
            skip,
        )
    }
}

/// The CMake-against-manifest findings of one package (none without CMake information).
pub open spec fn package_dep_findings(p: Package, skip: Option<Seq<Seq<char>>>) -> Seq<FindingSpec> {
    match p.cmake_info {
        Some(c) => {
            let name = p.manifest.name@;
            let declared = declared_names(p.manifest.dependencies@);
            find_package_findings(name, declared, c@.find_package, skip) + ament_target_findings(
                name,
                declared,
                c@.find_package,
                c@.ament_target_deps,
                skip,
            )
        },
        None => Seq::empty(),
    }
}

/// The CMake-against-manifest findings of the packages, package by package.
pub open spec fn dep_findings(pkgs: Seq<Package>, skip: Option<Seq<Seq<char>>>) -> Seq<FindingSpec>
    decreases pkgs.len(),
{
    if pkgs.len() == 0 {
        Seq::empty()
    } else {
        dep_findings(pkgs.drop_last(), skip) + package_dep_findings(pkgs.last(), skip)
    }
}

// =============================================================================
// Skip lists only take findings away
// =============================================================================

proof fn lemma_contains_push<A>(s: Seq<A>, x: A, f: A)
    ensures
        s.push(x).contains(f) == (s.contains(f) || f == x),
{
    if s.push(x).contains(f) {
        let i = choose|i: int| 0 <= i < s.push(x).len() && s.push(x)[i] == f;
        if i < s.len() {
            assert(s[i] == f);
        }
    }
    if s.contains(f) {
        let i = choose|i: int| 0 <= i < s.len() && s[i] == f;
        assert(s.push(x)[i] == f);
    }
    if f == x {
        assert(s.push(x)[s.len() as int] == x);
    }
}

proof fn lemma_contains_add<A>(a: Seq<A>, b: Seq<A>, f: A)
    ensures
        (a + b).contains(f) == (a.contains(f) || b.contains(f)),
{
    if (a + b).contains(f) {
        let i = choose|i: int| 0 <= i < (a + b).len() && (a + b)[i] == f;
        if i < a.len() {
            assert(a[i] == f);
        } else {
            assert(b[i - a.len()] == f);
        }
    }
    if a.contains(f) {
        let i = choose|i: int| 0 <= i < a.len() && a[i] == f;
        assert((a + b)[i] == f);
    }
    if b.contains(f) {
        let i = choose|i: int| 0 <= i < b.len() && b[i] == f;
        assert((a + b)[a.len() + i] == f);
    }
}

proof fn lemma_fp_skip(
    pkg: Seq<char>,
    declared: Seq<Seq<char>>,
    fps: Seq<Seq<char>>,
    skip: Seq<Seq<char>>,
    f: FindingSpec,
)
    requires
        find_package_findings(pkg, declared, fps, Some(skip)).contains(f),
    ensures
        find_package_findings(pkg, declared, fps, None).contains(f),
    decreases fps.len(),
{
    if fps.len() > 0 {
        let t = trim(fps.last());
        let a = find_package_findings(pkg, declared, fps.drop_last(), Some(skip));
        let b = find_package_findings(pkg, declared, fps.drop_last(), None);
        let x = find_package_missing_finding(pkg, t);
        lemma_contains_push(a, x, f);
        lemma_contains_push(b, x, f);
        if a.contains(f) {
            lemma_fp_skip(pkg, declared, fps.drop_last(), skip, f);
        }
    }
}

proof fn lemma_target_skip(
    pkg: Seq<char>,
    declared: Seq<Seq<char>>,
    fps: Seq<Seq<char>>,
    target: Seq<char>,
    deps: Seq<Seq<char>>,
    skip: Seq<Seq<char>>,
    f: FindingSpec,
)
    requires
        target_dep_findings(pkg, declared, fps, target, deps, Some(skip)).contains(f),
    ensures
        target_dep_findings(pkg, declared, fps, target, deps, None).contains(f),
    decreases deps.len(),
{
    if deps.len() > 0 {
        let t = trim(deps.last());
        let a = target_dep_findings(pkg, declared, fps, target, deps.drop_last(), Some(skip));
        let b = target_dep_findings(pkg, declared, fps, target, deps.drop_last(), None);
        let x = ament_target_undeclared_finding(pkg, target, t);
        lemma_contains_push(a, x, f);
        lemma_contains_push(b, x, f);
        if a.contains(f) {
            lemma_target_skip(pkg, declared, fps, target, deps.drop_last(), skip, f);
        }
    }
}

proof fn lemma_ament_skip(
    pkg: Seq<char>,
    declared: Seq<Seq<char>>,
    fps: Seq<Seq<char>>,
    atd: Seq<(Seq<char>, Seq<Seq<char>>)>,
    skip: Seq<Seq<char>>,
    f: FindingSpec,
)
    requires
        ament_target_findings(pkg, declared, fps, atd, Some(skip)).contains(f),
    ensures
        ament_target_findings(pkg, declared, fps, atd, None).contains(f),
    decreases atd.len(),
{
    if atd.len() > 0 {
        let a1 = ament_target_findings(pkg, declared, fps, atd.drop_last(), Some(skip));
        let a2 = target_dep_findings(pkg, declared, fps, atd.last().0, atd.last().1, Some(skip));
        let b1 = ament_target_findings(pkg, declared, fps, atd.drop_last(), None);
        let b2 = target_dep_findings(pkg, declared, fps, atd.last().0, atd.last().1, None);
        lemma_contains_add(a1, a2, f);
        lemma_contains_add(b1, b2, f);
        if a1.contains(f) {
            lemma_ament_skip(pkg, declared, fps, atd.drop_last(), skip, f);
        } else {
            lemma_target_skip(pkg, declared, fps, atd.last().0, atd.last().1, skip, f);
        }
    }
}

/// A project's skip list only takes findings away: every finding of the
/// package-by-package dependency rules under a skip list is also a finding of
/// the rules without one.
pub proof fn lemma_skip_only_removes(pkgs: Seq<Package>, skip: Seq<Seq<char>>)
    ensures
        forall|f: FindingSpec| #[trigger]
            dep_findings(pkgs, Some(skip)).contains(f) ==> dep_findings(pkgs, None).contains(f),
    decreases pkgs.len(),
{
    if pkgs.len() > 0 {
        lemma_skip_only_removes(pkgs.drop_last(), skip);
        let p = pkgs.last();
        assert forall|f: FindingSpec| #[trigger]
            dep_findings(pkgs, Some(skip)).contains(f) implies dep_findings(pkgs, None).contains(f) by {
            let a1 = dep_findings(pkgs.drop_last(), Some(skip));
            let a2 = package_dep_findings(p, Some(skip));
            let b1 = dep_findings(pkgs.drop_last(), None);
            let b2 = package_dep_findings(p, None);
            lemma_contains_add(a1, a2, f);
            lemma_contains_add(b1, b2, f);
            if !a1.contains(f) {
                match p.cmake_info {
                    Some(c) => {
                        let name = p.manifest.name@;
                        let declared = declared_names(p.manifest.dependencies@);
                        let x1 = find_package_findings(name, declared, c@.find_package, Some(skip));
                        let x2 = ament_target_findings(name, declared, c@.find_package, c@.ament_target_deps, Some(skip));
                        let y1 = find_package_findings(name, declared, c@.find_package, None);
                        let y2 = ament_target_findings(name, declared, c@.find_package, c@.ament_target_deps, None);
                        lemma_contains_add(x1, x2, f);
                        lemma_contains_add(y1, y2, f);
                        if x1.contains(f) {
                            lemma_fp_skip(name, declared, c@.find_package, skip, f);
                        } else {
                            lemma_ament_skip(name, declared, c@.find_package, c@.ament_target_deps, skip, f);
                        }
                    },
                    None => {},
                }
            }
        }
    }
}

proof fn lemma_fp_finding_names(p1: Seq<char>, t1: Seq<char>, p2: Seq<char>, t2: Seq<char>)
    requires
        find_package_missing_finding(p1, t1) == find_package_missing_finding(p2, t2),
    ensures
        t1 == t2,
{
    let pre = "find_package("@;
    let suf = ") in CMake but not in package.xml"@;
    let m1 = find_package_missing_finding(p1, t1).message;
    let m2 = find_package_missing_finding(p2, t2).message;
    assert(m1.len() == m2.len());
    assert(t1 =~= m1.subrange(pre.len() as int, (pre.len() + t1.len()) as int));
    assert(t2 =~= m2.subrange(pre.len() as int, (pre.len() + t2.len()) as int));
}

proof fn lemma_fp_message_names(t1: Seq<char>, t2: Seq<char>)
    requires
        "find_package("@ + t1 + ") in CMake but not in package.xml"@ == "find_package("@ + t2
            + ") in CMake but not in package.xml"@,
    ensures
        t1 == t2,
{
    let pre = "find_package("@;
    let m1 = "find_package("@ + t1 + ") in CMake but not in package.xml"@;
    let m2 = "find_package("@ + t2 + ") in CMake but not in package.xml"@;
    assert(m1.len() == m2.len());
    assert(t1 =~= m1.subrange(pre.len() as int, (pre.len() + t1.len()) as int));
    assert(t2 =~= m2.subrange(pre.len() as int, (pre.len() + t2.len()) as int));
}

proof fn lemma_target_finding_names(
    p1: Seq<char>,
    g1: Seq<char>,
    t1: Seq<char>,
    p2: Seq<char>,
    g2: Seq<char>,
    t2: Seq<char>,
)
    requires
        ament_target_undeclared_finding(p1, g1, t1) == ament_target_undeclared_finding(p2, g2, t2),
    ensures
        t1 == t2,
{
    let c1 = "target: "@ + g1;
    let c2 = "target: "@ + g2;
    assert(c1 == c2);
    let k = "target: "@.len() as int;
    assert(g1 =~= c1.subrange(k, c1.len() as int));
    assert(g2 =~= c2.subrange(k, c2.len() as int));
    let pre = "ament_target_dependencies("@ + g1 + " ...) references '"@;
    let m1 = ament_target_undeclared_finding(p1, g1, t1).message;
    let m2 = ament_target_undeclared_finding(p2, g2, t2).message;
    assert(m1 =~= pre + t1 + "' not in package.xml"@);
    assert(m2 =~= pre + t2 + "' not in package.xml"@);
    assert(m1.len() == m2.len());
    assert(t1 =~= m1.subrange(pre.len() as int, (pre.len() + t1.len()) as int));
    assert(t2 =~= m2.subrange(pre.len() as int, (pre.len() + t2.len()) as int));
}

proof fn lemma_rule_ids_differ()
    ensures
        "dep/find_package_missing"@ != "dep/ament_target_undeclared"@,
{
    reveal_strlit("dep/find_package_missing");
    reveal_strlit("dep/ament_target_undeclared");
    assert("dep/find_package_missing"@.len() != "dep/ament_target_undeclared"@.len());
}

proof fn lemma_fp_skipped(
    pkg0: Seq<char>,
    declared: Seq<Seq<char>>,
    fps: Seq<Seq<char>>,
    skip: Seq<Seq<char>>,
    pkg: Seq<char>,
    target: Seq<char>,
    t: Seq<char>,
)
    requires
        spec_dep_should_skip(t, Some(skip)),
    ensures
        !find_package_findings(pkg0, declared, fps, Some(skip)).contains(
            find_package_missing_finding(pkg, t),
        ),
        !find_package_findings(pkg0, declared, fps, Some(skip)).contains(
            ament_target_undeclared_finding(pkg, target, t),
        ),
    decreases fps.len(),
{
    if fps.len() > 0 {
        lemma_fp_skipped(pkg0, declared, fps.drop_last(), skip, pkg, target, t);
        lemma_rule_ids_differ();
        let t0 = trim(fps.last());
        let a = find_package_findings(pkg0, declared, fps.drop_last(), Some(skip));
        let x = find_package_missing_finding(pkg0, t0);
        lemma_contains_push(a, x, find_package_missing_finding(pkg, t));
        lemma_contains_push(a, x, ament_target_undeclared_finding(pkg, target, t));
        if x == find_package_missing_finding(pkg, t) {
            lemma_fp_finding_names(pkg0, t0, pkg, t);
        }
    }
}

proof fn lemma_target_skipped(
    pkg0: Seq<char>,
    declared: Seq<Seq<char>>,
    fps: Seq<Seq<char>>,
    target0: Seq<char>,
    deps: Seq<Seq<char>>,
    skip: Seq<Seq<char>>,
    pkg: Seq<char>,
    target: Seq<char>,
    t: Seq<char>,
)
    requires
        spec_dep_should_skip(t, Some(skip)),
    ensures
        !target_dep_findings(pkg0, declared, fps, target0, deps, Some(skip)).contains(
            find_package_missing_finding(pkg, t),
        ),
        !target_dep_findings(pkg0, declared, fps, target0, deps, Some(skip)).contains(
            ament_target_undeclared_finding(pkg, target, t),
        ),
    decreases deps.len(),
{
    if deps.len() > 0 {
        lemma_target_skipped(pkg0, declared, fps, target0, deps.drop_last(), skip, pkg, target, t);
        lemma_rule_ids_differ();
        let t0 = trim(deps.last());
        let a = target_dep_findings(pkg0, declared, fps, target0, deps.drop_last(), Some(skip));
        let x = ament_target_undeclared_finding(pkg0, target0, t0);
        lemma_contains_push(a, x, find_package_missing_finding(pkg, t));
        lemma_contains_push(a, x, ament_target_undeclared_finding(pkg, target, t));
        if x == ament_target_undeclared_finding(pkg, target, t) {
            lemma_target_finding_names(pkg0, target0, t0, pkg, target, t);
        }
    }
}

proof fn lemma_ament_skipped(
    pkg0: Seq<char>,
    declared: Seq<Seq<char>>,
    fps: Seq<Seq<char>>,
    atd: Seq<(Seq<char>, Seq<Seq<char>>)>,
    skip: Seq<Seq<char>>,
    pkg: Seq<char>,
    target: Seq<char>,
    t: Seq<char>,
)
    requires
        spec_dep_should_skip(t, Some(skip)),
    ensures
        !ament_target_findings(pkg0, declared, fps, atd, Some(skip)).contains(
            find_package_missing_finding(pkg, t),
        ),
        !ament_target_findings(pkg0, declared, fps, atd, Some(skip)).contains(
            ament_target_undeclared_finding(pkg, target, t),
        ),
    decreases atd.len(),
{
    if atd.len() > 0 {
        lemma_ament_skipped(pkg0, declared, fps, atd.drop_last(), skip, pkg, target, t);
        lemma_target_skipped(pkg0, declared, fps, atd.last().0, atd.last().1, skip, pkg, target, t);
        let a1 = ament_target_findings(pkg0, declared, fps, atd.drop_last(), Some(skip));
        let a2 = target_dep_findings(pkg0, declared, fps, atd.last().0, atd.last().1, Some(skip));
        lemma_contains_add(a1, a2, find_package_missing_finding(pkg, t));
        lemma_contains_add(a1, a2, ament_target_undeclared_finding(pkg, target, t));
    }
}

/// A name that the dependency rules skip (by the fixed lists or the project's
/// skip list) is never reported: no `find_package` finding and no
/// `ament_target_dependencies` finding names it, in any package.
pub proof fn lemma_skipped_never_reported(
    pkgs: Seq<Package>,
    skip: Seq<Seq<char>>,
    pkg: Seq<char>,
    target: Seq<char>,
    t: Seq<char>,
)
    requires
        spec_dep_should_skip(t, Some(skip)),
    ensures
        !dep_findings(pkgs, Some(skip)).contains(find_package_missing_finding(pkg, t)),
        !dep_findings(pkgs, Some(skip)).contains(ament_target_undeclared_finding(pkg, target, t)),
    decreases pkgs.len(),
{
    if pkgs.len() > 0 {
        lemma_skipped_never_reported(pkgs.drop_last(), skip, pkg, target, t);
        let p = pkgs.last();
        let f1 = find_package_missing_finding(pkg, t);
        let f2 = ament_target_undeclared_finding(pkg, target, t);
        let a1 = dep_findings(pkgs.drop_last(), Some(skip));
        let a2 = package_dep_findings(p, Some(skip));
        lemma_contains_add(a1, a2, f1);
        lemma_contains_add(a1, a2, f2);
        match p.cmake_info {
            Some(c) => {
                let name = p.manifest.name@;
                let declared = declared_names(p.manifest.dependencies@);
                let x1 = find_package_findings(name, declared, c@.find_package, Some(skip));
                let x2 = ament_target_findings(name, declared, c@.find_package, c@.ament_target_deps, Some(skip));
                lemma_fp_skipped(name, declared, c@.find_package, skip, pkg, target, t);
                lemma_ament_skipped(name, declared, c@.find_package, c@.ament_target_deps, skip, pkg, target, t);
                lemma_contains_add(x1, x2, f1);
                lemma_contains_add(x1, x2, f2);
            },
            None => {},
        }
    }
}

// =============================================================================
// Only undeclared find_package names are reported
// =============================================================================

proof fn lemma_fp_sound(
    pkg: Seq<char>,
    declared: Seq<Seq<char>>,
    fps: Seq<Seq<char>>,
    skip: Option<Seq<Seq<char>>>,
    f: FindingSpec,
)
    requires
        find_package_findings(pkg, declared, fps, skip).contains(f),
    ensures
        exists|k: int|
            0 <= k < fps.len() && f == find_package_missing_finding(pkg, trim(#[trigger] fps[k]))
                && !declared.contains(trim(fps[k])),
    decreases fps.len(),
{
    if fps.len() > 0 {
        let k = fps.len() - 1;
        let t = trim(fps.last());
        let a = find_package_findings(pkg, declared, fps.drop_last(), skip);
        let x = find_package_missing_finding(pkg, t);
        lemma_contains_push(a, x, f);
        assert(fps[k] == fps.last());
        if a.contains(f) {
            lemma_fp_sound(pkg, declared, fps.drop_last(), skip, f);
            let j = choose|j: int|
                0 <= j < fps.drop_last().len() && f == find_package_missing_finding(
                    pkg,
                    trim(#[trigger] fps.drop_last()[j]),
                ) && !declared.contains(trim(fps.drop_last()[j]));
            assert(fps[j] == fps.drop_last()[j]);
        }
    }
}

proof fn lemma_target_rule(
    pkg: Seq<char>,
    declared: Seq<Seq<char>>,
    fps: Seq<Seq<char>>,
    target: Seq<char>,
    deps: Seq<Seq<char>>,
    skip: Option<Seq<Seq<char>>>,
    f: FindingSpec,
)
    requires
        target_dep_findings(pkg, declared, fps, target, deps, skip).contains(f),
    ensures
        f.rule_id == "dep/ament_target_undeclared"@,
    decreases deps.len(),
{
    if deps.len() > 0 {
        let t = trim(deps.last());
        let a = target_dep_findings(pkg, declared, fps, target, deps.drop_last(), skip);
        lemma_contains_push(a, ament_target_undeclared_finding(pkg, target, t), f);
        if a.contains(f) {
            lemma_target_rule(pkg, declared, fps, target, deps.drop_last(), skip, f);
        }
    }
}

proof fn lemma_ament_rule(
    pkg: Seq<char>,
    declared: Seq<Seq<char>>,
    fps: Seq<Seq<char>>,
    atd: Seq<(Seq<char>, Seq<Seq<char>>)>,
    skip: Option<Seq<Seq<char>>>,
    f: FindingSpec,
)
    requires
        ament_target_findings(pkg, declared, fps, atd, skip).contains(f),
    ensures
        f.rule_id == "dep/ament_target_undeclared"@,
    decreases atd.len(),
{
    if atd.len() > 0 {
        let a1 = ament_target_findings(pkg, declared, fps, atd.drop_last(), skip);
        let a2 = target_dep_findings(pkg, declared, fps, atd.last().0, atd.last().1, skip);
        lemma_contains_add(a1, a2, f);
        if a1.contains(f) {
            lemma_ament_rule(pkg, declared, fps, atd.drop_last(), skip, f);
        } else {
            lemma_target_rule(pkg, declared, fps, atd.last().0, atd.last().1, skip, f);
        }
    }
}

/// A `dep/find_package_missing` finding among a package's findings names one
/// of its `find_package` entries (trimmed) that the manifest declares no
/// dependency of, in any role.
proof fn lemma_package_fp_sound(p: Package, skip: Option<Seq<Seq<char>>>, f: FindingSpec)
    requires
        package_dep_findings(p, skip).contains(f),
        f.rule_id == "dep/find_package_missing"@,
    ensures
        p.cmake_info is Some,
        exists|k: int|
            #![trigger p.cmake_info.unwrap()@.find_package[k]]
            0 <= k < p.cmake_info.unwrap()@.find_package.len() && f.message == "find_package("@ + trim(
                p.cmake_info.unwrap()@.find_package[k],
            ) + ") in CMake but not in package.xml"@ && f.location == Some(
                LocationSpec {
                    package: Some(p.manifest.name@),
                    file: Some("CMakeLists.txt"@),
                    line: None,
                    context: None,
                },
            ) && forall|j: int|
                0 <= j < p.manifest.dependencies@.len() ==> (#[trigger] p.manifest.dependencies@[j]).name@
                    != trim(p.cmake_info.unwrap()@.find_package[k]),
{
    let c = p.cmake_info.unwrap();
    let name = p.manifest.name@;
    let deps = p.manifest.dependencies@;
    let declared = declared_names(deps);
    let fps = c@.find_package;
    let x1 = find_package_findings(name, declared, fps, skip);
    let x2 = ament_target_findings(name, declared, fps, c@.ament_target_deps, skip);
    lemma_contains_add(x1, x2, f);
    if x2.contains(f) {
        lemma_ament_rule(name, declared, fps, c@.ament_target_deps, skip, f);
        lemma_rule_ids_differ();
    }
    lemma_fp_sound(name, declared, fps, skip, f);
    let k = choose|k: int|
        0 <= k < fps.len() && f == find_package_missing_finding(name, trim(#[trigger] fps[k]))
            && !declared.contains(trim(fps[k]));
    assert forall|j: int| 0 <= j < deps.len() implies (#[trigger] deps[j]).name@ != trim(fps[k]) by {
        assert(declared[j] == deps[j].name@);
    }
}

/// The dependency rules report a `find_package` name as missing only where
/// the package's manifest does not declare it: every `dep/find_package_missing`
/// finding is located at a package's CMakeLists.txt and names one of that
/// package's `find_package` entries (trimmed) that no dependency of its
/// manifest, in any role, has as its name.
pub proof fn lemma_find_package_missing_only_undeclared(
    project: &Project,
    skip: Option<Seq<Seq<char>>>,
    f: FindingSpec,
)
    requires
        dep_check_findings(project, skip).contains(f),
        f.rule_id == "dep/find_package_missing"@,
    ensures
        exists|i: int, k: int|
            #![trigger project.packages@[i].cmake_info.unwrap()@.find_package[k]]
            0 <= i < project.packages@.len() && project.packages@[i].cmake_info is Some && 0 <= k
                < project.packages@[i].cmake_info.unwrap()@.find_package.len() && f.message
                == "find_package("@ + trim(project.packages@[i].cmake_info.unwrap()@.find_package[k])
                + ") in CMake but not in package.xml"@ && f.location == Some(
                LocationSpec {
                    package: Some(project.packages@[i].manifest.name@),
                    file: Some("CMakeLists.txt"@),
                    line: None,
                    context: None,
                },
            ) && forall|j: int|
                0 <= j < project.packages@[i].manifest.dependencies@.len()
                    ==> (#[trigger] project.packages@[i].manifest.dependencies@[j]).name@ != trim(
                    project.packages@[i].cmake_info.unwrap()@.find_package[k],
                ),
{
    let pkgs = project.packages@;
    let base = dep_findings(pkgs, skip);
    let circ = circular_findings(project.dependency_graph);
    lemma_contains_add(base, circ, f);
    if circ.contains(f) {
        reveal_strlit("dep/circular");
        reveal_strlit("dep/find_package_missing");
        assert(f.rule_id.len() != "dep/find_package_missing"@.len());
    }
    lemma_dep_findings_fp_sound(pkgs, skip, f);
}

proof fn lemma_dep_findings_fp_sound(pkgs: Seq<Package>, skip: Option<Seq<Seq<char>>>, f: FindingSpec)
    requires
        dep_findings(pkgs, skip).contains(f),
        f.rule_id == "dep/find_package_missing"@,
    ensures
        exists|i: int, k: int|
            #![trigger pkgs[i].cmake_info.unwrap()@.find_package[k]]
            0 <= i < pkgs.len() && pkgs[i].cmake_info is Some && 0 <= k
                < pkgs[i].cmake_info.unwrap()@.find_package.len() && f.message
                == "find_package("@ + trim(pkgs[i].cmake_info.unwrap()@.find_package[k])
                + ") in CMake but not in package.xml"@ && f.location == Some(
                LocationSpec {
                    package: Some(pkgs[i].manifest.name@),
                    file: Some("CMakeLists.txt"@),
                    line: None,
                    context: None,
                },
            ) && forall|j: int|
                0 <= j < pkgs[i].manifest.dependencies@.len()
                    ==> (#[trigger] pkgs[i].manifest.dependencies@[j]).name@ != trim(
                    pkgs[i].cmake_info.unwrap()@.find_package[k],
                ),
    decreases pkgs.len(),
{
    if pkgs.len() > 0 {
        let i = pkgs.len() - 1;
        let a1 = dep_findings(pkgs.drop_last(), skip);
        let a2 = package_dep_findings(pkgs.last(), skip);
        lemma_contains_add(a1, a2, f);
        if a1.contains(f) {
            lemma_dep_findings_fp_sound(pkgs.drop_last(), skip, f);
            let (i0, k0) = choose|i: int, k: int|
                #![trigger pkgs.drop_last()[i].cmake_info.unwrap()@.find_package[k]]
                0 <= i < pkgs.drop_last().len() && pkgs.drop_last()[i].cmake_info is Some && 0 <= k
                    < pkgs.drop_last()[i].cmake_info.unwrap()@.find_package.len() && f.message
                    == "find_package("@ + trim(pkgs.drop_last()[i].cmake_info.unwrap()@.find_package[k])
                    + ") in CMake but not in package.xml"@ && f.location == Some(
                    LocationSpec {
                        package: Some(pkgs.drop_last()[i].manifest.name@),
                        file: Some("CMakeLists.txt"@),
                        line: None,
                        context: None,
                    },
                ) && forall|j: int|
                    0 <= j < pkgs.drop_last()[i].manifest.dependencies@.len()
                        ==> (#[trigger] pkgs.drop_last()[i].manifest.dependencies@[j]).name@ != trim(
                        pkgs.drop_last()[i].cmake_info.unwrap()@.find_package[k],
                    );
            assert(pkgs[i0] == pkgs.drop_last()[i0]);
            assert(pkgs[i0].cmake_info.unwrap()@.find_package[k0] == pkgs.drop_last()[i0].cmake_info.unwrap()@.find_package[k0]);
        } else {
            lemma_package_fp_sound(pkgs.last(), skip, f);
            assert(pkgs[i] == pkgs.last());
            let p = pkgs.last();
            let k0 = choose|k: int|
                #![trigger p.cmake_info.unwrap()@.find_package[k]]
                0 <= k < p.cmake_info.unwrap()@.find_package.len() && f.message == "find_package("@ + trim(
                    p.cmake_info.unwrap()@.find_package[k],
                ) + ") in CMake but not in package.xml"@ && f.location == Some(
                    LocationSpec {
                        package: Some(p.manifest.name@),
                        file: Some("CMakeLists.txt"@),
                        line: None,
                        context: None,
                    },
                ) && forall|j: int|
                    0 <= j < p.manifest.dependencies@.len() ==> (#[trigger] p.manifest.dependencies@[j]).name@
                        != trim(p.cmake_info.unwrap()@.find_package[k]);
            assert(pkgs[i].cmake_info.unwrap()@.find_package[k0] == p.cmake_info.unwrap()@.find_package[k0]);
        }
    }
}

/// A `find_package` name that the package's manifest declares, as the name of
/// a dependency in any role, is never reported missing for that package.
pub proof fn lemma_declared_find_package_not_reported(
    p: Package,
    skip: Option<Seq<Seq<char>>>,
    t: Seq<char>,
    j: int,
)
    requires
        0 <= j < p.manifest.dependencies@.len(),
        p.manifest.dependencies@[j].name@ == t,
    ensures
        forall|k: int|
            0 <= k < package_dep_findings(p, skip).len() ==> !((#[trigger] package_dep_findings(p, skip)[k]).rule_id
                == "dep/find_package_missing"@ && package_dep_findings(p, skip)[k].message == "find_package("@ + t
                + ") in CMake but not in package.xml"@),
{
    assert forall|k: int|
        0 <= k < package_dep_findings(p, skip).len() implies !((#[trigger] package_dep_findings(p, skip)[k]).rule_id
            == "dep/find_package_missing"@ && package_dep_findings(p, skip)[k].message == "find_package("@ + t
            + ") in CMake but not in package.xml"@) by {
        let f = package_dep_findings(p, skip)[k];
        if f.rule_id == "dep/find_package_missing"@ && f.message == "find_package("@ + t
            + ") in CMake but not in package.xml"@ {
            lemma_package_fp_sound(p, skip, f);
            let fps = p.cmake_info.unwrap()@.find_package;
            let k0 = choose|k0: int|
                #![trigger p.cmake_info.unwrap()@.find_package[k0]]
                0 <= k0 < fps.len() && f.message == "find_package("@ + trim(
                    p.cmake_info.unwrap()@.find_package[k0],
                ) + ") in CMake but not in package.xml"@ && f.location == Some(
                    LocationSpec {
                        package: Some(p.manifest.name@),
                        file: Some("CMakeLists.txt"@),
                        line: None,
                        context: None,
                    },
                ) && forall|j: int|
                    0 <= j < p.manifest.dependencies@.len() ==> (#[trigger] p.manifest.dependencies@[j]).name@
                        != trim(p.cmake_info.unwrap()@.find_package[k0]);
            let u = trim(fps[k0]);
            lemma_fp_message_names(u, t);
            assert(p.manifest.dependencies@[j].name@ != u);
        }
    }
}

proof fn lemma_fp_complete(
    pkg: Seq<char>,
    declared: Seq<Seq<char>>,
    fps: Seq<Seq<char>>,
    skip: Option<Seq<Seq<char>>>,
    k: int,
)
    requires
        0 <= k < fps.len(),
        !is_blank_or_variable(trim(fps[k])),
        !spec_dep_should_skip(trim(fps[k]), skip),
        !declared.contains(trim(fps[k])),
    ensures
        find_package_findings(pkg, declared, fps, skip).contains(
            find_package_missing_finding(pkg, trim(fps[k])),
        ),
    decreases fps.len(),
{
    let x = find_package_missing_finding(pkg, trim(fps[k]));
    let a = find_package_findings(pkg, declared, fps.drop_last(), skip);
    let t = trim(fps.last());
    lemma_contains_push(a, find_package_missing_finding(pkg, t), x);
    if k < fps.len() - 1 {
        assert(fps.drop_last()[k] == fps[k]);
        lemma_fp_complete(pkg, declared, fps.drop_last(), skip, k);
    } else {
        assert(fps[k] == fps.last());
    }
}

/// Every `find_package` name of a package (trimmed) that is neither empty nor
/// a CMake variable, that the dependency rules do not skip, and that no
/// dependency of the package's manifest has as its name, in any role, is
/// reported: the package's findings hold a `dep/find_package_missing` finding
/// for it at its CMakeLists.txt.
pub proof fn lemma_undeclared_find_package_reported(p: Package, skip: Option<Seq<Seq<char>>>, k: int)
    requires
        p.cmake_info is Some,
        0 <= k < p.cmake_info.unwrap()@.find_package.len(),
        trim(p.cmake_info.unwrap()@.find_package[k]).len() > 0,
        trim(p.cmake_info.unwrap()@.find_package[k])[0] != '$',
        !spec_dep_should_skip(trim(p.cmake_info.unwrap()@.find_package[k]), skip),
        forall|j: int|
            0 <= j < p.manifest.dependencies@.len() ==> (#[trigger] p.manifest.dependencies@[j]).name@
                != trim(p.cmake_info.unwrap()@.find_package[k]),
    ensures
        exists|i: int|
            0 <= i < package_dep_findings(p, skip).len() && (#[trigger] package_dep_findings(p, skip)[i]).rule_id
                == "dep/find_package_missing"@ && package_dep_findings(p, skip)[i].message == "find_package("@
                + trim(p.cmake_info.unwrap()@.find_package[k]) + ") in CMake but not in package.xml"@
                && package_dep_findings(p, skip)[i].location == Some(
                LocationSpec {
                    package: Some(p.manifest.name@),
                    file: Some("CMakeLists.txt"@),
                    line: None,
                    context: None,
                },
            ),
{
    let c = p.cmake_info.unwrap();
    let name = p.manifest.name@;
    let deps = p.manifest.dependencies@;
    let declared = declared_names(deps);
    let fps = c@.find_package;
    let t = trim(fps[k]);
    if declared.contains(t) {
        let j = choose|j: int| 0 <= j < declared.len() && declared[j] == t;
        assert(deps[j].name@ == declared[j]);
    }
    lemma_fp_complete(name, declared, fps, skip, k);
    let x = find_package_missing_finding(name, t);
    let x1 = find_package_findings(name, declared, fps, skip);
    let x2 = ament_target_findings(name, declared, fps, c@.ament_target_deps, skip);
    lemma_contains_add(x1, x2, x);
    let i = choose|i: int| 0 <= i < package_dep_findings(p, skip).len() && package_dep_findings(p, skip)[i] == x;
    assert(package_dep_findings(p, skip)[i] == x);
}

/// The `skip_packages` of an optional configuration.
pub open spec fn config_skip(config: Option<&Babel42Config>) -> Option<Seq<Seq<char>>> {
    match config {
        Some(c) => Some(str_views(c.skip_packages@)),
        None => None,
    }
}

// =============================================================================
// Building the findings
// =============================================================================

/// Whether `t` is one of the declared names.
fn declares(deps: &Vec<Dependency>, t: &[char]) -> (r: bool)
    ensures
        r == declared_names(deps@).contains(t@),
{
    let mut i: usize = 0;
    while i < deps.len()
        invariant
            i <= deps@.len(),
            forall|k: int| 0 <= k < i ==> (#[trigger] deps@[k]).name@ != t@,
        decreases deps.len() - i,
    {
        let n = chars_of(deps[i].name.as_str());
        if chars_eq(n.as_slice(), t) {
            assert(declared_names(deps@)[i as int] == t@);
            return true;
        }
        i += 1;
    }
    proof {
        if declared_names(deps@).contains(t@) {
            let k = choose|k: int|
                0 <= k < declared_names(deps@).len() && declared_names(deps@)[k] == t@;
            assert(deps@[k].name@ == t@);
        }
    }
    false
}

/// Whether some `find_package` name, trimmed, is `t`.
fn found_in(fps: &Vec<String>, t: &[char]) -> (r: bool)
    ensures
        r == found_by_find_package(str_views(fps@), t@),
{
    let mut i: usize = 0;
    while i < fps.len()
        invariant
            i <= fps@.len(),
            forall|k: int| 0 <= k < i ==> trim((#[trigger] fps@[k])@) != t@,
        decreases fps.len() - i,
    {
        let v = chars_of(fps[i].as_str());
        let tv = trim_chars(v.as_slice());
        if chars_eq(tv.as_slice(), t) {
            assert(trim(str_views(fps@)[i as int]) == t@);
            return true;
        }
        i += 1;
    }
    proof {
        if found_by_find_package(str_views(fps@), t@) {
            let k = choose|k: int|
                0 <= k < str_views(fps@).len() && trim(#[trigger] str_views(fps@)[k]) == t@;
            assert(str_views(fps@)[k] == fps@[k]@);
        }
    }
    false
}

fn dep_tag_exec(t: &str) -> (r: &'static str)
    ensures
        r@ == dep_tag(t@),
{
    if is_test_only_package(t) {
        "test_depend"
    } else {
        "depend"
    }
}

fn dep_severity_exec(t: &str) -> (r: Severity)
    ensures
        r == dep_severity(t@),
{
    if is_system_vendor_package(t) {
        Severity::Warn
    } else {
        Severity::Error
    }
}

fn dep_fix_hint_exec(t: &str) -> (r: String)
    ensures
        r@ == dep_fix_hint(t@),
{
    let tag = dep_tag_exec(t);
    let mut v: Vec<char> = Vec::new();
    push_str(&mut v, "Add <");
    push_str(&mut v, tag);
    push_str(&mut v, ">");
    push_str(&mut v, t);
    push_str(&mut v, "</");
    push_str(&mut v, tag);
    push_str(&mut v, "> to package.xml");
    assert(v@ =~= dep_fix_hint(t@));
    string_of(v.as_slice())
}

fn cmake_location_exec(pkg: &str, context: Option<String>) -> (r: Location)
    ensures
        r@ == cmake_location(pkg@, crate::checks::model::opt_view(context)),
{
    let p = chars_of(pkg);
    let f = chars_of("CMakeLists.txt");
    Location {
        package: Some(string_of(p.as_slice())),
        file: Some(string_of(f.as_slice())),
        line: None,
        context,
    }
}

fn find_package_missing(pkg: &str, t: &str) -> (r: Finding)
    ensures
        r@ == find_package_missing_finding(pkg@, t@),
{
    let mut m: Vec<char> = Vec::new();
    push_str(&mut m, "find_package(");
    push_str(&mut m, t);
    push_str(&mut m, ") in CMake but not in package.xml");
    let msg = string_of(m.as_slice());
    let hint = dep_fix_hint_exec(t);
    let f = Finding::new("dep/find_package_missing", dep_severity_exec(t), msg.as_str())
        .with_location(cmake_location_exec(pkg, None))
        .with_fix_hint(hint.as_str());
    assert(f@.message =~= find_package_missing_finding(pkg@, t@).message);
    f
}

fn ament_target_undeclared(pkg: &str, target: &str, t: &str) -> (r: Finding)
    ensures
        r@ == ament_target_undeclared_finding(pkg@, target@, t@),
{
    let mut m: Vec<char> = Vec::new();
    push_str(&mut m, "ament_target_dependencies(");
    push_str(&mut m, target);
    push_str(&mut m, " ...) references '");
    push_str(&mut m, t);
    push_str(&mut m, "' not in package.xml");
    let msg = string_of(m.as_slice());
    let mut c: Vec<char> = Vec::new();
    push_str(&mut c, "target: ");
    push_str(&mut c, target);
    let ctx = string_of(c.as_slice());
    let hint = dep_fix_hint_exec(t);
    let f = Finding::new("dep/ament_target_undeclared", dep_severity_exec(t), msg.as_str())
        .with_location(cmake_location_exec(pkg, Some(ctx)))
        .with_fix_hint(hint.as_str());
    assert(f@.message =~= ament_target_undeclared_finding(pkg@, target@, t@).message);
    assert(f@.location =~= ament_target_undeclared_finding(pkg@, target@, t@).location);
    f
}

fn skip_of(config: Option<&Babel42Config>) -> (r: Option<&[String]>)
    ensures
        match r {
            Some(s) => config_skip(config) == Some(str_views(s@)),
            None => config_skip(config) is None,
        },
{
    match config {
        Some(c) => Some(c.skip_packages.as_slice()),
        None => None,
    }
}

fn push_find_package_findings(
    pkg: &Package,
    fps: &Vec<String>,
    config: Option<&Babel42Config>,
    out: &mut Vec<Finding>,
)
    ensures
        finding_views(final(out)@) == finding_views(old(out)@) + find_package_findings(
            pkg.manifest.name@,
            declared_names(pkg.manifest.dependencies@),
            str_views(fps@),
            config_skip(config),
        ),
{
    let ghost o = finding_views(out@);
    let ghost name = pkg.manifest.name@;
    let ghost declared = declared_names(pkg.manifest.dependencies@);
    let ghost fv = str_views(fps@);
    let skip = skip_of(config);
    let mut i: usize = 0;
    assert(fv.take(0) =~= Seq::<Seq<char>>::empty());
    assert(finding_views(out@) =~= o);
    while i < fps.len()
        invariant
            i <= fps@.len(),
            fv == str_views(fps@),
            name == pkg.manifest.name@,
            declared == declared_names(pkg.manifest.dependencies@),
            match skip {
                Some(s) => config_skip(config) == Some(str_views(s@)),
                None => config_skip(config) is None,
            },
            finding_views(out@) == o + find_package_findings(
                name,
                declared,
                fv.take(i as int),
                config_skip(config),
            ),
        decreases fps.len() - i,
    {
        assert(fv.take(i + 1).drop_last() =~= fv.take(i as int));
        assert(fv.take(i + 1).last() == fps@[i as int]@);
        let v = chars_of(fps[i].as_str());
        let tv = trim_chars(v.as_slice());
        let ghost before = finding_views(out@);
        let blank = tv.len() == 0 || tv[0] == '$';
        if !blank {
            let t = string_of(tv.as_slice());
            if !dep_should_skip_package(t.as_str(), skip) {
                if !declares(&pkg.manifest.dependencies, tv.as_slice()) {
                    let f = find_package_missing(pkg.name(), t.as_str());
                    out.push(f);
                    assert(finding_views(out@) =~= before.push(f@));
                }
            }
        }
        i += 1;
    }
    assert(fv.take(i as int) =~= fv);
}

fn push_target_findings(
    pkg: &Package,
    fps: &Vec<String>,
    target: &String,
    deps: &Vec<String>,
    config: Option<&Babel42Config>,
    out: &mut Vec<Finding>,
)
    ensures
        finding_views(final(out)@) == finding_views(old(out)@) + target_dep_findings(
            pkg.manifest.name@,
            declared_names(pkg.manifest.dependencies@),
            str_views(fps@),
            target@,
            str_views(deps@),
            config_skip(config),
        ),
{
    let ghost o = finding_views(out@);
    let ghost name = pkg.manifest.name@;
    let ghost declared = declared_names(pkg.manifest.dependencies@);
    let ghost fv = str_views(fps@);
    let ghost dv = str_views(deps@);
    let skip = skip_of(config);
    let mut i: usize = 0;
    assert(dv.take(0) =~= Seq::<Seq<char>>::empty());
    assert(finding_views(out@) =~= o);
    while i < deps.len()
        invariant
            i <= deps@.len(),
            fv == str_views(fps@),
            dv == str_views(deps@),
            name == pkg.manifest.name@,
            declared == declared_names(pkg.manifest.dependencies@),
            match skip {
                Some(s) => config_skip(config) == Some(str_views(s@)),
                None => config_skip(config) is None,
            },
            finding_views(out@) == o + target_dep_findings(
                name,
                declared,
                fv,
                target@,
                dv.take(i as int),
                config_skip(config),
            ),
        decreases deps.len() - i,
    {
        assert(dv.take(i + 1).drop_last() =~= dv.take(i as int));
        assert(dv.take(i + 1).last() == deps@[i as int]@);
        let v = chars_of(deps[i].as_str());
        let tv = trim_chars(v.as_slice());
        let ghost before = finding_views(out@);
        let passed_over = tv.len() == 0 || tv[0] == '$' || contains_str(tv.as_slice(), "${");
        if !passed_over {
            let t = string_of(tv.as_slice());
            if !dep_should_skip_package(t.as_str(), skip) {
                if !declares(&pkg.manifest.dependencies, tv.as_slice()) {
                    if !found_in(fps, tv.as_slice()) {
                        let f = ament_target_undeclared(pkg.name(), target.as_str(), t.as_str());
                        out.push(f);
                        assert(finding_views(out@) =~= before.push(f@));
                    }
                }
            }
        }
        i += 1;
    }
    assert(dv.take(i as int) =~= dv);
}

fn push_package_findings(pkg: &Package, config: Option<&Babel42Config>, out: &mut Vec<Finding>)
    ensures
        finding_views(final(out)@) == finding_views(old(out)@) + package_dep_findings(
            *pkg,
            config_skip(config),
        ),
{
    let ghost o = finding_views(out@);
    match &pkg.cmake_info {
        Some(cmake) => {
            push_find_package_findings(pkg, &cmake.find_package, config, out);
            let ghost mid = finding_views(out@);
            let ghost name = pkg.manifest.name@;
            let ghost declared = declared_names(pkg.manifest.dependencies@);
            let ghost fv = str_views(cmake.find_package@);
            let ghost av = crate::cmake::pair_views(cmake.ament_target_deps@);
            let atd = &cmake.ament_target_deps;
            let mut j: usize = 0;
            assert(av.take(0) =~= Seq::<(Seq<char>, Seq<Seq<char>>)>::empty());
            assert(finding_views(out@) =~= mid + Seq::<FindingSpec>::empty());
            while j < atd.len()
                invariant
                    j <= atd@.len(),
                    av == crate::cmake::pair_views(atd@),
                    fv == str_views(cmake.find_package@),
                    name == pkg.manifest.name@,
                    declared == declared_names(pkg.manifest.dependencies@),
                    finding_views(out@) == mid + ament_target_findings(
                        name,
                        declared,
                        fv,
                        av.take(j as int),
                        config_skip(config),
                    ),
                decreases atd.len() - j,
            {
                assert(av.take(j + 1).drop_last() =~= av.take(j as int));
                assert(av.take(j + 1).last() == (atd@[j as int].0@, str_views(atd@[j as int].1@)));
                let ghost before = finding_views(out@);
                push_target_findings(pkg, &cmake.find_package, &atd[j].0, &atd[j].1, config, out);
                j += 1;
            }
            assert(av.take(j as int) =~= av);
        },
        None => {
            assert(finding_views(out@) =~= o + Seq::<FindingSpec>::empty());
        },
    }
}

fn circular(name: &str) -> (r: Finding)
    ensures
        r@ == circular_finding(name@),
{
    let mut m: Vec<char> = Vec::new();
    push_str(&mut m, "Circular dependency in package graph (involving '");
    push_str(&mut m, name);
    push_str(&mut m, "')");
    let msg = string_of(m.as_slice());
    let p = chars_of(name);
    let f = Finding::new("dep/circular", Severity::Error, msg.as_str()).with_location(
        Location { package: Some(string_of(p.as_slice())), file: None, line: None, context: None },
    ).with_fix_hint("Remove circular dependency between packages");
    assert(f@.message =~= circular_finding(name@).message);
    f
}

/// Dependency rules with the default configuration.
pub fn check_dep(project: &Project) -> (r: Vec<Finding>)
    ensures
        finding_views(r@) == dep_check_findings(project, None),
        dep_check_result(project, None, finding_views(r@)),
{
    check_dep_with_config(project, None)
}

/// The circular-dependency finding of a dependency graph: one, naming the
/// package at the node where `toposort` reports a cycle; none where it finds
/// an order.
pub open spec fn circular_findings(g: DiGraph<String, DependencyEdge>) -> Seq<FindingSpec> {
    match dep_toposort_outcome(g) {
        Ok(_) => Seq::empty(),
        Err(v) => if v < dep_graph_nodes(g).len() {
            seq![circular_finding(dep_graph_nodes(g)[v as int])]
        } else {
            Seq::empty()
        },
    }
}

/// The findings of the dependency rules: the CMake-against-manifest findings,
/// package by package, then the circular-dependency finding.
pub open spec fn dep_check_findings(project: &Project, skip: Option<Seq<Seq<char>>>) -> Seq<FindingSpec> {
    dep_findings(project.packages@, skip) + circular_findings(project.dependency_graph)
}

/// What the dependency rules report: the CMake-against-manifest findings,
/// package by package, then one circular-dependency error naming a package on
/// a cycle, where the dependency graph has one.
pub open spec fn dep_check_result(
    project: &Project,
    skip: Option<Seq<Seq<char>>>,
    r: Seq<FindingSpec>,
) -> bool {
    let g = project.dependency_graph;
    let nodes = dep_graph_nodes(g);
    let base = dep_findings(project.packages@, skip);
    if has_cycle(nodes.len(), dep_edge_pairs(g)) {
        &&& r.len() == base.len() + 1
        &&& r.take(base.len() as int) == base
        &&& exists|v: usize|
            on_cycle(nodes.len(), dep_edge_pairs(g), v) && v < nodes.len() && r.last()
                == circular_finding(nodes[v as int])
    } else {
        r == base
    }
}

/// Dependency rules: every `find_package` and `ament_target_dependencies`
/// name of a package's CMakeLists.txt must be declared in its package.xml
/// (unless skipped by the fixed lists or the configuration's `skip_packages`),
/// and the dependency graph must be acyclic.
#[verifier::spinoff_prover]
#[verifier::rlimit(40)]
pub fn check_dep_with_config(project: &Project, config: Option<&Babel42Config>) -> (r: Vec<Finding>)
    ensures
        finding_views(r@) == dep_check_findings(project, config_skip(config)),
        dep_check_result(project, config_skip(config), finding_views(r@)),
{
    let pkgs = &project.packages;
    let mut out: Vec<Finding> = Vec::new();
    let mut i: usize = 0;
    assert(pkgs@.take(0) =~= Seq::<Package>::empty());
    assert(finding_views(out@) =~= Seq::<FindingSpec>::empty());
    while i < pkgs.len()
        invariant
            i <= pkgs@.len(),
            finding_views(out@) == dep_findings(pkgs@.take(i as int), config_skip(config)),
        decreases pkgs.len() - i,
    {
        assert(pkgs@.take(i + 1).drop_last() =~= pkgs@.take(i as int));
        push_package_findings(&pkgs[i], config, &mut out);
        i += 1;
    }
    assert(pkgs@.take(i as int) =~= pkgs@);
    let ghost base = finding_views(out@);
    let g = &project.dependency_graph;
    match dep_toposort(g) {
        Ok(_) => {
            assert(finding_views(out@) =~= base + circular_findings(*g));
        },
        Err(v) => match dep_node_weight(g, v) {
            Some(name) => {
                let f = circular(name.as_str());
                out.push(f);
                assert(finding_views(out@) =~= base.push(f@));
                assert(finding_views(out@) =~= base + circular_findings(*g));
                assert(finding_views(out@).take(base.len() as int) =~= base);
            },
            None => {},
        },
    }
    out
}

} // verus!
