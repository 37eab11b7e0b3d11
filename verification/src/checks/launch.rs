//! Launch rules: include cycles, included packages missing from the workspace.

use vstd::prelude::*;
use crate::checks::model::{Finding, FindingSpec, Location, LocationSpec, Severity, finding_views};
use crate::graph::{has_cycle, launch_graph_edges, launch_graph_nodes, launch_is_cyclic};
use crate::launch::LaunchFileInfo;
use crate::model::{LaunchFile, Package, Project, package_names};
use crate::text::{chars_eq, chars_of, push_str, string_of};

verus! {

/// The launch include graph has a cycle.
pub open spec fn include_cycle_finding() -> FindingSpec {
    FindingSpec {
        rule_id: "launch/include_cycle"@,
        severity: Severity::Error,
        message: "Include cycle in launch file graph (A includes B, B includes A)"@,
        location: None,
        fix_hint: Some("Remove circular includes between launch files"@),
    }
}

/// Launch file `file` of package `pkg` includes `inc_file` of package
/// `inc_pkg`, which is not in the workspace.
pub open spec fn missing_package_finding(
    pkg: Seq<char>,
    file: Seq<char>,
    inc_pkg: Seq<char>,
    inc_file: Seq<char>,
) -> FindingSpec {
    FindingSpec {
        rule_id: "launch/missing_package"@,
        severity: Severity::Warn,
        message: "Included package '"@ + inc_pkg + "' (in "@ + inc_file + ") not in workspace"@,
        location: Some(
            LocationSpec {
                package: Some(pkg),
                file: Some(file),
                line: None,
                context: Some(inc_pkg + ":"@ + inc_file),
            },
        ),
        fix_hint: Some("Add "@ + inc_pkg + " to workspace or ensure it is installed"@),
    }
}

/// The (package, file) pairs that a launch file includes.
pub open spec fn include_views(v: Seq<(String, String)>) -> Seq<(Seq<char>, Seq<char>)> {
    v.map_values(|p: (String, String)| (p.0@, p.1@))
}

/// Findings for the includes of one launch file, in order.
pub open spec fn include_findings(
    names: Seq<Seq<char>>,
    pkg: Seq<char>,
    file: Seq<char>,
    incs: Seq<(Seq<char>, Seq<char>)>,
) -> Seq<FindingSpec>
    decreases incs.len(),
{
    if incs.len() == 0 {
        Seq::empty()
    } else {
        let rest = include_findings(names, pkg, file, incs.drop_last());
        let (ip, ifile) = incs.last();
        if names.contains(ip) {
            rest
        } else {
            rest.push(missing_package_finding(pkg, file, ip, ifile))
        }
    }
}

/// Findings for the launch files of one package, in order.
pub open spec fn launch_file_findings(
    names: Seq<Seq<char>>,
    pkg: Seq<char>,
    lfs: Seq<LaunchFile>,
) -> Seq<FindingSpec>
    decreases lfs.len(),
{
    if lfs.len() == 0 {
        Seq::empty()
    } else {
        launch_file_findings(names, pkg, lfs.drop_last()) + include_findings(
            names,
            pkg,
            lfs.last().path@,
            include_views(lfs.last().info.included_launches@),
        )
    }
}

/// Missing-package findings for the packages, package by package.
pub open spec fn missing_package_findings(names: Seq<Seq<char>>, pkgs: Seq<Package>) -> Seq<FindingSpec>
    decreases pkgs.len(),
{
    if pkgs.len() == 0 {
        Seq::empty()
    } else {
        missing_package_findings(names, pkgs.drop_last()) + launch_file_findings(
            names,
            pkgs.last().manifest.name@,
            pkgs.last().launch_files@,
        )
    }
}

/// What the launch rules report: an include-cycle error where the launch
/// include graph has a cycle, then each include of a package that is not in
/// the workspace.
pub open spec fn launch_findings(project: &Project) -> Seq<FindingSpec> {
    let g = project.launch_include_graph.0;
    (if has_cycle(launch_graph_nodes(g).len(), launch_graph_edges(g)) {
        seq![include_cycle_finding()]
    } else {
        Seq::empty()
    }) + missing_package_findings(package_names(project.packages@), project.packages@)
}

pub(crate) fn in_workspace(pkgs: &Vec<Package>, name: &str) -> (r: bool)
    ensures
        r == package_names(pkgs@).contains(name@),
{
    let n = chars_of(name);
    let mut i: usize = 0;
    while i < pkgs.len()
        invariant
            i <= pkgs@.len(),
            n@ == name@,
            forall|k: int| 0 <= k < i ==> (#[trigger] pkgs@[k]).manifest.name@ != name@,
        decreases pkgs.len() - i,
    {
        let m = chars_of(pkgs[i].manifest.name.as_str());
        if chars_eq(m.as_slice(), n.as_slice()) {
            assert(package_names(pkgs@)[i as int] == name@);
            return true;
        }
        i += 1;
    }
    proof {
        if package_names(pkgs@).contains(name@) {
            let k = choose|k: int|
                0 <= k < package_names(pkgs@).len() && package_names(pkgs@)[k] == name@;
            assert(pkgs@[k].manifest.name@ == name@);
        }
    }
    false
}

fn missing_package(pkg: &str, file: &str, inc_pkg: &str, inc_file: &str) -> (r: Finding)
    ensures
        r@ == missing_package_finding(pkg@, file@, inc_pkg@, inc_file@),
{
    let mut m: Vec<char> = Vec::new();
    push_str(&mut m, "Included package '");
    push_str(&mut m, inc_pkg);
    push_str(&mut m, "' (in ");
    push_str(&mut m, inc_file);
    push_str(&mut m, ") not in workspace");
    let msg = string_of(m.as_slice());
    let mut c: Vec<char> = Vec::new();
    push_str(&mut c, inc_pkg);
    push_str(&mut c, ":");
    push_str(&mut c, inc_file);
    let mut h: Vec<char> = Vec::new();
    push_str(&mut h, "Add ");
    push_str(&mut h, inc_pkg);
    push_str(&mut h, " to workspace or ensure it is installed");
    let hint = string_of(h.as_slice());
    let p = chars_of(pkg);
    let fv = chars_of(file);
    let loc = Location {
        package: Some(string_of(p.as_slice())),
        file: Some(string_of(fv.as_slice())),
        line: None,
        context: Some(string_of(c.as_slice())),
    };
    let f = Finding::new("launch/missing_package", Severity::Warn, msg.as_str()).with_location(
        loc,
    ).with_fix_hint(hint.as_str());
    let ghost want = missing_package_finding(pkg@, file@, inc_pkg@, inc_file@);
    assert(f@.message =~= want.message);
    assert(f@.location.unwrap().context.unwrap() =~= want.location.unwrap().context.unwrap());
    assert(f@.fix_hint.unwrap() =~= want.fix_hint.unwrap());
    f
}

fn push_launch_file_findings(pkgs: &Vec<Package>, pkg: &Package, lf: &LaunchFile, out: &mut Vec<Finding>)
    ensures
        finding_views(final(out)@) == finding_views(old(out)@) + include_findings(
            package_names(pkgs@),
            pkg.manifest.name@,
            lf.path@,
            include_views(lf.info.included_launches@),
        ),
{
    let ghost o = finding_views(out@);
    let incs = &lf.info.included_launches;
    let ghost iv = include_views(incs@);
    let mut i: usize = 0;
    assert(iv.take(0) =~= Seq::<(Seq<char>, Seq<char>)>::empty());
    assert(finding_views(out@) =~= o);
    while i < incs.len()
        invariant
            i <= incs@.len(),
            iv == include_views(incs@),
            finding_views(out@) == o + include_findings(
                package_names(pkgs@),
                pkg.manifest.name@,
                lf.path@,
                iv.take(i as int),
            ),
        decreases incs.len() - i,
    {
        assert(iv.take(i + 1).drop_last() =~= iv.take(i as int));
        assert(iv.take(i + 1).last() == (incs@[i as int].0@, incs@[i as int].1@));
        let ghost before = finding_views(out@);
        let (ip, ifile) = &incs[i];
        if !in_workspace(pkgs, ip.as_str()) {
            let f = missing_package(pkg.name(), lf.path.as_str(), ip.as_str(), ifile.as_str());
            out.push(f);
            assert(finding_views(out@) =~= before.push(f@));
        }
        i += 1;
    }
    assert(iv.take(i as int) =~= iv);
}

/// Launch rules: an error for an include cycle among launch files, and a
/// warning for each included launch file whose package is not in the workspace.
pub fn check_launch(project: &Project) -> (r: Vec<Finding>)
    ensures
        finding_views(r@) == launch_findings(project),
{
    let mut out: Vec<Finding> = Vec::new();
    let g = &project.launch_include_graph.0;
    if launch_is_cyclic(g) {
        let f = Finding::new(
            "launch/include_cycle",
            Severity::Error,
            "Include cycle in launch file graph (A includes B, B includes A)",
        ).with_fix_hint("Remove circular includes between launch files");
        out.push(f);
    }
    let ghost head = finding_views(out@);
    assert(head =~= (if has_cycle(launch_graph_nodes(*g).len(), launch_graph_edges(*g)) {
        seq![include_cycle_finding()]
    } else {
        Seq::empty()
    }));
    let pkgs = &project.packages;
    let ghost names = package_names(pkgs@);
    let mut i: usize = 0;
    assert(pkgs@.take(0) =~= Seq::<Package>::empty());
    assert(finding_views(out@) =~= head + Seq::<FindingSpec>::empty());
    while i < pkgs.len()
        invariant
            i <= pkgs@.len(),
            names == package_names(pkgs@),
            finding_views(out@) == head + missing_package_findings(names, pkgs@.take(i as int)),
        decreases pkgs.len() - i,
    {
        assert(pkgs@.take(i + 1).drop_last() =~= pkgs@.take(i as int));
        let pkg = &pkgs[i];
        let ghost mid = finding_views(out@);
        let mut j: usize = 0;
        assert(pkg.launch_files@.take(0) =~= Seq::<LaunchFile>::empty());
        assert(finding_views(out@) =~= mid + Seq::<FindingSpec>::empty());
        while j < pkg.launch_files.len()
            invariant
                j <= pkg.launch_files@.len(),
                names == package_names(pkgs@),
                finding_views(out@) == mid + launch_file_findings(
                    names,
                    pkg.manifest.name@,
                    pkg.launch_files@.take(j as int),
                ),
            decreases pkg.launch_files.len() - j,
        {
            assert(pkg.launch_files@.take(j + 1).drop_last() =~= pkg.launch_files@.take(j as int));
            push_launch_file_findings(pkgs, pkg, &pkg.launch_files[j], &mut out);
            j += 1;
        }
        assert(pkg.launch_files@.take(j as int) =~= pkg.launch_files@);
        i += 1;
    }
    assert(pkgs@.take(i as int) =~= pkgs@);
    out
}

} // verus!
