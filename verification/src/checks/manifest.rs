//! Manifest rules: missing description, no maintainer.

use vstd::prelude::*;
use crate::checks::model::{Finding, FindingSpec, Location, LocationSpec, Severity, finding_views, opt_view};
use crate::model::{Package, Project};
use crate::text::{chars_of, push_str, string_of, trim, trim_chars};

verus! {

/// `a`, then `b`, then `c`, as a string.
fn text3(a: &str, b: &str, c: &str) -> (r: String)
    ensures
        r@ == a@ + b@ + c@,
{
    let mut v: Vec<char> = Vec::new();
    push_str(&mut v, a);
    push_str(&mut v, b);
    push_str(&mut v, c);
    assert(v@ =~= a@ + b@ + c@);
    string_of(v.as_slice())
}

/// A package.xml has no description: none, or only whitespace.
pub open spec fn missing_description(d: Option<Seq<char>>) -> bool {
    match d {
        Some(s) => trim(s).len() == 0,
        None => true,
    }
}

/// The location of a manifest finding: the package's package.xml.
pub open spec fn manifest_location(name: Seq<char>) -> LocationSpec {
    LocationSpec { package: Some(name), file: Some("package.xml"@), line: None, context: None }
}

pub open spec fn description_finding(name: Seq<char>) -> FindingSpec {
    FindingSpec {
        rule_id: "manifest/missing_description"@,
        severity: Severity::Warn,
        message: "Package '"@ + name + "' has no description"@,
        location: Some(manifest_location(name)),
        fix_hint: Some("Add <description>...</description> to package.xml"@),
    }
}

pub open spec fn maintainer_finding(name: Seq<char>) -> FindingSpec {
    FindingSpec {
        rule_id: "manifest/no_maintainer"@,
        severity: Severity::Warn,
        message: "Package '"@ + name + "' has no maintainers"@,
        location: Some(manifest_location(name)),
        fix_hint: Some("Add <maintainer ...>...</maintainer> to package.xml"@),
    }
}

/// The manifest findings of one package.
pub open spec fn package_manifest_findings(p: Package) -> Seq<FindingSpec> {
    let name = p.manifest.name@;
    (if missing_description(opt_view(p.manifest.description)) {
        seq![description_finding(name)]
    } else {
        Seq::empty()
    }) + (if p.manifest.maintainers@.len() == 0 {
        seq![maintainer_finding(name)]
    } else {
        Seq::empty()
    })
}

/// The manifest findings of the packages, package by package.
pub open spec fn manifest_findings(pkgs: Seq<Package>) -> Seq<FindingSpec>
    decreases pkgs.len(),
{
    if pkgs.len() == 0 {
        Seq::empty()
    } else {
        manifest_findings(pkgs.drop_last()) + package_manifest_findings(pkgs.last())
    }
}

fn manifest_location_exec(name: &str) -> (r: Location)
    ensures
        r@ == manifest_location(name@),
{
    let n = chars_of(name);
    let f = chars_of("package.xml");
    Location {
        package: Some(string_of(n.as_slice())),
        file: Some(string_of(f.as_slice())),
        line: None,
        context: None,
    }
}

fn package_findings(pkg: &Package, out: &mut Vec<Finding>)
    ensures
        finding_views(final(out)@) == finding_views(old(out)@) + package_manifest_findings(*pkg),
{
    let ghost o = finding_views(out@);
    let name = pkg.name();
    let missing = match &pkg.manifest.description {
        Some(d) => {
            let v = chars_of(d.as_str());
            trim_chars(v.as_slice()).len() == 0
        },
        None => true,
    };
    if missing {
        let msg = text3("Package '", name, "' has no description");
        let f = Finding::new("manifest/missing_description", Severity::Warn, msg.as_str())
            .with_location(manifest_location_exec(name))
            .with_fix_hint("Add <description>...</description> to package.xml");
        out.push(f);
    }
    let ghost o2 = finding_views(out@);
    if pkg.manifest.maintainers.len() == 0 {
        let msg = text3("Package '", name, "' has no maintainers");
        let f = Finding::new("manifest/no_maintainer", Severity::Warn, msg.as_str())
            .with_location(manifest_location_exec(name))
            .with_fix_hint("Add <maintainer ...>...</maintainer> to package.xml");
        out.push(f);
    }
    assert(finding_views(out@) =~= o + package_manifest_findings(*pkg));
}

/// Manifest rules over all packages: a package with no description (or only
/// whitespace) and a package without maintainers each get a warning.
pub fn check_manifest(project: &Project) -> (r: Vec<Finding>)
    ensures
        finding_views(r@) == manifest_findings(project.packages@),
{
    let pkgs = &project.packages;
    let mut out: Vec<Finding> = Vec::new();
    let mut i: usize = 0;
    assert(pkgs@.take(0) =~= Seq::<Package>::empty());
    assert(finding_views(out@) =~= Seq::<FindingSpec>::empty());
    while i < pkgs.len()
        invariant
            i <= pkgs@.len(),
            finding_views(out@) == manifest_findings(pkgs@.take(i as int)),
        decreases pkgs.len() - i,
    {
        assert(pkgs@.take(i + 1).drop_last() =~= pkgs@.take(i as int));
        package_findings(&pkgs[i], &mut out);
        i += 1;
    }
    assert(pkgs@.take(i as int) =~= pkgs@);
    out
}

} // verus!
