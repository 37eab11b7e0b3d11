//! What the command line shows: the options of a check run, its exit code,
//! and the human-readable texts of `analyze` and `check`.

use vstd::prelude::*;
use crate::checks::model::{
    CheckOpts, FailOn, Finding, FindingSpec, RuleSet, Severity, finding_views, parse_fail_on,
    parse_rule_set, spec_fail_on, spec_rule_set, spec_should_fail,
};
use crate::model::{LaunchFile, MsgDefinition, Package, Project, SrvDefinition, ActionDefinition, XacroFile};
use crate::project_config::Babel42Config;
use crate::text::{chars_eq_str, chars_of, decimal, decimal_chars, lower_chars, lowercase, push_chars, push_str, str_views, string_of};
use crate::xml::string_pairs;

verus! {

// =============================================================================
// Options and exit code
// =============================================================================

/// The minimum severity that a lowercased name selects (`warn` for any other).
pub open spec fn spec_min_severity(lower: Seq<char>) -> Severity {
    if lower == "info"@ {
        Severity::Info
    } else if lower == "warn"@ {
        Severity::Warn
    } else if lower == "error"@ {
        Severity::Error
    } else {
        Severity::Warn
    }
}

/// The minimum severity a name selects, in any case; `warn` for an unknown name.
pub fn parse_min_severity(s: &str) -> (r: Severity)
    ensures
        r == spec_min_severity(lowercase(s@)),
{
    let v = chars_of(s);
    let l = lower_chars(v.as_slice());
    if chars_eq_str(l.as_slice(), "info") {
        Severity::Info
    } else if chars_eq_str(l.as_slice(), "warn") {
        Severity::Warn
    } else if chars_eq_str(l.as_slice(), "error") {
        Severity::Error
    } else {
        Severity::Warn
    }
}

/// The options of a check run from its command line: the minimum severity,
/// the rule set (all where the name is unknown), the fail-on policy (error
/// where the name is unknown) and the project configuration.
pub fn check_options(severity: &str, rules: &str, fail_on: &str, config: Babel42Config) -> (r: CheckOpts)
    ensures
        r.min_severity == spec_min_severity(lowercase(severity@)),
        r.rule_set == match spec_rule_set(lowercase(rules@)) {
            Some(rs) => rs,
            None => RuleSet::All,
        },
        r.fail_on == match spec_fail_on(lowercase(fail_on@)) {
            Some(f) => f,
            None => FailOn::Error,
        },
        r.config == Some(config),
{
    let rule_set = match parse_rule_set(rules) {
        Ok(rs) => rs,
        Err(_) => RuleSet::All,
    };
    let fail = match parse_fail_on(fail_on) {
        Ok(f) => f,
        Err(_) => FailOn::Error,
    };
    CheckOpts { min_severity: parse_min_severity(severity), rule_set, fail_on: fail, config: Some(config) }
}

/// How many of the findings have severity `s`.
pub open spec fn count_severity(fs: Seq<FindingSpec>, s: Severity) -> nat
    decreases fs.len(),
{
    if fs.len() == 0 {
        0
    } else {
        count_severity(fs.drop_last(), s) + (if fs.last().severity == s {
            1nat
        } else {
            0nat
        })
    }
}

/// The numbers of error, warn and info findings.
pub fn severity_counts(findings: &Vec<Finding>) -> (r: (usize, usize, usize))
    ensures
        r.0 == count_severity(finding_views(findings@), Severity::Error),
        r.1 == count_severity(finding_views(findings@), Severity::Warn),
        r.2 == count_severity(finding_views(findings@), Severity::Info),
{
    let ghost fv = finding_views(findings@);
    let mut e: usize = 0;
    let mut w: usize = 0;
    let mut n: usize = 0;
    let mut i: usize = 0;
    assert(fv.take(0) =~= Seq::<FindingSpec>::empty());
    while i < findings.len()
        invariant
            i <= findings@.len(),
            fv == finding_views(findings@),
            e == count_severity(fv.take(i as int), Severity::Error),
            w == count_severity(fv.take(i as int), Severity::Warn),
            n == count_severity(fv.take(i as int), Severity::Info),
            e + w + n <= i,
        decreases findings.len() - i,
    {
        assert(fv.take(i + 1).drop_last() =~= fv.take(i as int));
        assert(fv.take(i + 1).last() == findings@[i as int]@);
        match findings[i].severity {
            Severity::Error => e += 1,
            Severity::Warn => w += 1,
            Severity::Info => n += 1,
        }
        i += 1;
    }
    assert(fv.take(i as int) =~= fv);
    (e, w, n)
}

/// The exit code of a check run: 1 where the findings make it fail under the
/// policy, else 0.
pub fn check_exit_code(fail_on: FailOn, findings: &Vec<Finding>) -> (r: i32)
    ensures
        r == (if spec_should_fail(
            fail_on,
            count_severity(finding_views(findings@), Severity::Error) > 0,
            count_severity(finding_views(findings@), Severity::Warn) > 0,
            count_severity(finding_views(findings@), Severity::Info) > 0,
        ) {
            1int
        } else {
            0int
        }),
{
    let (e, w, n) = severity_counts(findings);
    if fail_on.should_fail(e > 0, w > 0, n > 0) {
        1
    } else {
        0
    }
}

// =============================================================================
// The check text
// =============================================================================

/// The short name of a severity.
pub open spec fn severity_word(s: Severity) -> Seq<char> {
    match s {
        Severity::Info => "info"@,
        Severity::Warn => "warn"@,
        Severity::Error => "error"@,
    }
}

/// The lines of one finding: `sev rule  message [package]`, then `  Fix: hint`
/// where it has a fix hint.
pub open spec fn finding_text(f: FindingSpec) -> Seq<char> {
    severity_word(f.severity) + " "@ + f.rule_id + "  "@ + f.message + match f.location {
        Some(l) => match l.package {
            Some(p) => " ["@ + p + "]"@,
            None => Seq::empty(),
        },
        None => Seq::empty(),
    } + "\n"@ + match f.fix_hint {
        Some(h) => "  Fix: "@ + h + "\n"@,
        None => Seq::empty(),
    }
}

/// The lines of the findings, in order.
pub open spec fn findings_text(fs: Seq<FindingSpec>) -> Seq<char>
    decreases fs.len(),
{
    if fs.len() == 0 {
        Seq::empty()
    } else {
        findings_text(fs.drop_last()) + finding_text(fs.last())
    }
}

/// What `check` shows: the findings, then (where there are any) a blank line
/// and `N findings (E error, W warn, I info)`.
pub open spec fn check_text(fs: Seq<FindingSpec>) -> Seq<char> {
    findings_text(fs) + if fs.len() > 0 {
        "\n"@ + decimal(fs.len()) + " findings ("@ + decimal(count_severity(fs, Severity::Error))
            + " error, "@ + decimal(count_severity(fs, Severity::Warn)) + " warn, "@ + decimal(
            count_severity(fs, Severity::Info),
        ) + " info)\n"@
    } else {
        Seq::empty()
    }
}

#[verifier::spinoff_prover]
#[verifier::rlimit(30)]
fn push_finding_text(out: &mut Vec<char>, f: &Finding)
    ensures
        final(out)@ == old(out)@ + finding_text(f@),
{
    let ghost o = out@;
    let sev = match f.severity {
        Severity::Info => "info",
        Severity::Warn => "warn",
        Severity::Error => "error",
    };
    push_str(out, sev);
    push_str(out, " ");
    push_str(out, f.rule_id.as_str());
    push_str(out, "  ");
    push_str(out, f.message.as_str());
    let ghost o2 = out@;
    match &f.location {
        Some(l) => match &l.package {
            Some(p) => {
                push_str(out, " [");
                push_str(out, p.as_str());
                push_str(out, "]");
            },
            None => {},
        },
        None => {},
    }
    push_str(out, "\n");
    match &f.fix_hint {
        Some(h) => {
            push_str(out, "  Fix: ");
            push_str(out, h.as_str());
            push_str(out, "\n");
        },
        None => {},
    }
    assert(out@ =~= o + finding_text(f@));
}

/// The text that `check` shows for the findings.
pub fn check_report(findings: &Vec<Finding>) -> (r: String)
    ensures
        r@ == check_text(finding_views(findings@)),
{
    let ghost fv = finding_views(findings@);
    let mut out: Vec<char> = Vec::new();
    let mut i: usize = 0;
    assert(fv.take(0) =~= Seq::<FindingSpec>::empty());
    while i < findings.len()
        invariant
            i <= findings@.len(),
            fv == finding_views(findings@),
            out@ == findings_text(fv.take(i as int)),
        decreases findings.len() - i,
    {
        assert(fv.take(i + 1).drop_last() =~= fv.take(i as int));
        assert(fv.take(i + 1).last() == findings@[i as int]@);
        push_finding_text(&mut out, &findings[i]);
        i += 1;
    }
    assert(fv.take(i as int) =~= fv);
    if findings.len() > 0 {
        let (e, w, n) = severity_counts(findings);
        let ghost o = out@;
        push_str(&mut out, "\n");
        push_chars(&mut out, decimal_chars(findings.len()).as_slice());
        push_str(&mut out, " findings (");
        push_chars(&mut out, decimal_chars(e).as_slice());
        push_str(&mut out, " error, ");
        push_chars(&mut out, decimal_chars(w).as_slice());
        push_str(&mut out, " warn, ");
        push_chars(&mut out, decimal_chars(n).as_slice());
        push_str(&mut out, " info)\n");
        assert(out@ =~= check_text(fv));
    } else {
        assert(out@ =~= check_text(fv));
    }
    string_of(out.as_slice())
}

// =============================================================================
// The analyze text
// =============================================================================

/// `parts` joined with `sep` between them.
pub open spec fn join(parts: Seq<Seq<char>>, sep: Seq<char>) -> Seq<char>
    decreases parts.len(),
{
    if parts.len() == 0 {
        Seq::empty()
    } else if parts.len() == 1 {
        parts[0]
    } else {
        join(parts.drop_last(), sep) + sep + parts.last()
    }
}

fn push_joined(out: &mut Vec<char>, parts: &Vec<String>, sep: &str)
    ensures
        final(out)@ == old(out)@ + join(str_views(parts@), sep@),
{
    let ghost o = out@;
    let ghost pv = str_views(parts@);
    let mut i: usize = 0;
    assert(pv.take(0) =~= Seq::<Seq<char>>::empty());
    assert(out@ =~= o + join(pv.take(0), sep@));
    while i < parts.len()
        invariant
            i <= parts@.len(),
            pv == str_views(parts@),
            out@ == o + join(pv.take(i as int), sep@),
        decreases parts.len() - i,
    {
        assert(pv.take(i + 1).drop_last() =~= pv.take(i as int));
        assert(pv.take(i + 1).last() == parts@[i as int]@);
        if i > 0 {
            push_str(out, sep);
        } else {
            assert(pv.take(1) =~= seq![parts@[0]@]);
        }
        push_str(out, parts[i].as_str());
        assert(out@ =~= o + join(pv.take(i + 1), sep@));
        i += 1;
    }
    assert(pv.take(i as int) =~= pv);
}

/// A line of names under a label, where there are any.
pub open spec fn names_line(label: Seq<char>, names: Seq<Seq<char>>) -> Seq<char> {
    if names.len() > 0 {
        label + join(names, ", "@) + "\n"@
    } else {
        Seq::empty()
    }
}

/// The lines of a package's xacro files.
pub open spec fn xacro_lines(xs: Seq<XacroFile>) -> Seq<char>
    decreases xs.len(),
{
    if xs.len() == 0 {
        Seq::empty()
    } else {
        let x = xs.last();
        xacro_lines(xs.drop_last()) + "      xacro: "@ + x.path@ + " (includes: "@ + decimal(
            x.info.includes@.len(),
        ) + ", packages: "@ + join(str_views(x.info.package_refs@), ", "@) + ")\n"@
    }
}

/// `pkg:file` of each include.
pub open spec fn include_labels(incs: Seq<(Seq<char>, Seq<char>)>) -> Seq<Seq<char>> {
    incs.map_values(|p: (Seq<char>, Seq<char>)| p.0 + ":"@ + p.1)
}

/// `package/executable` of each launched node.
pub open spec fn node_labels(ns: Seq<crate::launch::LaunchNode>) -> Seq<Seq<char>> {
    ns.map_values(|n: crate::launch::LaunchNode| n.package@ + "/"@ + n.executable@)
}

/// The lines of a package's launch files.
pub open spec fn launch_lines(ls: Seq<LaunchFile>) -> Seq<char>
    decreases ls.len(),
{
    if ls.len() == 0 {
        Seq::empty()
    } else {
        let l = ls.last();
        launch_lines(ls.drop_last()) + "      launch: "@ + l.path@ + " (includes: ["@ + join(
            include_labels(string_pairs(l.info.included_launches@)),
            ", "@,
        ) + "], nodes: ["@ + join(node_labels(l.info.nodes@), ", "@) + "])\n"@
    }
}

/// The first line of a package: its name and version.
pub open spec fn package_header(p: Package) -> Seq<char> {
    "  - "@ + p.manifest.name@ + " ("@ + p.manifest.version@ + "):\n"@
}

/// The lines of a package's messages, services and actions.
pub open spec fn interface_lines(p: Package) -> Seq<char> {
    names_line("      msgs:   "@, p.messages@.map_values(|m: MsgDefinition| m.name@)) + names_line(
        "      srv:    "@,
        p.services@.map_values(|m: SrvDefinition| m.name@),
    ) + names_line("      action: "@, p.actions@.map_values(|m: ActionDefinition| m.name@))
}

/// The line of a package's find_package names.
pub open spec fn find_package_line(p: Package) -> Seq<char> {
    match p.cmake_info {
        Some(c) => names_line("      find_package: "@, c@.find_package),
        None => Seq::empty(),
    }
}

/// The lines of one package.
pub open spec fn package_text(p: Package) -> Seq<char> {
    package_header(p) + interface_lines(p) + find_package_line(p) + xacro_lines(p.xacro_files@)
        + launch_lines(p.launch_files@)
}

/// The lines of the packages, in order.
pub open spec fn packages_text(ps: Seq<Package>) -> Seq<char>
    decreases ps.len(),
{
    if ps.len() == 0 {
        Seq::empty()
    } else {
        packages_text(ps.drop_last()) + package_text(ps.last())
    }
}

/// What `analyze` shows: the workspace, the number of packages, each package
/// with its interfaces, find_package names, xacro and launch files, and the
/// build order.
pub open spec fn analyze_text(project: Project, order: Seq<Seq<char>>) -> Seq<char> {
    "Workspace: "@ + project.workspace_root@ + "\n"@ + "Packages: "@ + decimal(project.packages@.len())
        + "\n"@ + "\n"@ + packages_text(project.packages@) + "\n"@ + "Build order: "@ + join(
        order,
        " -> "@,
    ) + "\n"@
}

fn push_names_line(out: &mut Vec<char>, label: &str, names: &Vec<String>)
    ensures
        final(out)@ == old(out)@ + names_line(label@, str_views(names@)),
{
    let ghost o = out@;
    if names.len() > 0 {
        push_str(out, label);
        push_joined(out, names, ", ");
        push_str(out, "\n");
        assert(out@ =~= o + names_line(label@, str_views(names@)));
    } else {
        assert(out@ =~= o + names_line(label@, str_views(names@)));
    }
}

fn msg_names(v: &Vec<MsgDefinition>) -> (r: Vec<String>)
    ensures
        str_views(r@) == v@.map_values(|m: MsgDefinition| m.name@),
{
    let mut r: Vec<String> = Vec::new();
    let mut i: usize = 0;
    while i < v.len()
        invariant
            i <= v@.len(),
            str_views(r@) == v@.take(i as int).map_values(|m: MsgDefinition| m.name@),
        decreases v.len() - i,
    {
        let ghost before = r@;
        r.push(v[i].name.clone());
        assert(str_views(r@) =~= str_views(before).push(v@[i as int].name@));
        i += 1;
        assert(str_views(r@) =~= v@.take(i as int).map_values(|m: MsgDefinition| m.name@));
    }
    assert(v@.take(i as int) =~= v@);
    r
}

fn srv_names(v: &Vec<SrvDefinition>) -> (r: Vec<String>)
    ensures
        str_views(r@) == v@.map_values(|m: SrvDefinition| m.name@),
{
    let mut r: Vec<String> = Vec::new();
    let mut i: usize = 0;
    while i < v.len()
        invariant
            i <= v@.len(),
            str_views(r@) == v@.take(i as int).map_values(|m: SrvDefinition| m.name@),
        decreases v.len() - i,
    {
        let ghost before = r@;
        r.push(v[i].name.clone());
        assert(str_views(r@) =~= str_views(before).push(v@[i as int].name@));
        i += 1;
        assert(str_views(r@) =~= v@.take(i as int).map_values(|m: SrvDefinition| m.name@));
    }
    assert(v@.take(i as int) =~= v@);
    r
}

fn action_names(v: &Vec<ActionDefinition>) -> (r: Vec<String>)
    ensures
        str_views(r@) == v@.map_values(|m: ActionDefinition| m.name@),
{
    let mut r: Vec<String> = Vec::new();
    let mut i: usize = 0;
    while i < v.len()
        invariant
            i <= v@.len(),
            str_views(r@) == v@.take(i as int).map_values(|m: ActionDefinition| m.name@),
        decreases v.len() - i,
    {
        let ghost before = r@;
        r.push(v[i].name.clone());
        assert(str_views(r@) =~= str_views(before).push(v@[i as int].name@));
        i += 1;
        assert(str_views(r@) =~= v@.take(i as int).map_values(|m: ActionDefinition| m.name@));
    }
    assert(v@.take(i as int) =~= v@);
    r
}

fn push_launch_line(out: &mut Vec<char>, l: &LaunchFile)
    ensures
        final(out)@ == old(out)@ + "      launch: "@ + l.path@ + " (includes: ["@ + join(
            include_labels(string_pairs(l.info.included_launches@)),
            ", "@,
        ) + "], nodes: ["@ + join(node_labels(l.info.nodes@), ", "@) + "])\n"@,
{
    let ghost o = out@;
    let incs = &l.info.included_launches;
    let mut labels: Vec<String> = Vec::new();
    let mut i: usize = 0;
    while i < incs.len()
        invariant
            i <= incs@.len(),
            str_views(labels@) == include_labels(string_pairs(incs@)).take(i as int),
        decreases incs.len() - i,
    {
        let mut v: Vec<char> = Vec::new();
        push_str(&mut v, incs[i].0.as_str());
        push_str(&mut v, ":");
        push_str(&mut v, incs[i].1.as_str());
        let ghost before = labels@;
        assert(v@ =~= incs@[i as int].0@ + ":"@ + incs@[i as int].1@);
        labels.push(string_of(v.as_slice()));
        assert(str_views(labels@) =~= str_views(before).push(v@));
        i += 1;
        assert(str_views(labels@) =~= include_labels(string_pairs(incs@)).take(i as int));
    }
    assert(include_labels(string_pairs(incs@)).take(i as int) =~= include_labels(string_pairs(incs@)));
    let ns = &l.info.nodes;
    let mut nlabels: Vec<String> = Vec::new();
    let mut k: usize = 0;
    while k < ns.len()
        invariant
            k <= ns@.len(),
            str_views(nlabels@) == node_labels(ns@).take(k as int),
        decreases ns.len() - k,
    {
        let mut v: Vec<char> = Vec::new();
        push_str(&mut v, ns[k].package.as_str());
        push_str(&mut v, "/");
        push_str(&mut v, ns[k].executable.as_str());
        let ghost before = nlabels@;
        assert(v@ =~= ns@[k as int].package@ + "/"@ + ns@[k as int].executable@);
        nlabels.push(string_of(v.as_slice()));
        assert(str_views(nlabels@) =~= str_views(before).push(v@));
        k += 1;
        assert(str_views(nlabels@) =~= node_labels(ns@).take(k as int));
    }
    assert(node_labels(ns@).take(k as int) =~= node_labels(ns@));
    push_str(out, "      launch: ");
    push_str(out, l.path.as_str());
    push_str(out, " (includes: [");
    push_joined(out, &labels, ", ");
    push_str(out, "], nodes: [");
    push_joined(out, &nlabels, ", ");
    push_str(out, "])\n");
}

fn push_xacro_lines(out: &mut Vec<char>, xs: &Vec<XacroFile>)
    ensures
        final(out)@ == old(out)@ + xacro_lines(xs@),
{
    let ghost o3 = out@;
    let mut i: usize = 0;
    assert(xs@.take(0) =~= Seq::<XacroFile>::empty());
    assert(out@ =~= o3 + xacro_lines(xs@.take(0)));
    while i < xs.len()
        invariant
            i <= xs@.len(),
            out@ == o3 + xacro_lines(xs@.take(i as int)),
        decreases xs.len() - i,
    {
        assert(xs@.take(i + 1).drop_last() =~= xs@.take(i as int));
        assert(xs@.take(i + 1).last() == xs@[i as int]);
        let x = &xs[i];
        push_str(out, "      xacro: ");
        push_str(out, x.path.as_str());
        push_str(out, " (includes: ");
        push_chars(out, decimal_chars(x.info.includes.len()).as_slice());
        push_str(out, ", packages: ");
        push_joined(out, &x.info.package_refs, ", ");
        push_str(out, ")\n");
        assert(out@ =~= o3 + xacro_lines(xs@.take(i + 1)));
        i += 1;
    }
    assert(xs@.take(i as int) =~= xs@);
}

fn push_launch_lines(out: &mut Vec<char>, ls: &Vec<LaunchFile>)
    ensures
        final(out)@ == old(out)@ + launch_lines(ls@),
{
    let ghost o4 = out@;
    let mut j: usize = 0;
    assert(ls@.take(0) =~= Seq::<LaunchFile>::empty());
    assert(out@ =~= o4 + launch_lines(ls@.take(0)));
    while j < ls.len()
        invariant
            j <= ls@.len(),
            out@ == o4 + launch_lines(ls@.take(j as int)),
        decreases ls.len() - j,
    {
        assert(ls@.take(j + 1).drop_last() =~= ls@.take(j as int));
        assert(ls@.take(j + 1).last() == ls@[j as int]);
        push_launch_line(out, &ls[j]);
        assert(out@ =~= o4 + launch_lines(ls@.take(j + 1)));
        j += 1;
    }
    assert(ls@.take(j as int) =~= ls@);
}

fn push_package_text(out: &mut Vec<char>, p: &Package)
    ensures
        final(out)@ == old(out)@ + package_text(*p),
{
    let ghost o = out@;
    push_str(out, "  - ");
    push_str(out, p.name());
    push_str(out, " (");
    push_str(out, p.manifest.version.as_str());
    push_str(out, "):\n");
    let ghost o1 = out@;
    assert(o1 =~= o + package_header(*p));
    push_names_line(out, "      msgs:   ", &msg_names(&p.messages));
    push_names_line(out, "      srv:    ", &srv_names(&p.services));
    push_names_line(out, "      action: ", &action_names(&p.actions));
    let ghost o2 = out@;
    assert(o2 =~= o1 + interface_lines(*p));
    match &p.cmake_info {
        Some(c) => push_names_line(out, "      find_package: ", &c.find_package),
        None => {},
    }
    let ghost o3 = out@;
    assert(o3 =~= o2 + find_package_line(*p));
    push_xacro_lines(out, &p.xacro_files);
    push_launch_lines(out, &p.launch_files);
    assert(out@ =~= o + package_text(*p));
}

/// The text that `analyze` shows for a project, with its build order.
pub fn analyze_report(project: &Project, build_order: &Vec<&str>) -> (r: String)
    ensures
        r@ == analyze_text(*project, build_order@.map_values(|s: &str| s@)),
{
    let mut out: Vec<char> = Vec::new();
    push_str(&mut out, "Workspace: ");
    push_str(&mut out, project.workspace_root.as_str());
    push_str(&mut out, "\n");
    push_str(&mut out, "Packages: ");
    push_chars(&mut out, decimal_chars(project.packages.len()).as_slice());
    push_str(&mut out, "\n");
    push_str(&mut out, "\n");
    let ghost o = out@;
    let pkgs = &project.packages;
    let mut i: usize = 0;
    assert(pkgs@.take(0) =~= Seq::<Package>::empty());
    assert(out@ =~= o + packages_text(pkgs@.take(0)));
    while i < pkgs.len()
        invariant
            i <= pkgs@.len(),
            pkgs@ == project.packages@,
            out@ == o + packages_text(pkgs@.take(i as int)),
        decreases pkgs.len() - i,
    {
        assert(pkgs@.take(i + 1).drop_last() =~= pkgs@.take(i as int));
        assert(pkgs@.take(i + 1).last() == pkgs@[i as int]);
        push_package_text(&mut out, &pkgs[i]);
        assert(out@ =~= o + packages_text(pkgs@.take(i + 1)));
        i += 1;
    }
    assert(pkgs@.take(i as int) =~= pkgs@);
    push_str(&mut out, "\n");
    push_str(&mut out, "Build order: ");
    let mut order: Vec<String> = Vec::new();
    let mut k: usize = 0;
    while k < build_order.len()
        invariant
            k <= build_order@.len(),
            str_views(order@) == build_order@.map_values(|s: &str| s@).take(k as int),
        decreases build_order.len() - k,
    {
        let ghost before = order@;
        order.push(build_order[k].to_string());
        assert(str_views(order@) =~= str_views(before).push(build_order@[k as int]@));
        k += 1;
        assert(str_views(order@) =~= build_order@.map_values(|s: &str| s@).take(k as int));
    }
    assert(build_order@.map_values(|s: &str| s@).take(k as int) =~= build_order@.map_values(|s: &str| s@));
    push_joined(&mut out, &order, " -> ");
    push_str(&mut out, "\n");
    assert(out@ =~= analyze_text(*project, build_order@.map_values(|s: &str| s@)));
    string_of(out.as_slice())
}

} // verus!
