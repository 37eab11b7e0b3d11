//! Static checks for ROS2 workspaces: dependency, launch, runtime and manifest rules.

pub mod model;
pub mod dep;
pub mod launch;
pub mod manifest;
pub mod runtime;
pub mod sarif;

use vstd::prelude::*;
use crate::checks::dep::{check_dep_with_config, dep_check_findings};
use crate::checks::launch::{check_launch, launch_findings};
use crate::checks::manifest::{check_manifest, manifest_findings};
use crate::checks::model::{CheckOpts, Finding, FindingSpec, RuleSet, Severity, finding_views, severity_rank};
use crate::checks::runtime::{check_runtime, runtime_findings};
use crate::model::Project;
use crate::project_config::Babel42Config;
use crate::text::str_views;

verus! {

/// The findings of `fs` whose severity is at least `min`, in order.
pub open spec fn keep_at_least(fs: Seq<FindingSpec>, min: Severity) -> Seq<FindingSpec>
    decreases fs.len(),
{
    if fs.len() == 0 {
        Seq::empty()
    } else {
        let rest = keep_at_least(fs.drop_last(), min);
        if severity_rank(fs.last().severity) >= severity_rank(min) {
            rest.push(fs.last())
        } else {
            rest
        }
    }
}

/// Filtering by severity keeps exactly the findings of `fs` at or above
/// `min`: each kept finding is one of `fs` with such a severity, and each such
/// finding of `fs` is kept.
pub proof fn lemma_keep_at_least(fs: Seq<FindingSpec>, min: Severity)
    ensures
        forall|k: int|
            0 <= k < keep_at_least(fs, min).len() ==> severity_rank(
                (#[trigger] keep_at_least(fs, min)[k]).severity,
            ) >= severity_rank(min) && fs.contains(keep_at_least(fs, min)[k]),
        forall|k: int|
            0 <= k < fs.len() && severity_rank((#[trigger] fs[k]).severity) >= severity_rank(min)
                ==> keep_at_least(fs, min).contains(fs[k]),
        keep_at_least(fs, min).len() <= fs.len(),
    decreases fs.len(),
{
    if fs.len() > 0 {
        let init = fs.drop_last();
        lemma_keep_at_least(init, min);
        let rest = keep_at_least(init, min);
        assert forall|k: int| 0 <= k < keep_at_least(fs, min).len() implies severity_rank(
            (#[trigger] keep_at_least(fs, min)[k]).severity,
        ) >= severity_rank(min) && fs.contains(keep_at_least(fs, min)[k]) by {
            if k < rest.len() {
                assert(keep_at_least(fs, min)[k] == rest[k]);
                let j = choose|j: int| 0 <= j < init.len() && init[j] == rest[k];
                assert(fs[j] == init[j]);
            } else {
                assert(fs[fs.len() - 1] == fs.last());
            }
        }
        assert forall|k: int|
            0 <= k < fs.len() && severity_rank((#[trigger] fs[k]).severity) >= severity_rank(
                min,
            ) implies keep_at_least(fs, min).contains(fs[k]) by {
            if k < fs.len() - 1 {
                assert(init[k] == fs[k]);
                let j = choose|j: int| 0 <= j < rest.len() && rest[j] == init[k];
                assert(keep_at_least(fs, min)[j] == rest[j]);
            } else {
                assert(keep_at_least(fs, min).last() == fs.last());
            }
        }
    }
}

/// The `skip_packages` of the options' configuration.
pub open spec fn opts_skip(opts: &CheckOpts) -> Option<Seq<Seq<char>>> {
    match opts.config {
        Some(c) => Some(str_views(c.skip_packages@)),
        None => None,
    }
}

/// What a check run reports before filtering, given the dependency rules'
/// findings `dep`: the rule sets in the order dependency, launch, runtime,
/// manifest, each where the options select it.
pub open spec fn unfiltered_findings(project: &Project, opts: &CheckOpts, dep: Seq<FindingSpec>) -> Seq<FindingSpec> {
    (if opts.rule_set.includes_dep_spec() { dep } else { Seq::empty() })
        + (if opts.rule_set.includes_launch_spec() { launch_findings(project) } else { Seq::empty() })
        + (if opts.rule_set.includes_runtime_spec() {
            runtime_findings(project.runtime_graph)
        } else {
            Seq::empty()
        })
        + (if opts.rule_set.includes_manifest_spec() { manifest_findings(project.packages@) } else { Seq::empty() })
}

/// What `run_checks` returns: the findings of the selected rule sets, in the
/// order dependency, launch, runtime, manifest, that have at least the
/// minimum severity.
pub open spec fn run_checks_findings(project: &Project, opts: &CheckOpts) -> Seq<FindingSpec> {
    keep_at_least(
        unfiltered_findings(project, opts, dep_check_findings(project, opts_skip(opts))),
        opts.min_severity,
    )
}

fn append_findings(out: &mut Vec<Finding>, more: Vec<Finding>)
    ensures
        finding_views(final(out)@) == finding_views(old(out)@) + finding_views(more@),
{
    let mut more = more;
    let ghost a = out@;
    let ghost b = more@;
    out.append(&mut more);
    assert(out@ =~= a + b);
    assert(finding_views(out@) =~= finding_views(a) + finding_views(b));
}

/// Runs the enabled rule sets and keeps the findings of at least the minimum
/// severity.
pub fn run_checks(project: &Project, opts: &CheckOpts) -> (r: Vec<Finding>)
    ensures
        finding_views(r@) == run_checks_findings(project, opts),
        forall|k: int|
            0 <= k < r@.len() ==> severity_rank((#[trigger] r@[k]).severity) >= severity_rank(
                opts.min_severity,
            ),
{
    let mut all: Vec<Finding> = Vec::new();
    let ghost dep: Seq<FindingSpec> = dep_check_findings(project, opts_skip(opts));
    if opts.rule_set.includes_dep() {
        let skip_cfg: Option<&Babel42Config> = match &opts.config {
            Some(c) => Some(c),
            None => None,
        };
        let d = check_dep_with_config(project, skip_cfg);
        append_findings(&mut all, d);
    }
    if opts.rule_set.includes_launch() {
        append_findings(&mut all, check_launch(project));
    }
    if opts.rule_set.includes_runtime() {
        append_findings(&mut all, check_runtime(project));
    }
    if opts.rule_set.includes_manifest() {
        append_findings(&mut all, check_manifest(project));
    }
    let ghost u = unfiltered_findings(project, opts, dep);
    assert(finding_views(all@) =~= u);
    let min = opts.min_severity;
    let mut out: Vec<Finding> = Vec::new();
    let ghost src = all@;
    assert(finding_views(out@) =~= keep_at_least(u.take(0), min));
    for f in it: all.into_iter()
        invariant
            it.seq() == src,
            finding_views(src) == u,
            min == opts.min_severity,
            finding_views(out@) == keep_at_least(u.take(it.index() as int), min),
    {
        let ghost i = it.index();
        assert(u.take(i + 1).drop_last() =~= u.take(i as int));
        assert(u.take(i + 1).last() == f@);
        if f.severity.at_least(&min) {
            let ghost before = finding_views(out@);
            out.push(f);
            assert(finding_views(out@) =~= before.push(f@));
        }
    }
    assert(u.take(u.len() as int) =~= u);
    proof {
        lemma_keep_at_least(u, min);
        assert forall|k: int| 0 <= k < out@.len() implies severity_rank(
            (#[trigger] out@[k]).severity,
        ) >= severity_rank(opts.min_severity) by {
            assert(finding_views(out@)[k] == out@[k]@);
        }
    }
    out
}

} // verus!
