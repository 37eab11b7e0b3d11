//! SARIF 2.1.0 reports of findings, for GitHub Code Scanning.
//!
//! The report is built here as plain values; writing it as JSON is the
//! caller's.

use vstd::prelude::*;
use crate::checks::model::{Finding, FindingSpec, LocationSpec, Location, Severity, finding_views, opt_view};
use crate::model::{Package, Project};
use crate::paths::{join_of, path_join, path_strip_prefix, strip_prefix_of};
use crate::project::{dedup, lemma_dedup};
use crate::text::{chars_eq, chars_eq_str, chars_of, str_views, string_of};

verus! {

/// A rule of the report, with its short description.
pub struct SarifRule {
    pub id: String,
    pub short_description: String,
}

/// Where a result is: a file relative to the workspace root, and a line.
pub struct SarifLocation {
    pub uri: String,
    pub start_line: u32,
}

/// A result of the report: one finding.
pub struct SarifResult {
    pub rule_id: String,
    /// `error`, `warning` or `note`
    pub level: String,
    pub message: String,
    pub location: Option<SarifLocation>,
}

/// A SARIF log with one run of the tool.
pub struct SarifLog {
    pub schema: String,
    pub version: String,
    pub tool_name: String,
    pub information_uri: String,
    pub rules: Vec<SarifRule>,
    pub results: Vec<SarifResult>,
}

/// The SARIF level of a severity.
pub open spec fn sarif_level(sev: Severity) -> Seq<char> {
    match sev {
        Severity::Error => "error"@,
        Severity::Warn => "warning"@,
        Severity::Info => "note"@,
    }
}

/// The SARIF level of a severity.
pub fn severity_to_sarif_level(sev: Severity) -> (r: &'static str)
    ensures
        r@ == sarif_level(sev),
{
    match sev {
        Severity::Error => "error",
        Severity::Warn => "warning",
        Severity::Info => "note",
    }
}

/// The known rules and their short descriptions.
pub open spec fn rule_table() -> Seq<(Seq<char>, Seq<char>)> {
    seq![
        ("dep/find_package_missing"@, "find_package(X) in CMake but not in package.xml"@),
        ("dep/ament_target_undeclared"@, "ament_target_dependencies references package not in package.xml"@),
        ("dep/circular"@, "Circular dependency in package graph"@),
        ("launch/include_cycle"@, "Include cycle in launch file graph"@),
        ("launch/missing_package"@, "Included package not in workspace"@),
        ("runtime/topic_no_publisher"@, "Topic has subscriber(s) but no publishers"@),
        ("runtime/topic_no_subscriber"@, "Topic has publisher(s) but no subscribers"@),
        ("runtime/topic_type_mismatch"@, "Topic has publisher/subscriber type mismatch"@),
        ("runtime/service_type_mismatch"@, "Service has server/client type mismatch"@),
        ("manifest/missing_description"@, "Package has no description"@),
        ("manifest/no_maintainer"@, "Package has no maintainers"@),
    ]
}

/// The description of the first table entry for `id`.
pub open spec fn table_lookup(table: Seq<(Seq<char>, Seq<char>)>, id: Seq<char>) -> Option<Seq<char>>
    decreases table.len(),
{
    if table.len() == 0 {
        None
    } else if table[0].0 == id {
        Some(table[0].1)
    } else {
        table_lookup(table.drop_first(), id)
    }
}

/// The short description of a rule: the table's, or a generic one.
pub open spec fn rule_description_spec(id: Seq<char>) -> Seq<char> {
    match table_lookup(rule_table(), id) {
        Some(d) => d,
        None => "ROS2 project analysis finding"@,
    }
}

/// The short description of a rule.
pub fn rule_description(rule_id: &str) -> (r: &'static str)
    ensures
        r@ == rule_description_spec(rule_id@),
{
    let table: Vec<(&'static str, &'static str)> = vec![
        ("dep/find_package_missing", "find_package(X) in CMake but not in package.xml"),
        ("dep/ament_target_undeclared", "ament_target_dependencies references package not in package.xml"),
        ("dep/circular", "Circular dependency in package graph"),
        ("launch/include_cycle", "Include cycle in launch file graph"),
        ("launch/missing_package", "Included package not in workspace"),
        ("runtime/topic_no_publisher", "Topic has subscriber(s) but no publishers"),
        ("runtime/topic_no_subscriber", "Topic has publisher(s) but no subscribers"),
        ("runtime/topic_type_mismatch", "Topic has publisher/subscriber type mismatch"),
        ("runtime/service_type_mismatch", "Service has server/client type mismatch"),
        ("manifest/missing_description", "Package has no description"),
        ("manifest/no_maintainer", "Package has no maintainers"),
    ];
    let ghost tv = table@.map_values(|p: (&str, &str)| (p.0@, p.1@));
    assert(tv =~= rule_table());
    let id = chars_of(rule_id);
    let mut i: usize = 0;
    assert(tv.skip(0) =~= tv);
    while i < table.len()
        invariant
            i <= table@.len(),
            tv == table@.map_values(|p: (&str, &str)| (p.0@, p.1@)),
            tv == rule_table(),
            id@ == rule_id@,
            table_lookup(tv, rule_id@) == table_lookup(tv.skip(i as int), rule_id@),
        decreases table.len() - i,
    {
        assert(tv.skip(i as int)[0] == (table@[i as int].0@, table@[i as int].1@));
        assert(tv.skip(i as int).drop_first() =~= tv.skip(i + 1));
        if chars_eq_str(id.as_slice(), table[i].0) {
            return table[i].1;
        }
        i += 1;
    }
    "ROS2 project analysis finding"
}

/// The first package of this name.
pub open spec fn first_named(pkgs: Seq<Package>, name: Seq<char>) -> Option<Package>
    decreases pkgs.len(),
{
    if pkgs.len() == 0 {
        None
    } else if pkgs[0].manifest.name@ == name {
        Some(pkgs[0])
    } else {
        first_named(pkgs.drop_first(), name)
    }
}

/// The file of a location as a URI relative to the workspace root: the file
/// joined to the package's directory (`Package.path`), relative to the root
/// where it lies under it; none without a package and a file, or where no
/// package has that name.
pub open spec fn location_uri_spec(loc: LocationSpec, pkgs: Seq<Package>, root: Seq<char>) -> Option<Seq<char>> {
    if loc.package is Some && loc.file is Some {
        match first_named(pkgs, loc.package.unwrap()) {
            Some(pkg) => {
                let full = path_join(pkg.path@, loc.file.unwrap());
                match path_strip_prefix(full, root) {
                    Some(rel) => Some(rel),
                    None => Some(full),
                }
            },
            None => None,
        }
    } else {
        None
    }
}

/// Resolve a location to a URI relative to the workspace root.
pub fn location_uri(loc: &Location, project: &Project) -> (r: Option<String>)
    ensures
        opt_view(r) == location_uri_spec(loc@, project.packages@, project.workspace_root@),
{
    let (p, f) = match (&loc.package, &loc.file) {
        (Some(p), Some(f)) => (p, f),
        _ => return None,
    };
    let pkgs = &project.packages;
    let pv = chars_of(p.as_str());
    let mut i: usize = 0;
    assert(pkgs@.skip(0) =~= pkgs@);
    while i < pkgs.len()
        invariant
            i <= pkgs@.len(),
            pkgs@ == project.packages@,
            pv@ == p@,
            loc@.package == Some(p@),
            loc@.file == Some(f@),
            first_named(pkgs@, p@) == first_named(pkgs@.skip(i as int), p@),
        decreases pkgs.len() - i,
    {
        assert(pkgs@.skip(i as int)[0] == pkgs@[i as int]);
        assert(pkgs@.skip(i as int).drop_first() =~= pkgs@.skip(i + 1));
        let n = chars_of(pkgs[i].name());
        if chars_eq(n.as_slice(), pv.as_slice()) {
            assert(first_named(pkgs@, p@) == Some(pkgs@[i as int]));
            let path = pkgs[i].path.as_str();
            assert(path@ == pkgs@[i as int].path@);
            let full = join_of(path, f.as_str());
            return match strip_prefix_of(full.as_str(), project.workspace_root.as_str()) {
                Some(rel) => Some(rel),
                None => Some(full),
            };
        }
        i += 1;
    }
    None
}

/// The value of a rule.
pub open spec fn rule_view(r: SarifRule) -> (Seq<char>, Seq<char>) {
    (r.id@, r.short_description@)
}

/// The value of a result: rule, level, message, and location (URI, line).
pub open spec fn result_view(r: SarifResult) -> (Seq<char>, Seq<char>, Seq<char>, Option<(Seq<char>, u32)>) {
    (
        r.rule_id@,
        r.level@,
        r.message@,
        match r.location {
            Some(l) => Some((l.uri@, l.start_line)),
            None => None,
        },
    )
}

/// The result for a finding: its rule, level and message, and where it has a
/// location, the location's URI (`unknown` where none resolves) and line
/// (1 where it has none).
pub open spec fn result_of(f: FindingSpec, pkgs: Seq<Package>, root: Seq<char>) -> (
    Seq<char>,
    Seq<char>,
    Seq<char>,
    Option<(Seq<char>, u32)>,
) {
    (
        f.rule_id,
        sarif_level(f.severity),
        f.message,
        match f.location {
            Some(l) => Some(
                (
                    match location_uri_spec(l, pkgs, root) {
                        Some(u) => u,
                        None => "unknown"@,
                    },
                    match l.line {
                        Some(n) => n,
                        None => 1,
                    },
                ),
            ),
            None => None,
        },
    )
}

/// The rule ids of the findings, in order.
pub open spec fn rule_ids(fs: Seq<FindingSpec>) -> Seq<Seq<char>> {
    fs.map_values(|f: FindingSpec| f.rule_id)
}

/// What the SARIF report of these findings holds: the schema, version and
/// tool; one rule per distinct rule id (in order of first occurrence) with its
/// description; one result per finding, in order.
pub open spec fn sarif_spec(log: SarifLog, fs: Seq<FindingSpec>, pkgs: Seq<Package>, root: Seq<char>) -> bool {
    &&& log.schema@ == "https://raw.githubusercontent.com/oasis-tcs/sarif/sarif-2.1.0/sarif-schema-2.1.0.json"@
    &&& log.version@ == "2.1.0"@
    &&& log.tool_name@ == "babel42"@
    &&& log.information_uri@ == "https://github.com/elan8/babel42"@
    &&& log.rules@.map_values(|r: SarifRule| rule_view(r)) == dedup(rule_ids(fs)).map_values(
        |id: Seq<char>| (id, rule_description_spec(id)),
    )
    &&& log.results@.map_values(|r: SarifResult| result_view(r)) == fs.map_values(
        |f: FindingSpec| result_of(f, pkgs, root),
    )
}

fn sarif_result(f: &Finding, project: &Project) -> (r: SarifResult)
    ensures
        result_view(r) == result_of(f@, project.packages@, project.workspace_root@),
{
    let location = match &f.location {
        Some(loc) => {
            let uri = match location_uri(loc, project) {
                Some(u) => u,
                None => "unknown".to_string(),
            };
            let start_line = match loc.line {
                Some(n) => n,
                None => 1,
            };
            Some(SarifLocation { uri, start_line })
        },
        None => None,
    };
    SarifResult {
        rule_id: f.rule_id.clone(),
        level: severity_to_sarif_level(f.severity).to_string(),
        message: f.message.clone(),
        location,
    }
}

/// The SARIF 2.1.0 report of findings, for GitHub Code Scanning.
pub fn findings_to_sarif(findings: &[Finding], project: &Project) -> (r: SarifLog)
    ensures
        sarif_spec(r, finding_views(findings@), project.packages@, project.workspace_root@),
{
    let ghost fv = finding_views(findings@);
    let ghost ids = rule_ids(fv);
    let mut seen: Vec<String> = Vec::new();
    let mut rules: Vec<SarifRule> = Vec::new();
    let mut results: Vec<SarifResult> = Vec::new();
    let mut i: usize = 0;
    assert(ids.take(0) =~= Seq::<Seq<char>>::empty());
    assert(fv.take(0) =~= Seq::<FindingSpec>::empty());
    while i < findings.len()
        invariant
            i <= findings@.len(),
            fv == finding_views(findings@),
            ids == rule_ids(fv),
            str_views(seen@) == dedup(ids.take(i as int)),
            rules@.map_values(|r: SarifRule| rule_view(r)) == dedup(ids.take(i as int)).map_values(
                |id: Seq<char>| (id, rule_description_spec(id)),
            ),
            results@.map_values(|r: SarifResult| result_view(r)) == fv.take(i as int).map_values(
                |f: FindingSpec| result_of(f, project.packages@, project.workspace_root@),
            ),
        decreases findings.len() - i,
    {
        let f = &findings[i];
        assert(ids.take(i + 1).drop_last() =~= ids.take(i as int));
        assert(ids.take(i + 1).last() == f.rule_id@);
        let ghost d0 = dedup(ids.take(i as int));
        let idv = chars_of(f.rule_id.as_str());
        let mut k: usize = 0;
        let mut known = false;
        while k < seen.len() && !known
            invariant
                k <= seen@.len(),
                idv@ == f.rule_id@,
                known ==> str_views(seen@).contains(f.rule_id@),
                !known ==> forall|q: int| 0 <= q < k ==> (#[trigger] seen@[q])@ != f.rule_id@,
            decreases seen.len() - k + (if known { 0int } else { 1int }),
        {
            let sv = chars_of(seen[k].as_str());
            if chars_eq(sv.as_slice(), idv.as_slice()) {
                assert(str_views(seen@)[k as int] == f.rule_id@);
                known = true;
            } else {
                k += 1;
            }
        }
        if !known {
            proof {
                if str_views(seen@).contains(f.rule_id@) {
                    let q = choose|q: int| 0 <= q < str_views(seen@).len() && str_views(seen@)[q] == f.rule_id@;
                    assert(seen@[q]@ == f.rule_id@);
                }
            }
            let ghost sb = seen@;
            let ghost rb = rules@;
            seen.push(f.rule_id.clone());
            let d = rule_description(f.rule_id.as_str());
            rules.push(SarifRule { id: f.rule_id.clone(), short_description: d.to_string() });
            assert(str_views(seen@) =~= str_views(sb).push(f.rule_id@));
            assert(rules@.map_values(|r: SarifRule| rule_view(r)) =~= rb.map_values(|r: SarifRule| rule_view(r)).push(
                (f.rule_id@, rule_description_spec(f.rule_id@)),
            ));
            assert(d0.push(f.rule_id@).map_values(|id: Seq<char>| (id, rule_description_spec(id)))
                =~= d0.map_values(|id: Seq<char>| (id, rule_description_spec(id))).push(
                (f.rule_id@, rule_description_spec(f.rule_id@)),
            ));
        }
        let ghost resb = results@;
        let res = sarif_result(f, project);
        results.push(res);
        assert(fv.take(i + 1) =~= fv.take(i as int).push(f@));
        assert(results@.map_values(|r: SarifResult| result_view(r)) =~= resb.map_values(
            |r: SarifResult| result_view(r),
        ).push(result_of(f@, project.packages@, project.workspace_root@)));
        i += 1;
    }
    assert(ids.take(i as int) =~= ids);
    assert(fv.take(i as int) =~= fv);
    SarifLog {
        schema: "https://raw.githubusercontent.com/oasis-tcs/sarif/sarif-2.1.0/sarif-schema-2.1.0.json".to_string(),
        version: "2.1.0".to_string(),
        tool_name: "babel42".to_string(),
        information_uri: "https://github.com/elan8/babel42".to_string(),
        rules,
        results,
    }
}

/// The rule ids of a report's rules, in order.
pub open spec fn log_rule_ids(log: SarifLog) -> Seq<Seq<char>> {
    log.rules@.map_values(|r: SarifRule| r.id@)
}

/// The report names each rule once, and exactly the rules of the findings;
/// it has one result per finding.
pub proof fn lemma_sarif_rules_distinct(log: SarifLog, fs: Seq<FindingSpec>, pkgs: Seq<Package>, root: Seq<char>)
    requires
        sarif_spec(log, fs, pkgs, root),
    ensures
        log_rule_ids(log).no_duplicates(),
        forall|id: Seq<char>| log_rule_ids(log).contains(id) <==> rule_ids(fs).contains(id),
        log.results@.len() == fs.len(),
{
    lemma_dedup(rule_ids(fs));
    let d = dedup(rule_ids(fs));
    let rv = log.rules@.map_values(|r: SarifRule| rule_view(r));
    let dv = d.map_values(|id: Seq<char>| (id, rule_description_spec(id)));
    assert(rv.len() == dv.len());
    assert forall|k: int| 0 <= k < log_rule_ids(log).len() implies log_rule_ids(log)[k] == d[k] by {
        assert(rv[k] == dv[k]);
    }
    assert(log_rule_ids(log) =~= d);
    assert(log.results@.map_values(|r: SarifResult| result_view(r)).len() == fs.map_values(
        |f: FindingSpec| result_of(f, pkgs, root),
    ).len());
}

} // verus!
