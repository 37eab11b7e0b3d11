//! Findings of the check rules: severity, location, fix hints; rule sets and
//! the exit policy.

use vstd::prelude::*;
use crate::project_config::Babel42Config;
use crate::text::{chars_of, push_str, string_of, lowercase, lower_chars, chars_eq_str};

verus! {

/// Severity level for a finding, ordered Info < Warn < Error.
#[derive(Clone, Copy, Debug, PartialEq, Eq, Structural)]
pub enum Severity {
    Info,
    Warn,
    Error,
}

/// The position of a severity in the order Info < Warn < Error.
pub open spec fn severity_rank(s: Severity) -> int {
    match s {
        Severity::Info => 0,
        Severity::Warn => 1,
        Severity::Error => 2,
    }
}

impl Severity {
    /// The position of this severity in the order Info < Warn < Error.
    pub fn rank(&self) -> (r: u8)
        ensures
            r as int == severity_rank(*self),
    {
        match self {
            Severity::Info => 0,
            Severity::Warn => 1,
            Severity::Error => 2,
        }
    }

    /// `self >= other` in the order Info < Warn < Error.
    pub fn at_least(&self, other: &Severity) -> (r: bool)
        ensures
            r == (severity_rank(*self) >= severity_rank(*other)),
    {
        self.rank() >= other.rank()
    }
}

/// Location of a finding (package, file, optional line).
pub struct Location {
    pub package: Option<String>,
    pub file: Option<String>,
    pub line: Option<u32>,
    pub context: Option<String>,
}

/// The value of an optional string.
pub open spec fn opt_view(o: Option<String>) -> Option<Seq<char>> {
    match o {
        Some(s) => Some(s@),
        None => None,
    }
}

/// The value of a location.
pub struct LocationSpec {
    pub package: Option<Seq<char>>,
    pub file: Option<Seq<char>>,
    pub line: Option<u32>,
    pub context: Option<Seq<char>>,
}

impl View for Location {
    type V = LocationSpec;

    open spec fn view(&self) -> LocationSpec {
        LocationSpec {
            package: opt_view(self.package),
            file: opt_view(self.file),
            line: self.line,
            context: opt_view(self.context),
        }
    }
}

impl Default for Location {
    fn default() -> (r: Self)
        ensures
            r@ == (LocationSpec { package: None, file: None, line: None, context: None }),
    {
        Location { package: None, file: None, line: None, context: None }
    }
}

/// A single finding from a check rule.
pub struct Finding {
    pub rule_id: String,
    pub severity: Severity,
    pub message: String,
    pub location: Option<Location>,
    pub fix_hint: Option<String>,
}

/// The value of a finding.
pub struct FindingSpec {
    pub rule_id: Seq<char>,
    pub severity: Severity,
    pub message: Seq<char>,
    pub location: Option<LocationSpec>,
    pub fix_hint: Option<Seq<char>>,
}

impl View for Finding {
    type V = FindingSpec;

    open spec fn view(&self) -> FindingSpec {
        FindingSpec {
            rule_id: self.rule_id@,
            severity: self.severity,
            message: self.message@,
            location: match self.location {
                Some(l) => Some(l@),
                None => None,
            },
            fix_hint: opt_view(self.fix_hint),
        }
    }
}

/// The values of a sequence of findings.
pub open spec fn finding_views(v: Seq<Finding>) -> Seq<FindingSpec> {
    v.map_values(|f: Finding| f@)
}

impl Finding {
    /// A finding with this rule, severity and message, and no location or fix hint.
    pub fn new(rule_id: &str, severity: Severity, message: &str) -> (r: Self)
        ensures
            r@ == (FindingSpec {
                rule_id: rule_id@,
                severity,
                message: message@,
                location: None,
                fix_hint: None,
            }),
    {
        let rid = chars_of(rule_id);
        let msg = chars_of(message);
        Finding {
            rule_id: string_of(rid.as_slice()),
            severity,
            message: string_of(msg.as_slice()),
            location: None,
            fix_hint: None,
        }
    }

    /// The same finding located at `location`.
    pub fn with_location(self, location: Location) -> (r: Self)
        ensures
            r@ == (FindingSpec { location: Some(location@), ..self@ }),
    {
        let mut s = self;
        s.location = Some(location);
        s
    }

    /// The same finding with fix hint `fix_hint`.
    pub fn with_fix_hint(self, fix_hint: &str) -> (r: Self)
        ensures
            r@ == (FindingSpec { fix_hint: Some(fix_hint@), ..self@ }),
    {
        let v = chars_of(fix_hint);
        let mut s = self;
        s.fix_hint = Some(string_of(v.as_slice()));
        s
    }
}

/// Which rule sets to run.
#[derive(Clone, Copy, Debug, PartialEq, Eq, Structural)]
pub enum RuleSet {
    All,
    Dep,
    Launch,
    Runtime,
    Manifest,
}

impl Default for RuleSet {
    fn default() -> (r: Self)
        ensures
            r == RuleSet::All,
    {
        RuleSet::All
    }
}

impl RuleSet {
    /// Whether the dep rules run under this rule set.
    pub open spec fn includes_dep_spec(&self) -> bool {
        *self == RuleSet::All || *self == RuleSet::Dep
    }

    /// Whether the dep rules run under this rule set.
    pub fn includes_dep(&self) -> (r: bool)
        ensures
            r == self.includes_dep_spec(),
    {
        matches!(self, RuleSet::All | RuleSet::Dep)
    }

    /// Whether the launch rules run under this rule set.
    pub open spec fn includes_launch_spec(&self) -> bool {
        *self == RuleSet::All || *self == RuleSet::Launch
    }

    /// Whether the launch rules run under this rule set.
    pub fn includes_launch(&self) -> (r: bool)
        ensures
            r == self.includes_launch_spec(),
    {
        matches!(self, RuleSet::All | RuleSet::Launch)
    }

    /// Whether the runtime rules run under this rule set.
    pub open spec fn includes_runtime_spec(&self) -> bool {
        *self == RuleSet::All || *self == RuleSet::Runtime
    }

    /// Whether the runtime rules run under this rule set.
    pub fn includes_runtime(&self) -> (r: bool)
        ensures
            r == self.includes_runtime_spec(),
    {
        matches!(self, RuleSet::All | RuleSet::Runtime)
    }

    /// Whether the manifest rules run under this rule set.
    pub open spec fn includes_manifest_spec(&self) -> bool {
        *self == RuleSet::All || *self == RuleSet::Manifest
    }

    /// Whether the manifest rules run under this rule set.
    pub fn includes_manifest(&self) -> (r: bool)
        ensures
            r == self.includes_manifest_spec(),
    {
        matches!(self, RuleSet::All | RuleSet::Manifest)
    }
}

/// The rule set that a lowercased name selects.
pub open spec fn spec_rule_set(lower: Seq<char>) -> Option<RuleSet> {
    if lower == "all"@ {
        Some(RuleSet::All)
    } else if lower == "dep"@ {
        Some(RuleSet::Dep)
    } else if lower == "launch"@ {
        Some(RuleSet::Launch)
    } else if lower == "runtime"@ {
        Some(RuleSet::Runtime)
    } else if lower == "manifest"@ {
        Some(RuleSet::Manifest)
    } else {
        None
    }
}

/// `prefix` followed by `s`, as a string.
fn error_text(prefix: &str, s: &str) -> (r: String)
    ensures
        r@ == prefix@ + s@,
{
    let mut v: Vec<char> = Vec::new();
    push_str(&mut v, prefix);
    push_str(&mut v, s);
    assert(v@ =~= prefix@ + s@);
    string_of(v.as_slice())
}

/// Parses a rule set name, in any case: all, dep, launch, runtime, manifest.
pub fn parse_rule_set(s: &str) -> (r: Result<RuleSet, String>)
    ensures
        match r {
            Ok(rs) => spec_rule_set(lowercase(s@)) == Some(rs),
            Err(e) => spec_rule_set(lowercase(s@)) is None && e@ == "Unknown rule set: "@ + s@,
        },
{
    let v = chars_of(s);
    let l = lower_chars(v.as_slice());
    if chars_eq_str(l.as_slice(), "all") {
        Ok(RuleSet::All)
    } else if chars_eq_str(l.as_slice(), "dep") {
        Ok(RuleSet::Dep)
    } else if chars_eq_str(l.as_slice(), "launch") {
        Ok(RuleSet::Launch)
    } else if chars_eq_str(l.as_slice(), "runtime") {
        Ok(RuleSet::Runtime)
    } else if chars_eq_str(l.as_slice(), "manifest") {
        Ok(RuleSet::Manifest)
    } else {
        Err(error_text("Unknown rule set: ", s))
    }
}

impl std::str::FromStr for RuleSet {
    type Err = String;

    fn from_str(s: &str) -> (r: Result<Self, Self::Err>)
        ensures
            match r {
                Ok(rs) => spec_rule_set(lowercase(s@)) == Some(rs),
                Err(e) => spec_rule_set(lowercase(s@)) is None && e@ == "Unknown rule set: "@ + s@,
            },
    {
        parse_rule_set(s)
    }
}

/// Options for running checks.
pub struct CheckOpts {
    /// Minimum severity to include (Info, Warn, or Error)
    pub min_severity: Severity,
    /// Which rule sets to run
    pub rule_set: RuleSet,
    /// Fail (exit 1) when findings >= this severity exist
    pub fail_on: FailOn,
    /// Optional project configuration (skip_packages, etc.)
    pub config: Option<Babel42Config>,
}

impl Default for CheckOpts {
    fn default() -> (r: Self)
        ensures
            r.min_severity == Severity::Warn,
            r.rule_set == RuleSet::All,
            r.fail_on == FailOn::Error,
            r.config is None,
    {
        CheckOpts {
            min_severity: Severity::Warn,
            rule_set: RuleSet::All,
            fail_on: FailOn::Error,
            config: None,
        }
    }
}

/// Which findings make a check run fail.
#[derive(Clone, Copy, Debug, PartialEq, Eq, Structural)]
pub enum FailOn {
    Never,
    Info,
    Warn,
    Error,
}

/// The fail-on policy that a lowercased name selects.
pub open spec fn spec_fail_on(lower: Seq<char>) -> Option<FailOn> {
    if lower == "none"@ {
        Some(FailOn::Never)
    } else if lower == "info"@ {
        Some(FailOn::Info)
    } else if lower == "warn"@ {
        Some(FailOn::Warn)
    } else if lower == "error"@ {
        Some(FailOn::Error)
    } else {
        None
    }
}

/// Parses a fail-on policy name, in any case: none, info, warn, error.
pub fn parse_fail_on(s: &str) -> (r: Result<FailOn, String>)
    ensures
        match r {
            Ok(f) => spec_fail_on(lowercase(s@)) == Some(f),
            Err(e) => spec_fail_on(lowercase(s@)) is None && e@ == "Unknown fail-on: "@ + s@,
        },
{
    let v = chars_of(s);
    let l = lower_chars(v.as_slice());
    if chars_eq_str(l.as_slice(), "none") {
        Ok(FailOn::Never)
    } else if chars_eq_str(l.as_slice(), "info") {
        Ok(FailOn::Info)
    } else if chars_eq_str(l.as_slice(), "warn") {
        Ok(FailOn::Warn)
    } else if chars_eq_str(l.as_slice(), "error") {
        Ok(FailOn::Error)
    } else {
        Err(error_text("Unknown fail-on: ", s))
    }
}

impl std::str::FromStr for FailOn {
    type Err = String;

    fn from_str(s: &str) -> (r: Result<Self, Self::Err>)
        ensures
            match r {
                Ok(f) => spec_fail_on(lowercase(s@)) == Some(f),
                Err(e) => spec_fail_on(lowercase(s@)) is None && e@ == "Unknown fail-on: "@ + s@,
            },
    {
        parse_fail_on(s)
    }
}

/// Whether a run with findings of these severities fails under `f`.
pub open spec fn spec_should_fail(f: FailOn, has_error: bool, has_warn: bool, has_info: bool) -> bool {
    match f {
        FailOn::Never => false,
        FailOn::Error => has_error,
        FailOn::Warn => has_error || has_warn,
        FailOn::Info => has_error || has_warn || has_info,
    }
}

impl FailOn {
    /// Whether a run with findings of these severities fails.
    pub fn should_fail(&self, has_error: bool, has_warn: bool, has_info: bool) -> (r: bool)
        ensures
            r == spec_should_fail(*self, has_error, has_warn, has_info),
    {
        match self {
            FailOn::Never => false,
            FailOn::Error => has_error,
            FailOn::Warn => has_error || has_warn,
            FailOn::Info => has_error || has_warn || has_info,
        }
    }
}

/// A stricter policy fails whenever a laxer one does: Never, Error, Warn, Info
/// fail on ever more findings.
pub proof fn lemma_should_fail_monotone(has_error: bool, has_warn: bool, has_info: bool)
    ensures
        !spec_should_fail(FailOn::Never, has_error, has_warn, has_info),
        spec_should_fail(FailOn::Error, has_error, has_warn, has_info) ==> spec_should_fail(
            FailOn::Warn,
            has_error,
            has_warn,
            has_info,
        ),
        spec_should_fail(FailOn::Warn, has_error, has_warn, has_info) ==> spec_should_fail(
            FailOn::Info,
            has_error,
            has_warn,
            has_info,
        ),
        !has_error && !has_warn && !has_info ==> !spec_should_fail(
            FailOn::Info,
            has_error,
            has_warn,
            has_info,
        ),
{
}

} // verus!
