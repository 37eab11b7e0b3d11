//! YAML configuration files of packages (config/*.yaml): a file's text is
//! kept where `serde_yaml` reads it as a YAML value.

use vstd::prelude::*;
use crate::checks::model::opt_view;
use crate::model::ConfigFile;

verus! {

/// Whether `serde_yaml::from_str` reads `text` as a `serde_yaml::Value`.
pub uninterp spec fn yaml_value_parses(text: Seq<char>) -> bool;

/// `serde_yaml::from_str::<serde_yaml::Value>`, whether it succeeds: named by
/// `yaml_value_parses`.
#[verifier::external_body]
fn yaml_parses(text: &str) -> (r: bool)
    ensures
        r == yaml_value_parses(text@),
{
    serde_yaml::from_str::<serde_yaml::Value>(text).is_ok()
}

/// The content a configuration file keeps: its text, where it was read and
/// parses as YAML.
pub open spec fn config_content(text: Option<Seq<char>>) -> Option<Seq<char>> {
    match text {
        Some(t) => if yaml_value_parses(t) {
            Some(t)
        } else {
            None
        },
        None => None,
    }
}

/// The configuration file at `path` (relative to the package) with the text
/// that was read from it, if any.
pub fn config_file(path: &str, text: Option<String>) -> (r: ConfigFile)
    ensures
        r.path@ == path@,
        opt_view(r.content) == config_content(opt_view(text)),
{
    let content = match text {
        Some(t) => if yaml_parses(t.as_str()) {
            Some(t)
        } else {
            None
        },
        None => None,
    };
    ConfigFile { path: path.to_string(), content }
}

} // verus!
