//! setup.py reading for ament_python packages: the console_scripts entry points,
//! which name the executables of `ros2 run package executable`.
//!
//! An entry point is a quoted string `'name=module:func'` (or in double
//! quotes); the `regex` crate finds them.

use vstd::prelude::*;
use crate::text::{chars_of, find_char, first_index_of, lemma_first_index_of, string_of, sub_chars};

verus! {

/// Errors of the setup.py reader (the read error is the caller's).
#[derive(Debug)]
pub enum SetupPyError {
    Io(String),
}

/// What a setup.py declares.
pub struct SetupPyInfo {
    /// Executable names from entry_points['console_scripts'].
    pub entry_points: Vec<String>,
    /// (executable_name, module_path): module "foo.bar" is the file "foo/bar.py".
    pub entry_point_modules: Vec<(String, String)>,
}

/// The pattern of an entry point string: a quote, the script name (group 1),
/// `=`, `module:func` (group 2), a quote.
pub open spec fn entry_point_pattern() -> Seq<char> {
    "(?m)['\"]([a-zA-Z0-9_\\-.]+)=([a-zA-Z0-9_.]+:[a-zA-Z0-9_]+)['\"]"@
}

/// The entry point pattern.
pub fn entry_point_regex() -> (r: &'static str)
    ensures
        r@ == entry_point_pattern(),
{
    "(?m)['\"]([a-zA-Z0-9_\\-.]+)=([a-zA-Z0-9_.]+:[a-zA-Z0-9_]+)['\"]"
}

/// A character of an ASCII letter or digit.
pub open spec fn is_ascii_alnum(c: char) -> bool {
    ('a' <= c && c <= 'z') || ('A' <= c && c <= 'Z') || ('0' <= c && c <= '9')
}

/// A character that an entry point name may hold: `[a-zA-Z0-9_\-.]`.
pub open spec fn is_name_char(c: char) -> bool {
    is_ascii_alnum(c) || c == '_' || c == '-' || c == '.'
}

/// A character that a module path may hold: `[a-zA-Z0-9_.]`.
pub open spec fn is_module_char(c: char) -> bool {
    is_ascii_alnum(c) || c == '_' || c == '.'
}

/// A character that a function name may hold: `[a-zA-Z0-9_]`.
pub open spec fn is_func_char(c: char) -> bool {
    is_ascii_alnum(c) || c == '_'
}

/// A non-empty entry point name.
pub open spec fn is_entry_name(s: Seq<char>) -> bool {
    s.len() > 0 && forall|i: int| 0 <= i < s.len() ==> is_name_char(#[trigger] s[i])
}

/// A non-empty module path.
pub open spec fn is_module_path(s: Seq<char>) -> bool {
    s.len() > 0 && forall|i: int| 0 <= i < s.len() ==> is_module_char(#[trigger] s[i])
}

/// `module:func`: a non-empty module path, `:` at `k`, a non-empty function name.
pub open spec fn is_module_func_at(s: Seq<char>, k: int) -> bool {
    &&& 0 < k < s.len() - 1
    &&& s[k] == ':'
    &&& is_module_path(s.take(k))
    &&& forall|i: int| k < i < s.len() ==> is_func_char(#[trigger] s[i])
}

/// What the pattern's two groups match: a name, and `module:func`.
pub open spec fn is_entry_capture(c: (Seq<char>, Seq<char>)) -> bool {
    is_entry_name(c.0) && exists|k: int| is_module_func_at(c.1, k)
}

/// Groups 1 and 2 of each successive non-overlapping match of the entry point
/// pattern in `content`, in order (`regex::Regex::captures_iter`).
pub uninterp spec fn entry_point_captures(content: Seq<char>) -> Seq<(Seq<char>, Seq<char>)>;

/// The (group 1, group 2) pairs of `Regex::captures_iter` for the entry point
/// pattern over `content`: named by `entry_point_captures`. Each capture is
/// what its group of the pattern matches: group 1 one or more characters of
/// `[a-zA-Z0-9_\-.]`, group 2 one or more of `[a-zA-Z0-9_.]`, a `:`, and one
/// or more of `[a-zA-Z0-9_]`. The pattern compiles and both of its groups take
/// part in every match, so neither `unwrap` nor the group indexing panics.
#[verifier::external_body]
fn entry_point_matches(pattern: &str, content: &str) -> (r: Vec<(String, String)>)
    requires
        pattern@ == entry_point_pattern(),
    ensures
        r@.map_values(|p: (String, String)| (p.0@, p.1@)) == entry_point_captures(content@),
        forall|k: int| 0 <= k < r@.len() ==> is_entry_capture(((#[trigger] r@[k]).0@, r@[k].1@)),
{
    let re = regex::Regex::new(pattern).unwrap();
    re.captures_iter(content).map(|c| (c[1].to_string(), c[2].to_string())).collect()
}

/// The module of `module:func`: what comes before the first `:` (all of it
/// where there is none).
pub open spec fn module_part(s: Seq<char>) -> Seq<char> {
    match first_index_of(s, ':') {
        Some(i) => s.take(i),
        None => s,
    }
}

/// The (name, module) pairs of entry point captures.
pub open spec fn entry_point_modules_of(caps: Seq<(Seq<char>, Seq<char>)>) -> Seq<(Seq<char>, Seq<char>)> {
    caps.map_values(|c: (Seq<char>, Seq<char>)| (c.0, module_part(c.1)))
}

/// The views of (String, String) pairs.
pub open spec fn pair_str_views(v: Seq<(String, String)>) -> Seq<(Seq<char>, Seq<char>)> {
    v.map_values(|p: (String, String)| (p.0@, p.1@))
}

/// The setup.py information of these entry point captures: each capture's
/// name is an executable, and its module is what precedes the `:` of its
/// `module:func`.
pub fn setup_py_info_from(caps: &Vec<(String, String)>) -> (r: SetupPyInfo)
    ensures
        crate::text::str_views(r.entry_points@) == pair_str_views(caps@).map_values(
            |c: (Seq<char>, Seq<char>)| c.0,
        ),
        pair_str_views(r.entry_point_modules@) == entry_point_modules_of(pair_str_views(caps@)),
{
    let ghost cv = pair_str_views(caps@);
    let mut entry_points: Vec<String> = Vec::new();
    let mut entry_point_modules: Vec<(String, String)> = Vec::new();
    let mut i: usize = 0;
    while i < caps.len()
        invariant
            i <= caps@.len(),
            cv == pair_str_views(caps@),
            crate::text::str_views(entry_points@) == cv.take(i as int).map_values(
                |c: (Seq<char>, Seq<char>)| c.0,
            ),
            pair_str_views(entry_point_modules@) == entry_point_modules_of(cv.take(i as int)),
        decreases caps.len() - i,
    {
        let (n, mf) = &caps[i];
        let mv = chars_of(mf.as_str());
        assert(mv@ == mf@);
        proof {
            lemma_first_index_of(mf@, ':');
        }
        let module = match find_char(mv.as_slice(), ':') {
            Some(k) => {
                let m = sub_chars(mv.as_slice(), 0, k);
                assert(first_index_of(mf@, ':') == Some(k as int)) by {
                    if let Some(j) = first_index_of(mf@, ':') {
                        assert(0 <= j < mf@.len());
                        assert(j as usize == k);
                    }
                }
                assert(m@ =~= mf@.take(k as int));
                assert(m@ == module_part(mf@));
                m
            },
            None => {
                assert(first_index_of(mf@, ':') is None);
                mv
            },
        };
        assert(module@ == module_part(mf@));
        let ghost e0 = entry_points@;
        let ghost m0 = entry_point_modules@;
        entry_points.push(n.clone());
        entry_point_modules.push((n.clone(), string_of(module.as_slice())));
        assert(cv.take(i + 1) =~= cv.take(i as int).push(cv[i as int]));
        assert(crate::text::str_views(entry_points@) =~= crate::text::str_views(e0).push(n@));
        assert(pair_str_views(entry_point_modules@) =~= pair_str_views(m0).push((n@, module@)));
        i += 1;
    }
    assert(cv.take(i as int) =~= cv);
    SetupPyInfo { entry_points, entry_point_modules }
}

/// Parses setup.py content: the console_scripts entry points of the form
/// `'executable_name=package.module:main'` (single or double quotes).
pub fn parse_setup_py_str(content: &str) -> (r: SetupPyInfo)
    ensures
        crate::text::str_views(r.entry_points@) == entry_point_captures(content@).map_values(
            |c: (Seq<char>, Seq<char>)| c.0,
        ),
        pair_str_views(r.entry_point_modules@) == entry_point_modules_of(
            entry_point_captures(content@),
        ),
        r.entry_points@.len() == r.entry_point_modules@.len(),
        forall|i: int| 0 <= i < r.entry_points@.len() ==> is_entry_name((#[trigger] r.entry_points@[i])@),
        forall|i: int|
            0 <= i < r.entry_point_modules@.len() ==> is_module_path((#[trigger] r.entry_point_modules@[i]).1@),
{
    let caps = entry_point_matches(entry_point_regex(), content);
    let r = setup_py_info_from(&caps);
    proof {
        let cv = pair_str_views(caps@);
        assert(cv.len() == caps@.len());
        assert(crate::text::str_views(r.entry_points@).len() == r.entry_points@.len());
        assert(pair_str_views(r.entry_point_modules@).len() == r.entry_point_modules@.len());
        assert(entry_point_modules_of(cv).len() == cv.len());
        assert(r.entry_points@.len() == caps@.len());
        assert(r.entry_point_modules@.len() == caps@.len());
        assert forall|i: int| 0 <= i < r.entry_points@.len() implies is_entry_name(
            (#[trigger] r.entry_points@[i])@,
        ) by {
            assert(crate::text::str_views(r.entry_points@)[i] == r.entry_points@[i]@);
            assert(cv[i] == (caps@[i].0@, caps@[i].1@));
            assert(is_entry_capture((caps@[i].0@, caps@[i].1@)));
        }
        assert forall|i: int| 0 <= i < r.entry_point_modules@.len() implies is_module_path(
            (#[trigger] r.entry_point_modules@[i]).1@,
        ) by {
            assert(pair_str_views(r.entry_point_modules@)[i] == (
                r.entry_point_modules@[i].0@,
                r.entry_point_modules@[i].1@,
            ));
            assert(cv[i] == (caps@[i].0@, caps@[i].1@));
            assert(is_entry_capture((caps@[i].0@, caps@[i].1@)));
            let mf = caps@[i].1@;
            let k = choose|k: int| is_module_func_at(mf, k);
            lemma_first_index_of(mf, ':');
            assert forall|j: int| 0 <= j < k implies mf[j] != ':' by {
                assert(mf.take(k)[j] == mf[j]);
                assert(is_module_char(mf.take(k)[j]));
            }
            assert(first_index_of(mf, ':') == Some(k));
            assert(module_part(mf) == mf.take(k));
        }
    }
    r
}

} // verus!
