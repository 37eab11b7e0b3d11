//! Parsers for .msg, .srv and .action interface definitions.

use vstd::prelude::*;
use crate::model::{ActionDefinition, FieldDef, FieldSpec, MsgDefinition, SrvDefinition, field_views};
use crate::paths::{file_stem_of, path_file_stem};
use crate::text::{
    chars_of, contains_sub, find_sub, find_sub_exec, last_index_of, lemma_find_sub_occurs,
    lemma_last_index_of, occurs_at, parse_u32,
    parse_u32_chars, rfind_char, seg_or_empty, split_on, split_str, string_of, sub_chars, trim,
    trim_chars, ws_tokens, ws_tokens_exec, views,
};

verus! {

/// Errors of the interface file parsers (the read error is the caller's).
#[derive(Debug)]
pub enum InterfaceError {
    Io(String),
    Parse(String),
}

/// The field that a line of an interface file declares: `type name`,
/// `type[] name` (unbounded, length 0) or `type[N] name`. Blank lines,
/// comment lines and lines with other than two tokens declare none; a bracket
/// that does not hold a `u32` gives no length.
pub open spec fn spec_field_line(line: Seq<char>) -> Option<FieldSpec> {
    let t = trim(line);
    if t.len() == 0 || t[0] == '#' {
        None
    } else {
        let toks = ws_tokens(t);
        if toks.len() != 2 {
            None
        } else {
            let tp = toks[0];
            if tp.len() > 0 && tp.last() == ']' {
                match last_index_of(tp, '[') {
                    None => None,
                    Some(open) => {
                        let bracket = tp.subrange(open + 1, tp.len() - 1);
                        Some(
                            FieldSpec {
                                field_type: tp.take(open),
                                name: toks[1],
                                array_len: if bracket.len() == 0 {
                                    Some(0u32)
                                } else {
                                    parse_u32(bracket)
                                },
                            },
                        )
                    },
                }
            } else {
                Some(FieldSpec { field_type: tp, name: toks[1], array_len: None })
            }
        }
    }
}

/// The fields that a sequence of lines declares, in order.
pub open spec fn fields_of_lines(lines: Seq<Seq<char>>) -> Seq<FieldSpec>
    decreases lines.len(),
{
    if lines.len() == 0 {
        Seq::empty()
    } else {
        let rest = fields_of_lines(lines.drop_last());
        match spec_field_line(lines.last()) {
            Some(f) => rest.push(f),
            None => rest,
        }
    }
}

/// The fields that a section of an interface file declares.
pub open spec fn spec_fields(text: Seq<char>) -> Seq<FieldSpec> {
    fields_of_lines(split_on(text, '\n'))
}

/// The section separator of .srv and .action files.
pub open spec fn separator() -> Seq<char> {
    seq!['-', '-', '-']
}


/// The definition name for a file path: its file stem, or `Unknown` where it has none.
pub open spec fn interface_name(path: Seq<char>) -> Seq<char> {
    match path_file_stem(path) {
        Some(s) => s,
        None => seq!['U', 'n', 'k', 'n', 'o', 'w', 'n'],
    }
}

fn name_of_path(path: &str) -> (r: String)
    ensures
        r@ == interface_name(path@),
{
    match file_stem_of(path) {
        Some(s) => s,
        None => {
            let v = vec!['U', 'n', 'k', 'n', 'o', 'w', 'n'];
            assert(v@ =~= seq!['U', 'n', 'k', 'n', 'o', 'w', 'n']);
            string_of(v.as_slice())
        },
    }
}

/// The separator `---` as characters.
fn separator_chars() -> (r: Vec<char>)
    ensures
        r@ == separator(),
{
    let r = vec!['-', '-', '-'];
    assert(r@ =~= separator());
    r
}

fn parse_field_chars(line: &[char]) -> (r: Option<FieldDef>)
    ensures
        match r {
            Some(f) => spec_field_line(line@) == Some(f@),
            None => spec_field_line(line@).is_none(),
        },
{
    let t = trim_chars(line);
    if t.len() == 0 || t[0] == '#' {
        return None;
    }
    let toks = ws_tokens_exec(t.as_slice());
    if toks.len() != 2 {
        return None;
    }
    let tp = &toks[0];
    let name = string_of(toks[1].as_slice());
    assert(views(toks@)[0] == toks@[0]@);
    assert(views(toks@)[1] == toks@[1]@);
    if tp.len() > 0 && tp[tp.len() - 1] == ']' {
        match rfind_char(tp.as_slice(), '[') {
            None => None,
            Some(open) => {
                proof {
                    lemma_last_index_of(tp@, '[');
                }
                assert(open < tp@.len() - 1);
                let base = sub_chars(tp.as_slice(), 0, open);
                let bracket = sub_chars(tp.as_slice(), open + 1, tp.len() - 1);
                let array_len = if bracket.len() == 0 {
                    Some(0u32)
                } else {
                    parse_u32_chars(bracket.as_slice())
                };
                assert(base@ =~= tp@.take(open as int));
                Some(FieldDef { field_type: string_of(base.as_slice()), name, array_len })
            },
        }
    } else {
        Some(FieldDef { field_type: string_of(tp.as_slice()), name, array_len: None })
    }
}

/// Parses one line of an interface file: `type name`, `type[] name` or `type[N] name`.
pub fn parse_field_line(line: &str) -> (r: Option<FieldDef>)
    ensures
        match r {
            Some(f) => spec_field_line(line@) == Some(f@),
            None => spec_field_line(line@).is_none(),
        },
{
    let v = chars_of(line);
    parse_field_chars(v.as_slice())
}

fn fields_of_chars(v: &[char]) -> (r: Vec<FieldDef>)
    ensures
        field_views(r@) == spec_fields(v@),
{
    let mut out: Vec<FieldDef> = Vec::new();
    let mut cur: Vec<char> = Vec::new();
    let ghost mut done: Seq<Seq<char>> = Seq::empty();
    let mut i: usize = 0;
    assert(v@.take(0) =~= Seq::<char>::empty());
    assert(split_on(Seq::<char>::empty(), '\n') =~= done.push(cur@));
    assert(field_views(out@) =~= fields_of_lines(done));
    while i < v.len()
        invariant
            i <= v@.len(),
            split_on(v@.take(i as int), '\n') == done.push(cur@),
            field_views(out@) == fields_of_lines(done),
        decreases v.len() - i,
    {
        let c = v[i];
        assert(v@.take(i + 1).drop_last() =~= v@.take(i as int));
        assert(v@.take(i + 1).last() == c);
        if c == '\n' {
            let ghost old_out = field_views(out@);
            let ghost line = cur@;
            match parse_field_chars(cur.as_slice()) {
                Some(f) => {
                    out.push(f);
                    assert(field_views(out@) =~= old_out.push(f@));
                },
                None => {},
            }
            proof {
                assert(done.push(line).drop_last() =~= done);
                done = done.push(line);
            }
            cur = Vec::new();
            assert(split_on(v@.take(i + 1), '\n') =~= done.push(cur@));
        } else {
            let ghost old_cur = cur@;
            cur.push(c);
            assert(split_on(v@.take(i + 1), '\n') =~= done.push(cur@)) by {
                let rest = done.push(old_cur);
                assert(rest.update(rest.len() - 1, old_cur.push(c)) =~= done.push(cur@));
            }
        }
        i += 1;
    }
    assert(v@.take(i as int) =~= v@);
    let ghost old_out = field_views(out@);
    match parse_field_chars(cur.as_slice()) {
        Some(f) => {
            out.push(f);
            assert(field_views(out@) =~= old_out.push(f@));
        },
        None => {},
    }
    assert(done.push(cur@).drop_last() =~= done);
    out
}

/// Parses the fields of an interface file section, one per declaring line.
pub fn parse_fields(text: &str) -> (r: Vec<FieldDef>)
    ensures
        field_views(r@) == spec_fields(text@),
{
    let v = chars_of(text);
    fields_of_chars(v.as_slice())
}

/// Parses a .msg file's text; `path` names the message (its file stem).
pub fn parse_msg_str(content: &str, path: &str) -> (r: Result<MsgDefinition, String>)
    ensures
        r matches Ok(m) && m.name@ == interface_name(path@) && field_views(m.fields@)
            == spec_fields(content@),
{
    let name = name_of_path(path);
    let fields = parse_fields(content);
    Ok(MsgDefinition { name, fields })
}

/// The request and response sections of a .srv file: the text before the first
/// `---`, and the text after it (empty where there is none).
pub open spec fn srv_sections(s: Seq<char>) -> (Seq<char>, Seq<char>) {
    match find_sub(s, separator()) {
        Some(i) => (s.take(i), s.skip(i + 3)),
        None => (s, Seq::empty()),
    }
}

/// Parses a .srv file's text (request `---` response); `path` names the service.
pub fn parse_srv_str(content: &str, path: &str) -> (r: Result<SrvDefinition, String>)
    ensures
        r matches Ok(d) && d.name@ == interface_name(path@) && field_views(d.request@)
            == spec_fields(srv_sections(content@).0) && field_views(d.response@) == spec_fields(
            srv_sections(content@).1,
        ),
{
    let name = name_of_path(path);
    let v = chars_of(content);
    let sep = separator_chars();
    assert(sep@.len() == 3);
    let n = v.len();
    let (req, resp) = match find_sub_exec(v.as_slice(), sep.as_slice()) {
        Some(i) => {
            assert(i + 3 <= n);
            (sub_chars(v.as_slice(), 0, i), sub_chars(v.as_slice(), i + 3, n))
        },
        None => (v.clone(), Vec::new()),
    };
    assert(req@ =~= srv_sections(content@).0);
    assert(resp@ =~= srv_sections(content@).1);
    let request = fields_of_chars(req.as_slice());
    let response = fields_of_chars(resp.as_slice());
    Ok(SrvDefinition { name, request, response })
}

proof fn lemma_split_str_nonempty(s: Seq<char>, p: Seq<char>)
    ensures
        split_str(s, p).len() >= 1,
    decreases s.len(),
{
    if p.len() > 0 {
        if let Some(i) = find_sub(s, p) {
            if 0 <= i && i + p.len() <= s.len() {
                lemma_split_str_nonempty(s.skip(i + p.len()), p);
            }
        }
    }
}

/// The first segment of `v` before the separator, and the text after that
/// separator where there is one.
fn first_segment(v: &[char], sep: &[char]) -> (r: (Vec<char>, Option<Vec<char>>))
    requires
        sep@ == separator(),
    ensures
        r.0@ == split_str(v@, sep@)[0],
        match r.1 {
            Some(rest) => split_str(v@, sep@) == seq![r.0@] + split_str(rest@, sep@),
            None => split_str(v@, sep@) == seq![v@],
        },
{
    assert(sep@.len() == 3);
    match find_sub_exec(v, sep) {
        Some(i) => {
            let n = v.len();
            assert(i + 3 <= n);
            let a = sub_chars(v, 0, i);
            let b = sub_chars(v, i + 3, v.len());
            assert(a@ =~= v@.take(i as int));
            assert(b@ =~= v@.skip(i + 3));
            (a, Some(b))
        },
        None => {
            let a = sub_chars(v, 0, v.len());
            assert(a@ =~= v@);
            (a, None)
        },
    }
}

/// The goal, result and feedback sections of a .action file: the first three
/// `---`-separated segments, each empty where the file has fewer.
pub open spec fn action_sections(s: Seq<char>) -> (Seq<char>, Seq<char>, Seq<char>) {
    let segs = split_str(s, separator());
    (segs[0], seg_or_empty(segs, 1), seg_or_empty(segs, 2))
}

/// `s` holds no `---` and does not end in `-`: a `---` written right after it
/// is the first one of the text.
pub open spec fn ends_before_separator(s: Seq<char>) -> bool {
    !contains_sub(s, seq!['-', '-', '-']) && (s.len() == 0 || s.last() != '-')
}

#[verifier::rlimit(30)]
proof fn lemma_first_separator(g: Seq<char>, rest: Seq<char>)
    requires
        ends_before_separator(g),
    ensures
        find_sub(g + separator() + rest, separator()) == Some(g.len() as int),
{
    let p = separator();
    let s = g + p + rest;
    let n = g.len() as int;
    assert(p =~= seq!['-', '-', '-']);
    lemma_find_sub_occurs(s, p);
    assert(s.subrange(n, n + 3) =~= p);
    assert(occurs_at(s, p, n));
    assert forall|k: int| 0 <= k < n implies !occurs_at(s, p, k) by {
        if occurs_at(s, p, k) {
            if k + 3 <= n {
                assert(g.subrange(k, k + 3) =~= s.subrange(k, k + 3));
                assert(occurs_at(g, p, k));
            } else {
                assert(s.subrange(k, k + 3)[n - 1 - k] == s[n - 1]);
                assert(s[n - 1] == g.last());
            }
        }
    }
    match find_sub(s, p) {
        Some(i) => {
            if i < n {
                assert(!occurs_at(s, p, i));
            }
            if i > n {
                assert(!occurs_at(s, p, n));
            }
        },
        None => {
            assert(!occurs_at(s, p, n));
        },
    }
}

proof fn lemma_no_separator_split(f: Seq<char>)
    requires
        !contains_sub(f, seq!['-', '-', '-']),
    ensures
        split_str(f, separator()) == seq![f],
{
    let p = separator();
    assert(p =~= seq!['-', '-', '-']);
    lemma_find_sub_occurs(f, p);
    if let Some(i) = find_sub(f, p) {
        assert(occurs_at(f, p, i));
    }
}

/// The sections of an action text `goal --- result --- feedback` are its three
/// parts, where the goal and result hold no `---` (and do not end in `-`) and
/// the feedback holds none: in particular the feedback is the text after the
/// second `---`.
pub proof fn lemma_action_sections_of_parts(g: Seq<char>, r: Seq<char>, f: Seq<char>)
    requires
        ends_before_separator(g),
        ends_before_separator(r),
        !contains_sub(f, seq!['-', '-', '-']),
    ensures
        action_sections(g + seq!['-', '-', '-'] + r + seq!['-', '-', '-'] + f) == (g, r, f),
{
    let p = separator();
    assert(p =~= seq!['-', '-', '-']);
    let tail2 = r + p + f;
    let s = g + p + tail2;
    assert(s =~= g + seq!['-', '-', '-'] + r + seq!['-', '-', '-'] + f);
    lemma_first_separator(g, tail2);
    lemma_first_separator(r, f);
    lemma_no_separator_split(f);
    assert(s.take(g.len() as int) =~= g);
    assert(s.skip(g.len() as int + 3) =~= tail2);
    assert(tail2.take(r.len() as int) =~= r);
    assert(tail2.skip(r.len() as int + 3) =~= f);
    assert(split_str(tail2, p) == seq![r] + split_str(f, p));
    assert(split_str(s, p) == seq![g] + split_str(tail2, p));
    assert(split_str(s, p) =~= seq![g, r, f]);
}

/// The sections of a service text `request --- response` are its two parts,
/// where the request holds no `---` and does not end in `-`.
pub proof fn lemma_srv_sections_of_parts(q: Seq<char>, r: Seq<char>)
    requires
        ends_before_separator(q),
    ensures
        srv_sections(q + seq!['-', '-', '-'] + r) == (q, r),
{
    let p = separator();
    assert(p =~= seq!['-', '-', '-']);
    let s = q + p + r;
    assert(s =~= q + seq!['-', '-', '-'] + r);
    lemma_first_separator(q, r);
    assert(s.take(q.len() as int) =~= q);
    assert(s.skip(q.len() as int + 3) =~= r);
}

/// Parses a .action file's text (goal `---` result `---` feedback); `path` names the action.
pub fn parse_action_str(content: &str, path: &str) -> (r: Result<ActionDefinition, String>)
    ensures
        r matches Ok(d) && d.name@ == interface_name(path@) && field_views(d.goal@)
            == spec_fields(action_sections(content@).0) && field_views(d.result@) == spec_fields(
            action_sections(content@).1,
        ) && field_views(d.feedback@) == spec_fields(action_sections(content@).2),
{
    let name = name_of_path(path);
    let v = chars_of(content);
    let sep = separator_chars();
    let ghost segs = split_str(v@, sep@);
    let (g, rest1) = first_segment(v.as_slice(), sep.as_slice());
    let (res, fb) = match rest1 {
        None => (Vec::new(), Vec::new()),
        Some(r1) => {
            let (s1, rest2) = first_segment(r1.as_slice(), sep.as_slice());
            proof {
                lemma_split_str_nonempty(r1@, sep@);
            }
            assert(segs[1] == s1@);
            match rest2 {
                None => {
                    assert(segs.len() == 2);
                    (s1, Vec::new())
                },
                Some(r2) => {
                    let (s2, _rest3) = first_segment(r2.as_slice(), sep.as_slice());
                    proof {
                        lemma_split_str_nonempty(r2@, sep@);
                    }
                    assert(segs[2] == s2@);
                    (s1, s2)
                },
            }
        },
    };
    assert(res@ =~= seg_or_empty(segs, 1));
    assert(fb@ =~= seg_or_empty(segs, 2));
    let goal = fields_of_chars(g.as_slice());
    let result = fields_of_chars(res.as_slice());
    let feedback = fields_of_chars(fb.as_slice());
    Ok(ActionDefinition { name, goal, result, feedback })
}

} // verus!
