//! The CMake language at the level this library reads it: command invocations
//! with their flattened argument lists, comments and whitespace in between.
//!
//! ```text
//! file       ::= (space | comment | command)*
//! command    ::= identifier (' ' | '\t')* '(' arguments ')'
//! arguments  ::= (space | comment | '(' arguments ')' | argument)*
//! argument   ::= quoted | bracket | unquoted
//! quoted     ::= '"' (escape | <any but '"' and '\'>)* '"'
//! bracket    ::= '[' '='{n} '[' <any> ']' '='{n} ']'
//! unquoted   ::= (escape | <any but space, '(', ')', '#', '"', '\'>)+
//! comment    ::= '#' bracket | '#' <any but newline>*
//! escape     ::= '\' <any>
//! space      ::= ' ' | '\t' | '\r' | '\n'
//! ```
//! Nested parentheses are flattened: their arguments belong to the command.

use vstd::prelude::*;

verus! {

pub open spec fn is_space(c: char) -> bool {
    c == ' ' || c == '\t' || c == '\r' || c == '\n'
}

pub open spec fn is_ident_start(c: char) -> bool {
    ('a' <= c && c <= 'z') || ('A' <= c && c <= 'Z') || c == '_'
}

pub open spec fn is_ident_char(c: char) -> bool {
    is_ident_start(c) || ('0' <= c && c <= '9')
}

/// Characters that end an unquoted argument.
pub open spec fn is_unquoted_stop(c: char) -> bool {
    is_space(c) || c == '(' || c == ')' || c == '#' || c == '"'
}

/// A command invocation: its name and its raw argument texts, in order.
pub struct CommandSpec {
    pub name: Seq<char>,
    pub args: Seq<Seq<char>>,
}

/// First index at or after `p` that holds a newline, or the end.
pub open spec fn line_end(s: Seq<char>, p: int) -> int
    decreases s.len() - p,
{
    if p >= s.len() || p < 0 {
        s.len() as int
    } else if s[p] == '\n' {
        p
    } else {
        line_end(s, p + 1)
    }
}

/// First index at or after `p` that is not `=`, or the end.
pub open spec fn eq_run_end(s: Seq<char>, p: int) -> int
    decreases s.len() - p,
{
    if p >= s.len() || p < 0 {
        s.len() as int
    } else if s[p] != '=' {
        p
    } else {
        eq_run_end(s, p + 1)
    }
}

/// First index at or after `p` that is not an identifier character, or the end.
pub open spec fn ident_end(s: Seq<char>, p: int) -> int
    decreases s.len() - p,
{
    if p >= s.len() || p < 0 {
        s.len() as int
    } else if !is_ident_char(s[p]) {
        p
    } else {
        ident_end(s, p + 1)
    }
}

/// First index at or after `p` that is not a blank (space or tab), or the end.
pub open spec fn blank_end(s: Seq<char>, p: int) -> int
    decreases s.len() - p,
{
    if p >= s.len() || p < 0 {
        s.len() as int
    } else if s[p] != ' ' && s[p] != '\t' {
        p
    } else {
        blank_end(s, p + 1)
    }
}

/// The number of `=` of a bracket opening `[=*[` at `p`, if one starts there.
pub open spec fn bracket_open(s: Seq<char>, p: int) -> Option<int> {
    if 0 <= p < s.len() && s[p] == '[' {
        let e = eq_run_end(s, p + 1);
        if e < s.len() && s[e] == '[' {
            Some(e - p - 1)
        } else {
            None
        }
    } else {
        None
    }
}

/// A bracket closing `]` `=`{n} `]` starts at `p`.
pub open spec fn bracket_close_at(s: Seq<char>, p: int, n: int) -> bool {
    &&& 0 <= p
    &&& p + n + 2 <= s.len()
    &&& s[p] == ']'
    &&& forall|j: int| p + 1 <= j <= p + n ==> s[j] == '='
    &&& s[p + n + 1] == ']'
}

/// The index just after the first bracket closing of level `n` at or after `p`.
pub open spec fn bracket_close(s: Seq<char>, p: int, n: int) -> Option<int>
    decreases s.len() - p,
{
    if p >= s.len() || p < 0 {
        None
    } else if bracket_close_at(s, p, n) {
        Some(p + n + 2)
    } else {
        bracket_close(s, p + 1, n)
    }
}

/// The index just after the closing quote of a quoted argument whose text starts at `p`.
pub open spec fn quoted_end(s: Seq<char>, p: int) -> Option<int>
    decreases s.len() - p,
{
    if p >= s.len() || p < 0 {
        None
    } else if s[p] == '\\' {
        if p + 1 < s.len() {
            quoted_end(s, p + 2)
        } else {
            None
        }
    } else if s[p] == '"' {
        Some(p + 1)
    } else {
        quoted_end(s, p + 1)
    }
}

/// The index just after an unquoted argument that continues at `p`.
pub open spec fn unquoted_end(s: Seq<char>, p: int) -> Option<int>
    decreases s.len() - p,
{
    if p >= s.len() || p < 0 {
        Some(s.len() as int)
    } else if is_unquoted_stop(s[p]) {
        Some(p)
    } else if s[p] == '\\' {
        if p + 1 < s.len() {
            unquoted_end(s, p + 2)
        } else {
            None
        }
    } else {
        unquoted_end(s, p + 1)
    }
}

/// The index just after a comment that starts with `#` at `p`.
pub open spec fn comment_end(s: Seq<char>, p: int) -> Option<int> {
    match bracket_open(s, p + 1) {
        Some(n) => bracket_close(s, p + 1 + n + 2, n),
        None => Some(line_end(s, p)),
    }
}

/// Reads arguments from `p` on, at parenthesis nesting `depth` below the
/// command's own, after the raw arguments `acc`; gives the index just after the
/// command's closing parenthesis and all its raw arguments.
pub open spec fn args_from(s: Seq<char>, p: int, depth: nat, acc: Seq<Seq<char>>) -> Option<
    (int, Seq<Seq<char>>),
>
    decreases s.len() - p,
{
    if p >= s.len() || p < 0 {
        None
    } else {
        let c = s[p];
        if is_space(c) {
            args_from(s, p + 1, depth, acc)
        } else if c == '#' {
            match comment_end(s, p) {
                Some(e) => if p < e && e <= s.len() {
                    args_from(s, e, depth, acc)
                } else {
                    None
                },
                None => None,
            }
        } else if c == '(' {
            args_from(s, p + 1, depth + 1, acc)
        } else if c == ')' {
            if depth == 0 {
                Some((p + 1, acc))
            } else {
                args_from(s, p + 1, (depth - 1) as nat, acc)
            }
        } else if c == '"' {
            match quoted_end(s, p + 1) {
                Some(e) => if p < e && e <= s.len() {
                    args_from(s, e, depth, acc.push(s.subrange(p, e)))
                } else {
                    None
                },
                None => None,
            }
        } else if bracket_open(s, p) is Some {
            let n = bracket_open(s, p)->0;
            match bracket_close(s, p + n + 2, n) {
                Some(e) => if p < e && e <= s.len() {
                    args_from(s, e, depth, acc.push(s.subrange(p, e)))
                } else {
                    None
                },
                None => None,
            }
        } else {
            match unquoted_end(s, p) {
                Some(e) => if p < e && e <= s.len() {
                    args_from(s, e, depth, acc.push(s.subrange(p, e)))
                } else {
                    None
                },
                None => None,
            }
        }
    }
}

/// Reads the file from `p` on, after the commands `acc`; gives all commands,
/// or `None` where the text does not follow the grammar.
pub open spec fn commands_from(s: Seq<char>, p: int, acc: Seq<CommandSpec>) -> Option<
    Seq<CommandSpec>,
>
    decreases s.len() - p,
{
    if p >= s.len() || p < 0 {
        Some(acc)
    } else {
        let c = s[p];
        if is_space(c) {
            commands_from(s, p + 1, acc)
        } else if c == '#' {
            match comment_end(s, p) {
                Some(e) => if p < e && e <= s.len() {
                    commands_from(s, e, acc)
                } else {
                    None
                },
                None => None,
            }
        } else if is_ident_start(c) {
            let e = ident_end(s, p);
            let q = blank_end(s, e);
            if q < s.len() && s[q] == '(' {
                match args_from(s, q + 1, 0, Seq::empty()) {
                    Some((e2, args)) => if p < e2 && e2 <= s.len() {
                        commands_from(s, e2, acc.push(CommandSpec { name: s.subrange(p, e), args }))
                    } else {
                        None
                    },
                    None => None,
                }
            } else {
                None
            }
        } else {
            None
        }
    }
}

/// The command invocations of a CMake text, or `None` where it does not follow the grammar.
pub open spec fn spec_commands(s: Seq<char>) -> Option<Seq<CommandSpec>> {
    commands_from(s, 0, Seq::empty())
}

/// A command invocation read from a CMake text.
pub struct Command {
    pub name: Vec<char>,
    pub args: Vec<Vec<char>>,
}

pub open spec fn arg_views(v: Seq<Vec<char>>) -> Seq<Seq<char>> {
    v.map_values(|a: Vec<char>| a@)
}

impl View for Command {
    type V = CommandSpec;

    open spec fn view(&self) -> CommandSpec {
        CommandSpec { name: self.name@, args: arg_views(self.args@) }
    }
}

pub open spec fn command_views(v: Seq<Command>) -> Seq<CommandSpec> {
    v.map_values(|c: Command| c@)
}

fn is_space_exec(c: char) -> (r: bool)
    ensures
        r == is_space(c),
{
    c == ' ' || c == '\t' || c == '\r' || c == '\n'
}

fn is_ident_start_exec(c: char) -> (r: bool)
    ensures
        r == is_ident_start(c),
{
    ('a' <= c && c <= 'z') || ('A' <= c && c <= 'Z') || c == '_'
}

fn is_ident_char_exec(c: char) -> (r: bool)
    ensures
        r == is_ident_char(c),
{
    is_ident_start_exec(c) || ('0' <= c && c <= '9')
}

fn line_end_exec(s: &[char], p: usize) -> (r: usize)
    requires
        p <= s@.len(),
    ensures
        r as int == line_end(s@, p as int),
        p <= r <= s@.len(),
{
    let mut i = p;
    while i < s.len() && s[i] != '\n'
        invariant
            p <= i <= s@.len(),
            line_end(s@, p as int) == line_end(s@, i as int),
        decreases s.len() - i,
    {
        i += 1;
    }
    i
}

fn eq_run_end_exec(s: &[char], p: usize) -> (r: usize)
    requires
        p <= s@.len(),
    ensures
        r as int == eq_run_end(s@, p as int),
        p <= r <= s@.len(),
{
    let mut i = p;
    while i < s.len() && s[i] == '='
        invariant
            p <= i <= s@.len(),
            eq_run_end(s@, p as int) == eq_run_end(s@, i as int),
        decreases s.len() - i,
    {
        i += 1;
    }
    i
}

fn ident_end_exec(s: &[char], p: usize) -> (r: usize)
    requires
        p <= s@.len(),
    ensures
        r as int == ident_end(s@, p as int),
        p <= r <= s@.len(),
{
    let mut i = p;
    while i < s.len() && is_ident_char_exec(s[i])
        invariant
            p <= i <= s@.len(),
            ident_end(s@, p as int) == ident_end(s@, i as int),
        decreases s.len() - i,
    {
        i += 1;
    }
    i
}

fn blank_end_exec(s: &[char], p: usize) -> (r: usize)
    requires
        p <= s@.len(),
    ensures
        r as int == blank_end(s@, p as int),
        p <= r <= s@.len(),
{
    let mut i = p;
    while i < s.len() && (s[i] == ' ' || s[i] == '\t')
        invariant
            p <= i <= s@.len(),
            blank_end(s@, p as int) == blank_end(s@, i as int),
        decreases s.len() - i,
    {
        i += 1;
    }
    i
}

fn bracket_open_exec(s: &[char], p: usize) -> (r: Option<usize>)
    requires
        p <= s@.len(),
    ensures
        match r {
            Some(n) => bracket_open(s@, p as int) == Some(n as int) && p + n + 2 <= s@.len(),
            None => bracket_open(s@, p as int) is None,
        },
{
    if p < s.len() && s[p] == '[' {
        let e = eq_run_end_exec(s, p + 1);
        if e < s.len() && s[e] == '[' {
            Some(e - p - 1)
        } else {
            None
        }
    } else {
        None
    }
}

fn bracket_close_at_exec(s: &[char], p: usize, n: usize) -> (r: bool)
    requires
        p <= s@.len(),
    ensures
        r == bracket_close_at(s@, p as int, n as int),
{
    let len = s.len();
    if n > len || p > len - n || len - n - p < 2 {
        return false;
    }
    if s[p] != ']' {
        return false;
    }
    let mut k: usize = 1;
    while k <= n
        invariant
            1 <= k <= n + 1,
            p + n + 2 <= s@.len(),
            len == s@.len(),
            forall|j: int| p + 1 <= j < p + k ==> s@[j] == '=',
        decreases n + 1 - k,
    {
        if s[p + k] != '=' {
            return false;
        }
        k += 1;
    }
    s[p + n + 1] == ']'
}

fn bracket_close_exec(s: &[char], p: usize, n: usize) -> (r: Option<usize>)
    requires
        p <= s@.len(),
    ensures
        match r {
            Some(e) => bracket_close(s@, p as int, n as int) == Some(e as int) && p < e <= s@.len(),
            None => bracket_close(s@, p as int, n as int) is None,
        },
{
    let mut i = p;
    while i < s.len()
        invariant
            p <= i <= s@.len(),
            bracket_close(s@, p as int, n as int) == bracket_close(s@, i as int, n as int),
        decreases s.len() - i,
    {
        if bracket_close_at_exec(s, i, n) {
            return Some(i + n + 2);
        }
        i += 1;
    }
    None
}

fn quoted_end_exec(s: &[char], p: usize) -> (r: Option<usize>)
    requires
        p <= s@.len(),
    ensures
        match r {
            Some(e) => quoted_end(s@, p as int) == Some(e as int) && p < e <= s@.len(),
            None => quoted_end(s@, p as int) is None,
        },
{
    let mut i = p;
    while i < s.len()
        invariant
            p <= i <= s@.len(),
            quoted_end(s@, p as int) == quoted_end(s@, i as int),
        decreases s.len() - i,
    {
        if s[i] == '\\' {
            if i + 1 < s.len() {
                i += 2;
            } else {
                return None;
            }
        } else if s[i] == '"' {
            return Some(i + 1);
        } else {
            i += 1;
        }
    }
    None
}

fn unquoted_end_exec(s: &[char], p: usize) -> (r: Option<usize>)
    requires
        p <= s@.len(),
    ensures
        match r {
            Some(e) => unquoted_end(s@, p as int) == Some(e as int) && p <= e <= s@.len(),
            None => unquoted_end(s@, p as int) is None,
        },
{
    let mut i = p;
    while i < s.len()
        invariant
            p <= i <= s@.len(),
            unquoted_end(s@, p as int) == unquoted_end(s@, i as int),
        decreases s.len() - i,
    {
        let c = s[i];
        if is_space_exec(c) || c == '(' || c == ')' || c == '#' || c == '"' {
            return Some(i);
        } else if c == '\\' {
            if i + 1 < s.len() {
                i += 2;
            } else {
                return None;
            }
        } else {
            i += 1;
        }
    }
    Some(i)
}

fn comment_end_exec(s: &[char], p: usize) -> (r: Option<usize>)
    requires
        p < s@.len(),
    ensures
        match r {
            Some(e) => comment_end(s@, p as int) == Some(e as int) && e <= s@.len(),
            None => comment_end(s@, p as int) is None,
        },
{
    let len = s.len();
    assert(p + 1 <= len);
    match bracket_open_exec(s, p + 1) {
        Some(n) => bracket_close_exec(s, p + 1 + n + 2, n),
        None => Some(line_end_exec(s, p)),
    }
}

fn sub_vec(s: &[char], a: usize, b: usize) -> (r: Vec<char>)
    requires
        a <= b <= s@.len(),
    ensures
        r@ == s@.subrange(a as int, b as int),
{
    crate::text::sub_chars(s, a, b)
}

/// Reads the arguments of a command whose opening parenthesis ends just before `p`.
fn args_exec(s: &[char], p: usize) -> (r: Option<(usize, Vec<Vec<char>>)>)
    requires
        p <= s@.len(),
    ensures
        match r {
            Some((e, args)) => args_from(s@, p as int, 0, Seq::empty()) == Some(
                (e as int, arg_views(args@)),
            ) && p < e <= s@.len(),
            None => args_from(s@, p as int, 0, Seq::empty()) is None,
        },
{
    let mut i = p;
    let mut depth: usize = 0;
    let mut acc: Vec<Vec<char>> = Vec::new();
    assert(arg_views(acc@) =~= Seq::<Seq<char>>::empty());
    while i < s.len()
        invariant
            p <= i <= s@.len(),
            args_from(s@, p as int, 0, Seq::empty()) == args_from(
                s@,
                i as int,
                depth as nat,
                arg_views(acc@),
            ),
        decreases s.len() - i, 
    {
        let c = s[i];
        let ghost av = arg_views(acc@);
        if is_space_exec(c) {
            i += 1;
        } else if c == '#' {
            match comment_end_exec(s, i) {
                Some(e) => {
                    if e > i {
                        i = e;
                    } else {
                        return None;
                    }
                },
                None => {
                    return None;
                },
            }
        } else if c == '(' {
            if depth == usize::MAX {
                proof {
                    lemma_args_depth_close(s@, i as int, depth as nat, av);
                }
                return None;
            }
            depth += 1;
            i += 1;
        } else if c == ')' {
            if depth == 0 {
                assert(i + 1 > p);
                return Some((i + 1, acc));
            }
            depth -= 1;
            i += 1;
        } else if c == '"' {
            match quoted_end_exec(s, i + 1) {
                Some(e) => {
                    let a = sub_vec(s, i, e);
                    acc.push(a);
                    assert(arg_views(acc@) =~= av.push(s@.subrange(i as int, e as int)));
                    i = e;
                },
                None => {
                    return None;
                },
            }
        } else {
            match bracket_open_exec(s, i) {
                Some(n) => {
                    match bracket_close_exec(s, i + n + 2, n) {
                        Some(e) => {
                            let a = sub_vec(s, i, e);
                            acc.push(a);
                            assert(arg_views(acc@) =~= av.push(s@.subrange(i as int, e as int)));
                            i = e;
                        },
                        None => {
                            return None;
                        },
                    }
                },
                None => {
                    match unquoted_end_exec(s, i) {
                        Some(e) => {
                            if e > i {
                                let a = sub_vec(s, i, e);
                                acc.push(a);
                                assert(arg_views(acc@) =~= av.push(
                                    s@.subrange(i as int, e as int),
                                ));
                                i = e;
                            } else {
                                return None;
                            }
                        },
                        None => {
                            return None;
                        },
                    }
                },
            }
        }
    }
    None
}

/// Closing `depth + 1` parentheses needs more than `s.len() - p` characters.
proof fn lemma_args_depth_close(s: Seq<char>, p: int, depth: nat, acc: Seq<Seq<char>>)
    requires
        depth + p >= s.len(),
    ensures
        args_from(s, p, depth, acc) is None,
    decreases s.len() - p,
{
    if 0 <= p < s.len() {
        let c = s[p];
        if is_space(c) {
            lemma_args_depth_close(s, p + 1, depth, acc);
        } else if c == '#' {
            if let Some(e) = comment_end(s, p) {
                if p < e && e <= s.len() {
                    lemma_args_depth_close(s, e, depth, acc);
                }
            }
        } else if c == '(' {
            lemma_args_depth_close(s, p + 1, depth + 1, acc);
        } else if c == ')' {
            assert(depth > 0);
            lemma_args_depth_close(s, p + 1, (depth - 1) as nat, acc);
        } else if c == '"' {
            if let Some(e) = quoted_end(s, p + 1) {
                if p < e && e <= s.len() {
                    lemma_args_depth_close(s, e, depth, acc.push(s.subrange(p, e)));
                }
            }
        } else if bracket_open(s, p) is Some {
            let n = bracket_open(s, p)->0;
            if let Some(e) = bracket_close(s, p + n + 2, n) {
                if p < e && e <= s.len() {
                    lemma_args_depth_close(s, e, depth, acc.push(s.subrange(p, e)));
                }
            }
        } else {
            if let Some(e) = unquoted_end(s, p) {
                if p < e && e <= s.len() {
                    lemma_args_depth_close(s, e, depth, acc.push(s.subrange(p, e)));
                }
            }
        }
    }
}

/// Reads the command invocations of a CMake text; `None` where the text does
/// not follow the grammar.
pub fn read_commands(s: &[char]) -> (r: Option<Vec<Command>>)
    ensures
        match r {
            Some(cmds) => spec_commands(s@) == Some(command_views(cmds@)),
            None => spec_commands(s@) is None,
        },
{
    let mut i: usize = 0;
    let mut acc: Vec<Command> = Vec::new();
    assert(command_views(acc@) =~= Seq::<CommandSpec>::empty());
    while i < s.len()
        invariant
            i <= s@.len(),
            spec_commands(s@) == commands_from(s@, i as int, command_views(acc@)),
        decreases s.len() - i,
    {
        let c = s[i];
        let ghost cv = command_views(acc@);
        if is_space_exec(c) {
            i += 1;
        } else if c == '#' {
            match comment_end_exec(s, i) {
                Some(e) => {
                    if e > i {
                        i = e;
                    } else {
                        return None;
                    }
                },
                None => {
                    return None;
                },
            }
        } else if is_ident_start_exec(c) {
            let e = ident_end_exec(s, i);
            let q = blank_end_exec(s, e);
            if q < s.len() && s[q] == '(' {
                match args_exec(s, q + 1) {
                    Some((e2, args)) => {
                        let name = sub_vec(s, i, e);
                        let cmd = Command { name, args };
                        let ghost cs = cmd@;
                        acc.push(cmd);
                        assert(command_views(acc@) =~= cv.push(cs));
                        i = e2;
                    },
                    None => {
                        return None;
                    },
                }
            } else {
                return None;
            }
        } else {
            return None;
        }
    }
    Some(acc)
}

} // verus!
