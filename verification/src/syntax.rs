//! Syntax trees from `tree-sitter`, as plain values.
//!
//! A source text is parsed with the tree-sitter Python or C++ grammar, and the
//! tree is handed over as the list of its nodes in preorder (a node, then its
//! children's subtrees in order): each node's kind, source text, start row,
//! the field under which its parent holds it, and its parent's index.

use vstd::prelude::*;
use crate::checks::model::opt_view;
use crate::text::{chars_eq_str, chars_of, sub_chars, trim, trim_chars};

verus! {

/// A node of a syntax tree.
pub struct SyntaxNode {
    /// The grammar's name for the node (`call`, `identifier`, ...)
    pub kind: String,
    /// The source text the node spans
    pub text: String,
    /// The row (0-based) where the node starts
    pub row: usize,
    /// The field under which the parent holds this node
    pub field: Option<String>,
    /// The parent's index in the list (none for the root)
    pub parent: Option<usize>,
}

/// The value of a syntax node.
pub struct SyntaxSpec {
    pub kind: Seq<char>,
    pub text: Seq<char>,
    pub row: usize,
    pub field: Option<Seq<char>>,
    pub parent: Option<usize>,
}

impl View for SyntaxNode {
    type V = SyntaxSpec;

    open spec fn view(&self) -> SyntaxSpec {
        SyntaxSpec {
            kind: self.kind@,
            text: self.text@,
            row: self.row,
            field: opt_view(self.field),
            parent: self.parent,
        }
    }
}

/// The values of syntax nodes.
pub open spec fn syntax_views(v: Seq<SyntaxNode>) -> Seq<SyntaxSpec> {
    v.map_values(|n: SyntaxNode| n@)
}

/// How parsing went: the nodes in preorder, or why there is no tree (the
/// grammar was refused, with its message, or the parser gave no tree).
pub enum SyntaxRead {
    Tree(Vec<SyntaxNode>),
    LanguageRefused(String),
    NoTree,
}

/// The value of a parse.
pub enum SyntaxReadSpec {
    Tree(Seq<SyntaxSpec>),
    LanguageRefused(Seq<char>),
    NoTree,
}

impl View for SyntaxRead {
    type V = SyntaxReadSpec;

    open spec fn view(&self) -> SyntaxReadSpec {
        match self {
            SyntaxRead::Tree(v) => SyntaxReadSpec::Tree(syntax_views(v@)),
            SyntaxRead::LanguageRefused(e) => SyntaxReadSpec::LanguageRefused(e@),
            SyntaxRead::NoTree => SyntaxReadSpec::NoTree,
        }
    }
}

/// A node as a tree-sitter cursor walk visits it: kind, source text, start
/// row, field name in its parent, and depth below the root.
pub type WalkNode = (String, String, usize, Option<String>, u32);

/// The value of a visited node.
pub type WalkSpec = (Seq<char>, Seq<char>, usize, Option<Seq<char>>, u32);

/// The values of visited nodes.
pub open spec fn walk_views(v: Seq<WalkNode>) -> Seq<WalkSpec> {
    v.map_values(|n: WalkNode| (n.0@, n.1@, n.2, opt_view(n.3), n.4))
}

/// The value of a walk: the grammar's refusal, no tree, or the visited nodes.
pub open spec fn walk_result_view(r: Result<Option<Vec<WalkNode>>, String>) -> Result<
    Option<Seq<WalkSpec>>,
    Seq<char>,
> {
    match r {
        Ok(Some(v)) => Ok(Some(walk_views(v@))),
        Ok(None) => Ok(None),
        Err(e) => Err(e@),
    }
}

/// The tree-sitter Python parse of a source text, walked with a
/// `TreeCursor` from the root in preorder.
pub uninterp spec fn python_walk(src: Seq<char>) -> Result<Option<Seq<WalkSpec>>, Seq<char>>;

/// The tree-sitter C++ parse of a source text, walked with a `TreeCursor`
/// from the root in preorder.
pub uninterp spec fn cpp_walk(src: Seq<char>) -> Result<Option<Seq<WalkSpec>>, Seq<char>>;

/// The last of the first `n` visited nodes at depth `d`.
pub open spec fn last_at_depth(w: Seq<WalkSpec>, n: int, d: u32) -> Option<int>
    decreases n,
{
    if n <= 0 {
        None
    } else if w[n - 1].4 == d {
        Some(n - 1)
    } else {
        last_at_depth(w, n - 1, d)
    }
}

/// The index of the last of the first `n` visited nodes at depth `d`.
pub open spec fn depth_index(w: Seq<WalkSpec>, n: int, d: u32) -> Option<usize> {
    match last_at_depth(w, n, d) {
        Some(j) => Some(j as usize),
        None => None,
    }
}

/// The parent of visited node `i`: the last node before it one level up
/// (none at depth 0).
pub open spec fn depth_parent(w: Seq<WalkSpec>, i: int) -> Option<usize> {
    if w[i].4 == 0 {
        None
    } else {
        depth_index(w, i, (w[i].4 - 1) as u32)
    }
}

/// The syntax nodes of a preorder walk, each with its parent's index.
pub open spec fn with_parents(w: Seq<WalkSpec>) -> Seq<SyntaxSpec> {
    Seq::new(
        w.len(),
        |i: int| SyntaxSpec { kind: w[i].0, text: w[i].1, row: w[i].2, field: w[i].3, parent: depth_parent(w, i) },
    )
}

/// How a walk reads as a parse.
pub open spec fn read_of_walk(w: Result<Option<Seq<WalkSpec>>, Seq<char>>) -> SyntaxReadSpec {
    match w {
        Ok(Some(ns)) => SyntaxReadSpec::Tree(with_parents(ns)),
        Ok(None) => SyntaxReadSpec::NoTree,
        Err(e) => SyntaxReadSpec::LanguageRefused(e),
    }
}

/// The tree-sitter Python parse of a source text.
pub open spec fn python_syntax(src: Seq<char>) -> SyntaxReadSpec {
    read_of_walk(python_walk(src))
}

/// The tree-sitter C++ parse of a source text.
pub open spec fn cpp_syntax(src: Seq<char>) -> SyntaxReadSpec {
    read_of_walk(cpp_walk(src))
}

/// `tree_sitter::Parser::parse` with the Python grammar (`tree_sitter_python`),
/// the tree walked with `TreeCursor` in preorder: each node's kind, source
/// text (`Node::byte_range`, which tree-sitter keeps on character
/// boundaries), start row, field name and depth; the grammar's error where
/// `set_language` refuses it, none where `parse` gives no tree. Named by
/// `python_walk`.
#[verifier::external_body]
fn python_cursor_walk(src: &str) -> (r: Result<Option<Vec<WalkNode>>, String>)
    ensures
        walk_result_view(r) == python_walk(src@),
{
    let mut p = tree_sitter::Parser::new();
    if let Err(e) = p.set_language(&tree_sitter_python::LANGUAGE.into()) {
        return Err(e.to_string());
    }
    let Some(tree) = p.parse(src, None) else { return Ok(None) };
    let (mut c, mut out) = (tree.walk(), vec![]);
    loop {
        let n = c.node();
        out.push((n.kind().into(), src[n.byte_range()].into(), n.start_position().row, c.field_name().map(Into::into), c.depth()));
        if !c.goto_first_child() {
            while !c.goto_next_sibling() {
                if !c.goto_parent() { return Ok(Some(out)); }
            }
        }
    }
}

/// `tree_sitter::Parser::parse` with the C++ grammar (`tree_sitter_cpp`),
/// walked as by `python_cursor_walk`. Named by `cpp_walk`.
#[verifier::external_body]
fn cpp_cursor_walk(src: &str) -> (r: Result<Option<Vec<WalkNode>>, String>)
    ensures
        walk_result_view(r) == cpp_walk(src@),
{
    let mut p = tree_sitter::Parser::new();
    if let Err(e) = p.set_language(&tree_sitter_cpp::LANGUAGE.into()) {
        return Err(e.to_string());
    }
    let Some(tree) = p.parse(src, None) else { return Ok(None) };
    let (mut c, mut out) = (tree.walk(), vec![]);
    loop {
        let n = c.node();
        out.push((n.kind().into(), src[n.byte_range()].into(), n.start_position().row, c.field_name().map(Into::into), c.depth()));
        if !c.goto_first_child() {
            while !c.goto_next_sibling() {
                if !c.goto_parent() { return Ok(Some(out)); }
            }
        }
    }
}

fn copy_opt(o: &Option<String>) -> (r: Option<String>)
    ensures
        opt_view(r) == opt_view(*o),
{
    match o {
        Some(s) => Some(s.clone()),
        None => None,
    }
}

/// The syntax nodes of a walk, each with its parent's index.
pub fn nodes_with_parents(walk: &Vec<WalkNode>) -> (r: Vec<SyntaxNode>)
    ensures
        syntax_views(r@) == with_parents(walk_views(walk@)),
{
    let ghost w = walk_views(walk@);
    // last[d]: the last node so far at depth d
    let mut last: Vec<Option<usize>> = Vec::new();
    let mut out: Vec<SyntaxNode> = Vec::new();
    let mut i: usize = 0;
    while i < walk.len()
        invariant
            i <= walk@.len(),
            w == walk_views(walk@),
            syntax_views(out@) == with_parents(w).take(i as int),
            forall|e: u32|
                (e as int) < last@.len() ==> last@[e as int] == #[trigger] depth_index(w, i as int, e),
            forall|e: u32| e >= last@.len() ==> (#[trigger] last_at_depth(w, i as int, e)) is None,
        decreases walk.len() - i,
    {
        let d = walk[i].4;
        let parent = if d == 0 {
            None
        } else if ((d - 1) as usize) < last.len() {
            last[(d - 1) as usize]
        } else {
            None
        };
        assert(parent == depth_parent(w, i as int));
        let node = SyntaxNode {
            kind: walk[i].0.clone(),
            text: walk[i].1.clone(),
            row: walk[i].2,
            field: copy_opt(&walk[i].3),
            parent,
        };
        let ghost before = syntax_views(out@);
        out.push(node);
        assert(syntax_views(out@) =~= before.push(with_parents(w)[i as int]));
        while last.len() <= d as usize
            invariant
                w == walk_views(walk@),
                i < walk@.len(),
                d == w[i as int].4,
                forall|e: u32| (e as int) < last@.len() ==> last@[e as int] == #[trigger] depth_index(w, i as int, e),
                forall|e: u32| e >= last@.len() ==> (#[trigger] last_at_depth(w, i as int, e)) is None,
            decreases d as usize + 1 - last.len(),
        {
            let ghost k = last@.len() as u32;
            assert(last_at_depth(w, i as int, k) is None);
            last.push(None);
            assert(last@[k as int] == depth_index(w, i as int, k));
        }
        let ghost lb = last@;
        assert(lb.len() > d as int);
        last.set(d as usize, Some(i));
        proof {
            assert(last@ == lb.update(d as int, Some(i)));
            assert forall|e: u32| (e as int) < last@.len() implies last@[e as int] == #[trigger] depth_index(
                w,
                i + 1,
                e,
            ) by {
                assert(w[i as int].4 == d);
                if e != d {
                    assert(last@[e as int] == lb[e as int]);
                    assert(lb[e as int] == depth_index(w, i as int, e));
                    assert(last_at_depth(w, i + 1, e) == last_at_depth(w, i as int, e));
                } else {
                    assert(last_at_depth(w, i + 1, e) == Some(i as int));
                }
            }
            assert forall|e: u32| e >= last@.len() implies (#[trigger] last_at_depth(w, i + 1, e)) is None by {
                assert(w[i as int].4 == d);
                assert(e != d);
                assert(last_at_depth(w, i as int, e) is None);
            }
        }
        i += 1;
        assert(syntax_views(out@) =~= with_parents(w).take(i as int));
    }
    assert(with_parents(w).take(i as int) =~= with_parents(w));
    out
}

/// The Python parse of a source text.
pub(crate) fn python_tree(src: &str) -> (r: SyntaxRead)
    ensures
        r@ == python_syntax(src@),
{
    match python_cursor_walk(src) {
        Ok(Some(walk)) => SyntaxRead::Tree(nodes_with_parents(&walk)),
        Ok(None) => SyntaxRead::NoTree,
        Err(e) => SyntaxRead::LanguageRefused(e),
    }
}

/// The C++ parse of a source text.
pub(crate) fn cpp_tree(src: &str) -> (r: SyntaxRead)
    ensures
        r@ == cpp_syntax(src@),
{
    match cpp_cursor_walk(src) {
        Ok(Some(walk)) => SyntaxRead::Tree(nodes_with_parents(&walk)),
        Ok(None) => SyntaxRead::NoTree,
        Err(e) => SyntaxRead::LanguageRefused(e),
    }
}

// =============================================================================
// Navigating a tree
// =============================================================================

/// The indices below `n` of the children of node `i`, in order.
pub open spec fn kids_below(t: Seq<SyntaxSpec>, i: int, n: int) -> Seq<int>
    decreases n,
{
    if n <= 0 {
        Seq::empty()
    } else if t[n - 1].parent == Some(i as usize) {
        kids_below(t, i, n - 1).push(n - 1)
    } else {
        kids_below(t, i, n - 1)
    }
}

/// The children of node `i`, in order.
pub open spec fn kids(t: Seq<SyntaxSpec>, i: int) -> Seq<int> {
    kids_below(t, i, t.len() as int)
}

/// Child `k` of node `i`.
pub open spec fn child_at(t: Seq<SyntaxSpec>, i: int, k: int) -> Option<int> {
    if 0 <= k < kids(t, i).len() {
        Some(kids(t, i)[k])
    } else {
        None
    }
}

/// The first of the nodes `ks` that its parent holds under `field`.
pub open spec fn first_with_field(t: Seq<SyntaxSpec>, ks: Seq<int>, field: Seq<char>) -> Option<int>
    decreases ks.len(),
{
    if ks.len() == 0 {
        None
    } else if t[ks[0]].field == Some(field) {
        Some(ks[0])
    } else {
        first_with_field(t, ks.drop_first(), field)
    }
}

/// The first child of node `i` held under `field` (`Node::child_by_field_name`).
pub open spec fn field_child(t: Seq<SyntaxSpec>, i: int, field: Seq<char>) -> Option<int> {
    first_with_field(t, kids(t, i), field)
}

pub proof fn lemma_kids_below(t: Seq<SyntaxSpec>, i: int, n: int)
    requires
        0 <= n <= t.len(),
    ensures
        forall|k: int|
            0 <= k < kids_below(t, i, n).len() ==> 0 <= #[trigger] kids_below(t, i, n)[k] < n
                && t[kids_below(t, i, n)[k]].parent == Some(i as usize),
        forall|a: int, b: int|
            0 <= a < b < kids_below(t, i, n).len() ==> #[trigger] kids_below(t, i, n)[a]
                < #[trigger] kids_below(t, i, n)[b],
        kids_below(t, i, n).len() <= n,
    decreases n,
{
    if n > 0 {
        lemma_kids_below(t, i, n - 1);
    }
}

pub proof fn lemma_first_with_field(t: Seq<SyntaxSpec>, ks: Seq<int>, field: Seq<char>)
    ensures
        first_with_field(t, ks, field) matches Some(c) ==> ks.contains(c),
    decreases ks.len(),
{
    if ks.len() > 0 && t[ks[0]].field != Some(field) {
        lemma_first_with_field(t, ks.drop_first(), field);
        if let Some(c) = first_with_field(t, ks.drop_first(), field) {
            let k = choose|k: int| 0 <= k < ks.drop_first().len() && ks.drop_first()[k] == c;
            assert(ks[k + 1] == c);
        }
    } else if ks.len() > 0 {
        assert(ks[0] == ks[0]);
    }
}

fn copy_indices(v: &Vec<usize>) -> (r: Vec<usize>)
    ensures
        r@ == v@,
{
    let mut r: Vec<usize> = Vec::new();
    let mut i: usize = 0;
    while i < v.len()
        invariant
            i <= v@.len(),
            r@ == v@.take(i as int),
        decreases v.len() - i,
    {
        r.push(v[i]);
        i += 1;
        assert(r@ =~= v@.take(i as int));
    }
    assert(v@.take(i as int) =~= v@);
    r
}

/// The children of each node of a syntax tree.
pub struct Tree {
    pub nodes: Vec<SyntaxNode>,
    pub kids: Vec<Vec<usize>>,
}

impl Tree {
    /// The nodes' values.
    pub open spec fn spec_nodes(&self) -> Seq<SyntaxSpec> {
        syntax_views(self.nodes@)
    }

    /// The children lists are those of the nodes' parents.
    pub open spec fn wf(&self) -> bool {
        &&& self.kids@.len() == self.nodes@.len()
        &&& forall|i: int|
            0 <= i < self.kids@.len() ==> (#[trigger] self.kids@[i])@.map_values(|k: usize| k as int)
                == kids(self.spec_nodes(), i)
    }

    /// The tree over these nodes.
    pub fn new(nodes: Vec<SyntaxNode>) -> (r: Self)
        ensures
            r.spec_nodes() == syntax_views(nodes@),
            r.wf(),
    {
        let ghost t = syntax_views(nodes@);
        let n = nodes.len();
        let mut kids_v: Vec<Vec<usize>> = Vec::new();
        let mut i: usize = 0;
        while i < n
            invariant
                i <= n,
                n == nodes@.len(),
                kids_v@.len() == i,
                forall|k: int| 0 <= k < i ==> (#[trigger] kids_v@[k])@.len() == 0,
            decreases n - i,
        {
            kids_v.push(Vec::new());
            i += 1;
        }
        let mut j: usize = 0;
        while j < n
            invariant
                j <= n,
                n == nodes@.len(),
                t == syntax_views(nodes@),
                kids_v@.len() == n,
                forall|k: int|
                    0 <= k < n ==> (#[trigger] kids_v@[k])@.map_values(|x: usize| x as int)
                        == kids_below(t, k, j as int),
            decreases n - j,
        {
            match nodes[j].parent {
                Some(p) => {
                    if p < n {
                        let ghost before = kids_v@;
                        let mut row = copy_indices(&kids_v[p]);
                        row.push(j);
                        kids_v.set(p, row);
                        proof {
                            assert forall|k: int| 0 <= k < n implies (#[trigger] kids_v@[k])@.map_values(
                                |x: usize| x as int,
                            ) == kids_below(t, k, j + 1) by {
                                if k == p as int {
                                    assert(kids_v@[k]@ == before[k]@.push(j));
                                    assert(kids_v@[k]@.map_values(|x: usize| x as int) =~= before[k]@.map_values(
                                        |x: usize| x as int,
                                    ).push(j as int));
                                } else {
                                    assert(kids_v@[k] == before[k]);
                                }
                            }
                        }
                    } else {
                        proof {
                            assert forall|k: int| 0 <= k < n implies (#[trigger] kids_v@[k])@.map_values(
                                |x: usize| x as int,
                            ) == kids_below(t, k, j + 1) by {
                                assert(t[j as int].parent == Some(p));
                            }
                        }
                    }
                },
                None => {},
            }
            j += 1;
        }
        Tree { nodes, kids: kids_v }
    }

    /// The number of nodes.
    pub fn len(&self) -> (r: usize)
        ensures
            r == self.spec_nodes().len(),
    {
        self.nodes.len()
    }

    /// The kind of node `i` is `k`.
    pub fn kind_is(&self, i: usize, k: &str) -> (r: bool)
        requires
            i < self.spec_nodes().len(),
        ensures
            r == (self.spec_nodes()[i as int].kind == k@),
    {
        let v = chars_of(self.nodes[i].kind.as_str());
        chars_eq_str(v.as_slice(), k)
    }

    /// The text of node `i`, trimmed.
    pub fn trimmed_text(&self, i: usize) -> (r: Vec<char>)
        requires
            i < self.spec_nodes().len(),
        ensures
            r@ == trim(self.spec_nodes()[i as int].text),
    {
        let v = chars_of(self.nodes[i].text.as_str());
        trim_chars(v.as_slice())
    }

    /// Child `k` of node `i`.
    pub fn child(&self, i: usize, k: usize) -> (r: Option<usize>)
        requires
            self.wf(),
            i < self.spec_nodes().len(),
        ensures
            match r {
                Some(c) => child_at(self.spec_nodes(), i as int, k as int) == Some(c as int),
                None => child_at(self.spec_nodes(), i as int, k as int) is None,
            },
            r matches Some(c) ==> c < self.spec_nodes().len(),
    {
        proof {
            lemma_kids_below(self.spec_nodes(), i as int, self.spec_nodes().len() as int);
        }
        if k < self.kids[i].len() {
            let c = self.kids[i][k];
            assert(self.kids@[i as int]@.map_values(|x: usize| x as int)[k as int] == c as int);
            Some(c)
        } else {
            assert(self.kids@[i as int]@.map_values(|x: usize| x as int).len() == self.kids@[i as int]@.len());
            None
        }
    }

    /// The first child of node `i` held under `field`.
    pub fn field_child(&self, i: usize, field: &str) -> (r: Option<usize>)
        requires
            self.wf(),
            i < self.spec_nodes().len(),
        ensures
            match r {
                Some(c) => field_child(self.spec_nodes(), i as int, field@) == Some(c as int),
                None => field_child(self.spec_nodes(), i as int, field@) is None,
            },
            r matches Some(c) ==> c < self.spec_nodes().len(),
    {
        let ghost t = self.spec_nodes();
        let ghost ks = kids(t, i as int);
        proof {
            lemma_kids_below(t, i as int, t.len() as int);
        }
        let row = &self.kids[i];
        assert(row@.map_values(|x: usize| x as int) == ks);
        let mut k: usize = 0;
        assert(ks.skip(0) =~= ks);
        while k < row.len()
            invariant
                k <= row@.len(),
                t == self.spec_nodes(),
                row@.map_values(|x: usize| x as int) == ks,
                ks == kids(t, i as int),
                forall|q: int| 0 <= q < ks.len() ==> 0 <= #[trigger] ks[q] < t.len(),
                first_with_field(t, ks, field@) == first_with_field(t, ks.skip(k as int), field@),
            decreases row.len() - k,
        {
            let c = row[k];
            assert(ks[k as int] == c as int);
            assert(ks.skip(k as int)[0] == c as int);
            assert(ks.skip(k as int).drop_first() =~= ks.skip(k + 1));
            match &self.nodes[c].field {
                Some(f) => {
                    let fv = chars_of(f.as_str());
                    if chars_eq_str(fv.as_slice(), field) {
                        return Some(c);
                    }
                },
                None => {},
            }
            k += 1;
        }
        None
    }
}

/// The value of a quoted string literal: without its surrounding `"` or `'`
/// (the text trimmed first); none where it is not so quoted.
pub open spec fn quoted_value(s: Seq<char>) -> Option<Seq<char>> {
    let t = trim(s);
    if t.len() >= 2 && t[0] == '"' && t.last() == '"' {
        Some(t.subrange(1, t.len() - 1))
    } else if t.len() >= 2 && t[0] == '\'' && t.last() == '\'' {
        Some(t.subrange(1, t.len() - 1))
    } else {
        None
    }
}

/// The value of a quoted string literal, or none.
pub fn quoted_value_exec(s: &str) -> (r: Option<String>)
    ensures
        opt_view(r) == quoted_value(s@),
{
    let v = chars_of(s);
    let t = trim_chars(v.as_slice());
    let n = t.len();
    if n >= 2 && ((t[0] == '"' && t[n - 1] == '"') || (t[0] == '\'' && t[n - 1] == '\'')) {
        let inner = sub_chars(t.as_slice(), 1, n - 1);
        Some(crate::text::string_of(inner.as_slice()))
    } else {
        None
    }
}

} // verus!
