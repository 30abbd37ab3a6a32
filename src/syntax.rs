//! The concrete syntax tree of a manifest, as the TOML grammar produces it,
//! held as a flat pre-order list of nodes with byte spans.

use vstd::prelude::*;
use vstd::utf8::*;
use vstd::string::StringSliceAdditionalSpecFns;

verus! {

/// The node kinds that the extractor tells apart; every other kind of the
/// grammar is `Other`.
#[derive(Clone, Copy, Debug, PartialEq, Eq, Structural)]
pub enum NodeKind {
    Document,
    Table,
    Pair,
    BareKey,
    Str,
    InlineTable,
    Other,
}

/// One node of the tree: its kind, its byte span in the source, the index of
/// its parent and the index of the last node of its subtree.
#[derive(Clone, Copy, Debug, PartialEq, Eq, Structural)]
pub struct SyntaxNode {
    pub kind: NodeKind,
    pub start: usize,
    pub end: usize,
    pub parent: usize,
    pub last: usize,
}

/// A syntax tree in pre-order: node 0 is the root, and the subtree of node
/// `i` is the range `i ..= nodes[i].last`.
pub struct SyntaxTree {
    pub nodes: Vec<SyntaxNode>,
}

impl SyntaxTree {
    pub open spec fn view(&self) -> Seq<SyntaxNode> {
        self.nodes@
    }

    /// Every span lies within a source of `len` bytes and within its
    /// parent's, every parent comes before its child, and every subtree ends
    /// inside the list.
    pub open spec fn wf(&self, len: nat) -> bool {
        well_formed(self@, len)
    }
}

/// The conditions under which a node list is a tree over a source of `len`
/// bytes, as the extractor reads it.
pub open spec fn well_formed(t: Seq<SyntaxNode>, len: nat) -> bool {
    &&& 0 < t.len() < usize::MAX
    &&& forall|i: int|
        #![trigger t[i]]
        0 <= i < t.len() ==> {
            &&& t[i].start <= t[i].end
            &&& t[i].end <= len
            &&& i <= t[i].last < t.len()
            &&& (i > 0 ==> t[i].parent < i)
        }
    &&& spans_nested(t)
}

/// Every node's span lies within its parent's.
#[verifier::opaque]
pub open spec fn spans_nested(t: Seq<SyntaxNode>) -> bool {
    forall|i: int|
        #![trigger t[i]]
        0 < i < t.len() && t[i].parent < i ==> t[t[i].parent as int].start <= t[i].start
            && t[i].end <= t[t[i].parent as int].end
}

/// A node as the parser lists it: the grammar's name of its kind, its start
/// and end bytes, and its number of children.
pub type RawNode = (Seq<char>, usize, usize, usize);

/// The nodes of the TOML tree of a source, in pre-order, as tree-sitter
/// parses it; `None` when the parser yields no tree.
pub uninterp spec fn toml_nodes_of(s: Seq<char>) -> Option<Seq<RawNode>>;

pub open spec fn raw_view(v: Seq<(String, usize, usize, usize)>) -> Seq<RawNode> {
    v.map_values(|e: (String, usize, usize, usize)| (e.0@, e.1, e.2, e.3))
}

pub open spec fn opt_raw_view(o: Option<Vec<(String, usize, usize, usize)>>) -> Option<Seq<RawNode>> {
    match o {
        Some(v) => Some(raw_view(v@)),
        None => None,
    }
}

/// Relies on tree_sitter::Parser (new, set_language with
/// tree_sitter_toml::language, parse) and tree_sitter::TreeCursor: the
/// nodes of the tree of `source` in pre-order, each as its kind, start
/// byte, end byte and number of children. The parser has no timeout or
/// cancellation flag set, so the tree depends on the text alone.
#[verifier::external_body]
fn toml_node_list(source: &str) -> (r: Option<Vec<(String, usize, usize, usize)>>)
    ensures
        opt_raw_view(r) == toml_nodes_of(source@),
{
    let mut parser = tree_sitter::Parser::new();
    parser.set_language(tree_sitter_toml::language()).ok()?;
    let tree = parser.parse(source, None)?;
    let (mut c, mut out) = (tree.walk(), Vec::new());
    loop {
        let n = c.node();
        out.push((n.kind().to_string(), n.start_byte(), n.end_byte(), n.child_count()));
        if !c.goto_first_child() {
            while !c.goto_next_sibling() {
                if !c.goto_parent() {
                    return Some(out);
                }
            }
        }
    }
}

/// The kind that the extractor reads in the grammar's name of a kind.
pub open spec fn kind_from(k: Seq<char>) -> NodeKind {
    if k == "document"@ {
        NodeKind::Document
    } else if k == "table"@ {
        NodeKind::Table
    } else if k == "pair"@ {
        NodeKind::Pair
    } else if k == "bare_key"@ {
        NodeKind::BareKey
    } else if k == "string"@ {
        NodeKind::Str
    } else if k == "inline_table"@ {
        NodeKind::InlineTable
    } else {
        NodeKind::Other
    }
}

fn kind_of(k: &String) -> (r: NodeKind)
    ensures
        r == kind_from(k@),
{
    if *k == "document".to_owned() {
        NodeKind::Document
    } else if *k == "table".to_owned() {
        NodeKind::Table
    } else if *k == "pair".to_owned() {
        NodeKind::Pair
    } else if *k == "bare_key".to_owned() {
        NodeKind::BareKey
    } else if *k == "string".to_owned() {
        NodeKind::Str
    } else if *k == "inline_table".to_owned() {
        NodeKind::InlineTable
    } else {
        NodeKind::Other
    }
}

/// The state of rebuilding a tree from its pre-order list: the nodes so
/// far, the open nodes with the number of children each still waits for,
/// and whether the list has proved not to be a tree.
pub struct Builder {
    pub nodes: Seq<SyntaxNode>,
    pub open: Seq<(usize, usize)>,
    pub bad: bool,
}

/// Closes the open nodes that wait for no more children: the subtree of
/// each ends at node `last`.
pub open spec fn close_finished(nodes: Seq<SyntaxNode>, open: Seq<(usize, usize)>, last: usize) -> (
    Seq<SyntaxNode>,
    Seq<(usize, usize)>,
)
    decreases open.len(),
{
    if open.len() > 0 && open.last().1 == 0 && open.last().0 < nodes.len() {
        let idx = open.last().0 as int;
        let n = nodes[idx];
        close_finished(
            nodes.update(
                idx,
                SyntaxNode { kind: n.kind, start: n.start, end: n.end, parent: n.parent, last },
            ),
            open.drop_last(),
            last,
        )
    } else {
        (nodes, open)
    }
}

/// Adds node `i` of the list: a child of the innermost open node (node 0,
/// the root, has none), open itself while it waits for children.
pub open spec fn build_step(b: Builder, e: RawNode, i: usize) -> Builder {
    if b.bad || (i > 0 && b.open.len() == 0) || (b.open.len() > 0 && b.open.last().1 == 0) {
        Builder { nodes: b.nodes, open: b.open, bad: true }
    } else {
        let parent: usize = if b.open.len() == 0 {
            0
        } else {
            b.open.last().0
        };
        let open1 = if b.open.len() == 0 {
            b.open
        } else {
            b.open.update(b.open.len() - 1, (b.open.last().0, (b.open.last().1 - 1) as usize))
        };
        let nodes1 = b.nodes.push(
            SyntaxNode { kind: kind_from(e.0), start: e.1, end: e.2, parent, last: i },
        );
        let open2 = if e.3 > 0 {
            open1.push((i, e.3))
        } else {
            open1
        };
        let c = close_finished(nodes1, open2, i);
        Builder { nodes: c.0, open: c.1, bad: false }
    }
}

/// The state after the first `j` nodes of the list.
pub open spec fn build_upto(l: Seq<RawNode>, j: int) -> Builder
    decreases j,
{
    if j <= 0 {
        Builder { nodes: Seq::empty(), open: Seq::empty(), bad: false }
    } else {
        build_step(build_upto(l, j - 1), l[j - 1], (j - 1) as usize)
    }
}

/// The tree that a pre-order list describes over a source of `len` bytes,
/// if it describes a well-formed one.
pub open spec fn tree_of_nodes(l: Seq<RawNode>, len: nat) -> Option<Seq<SyntaxNode>> {
    let b = build_upto(l, l.len() as int);
    if !b.bad && b.open.len() == 0 && well_formed(b.nodes, len) {
        Some(b.nodes)
    } else {
        None
    }
}

/// The syntax tree of a source: the TOML parse, rebuilt as a tree over its
/// bytes.
pub open spec fn source_tree(s: Seq<char>) -> Option<Seq<SyntaxNode>> {
    match toml_nodes_of(s) {
        Some(l) => tree_of_nodes(l, encode_utf8(s).len()),
        None => None,
    }
}

/// Rebuilds the tree that a pre-order list describes.
fn build_tree(list: &Vec<(String, usize, usize, usize)>) -> (r: (
    Vec<SyntaxNode>,
    Vec<(usize, usize)>,
    bool,
))
    ensures
        ({
            let b = build_upto(raw_view(list@), list@.len() as int);
            r.0@ == b.nodes && r.1@ == b.open && r.2 == b.bad
        }),
{
    let ghost l = raw_view(list@);
    let mut nodes: Vec<SyntaxNode> = Vec::new();
    let mut open: Vec<(usize, usize)> = Vec::new();
    let mut bad = false;
    let mut i: usize = 0;
    while i < list.len()
        invariant
            l == raw_view(list@),
            i <= list@.len(),
            nodes@ == build_upto(l, i as int).nodes,
            open@ == build_upto(l, i as int).open,
            bad == build_upto(l, i as int).bad,
        decreases list@.len() - i,
    {
        let ghost b = build_upto(l, i as int);
        let e = &list[i];
        assert(l[i as int] == (e.0@, e.1, e.2, e.3));
        if bad || (i > 0 && open.len() == 0) || (open.len() > 0 && open[open.len() - 1].1 == 0) {
            bad = true;
        } else {
            let parent: usize = if open.len() == 0 {
                0
            } else {
                open[open.len() - 1].0
            };
            if open.len() > 0 {
                let top = open.len() - 1;
                let t = open[top];
                open[top] = (t.0, t.1 - 1);
            }
            nodes.push(SyntaxNode { kind: kind_of(&e.0), start: e.1, end: e.2, parent, last: i });
            if e.3 > 0 {
                open.push((i, e.3));
            }
            let ghost target = close_finished(nodes@, open@, i);
            while open.len() > 0 && open[open.len() - 1].1 == 0 && open[open.len() - 1].0
                < nodes.len()
                invariant
                    close_finished(nodes@, open@, i) == target,
                decreases open@.len(),
            {
                let top = open.len() - 1;
                let idx = open[top].0;
                let n = nodes[idx];
                nodes[idx] = SyntaxNode {
                    kind: n.kind,
                    start: n.start,
                    end: n.end,
                    parent: n.parent,
                    last: i,
                };
                let ghost before = open@;
                open.pop();
                assert(open@ == before.drop_last());
            }
            assert(build_step(b, l[i as int], i) == Builder {
                nodes: target.0,
                open: target.1,
                bad: false,
            });
        }
        i = i + 1;
    }
    (nodes, open, bad)
}

/// Whether `nodes` form a well-formed tree over a source of `len` bytes.
fn check_tree(nodes: &Vec<SyntaxNode>, len: usize) -> (r: bool)
    ensures
        r == well_formed(nodes@, len as nat),
{
    if nodes.len() == 0 || nodes.len() == usize::MAX {
        return false;
    }
    let mut i: usize = 0;
    while i < nodes.len()
        invariant
            0 <= i <= nodes@.len(),
            0 < nodes@.len() < usize::MAX,
            forall|k: int|
                #![trigger nodes@[k]]
                0 <= k < i ==> {
                    &&& nodes@[k].start <= nodes@[k].end
                    &&& nodes@[k].end <= len
                    &&& k <= nodes@[k].last < nodes@.len()
                    &&& (k > 0 ==> nodes@[k].parent < k && nodes@[nodes@[k].parent as int].start
                        <= nodes@[k].start && nodes@[k].end <= nodes@[nodes@[k].parent as int].end)
                },
        decreases nodes@.len() - i,
    {
        let n = nodes[i];
        let ok = n.start <= n.end && n.end <= len && i <= n.last && n.last < nodes.len() && (i == 0
            || (n.parent < i && nodes[n.parent].start <= n.start && n.end <= nodes[n.parent].end));
        if !ok {
            assert(!well_formed(nodes@, len as nat)) by {
                reveal(spans_nested);
                assert(nodes@[i as int] == n);
            }
            return false;
        }
        i = i + 1;
    }
    assert(spans_nested(nodes@)) by {
        reveal(spans_nested);
    }
    true
}

/// Parses `source` with the TOML grammar: the tree that `source_tree`
/// gives, `None` exactly when it gives none.
pub fn parse_manifest(source: &str) -> (r: Option<SyntaxTree>)
    ensures
        match r {
            Some(t) => source_tree(source@) == Some(t@) && t.wf(source.spec_bytes().len()),
            None => source_tree(source@) is None,
        },
{
    let list = match toml_node_list(source) {
        Some(l) => l,
        None => {
            return None;
        },
    };
    let (nodes, open, bad) = build_tree(&list);
    let len = source.as_bytes().len();
    proof {
        assert(raw_view(list@).len() == list@.len());
    }
    if bad || open.len() > 0 {
        return None;
    }
    if check_tree(&nodes, len) {
        Some(SyntaxTree { nodes })
    } else {
        None
    }
}

} // verus!
