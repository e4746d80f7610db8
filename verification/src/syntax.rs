//! Syntax trees as plain data.
//!
//! A tree is the sequence of its nodes in document order (a node before its
//! children, children from left to right), each with its depth below the
//! root. Positions in that sequence name the nodes.
use vstd::prelude::*;
use vstd::string::StringSliceAdditionalSpecFns;
use vstd::utf8::*;

verus! {

/// One node of a syntax tree.
#[derive(Clone, Copy, Debug, PartialEq, Eq, Structural)]
pub struct SyntaxNode {
    /// The grammar's number for the node's kind.
    pub kind: u16,
    /// The byte offset at which the node's text starts.
    pub start: usize,
    /// The byte offset just behind the node's text.
    pub end: usize,
    /// The number of ancestors of the node.
    pub depth: u32,
    /// The node stands for text that the grammar could not parse.
    pub error: bool,
    /// The node was made up by the parser to get over an error.
    pub missing: bool,
}

/// Positions as mathematical integers.
pub open spec fn positions(list: Seq<usize>) -> Seq<int> {
    list.map_values(|k: usize| k as int)
}

/// `nodes` lists a tree in document order: one root at depth zero, every
/// other node at most one level below the node before it, and no node ends
/// before it starts.
pub open spec fn well_formed(nodes: Seq<SyntaxNode>) -> bool {
    &&& nodes.len() > 0
    &&& nodes[0].depth == 0
    &&& forall|i: int|
        0 < i < nodes.len() ==> 1 <= (#[trigger] nodes[i]).depth <= nodes[i - 1].depth + 1
    &&& forall|i: int| 0 <= i < nodes.len() ==> (#[trigger] nodes[i]).start <= nodes[i].end
}

/// The first position from `from` on whose node is not deeper than `depth`,
/// or the length of `nodes` where there is none.
pub open spec fn next_not_below(nodes: Seq<SyntaxNode>, depth: u32, from: int) -> int
    decreases nodes.len() - from,
{
    if from >= nodes.len() {
        nodes.len() as int
    } else if from >= 0 && nodes[from].depth <= depth {
        from
    } else {
        next_not_below(nodes, depth, from + 1)
    }
}

/// The position just behind the last descendant of node `i`.
pub open spec fn subtree_end(nodes: Seq<SyntaxNode>, i: int) -> int {
    if 0 <= i < nodes.len() {
        next_not_below(nodes, nodes[i].depth, i + 1)
    } else {
        nodes.len() as int
    }
}

/// Node `i` exists and has no children.
pub open spec fn is_leaf(nodes: Seq<SyntaxNode>, i: int) -> bool {
    0 <= i < nodes.len() && subtree_end(nodes, i) == i + 1
}

/// Node `j` is a child of node `i` whose kind is not in `trivia`.
pub open spec fn is_significant_child(
    nodes: Seq<SyntaxNode>,
    trivia: Seq<u16>,
    i: int,
    j: int,
) -> bool {
    &&& 0 <= i < j < subtree_end(nodes, i)
    &&& nodes[j].depth == nodes[i].depth + 1
    &&& !trivia.contains(nodes[j].kind)
}

/// The significant children of node `i` at positions below `upto`, in order.
pub open spec fn significant_children_upto(
    nodes: Seq<SyntaxNode>,
    trivia: Seq<u16>,
    i: int,
    upto: int,
) -> Seq<int>
    decreases upto - i,
{
    if upto <= i + 1 {
        Seq::empty()
    } else {
        let before = significant_children_upto(nodes, trivia, i, upto - 1);
        if is_significant_child(nodes, trivia, i, upto - 1) {
            before.push(upto - 1)
        } else {
            before
        }
    }
}

/// The children of node `i` whose kind is not in `trivia`, from left to right.
pub open spec fn significant_children(nodes: Seq<SyntaxNode>, trivia: Seq<u16>, i: int) -> Seq<
    int,
> {
    significant_children_upto(nodes, trivia, i, subtree_end(nodes, i))
}

/// The children of node `i`, from left to right.
pub open spec fn children(nodes: Seq<SyntaxNode>, i: int) -> Seq<int> {
    significant_children(nodes, Seq::empty(), i)
}

/// Node `j` exists and its kind is in `trivia`.
pub open spec fn is_trivia_node(nodes: Seq<SyntaxNode>, trivia: Seq<u16>, j: int) -> bool {
    0 <= j < nodes.len() && trivia.contains(nodes[j].kind)
}

/// Node `i` is a node of a kind in `trivia`, or lies below one.
pub open spec fn in_trivia(nodes: Seq<SyntaxNode>, trivia: Seq<u16>, i: int) -> bool {
    exists|j: int| #[trigger] is_trivia_node(nodes, trivia, j) && j <= i < subtree_end(nodes, j)
}

/// The text between two byte offsets of UTF-8 `bytes`, where both offsets lie
/// on character boundaries.
pub open spec fn text_between(bytes: Seq<u8>, start: int, end: int) -> Option<Seq<char>> {
    if 0 <= start <= end <= bytes.len() && is_char_boundary(bytes, start) && is_char_boundary(
        bytes,
        end,
    ) {
        Some(decode_utf8(bytes.subrange(start, end)))
    } else {
        None
    }
}

/// The text that node `i` covers in `text`.
pub open spec fn node_text(nodes: Seq<SyntaxNode>, text: Seq<char>, i: int) -> Option<Seq<char>> {
    if 0 <= i < nodes.len() {
        text_between(encode_utf8(text), nodes[i].start as int, nodes[i].end as int)
    } else {
        None
    }
}

/// The end of a subtree lies behind its root and inside the tree, and every
/// node between the two is deeper than the root.
pub proof fn lemma_subtree_end(nodes: Seq<SyntaxNode>, i: int)
    requires
        0 <= i < nodes.len(),
    ensures
        i < subtree_end(nodes, i) <= nodes.len(),
        forall|j: int| i < j < subtree_end(nodes, i) ==> (#[trigger] nodes[j]).depth > nodes[i].depth,
        subtree_end(nodes, i) < nodes.len() ==> nodes[subtree_end(nodes, i)].depth
            <= nodes[i].depth,
{
    lemma_next_not_below(nodes, nodes[i].depth, i + 1);
}

/// What [`next_not_below`] finds, and what it passes over.
proof fn lemma_next_not_below(nodes: Seq<SyntaxNode>, depth: u32, from: int)
    requires
        0 <= from <= nodes.len(),
    ensures
        from <= next_not_below(nodes, depth, from) <= nodes.len(),
        forall|j: int|
            from <= j < next_not_below(nodes, depth, from) ==> (#[trigger] nodes[j]).depth > depth,
        next_not_below(nodes, depth, from) < nodes.len() ==> nodes[next_not_below(
            nodes,
            depth,
            from,
        )].depth <= depth,
    decreases nodes.len() - from,
{
    if from < nodes.len() && nodes[from].depth > depth {
        lemma_next_not_below(nodes, depth, from + 1);
    }
}

/// Every listed child is a significant child, and the list rises.
pub proof fn lemma_significant_children(
    nodes: Seq<SyntaxNode>,
    trivia: Seq<u16>,
    i: int,
    upto: int,
)
    ensures
        forall|k: int|
            0 <= k < significant_children_upto(nodes, trivia, i, upto).len()
                ==> is_significant_child(
                nodes,
                trivia,
                i,
                #[trigger] significant_children_upto(nodes, trivia, i, upto)[k],
            ) && significant_children_upto(nodes, trivia, i, upto)[k] < upto,
        forall|j: int|
            j < upto && is_significant_child(nodes, trivia, i, j)
                ==> #[trigger] significant_children_upto(nodes, trivia, i, upto).contains(j),
    decreases upto - i,
{
    if upto > i + 1 {
        lemma_significant_children(nodes, trivia, i, upto - 1);
        let before = significant_children_upto(nodes, trivia, i, upto - 1);
        let all = significant_children_upto(nodes, trivia, i, upto);
        if is_significant_child(nodes, trivia, i, upto - 1) {
            assert(all == before.push(upto - 1));
            assert(all[before.len() as int] == upto - 1);
            assert forall|j: int|
                j < upto && is_significant_child(nodes, trivia, i, j) implies all.contains(j) by {
                if j < upto - 1 {
                    assert(before.contains(j));
                    let k = choose|k: int| 0 <= k < before.len() && before[k] == j;
                    assert(all[k] == j);
                }
            }
        }
    }
}

/// The kinds of the nodes at the positions in `list`.
pub open spec fn kinds_at(nodes: Seq<SyntaxNode>, list: Seq<int>) -> Seq<u16> {
    list.map_values(|j: int| nodes[j].kind)
}

/// `kinds` without those that are in `trivia`.
pub open spec fn without_trivia(kinds: Seq<u16>, trivia: Seq<u16>) -> Seq<u16> {
    kinds.filter(|kind: u16| !trivia.contains(kind))
}

/// The significant children of a node are its children with the trivia
/// left out.
pub proof fn lemma_significant_children_skip_trivia(
    nodes: Seq<SyntaxNode>,
    trivia: Seq<u16>,
    i: int,
)
    ensures
        kinds_at(nodes, significant_children(nodes, trivia, i)) == without_trivia(
            kinds_at(nodes, children(nodes, i)),
            trivia,
        ),
{
    lemma_skip_trivia_upto(nodes, trivia, i, subtree_end(nodes, i));
}

/// The same for the children below `upto`.
proof fn lemma_skip_trivia_upto(nodes: Seq<SyntaxNode>, trivia: Seq<u16>, i: int, upto: int)
    ensures
        kinds_at(nodes, significant_children_upto(nodes, trivia, i, upto)) == without_trivia(
            kinds_at(nodes, significant_children_upto(nodes, Seq::empty(), i, upto)),
            trivia,
        ),
    decreases upto - i,
{
    reveal(Seq::filter);
    let keep = |kind: u16| !trivia.contains(kind);
    let all = significant_children_upto(nodes, Seq::empty(), i, upto);
    let kept = significant_children_upto(nodes, trivia, i, upto);
    if upto <= i + 1 {
        assert(kinds_at(nodes, all) =~= Seq::<u16>::empty());
        assert(kinds_at(nodes, kept) =~= Seq::<u16>::empty());
    } else {
        lemma_skip_trivia_upto(nodes, trivia, i, upto - 1);
        let j = upto - 1;
        let all_before = significant_children_upto(nodes, Seq::empty(), i, j);
        let kept_before = significant_children_upto(nodes, trivia, i, j);
        if is_significant_child(nodes, Seq::empty(), i, j) {
            let kinds = kinds_at(nodes, all);
            assert(kinds =~= kinds_at(nodes, all_before).push(nodes[j].kind));
            assert(kinds.drop_last() =~= kinds_at(nodes, all_before));
            assert(kinds.last() == nodes[j].kind);
            if keep(nodes[j].kind) {
                assert(is_significant_child(nodes, trivia, i, j));
                assert(kinds_at(nodes, kept) =~= kinds_at(nodes, kept_before).push(nodes[j].kind));
            } else {
                assert(!is_significant_child(nodes, trivia, i, j));
            }
        } else {
            assert(!is_significant_child(nodes, trivia, i, j));
        }
    }
}

/// Trivia between siblings does not show: a run of trivia kinds put in or
/// taken out anywhere among the kinds of sibling nodes leaves the
/// significant ones as they were.
pub proof fn lemma_trivia_run_is_skipped(
    before: Seq<u16>,
    run: Seq<u16>,
    after: Seq<u16>,
    trivia: Seq<u16>,
)
    requires
        forall|k: int| 0 <= k < run.len() ==> trivia.contains(#[trigger] run[k]),
    ensures
        without_trivia(before + run + after, trivia) == without_trivia(before + after, trivia),
{
    let keep = |kind: u16| !trivia.contains(kind);
    Seq::filter_distributes_over_add(before + run, after, keep);
    Seq::filter_distributes_over_add(before, run, keep);
    Seq::filter_distributes_over_add(before, after, keep);
    assert(run.filter(keep) =~= Seq::<u16>::empty()) by {
        if run.filter(keep).len() > 0 {
            run.lemma_filter_pred(keep, 0);
            let kind = run.filter(keep)[0];
            run.lemma_filter_contains_rev(keep, kind);
        }
    }
    assert(before.filter(keep) + run.filter(keep) =~= before.filter(keep));
}

/// A syntax tree: nodes in document order that form one tree.
pub struct SyntaxTree {
    nodes: Vec<SyntaxNode>,
}

impl View for SyntaxTree {
    type V = Seq<SyntaxNode>;

    closed spec fn view(&self) -> Seq<SyntaxNode> {
        self.nodes@
    }
}

/// Whether `kind` is one of `kinds`.
pub fn contains_kind(kinds: &Vec<u16>, kind: u16) -> (found: bool)
    ensures
        found == kinds@.contains(kind),
{
    let mut i: usize = 0;
    while i < kinds.len()
        invariant
            i <= kinds.len(),
            forall|k: int| 0 <= k < i ==> kinds@[k] != kind,
        decreases kinds.len() - i,
    {
        if kinds[i] == kind {
            return true;
        }
        i = i + 1;
    }
    false
}

impl SyntaxTree {
    #[verifier::type_invariant]
    spec fn valid(self) -> bool {
        well_formed(self.nodes@)
    }

    /// Makes a tree of `nodes` if they list one.
    pub fn from_nodes(nodes: Vec<SyntaxNode>) -> (tree: Option<SyntaxTree>)
        ensures
            match tree {
                Some(t) => t@ == nodes@ && well_formed(nodes@),
                None => !well_formed(nodes@),
            },
    {
        let n = nodes.len();
        if n == 0 || nodes[0].depth != 0 || nodes[0].start > nodes[0].end {
            return None;
        }
        let mut i: usize = 1;
        while i < n
            invariant
                n == nodes@.len(),
                1 <= i <= n,
                nodes@[0].depth == 0,
                forall|k: int|
                    0 < k < i ==> 1 <= (#[trigger] nodes@[k]).depth <= nodes@[k - 1].depth + 1,
                forall|k: int| 0 <= k < i ==> (#[trigger] nodes@[k]).start <= nodes@[k].end,
            decreases n - i,
        {
            let depth = nodes[i].depth;
            let above = nodes[i - 1].depth;
            if depth < 1 || (above < u32::MAX && depth > above + 1) || nodes[i].start
                > nodes[i].end {
                return None;
            }
            i = i + 1;
        }
        Some(SyntaxTree { nodes })
    }

    /// The number of nodes, which is never zero.
    pub fn len(&self) -> (n: usize)
        ensures
            n == self@.len(),
            well_formed(self@),
    {
        proof {
            use_type_invariant(self);
        }
        self.nodes.len()
    }

    /// The nodes in document order.
    pub fn nodes(&self) -> (nodes: &Vec<SyntaxNode>)
        ensures
            nodes@ == self@,
            well_formed(self@),
    {
        proof {
            use_type_invariant(self);
        }
        &self.nodes
    }

    /// Node `i`, if there is one.
    pub fn node(&self, i: usize) -> (node: Option<SyntaxNode>)
        ensures
            node == if i < self@.len() {
                Some(self@[i as int])
            } else {
                None
            },
    {
        if i < self.nodes.len() {
            Some(self.nodes[i])
        } else {
            None
        }
    }

    /// The position just behind the last descendant of node `i`; the number
    /// of nodes where there is no node `i`.
    pub fn subtree_end(&self, i: usize) -> (end: usize)
        ensures
            end == subtree_end(self@, i as int),
            end <= self@.len(),
            i < self@.len() ==> i < end,
    {
        let n = self.nodes.len();
        if i >= n {
            return n;
        }
        let depth = self.nodes[i].depth;
        let mut j: usize = i + 1;
        while j < n && self.nodes[j].depth > depth
            invariant
                n == self.nodes@.len(),
                i < j <= n,
                next_not_below(self.nodes@, depth, i + 1) == next_not_below(
                    self.nodes@,
                    depth,
                    j as int,
                ),
            decreases n - j,
        {
            j = j + 1;
        }
        j
    }

    /// Whether node `i` exists and has no children.
    pub fn is_leaf(&self, i: usize) -> (leaf: bool)
        ensures
            leaf == is_leaf(self@, i as int),
    {
        i < self.nodes.len() && self.subtree_end(i) == i + 1
    }

    /// The children of node `i` whose kind is not in `trivia`, from left to
    /// right; none where there is no node `i`.
    pub fn significant_children(&self, i: usize, trivia: &Vec<u16>) -> (kids: Vec<usize>)
        ensures
            positions(kids@) == significant_children(
                self@,
                trivia@,
                i as int,
            ),
            forall|k: int| 0 <= k < kids@.len() ==> i < #[trigger] kids@[k] < self@.len(),
    {
        let mut kids: Vec<usize> = Vec::new();
        let n = self.nodes.len();
        if i >= n {
            assert(subtree_end(self@, i as int) == n);
            assert(significant_children_upto(self@, trivia@, i as int, n as int) =~= Seq::empty())
                by {
                lemma_significant_children(self@, trivia@, i as int, n as int);
                let all = significant_children_upto(self@, trivia@, i as int, n as int);
                if all.len() > 0 {
                    assert(is_significant_child(self@, trivia@, i as int, all[0]));
                }
            }
            assert(positions(kids@) =~= Seq::empty());
            return kids;
        }
        let end = self.subtree_end(i);
        let depth = self.nodes[i].depth;
        let mut j: usize = i + 1;
        assert(positions(kids@) =~= Seq::empty());
        while j < end
            invariant
                n == self.nodes@.len(),
                i < n,
                i < j <= end <= n,
                end == subtree_end(self@, i as int),
                depth == self@[i as int].depth,
                positions(kids@) == significant_children_upto(
                    self@,
                    trivia@,
                    i as int,
                    j as int,
                ),
                forall|k: int| 0 <= k < kids@.len() ==> i < #[trigger] kids@[k] < n,
            decreases end - j,
        {
            let node = self.nodes[j];
            let ghost before = positions(kids@);
            if depth < u32::MAX && node.depth == depth + 1 && !contains_kind(trivia, node.kind) {
                kids.push(j);
                assert(positions(kids@) =~= before.push(j as int));
            }
            j = j + 1;
        }
        kids
    }

    /// The children of node `i`, from left to right.
    pub fn children(&self, i: usize) -> (kids: Vec<usize>)
        ensures
            positions(kids@) == children(self@, i as int),
            forall|k: int| 0 <= k < kids@.len() ==> i < #[trigger] kids@[k] < self@.len(),
    {
        let none: Vec<u16> = Vec::new();
        self.significant_children(i, &none)
    }

    /// The text of node `i` in `text`: `None` where there is no such node or
    /// its byte range does not cut `text` at character boundaries.
    pub fn text_of<'a>(&self, i: usize, text: &'a str) -> (token: Option<&'a str>)
        ensures
            match token {
                Some(t) => node_text(self@, text@, i as int) == Some(t@),
                None => node_text(self@, text@, i as int) is None,
            },
    {
        if i >= self.nodes.len() {
            return None;
        }
        let node = self.nodes[i];
        slice_text(text, node.start, node.end)
    }
}

/// The part of `text` between two byte offsets: `None` unless both lie on
/// character boundaries, the first not behind the second.
pub fn slice_text<'a>(text: &'a str, start: usize, end: usize) -> (part: Option<&'a str>)
    ensures
        match part {
            Some(t) => text_between(encode_utf8(text@), start as int, end as int) == Some(t@),
            None => text_between(encode_utf8(text@), start as int, end as int) is None,
        },
{
    broadcast use {encode_utf8_valid_utf8, encode_utf8_decode_utf8};

    let ghost bytes = encode_utf8(text@);
    let len = text.as_bytes().len();
    if start <= end && end <= len && text.is_char_boundary(start) && text.is_char_boundary(end) {
        let (head, _) = text.split_at(end);
        proof {
            let head_bytes = bytes.subrange(0, end as int);
            valid_utf8_split(bytes, end as int);
            if start < end {
                is_char_boundary_iff_not_is_continuation_byte(bytes, start as int);
                is_char_boundary_iff_not_is_continuation_byte(head_bytes, start as int);
            } else {
                is_char_boundary_start_end_of_seq(head_bytes);
            }
        }
        let (_, part) = head.split_at(start);
        proof {
            assert(part.spec_bytes() =~= bytes.subrange(start as int, end as int));
            assert(decode_utf8(encode_utf8(part@)) == part@);
        }
        Some(part)
    } else {
        None
    }
}

} // verus!
