//! Patterns: a parsed query fragment made ready for matching.
//!
//! The parse of a fragment wraps what the author wrote in context that the
//! grammar needs. Normalizing finds the node or the run of nodes that was
//! meant, and tags every token that is a capture.
use crate::meta_var::{
    classify, extract_meta_var, lemma_plain_token_is_text, MetaVariable, MetaVariableView,
};
use crate::syntax::{
    contains_kind, in_trivia, is_leaf, is_trivia_node, lemma_subtree_end, node_text, positions,
    significant_children, subtree_end, SyntaxNode, SyntaxTree,
};
use vstd::prelude::*;
use vstd::string::StringExecFns;

verus! {

/// Why a fragment is no pattern.
#[derive(Debug, PartialEq, Eq)]
pub enum PatternError {
    /// The grammar could not parse the fragment. `offset` is the byte at
    /// which the first unparsed or made-up node starts, or zero where the
    /// grammar gave no tree at all. The same is reported, at the node's
    /// start, for a tree that does not fit the text: a token whose byte
    /// range does not cut the text at character boundaries.
    PatternParse { offset: usize },
    /// Several nodes could be the one that was meant, and the language's
    /// priority order does not choose among them.
    AmbiguousPattern,
    /// The token at byte `offset` starts with the sigil but is no capture.
    InvalidMetaVariableSyntax { token: String, offset: usize },
}

/// The mathematical value of a [`PatternError`].
pub ghost enum PatternErrorView {
    PatternParse { offset: usize },
    AmbiguousPattern,
    InvalidMetaVariableSyntax { token: Seq<char>, offset: usize },
}

impl View for PatternError {
    type V = PatternErrorView;

    open spec fn view(&self) -> PatternErrorView {
        match self {
            PatternError::PatternParse { offset } => PatternErrorView::PatternParse {
                offset: *offset,
            },
            PatternError::AmbiguousPattern => PatternErrorView::AmbiguousPattern,
            PatternError::InvalidMetaVariableSyntax { token, offset } => {
                PatternErrorView::InvalidMetaVariableSyntax { token: token@, offset: *offset }
            },
        }
    }
}

/// The mathematical value of a [`Pattern`].
pub ghost struct PatternView {
    /// The name of the language that the pattern belongs to.
    pub language: Seq<char>,
    /// The whole parse of the fragment.
    pub nodes: Seq<SyntaxNode>,
    /// The positions of the nodes that were meant, from left to right.
    pub roots: Seq<int>,
    /// For every node, what it captures.
    pub captures: Seq<MetaVariableView>,
}

/// The first position from `from` on, below `len`, at which `found` holds.
pub open spec fn first_from(found: spec_fn(int) -> bool, from: int, len: int) -> Option<int>
    decreases len - from,
{
    if from >= len {
        None
    } else if found(from) {
        Some(from)
    } else {
        first_from(found, from + 1, len)
    }
}

/// [`first_from`] finds the least position, and finds one if there is any.
pub proof fn lemma_first_from(found: spec_fn(int) -> bool, from: int, len: int)
    ensures
        match first_from(found, from, len) {
            Some(i) => from <= i < len && found(i) && forall|j: int| from <= j < i ==> !#[trigger] found(j),
            None => forall|j: int| from <= j < len ==> !#[trigger] found(j),
        },
    decreases len - from,
{
    if from < len && !found(from) {
        lemma_first_from(found, from + 1, len);
    }
}

/// The node is an error node or was made up by the parser.
pub open spec fn is_broken(node: SyntaxNode) -> bool {
    node.error || node.missing
}

/// The first broken node of `nodes`.
pub open spec fn first_broken(nodes: Seq<SyntaxNode>) -> Option<int> {
    first_from(|i: int| is_broken(nodes[i]), 0, nodes.len() as int)
}

/// The chain of wrappers below node `from`: its only significant child, that
/// child's only significant child, and so on.
pub open spec fn wrapper_chain(nodes: Seq<SyntaxNode>, trivia: Seq<u16>, from: int) -> Seq<int>
    decreases nodes.len() - from,
{
    let kids = significant_children(nodes, trivia, from);
    if 0 <= from && kids.len() == 1 && from < kids[0] < nodes.len() {
        seq![kids[0]] + wrapper_chain(nodes, trivia, kids[0])
    } else {
        Seq::empty()
    }
}

/// The nodes that may be the one that was meant: every node on the chain
/// below the root covers all of the fragment that is not trivia.
pub open spec fn candidates(nodes: Seq<SyntaxNode>, trivia: Seq<u16>) -> Seq<int> {
    wrapper_chain(nodes, trivia, 0)
}

/// The rank that `order` gives `kind`, looking from `from` on: one more than
/// the position of its first entry, zero where it has none.
pub open spec fn rank_from(order: Seq<u16>, kind: u16, from: int) -> nat
    decreases order.len() - from,
{
    if from < 0 || from >= order.len() {
        0
    } else if order[from] == kind {
        (from + 1) as nat
    } else {
        rank_from(order, kind, from + 1)
    }
}

/// The rank of `kind`. A kind that `order` does not list is genuine syntax
/// and has rank zero. The listed kinds are wrappers, ranked in the order in
/// which they are listed. The lower rank is preferred.
pub open spec fn rank(order: Seq<u16>, kind: u16) -> nat {
    rank_from(order, kind, 0)
}

/// The rank of candidate `k`.
pub open spec fn candidate_rank(
    nodes: Seq<SyntaxNode>,
    order: Seq<u16>,
    cands: Seq<int>,
    k: int,
) -> nat {
    rank(order, nodes[cands[k]].kind)
}

/// Candidate `w` is preferred to every other candidate.
pub open spec fn is_winner(nodes: Seq<SyntaxNode>, order: Seq<u16>, cands: Seq<int>, w: int) -> bool {
    &&& 0 <= w < cands.len()
    &&& forall|k: int|
        0 <= k < cands.len() && k != w ==> candidate_rank(nodes, order, cands, w)
            < #[trigger] candidate_rank(nodes, order, cands, k)
}

/// Some candidate is preferred to every other.
pub open spec fn has_winner(nodes: Seq<SyntaxNode>, order: Seq<u16>, cands: Seq<int>) -> bool {
    exists|w: int| is_winner(nodes, order, cands, w)
}

/// The candidate that is preferred to every other.
pub open spec fn winner(nodes: Seq<SyntaxNode>, order: Seq<u16>, cands: Seq<int>) -> int {
    choose|w: int| is_winner(nodes, order, cands, w)
}

/// No two candidates are both preferred to every other.
pub proof fn lemma_winner_unique(
    nodes: Seq<SyntaxNode>,
    order: Seq<u16>,
    cands: Seq<int>,
    a: int,
    b: int,
)
    requires
        is_winner(nodes, order, cands, a),
        is_winner(nodes, order, cands, b),
    ensures
        a == b,
{
    if a != b {
        assert(candidate_rank(nodes, order, cands, a) < candidate_rank(nodes, order, cands, b));
        assert(candidate_rank(nodes, order, cands, b) < candidate_rank(nodes, order, cands, a));
    }
}

/// The nodes that the fragment stands for.
///
/// The root is always context. More than one significant node below it is a
/// sequence and stays one. A single one starts the chain of candidates, of
/// which the one preferred to all others is meant; where the best rank is
/// shared, the fragment is ambiguous. A fragment without any significant
/// node stands for the root itself.
pub open spec fn pattern_roots(nodes: Seq<SyntaxNode>, trivia: Seq<u16>, order: Seq<u16>) -> Result<
    Seq<int>,
    PatternErrorView,
> {
    let top = significant_children(nodes, trivia, 0);
    let cands = candidates(nodes, trivia);
    if top.len() == 0 {
        Ok(seq![0int])
    } else if top.len() > 1 {
        Ok(top)
    } else if has_winner(nodes, order, cands) {
        Ok(seq![cands[winner(nodes, order, cands)]])
    } else {
        Err(PatternErrorView::AmbiguousPattern)
    }
}

/// Node `i` is a token that is read: a leaf outside all trivia.
pub open spec fn is_token(nodes: Seq<SyntaxNode>, trivia: Seq<u16>, i: int) -> bool {
    is_leaf(nodes, i) && !in_trivia(nodes, trivia, i)
}

/// What node `i` captures. Only tokens are read; a token whose byte range
/// does not fit the text is a parse failure.
pub open spec fn tag_at(
    nodes: Seq<SyntaxNode>,
    text: Seq<char>,
    trivia: Seq<u16>,
    sigil: char,
    i: int,
) -> Result<MetaVariableView, PatternErrorView> {
    if !is_token(nodes, trivia, i) {
        Ok(MetaVariableView::NotCapture)
    } else {
        match node_text(nodes, text, i) {
            None => Err(PatternErrorView::PatternParse { offset: nodes[i].start }),
            Some(token) => match classify(token, sigil) {
                Ok(var) => Ok(var),
                Err(_) => Err(
                    PatternErrorView::InvalidMetaVariableSyntax { token, offset: nodes[i].start },
                ),
            },
        }
    }
}

/// The first node whose token cannot be read.
pub open spec fn first_tag_error(
    nodes: Seq<SyntaxNode>,
    text: Seq<char>,
    trivia: Seq<u16>,
    sigil: char,
) -> Option<int> {
    first_from(|i: int| tag_at(nodes, text, trivia, sigil, i) is Err, 0, nodes.len() as int)
}

/// The pattern that the parse `nodes` of the fragment `text` gives.
///
/// Steps, in this order: a broken node fails the parse; the nodes that were
/// meant are found; then every token is read against the sigil.
pub open spec fn normalized(
    language: Seq<char>,
    nodes: Seq<SyntaxNode>,
    text: Seq<char>,
    sigil: char,
    trivia: Seq<u16>,
    order: Seq<u16>,
) -> Result<PatternView, PatternErrorView> {
    match first_broken(nodes) {
        Some(i) => Err(PatternErrorView::PatternParse { offset: nodes[i].start }),
        None => match pattern_roots(nodes, trivia, order) {
            Err(e) => Err(e),
            Ok(roots) => match first_tag_error(nodes, text, trivia, sigil) {
                Some(i) => Err(tag_at(nodes, text, trivia, sigil, i)->Err_0),
                None => Ok(
                    PatternView {
                        language,
                        nodes,
                        roots,
                        captures: Seq::new(
                            nodes.len(),
                            |i: int| tag_at(nodes, text, trivia, sigil, i)->Ok_0,
                        ),
                    },
                ),
            },
        },
    }
}

/// A parse failure is reported for a broken parse and for nothing else.
///
/// The first broken node fails the parse at its start. Without a broken
/// node, a parse failure means that the tree does not fit the text: some
/// token's byte range does not cut it at character boundaries.
pub proof fn lemma_parse_failure(
    language: Seq<char>,
    nodes: Seq<SyntaxNode>,
    text: Seq<char>,
    sigil: char,
    trivia: Seq<u16>,
    order: Seq<u16>,
)
    ensures
        first_broken(nodes) matches Some(i) ==> 0 <= i < nodes.len() && is_broken(nodes[i])
            && normalized(language, nodes, text, sigil, trivia, order) == Err::<
            PatternView,
            PatternErrorView,
        >(PatternErrorView::PatternParse { offset: nodes[i].start }),
        first_broken(nodes) is None ==> forall|i: int|
            0 <= i < nodes.len() ==> !is_broken(#[trigger] nodes[i]),
        first_broken(nodes) is None ==> (normalized(language, nodes, text, sigil, trivia, order)
            matches Err(PatternErrorView::PatternParse { offset }) ==> exists|i: int|
            0 <= i < nodes.len() && is_token(nodes, trivia, i) && #[trigger] node_text(
                nodes,
                text,
                i,
            ) is None && nodes[i].start == offset),
{
    let broken = |i: int| is_broken(nodes[i]);
    let failed = |i: int| tag_at(nodes, text, trivia, sigil, i) is Err;
    lemma_first_from(broken, 0, nodes.len() as int);
    lemma_first_from(failed, 0, nodes.len() as int);
    if first_broken(nodes) is None {
        assert forall|i: int| 0 <= i < nodes.len() implies !is_broken(#[trigger] nodes[i]) by {
            assert(!broken(i));
        }
        if normalized(language, nodes, text, sigil, trivia, order) matches Err(
            PatternErrorView::PatternParse { offset },
        ) {
            let i = first_tag_error(nodes, text, trivia, sigil)->Some_0;
            assert(failed(i));
            assert(node_text(nodes, text, i) is None);
        }
    }
}

/// A fragment without captures gives a pattern without captures.
///
/// Where no token that is read starts with the sigil, normalizing never
/// rejects a token, and the pattern it gives tags no node.
pub proof fn lemma_plain_fragment_has_no_captures(
    language: Seq<char>,
    nodes: Seq<SyntaxNode>,
    text: Seq<char>,
    sigil: char,
    trivia: Seq<u16>,
    order: Seq<u16>,
)
    requires
        forall|i: int|
            0 <= i < nodes.len() && #[trigger] is_token(nodes, trivia, i) ==> match node_text(
                nodes,
                text,
                i,
            ) {
                Some(token) => token.len() == 0 || token[0] != sigil,
                None => false,
            },
    ensures
        match normalized(language, nodes, text, sigil, trivia, order) {
            Ok(pattern) => pattern.captures.len() == nodes.len() && forall|i: int|
                0 <= i < nodes.len() ==> #[trigger] pattern.captures[i]
                    == MetaVariableView::NotCapture,
            Err(e) => !(e is InvalidMetaVariableSyntax),
        },
{
    let failed = |i: int| tag_at(nodes, text, trivia, sigil, i) is Err;
    assert forall|i: int| 0 <= i < nodes.len() implies tag_at(nodes, text, trivia, sigil, i)
        == Ok::<MetaVariableView, PatternErrorView>(MetaVariableView::NotCapture) by {
        if is_token(nodes, trivia, i) {
            lemma_plain_token_is_text(node_text(nodes, text, i)->Some_0, sigil);
        }
    }
    lemma_first_from(failed, 0, nodes.len() as int);
    assert(first_tag_error(nodes, text, trivia, sigil) is None) by {
        if first_tag_error(nodes, text, trivia, sigil) is Some {
            let i = first_tag_error(nodes, text, trivia, sigil)->Some_0;
            assert(failed(i));
        }
    }
}

/// A query fragment, normalized: the parse, the nodes that were meant, and
/// what each node captures.
pub struct Pattern {
    language: String,
    tree: SyntaxTree,
    roots: Vec<usize>,
    captures: Vec<MetaVariable>,
}

impl View for Pattern {
    type V = PatternView;

    closed spec fn view(&self) -> PatternView {
        PatternView {
            language: self.language@,
            nodes: self.tree@,
            roots: positions(self.roots@),
            captures: Seq::new(self.captures@.len(), |i: int| self.captures@[i]@),
        }
    }
}

/// The view of what [`normalize_tree`] returns.
pub open spec fn pattern_outcome_view(outcome: Result<Pattern, PatternError>) -> Result<
    PatternView,
    PatternErrorView,
> {
    match outcome {
        Ok(pattern) => Ok(pattern@),
        Err(e) => Err(e@),
    }
}

/// Finds the first broken node.
fn find_broken(tree: &SyntaxTree) -> (found: Option<usize>)
    ensures
        match found {
            Some(i) => first_broken(tree@) == Some(i as int) && i < tree@.len(),
            None => first_broken(tree@) is None,
        },
{
    let nodes = tree.nodes();
    let ghost found_at = |i: int| is_broken(tree@[i]);
    let mut i: usize = 0;
    while i < nodes.len()
        invariant
            nodes@ == tree@,
            i <= nodes.len(),
            found_at == |i: int| is_broken(tree@[i]),
            first_broken(tree@) == first_from(found_at, i as int, tree@.len() as int),
        decreases nodes.len() - i,
    {
        if nodes[i].error || nodes[i].missing {
            return Some(i);
        }
        assert(!found_at(i as int));
        i = i + 1;
    }
    None
}

/// Computes the rank of `kind`.
fn rank_of(order: &Vec<u16>, kind: u16) -> (r: usize)
    ensures
        r == rank(order@, kind),
{
    let mut i: usize = 0;
    while i < order.len()
        invariant
            i <= order.len(),
            rank(order@, kind) == rank_from(order@, kind, i as int),
        decreases order.len() - i,
    {
        if order[i] == kind {
            return i + 1;
        }
        i = i + 1;
    }
    0
}

/// Walks down the chain of wrappers below the root.
fn candidates_of(tree: &SyntaxTree, trivia: &Vec<u16>) -> (cands: Vec<usize>)
    ensures
        positions(cands@) == candidates(tree@, trivia@),
        forall|k: int| 0 <= k < cands@.len() ==> #[trigger] cands@[k] < tree@.len(),
{
    let n = tree.len();
    let mut cands: Vec<usize> = Vec::new();
    let mut at: usize = 0;
    let mut kids = tree.significant_children(0, trivia);
    assert(positions(cands@) + wrapper_chain(tree@, trivia@, 0) =~= candidates(tree@, trivia@));
    while kids.len() == 1
        invariant
            n == tree@.len(),
            at < n,
            positions(kids@) == significant_children(tree@, trivia@, at as int),
            forall|k: int| 0 <= k < kids@.len() ==> at < #[trigger] kids@[k] < n,
            positions(cands@) + wrapper_chain(tree@, trivia@, at as int) == candidates(
                tree@,
                trivia@,
            ),
            forall|k: int| 0 <= k < cands@.len() ==> #[trigger] cands@[k] < n,
        decreases n - at,
    {
        let next = kids[0];
        let ghost before = positions(cands@);
        proof {
            assert(positions(kids@)[0] == next as int);
            assert(wrapper_chain(tree@, trivia@, at as int) == seq![next as int] + wrapper_chain(
                tree@,
                trivia@,
                next as int,
            ));
        }
        cands.push(next);
        proof {
            assert(positions(cands@) =~= before.push(next as int));
            assert(positions(cands@) + wrapper_chain(tree@, trivia@, next as int) =~= before + (
            seq![next as int] + wrapper_chain(tree@, trivia@, next as int)));
        }
        at = next;
        kids = tree.significant_children(at, trivia);
    }
    proof {
        assert(positions(kids@).len() == kids@.len());
        assert(wrapper_chain(tree@, trivia@, at as int) =~= Seq::<int>::empty());
        assert(positions(cands@) =~= candidates(tree@, trivia@));
    }
    cands
}

/// Finds the candidate of least rank and whether another shares the rank.
fn pick(tree: &SyntaxTree, order: &Vec<u16>, cands: &Vec<usize>) -> (choice: Option<usize>)
    requires
        cands@.len() > 0,
        forall|k: int| 0 <= k < cands@.len() ==> #[trigger] cands@[k] < tree@.len(),
    ensures
        match choice {
            Some(w) => is_winner(tree@, order@, positions(cands@), w as int),
            None => !has_winner(tree@, order@, positions(cands@)),
        },
{
    let nodes = tree.nodes();
    let ghost list = positions(cands@);
    let mut best: usize = 0;
    let mut best_rank = rank_of(order, nodes[cands[0]].kind);
    let mut tied = false;
    let mut k: usize = 1;
    while k < cands.len()
        invariant
            nodes@ == tree@,
            list == positions(cands@),
            forall|j: int| 0 <= j < cands@.len() ==> #[trigger] cands@[j] < tree@.len(),
            1 <= k <= cands.len(),
            best < k,
            best_rank == candidate_rank(tree@, order@, list, best as int),
            forall|j: int|
                0 <= j < k ==> best_rank <= #[trigger] candidate_rank(tree@, order@, list, j),
            tied <==> exists|j: int|
                0 <= j < k && j != best && #[trigger] candidate_rank(tree@, order@, list, j)
                    == best_rank,
        decreases cands.len() - k,
    {
        let r = rank_of(order, nodes[cands[k]].kind);
        assert(r == candidate_rank(tree@, order@, list, k as int));
        if r < best_rank {
            best = k;
            best_rank = r;
            tied = false;
        } else if r == best_rank {
            tied = true;
        }
        k = k + 1;
    }
    if tied {
        proof {
            let other = choose|j: int|
                0 <= j < cands@.len() && j != best && #[trigger] candidate_rank(
                    tree@,
                    order@,
                    list,
                    j,
                ) == best_rank;
            assert forall|w: int| !is_winner(tree@, order@, list, w) by {
                if is_winner(tree@, order@, list, w) {
                    if w == best {
                        assert(candidate_rank(tree@, order@, list, w) < candidate_rank(
                            tree@,
                            order@,
                            list,
                            other,
                        ));
                    } else {
                        assert(candidate_rank(tree@, order@, list, w) < candidate_rank(
                            tree@,
                            order@,
                            list,
                            best as int,
                        ));
                        assert(best_rank <= candidate_rank(tree@, order@, list, w));
                    }
                }
            }
        }
        None
    } else {
        Some(best)
    }
}

/// Finds the nodes that the fragment stands for.
fn find_roots(tree: &SyntaxTree, trivia: &Vec<u16>, order: &Vec<u16>) -> (roots: Result<
    Vec<usize>,
    PatternError,
>)
    ensures
        match roots {
            Ok(list) => pattern_roots(tree@, trivia@, order@) == Ok::<Seq<int>, PatternErrorView>(
                positions(list@),
            ) && list@.len() > 0 && forall|k: int|
                0 <= k < list@.len() ==> #[trigger] list@[k] < tree@.len(),
            Err(e) => pattern_roots(tree@, trivia@, order@) == Err::<Seq<int>, PatternErrorView>(
                e@,
            ),
        },
{
    let nodes = tree.nodes();
    let top = tree.significant_children(0, trivia);
    if top.len() == 0 {
        let mut list: Vec<usize> = Vec::new();
        list.push(0);
        assert(positions(list@) =~= seq![0int]);
        return Ok(list);
    }
    if top.len() > 1 {
        return Ok(top);
    }
    let cands = candidates_of(tree, trivia);
    proof {
        assert(positions(top@)[0] == top@[0] as int);
        assert(candidates(tree@, trivia@).len() > 0);
        assert(positions(cands@).len() == cands@.len());
    }
    match pick(tree, order, &cands) {
        Some(w) => {
            let chosen = cands[w];
            let mut list: Vec<usize> = Vec::new();
            list.push(chosen);
            proof {
                let list_view = positions(cands@);
                lemma_winner_unique(
                    tree@,
                    order@,
                    list_view,
                    w as int,
                    winner(tree@, order@, list_view),
                );
                assert(positions(list@) =~= seq![list_view[w as int]]);
            }
            Ok(list)
        },
        None => Err(PatternError::AmbiguousPattern),
    }
}

/// Reads every token against the sigil, in document order, and stops at the
/// first that cannot be read.
fn read_tokens(tree: &SyntaxTree, text: &str, sigil: char, trivia: &Vec<u16>) -> (tags: Result<
    Vec<MetaVariable>,
    PatternError,
>)
    ensures
        match tags {
            Ok(list) => first_tag_error(tree@, text@, trivia@, sigil) is None && list@.len()
                == tree@.len() && forall|i: int|
                0 <= i < list@.len() ==> Ok::<MetaVariableView, PatternErrorView>(
                    (#[trigger] list@[i])@,
                ) == tag_at(tree@, text@, trivia@, sigil, i),
            Err(e) => match first_tag_error(tree@, text@, trivia@, sigil) {
                Some(i) => tag_at(tree@, text@, trivia@, sigil, i) == Err::<
                    MetaVariableView,
                    PatternErrorView,
                >(e@),
                None => false,
            },
        },
{
    let nodes = tree.nodes();
    let n = nodes.len();
    let ghost failed = |i: int| tag_at(tree@, text@, trivia@, sigil, i) is Err;
    let mut list: Vec<MetaVariable> = Vec::new();
    let mut covered_to: usize = 0;
    let mut i: usize = 0;
    while i < n
        invariant
            nodes@ == tree@,
            n == tree@.len(),
            i <= n,
            covered_to <= n,
            failed == |i: int| tag_at(tree@, text@, trivia@, sigil, i) is Err,
            first_tag_error(tree@, text@, trivia@, sigil) == first_from(
                failed,
                i as int,
                n as int,
            ),
            list@.len() == i,
            forall|j: int|
                0 <= j < i ==> Ok::<MetaVariableView, PatternErrorView>((#[trigger] list@[j])@)
                    == tag_at(tree@, text@, trivia@, sigil, j),
            forall|j: int|
                0 <= j < i && #[trigger] is_trivia_node(tree@, trivia@, j) ==> subtree_end(
                    tree@,
                    j,
                ) <= covered_to,
            covered_to == 0 || exists|j: int|
                0 <= j < i && #[trigger] is_trivia_node(tree@, trivia@, j) && subtree_end(tree@, j)
                    == covered_to,
        decreases n - i,
    {
        let node = nodes[i];
        let end = tree.subtree_end(i);
        let trivial = contains_kind(trivia, node.kind);
        let hidden = trivial || i < covered_to;
        proof {
            lemma_subtree_end(tree@, i as int);
            if trivial {
                assert(is_trivia_node(tree@, trivia@, i as int));
            }
            if in_trivia(tree@, trivia@, i as int) {
                let j = choose|j: int| #[trigger]
                    is_trivia_node(tree@, trivia@, j) && j <= i < subtree_end(tree@, j);
                if j < i {
                    assert(subtree_end(tree@, j) <= covered_to);
                }
            }
            assert(hidden == in_trivia(tree@, trivia@, i as int));
        }
        if trivial && end > covered_to {
            covered_to = end;
        }
        let ghost list_before = list@;
        if hidden || end != i + 1 {
            list.push(MetaVariable::NotCapture);
        } else {
            match tree.text_of(i, text) {
                None => {
                    assert(failed(i as int));
                    return Err(PatternError::PatternParse { offset: node.start });
                },
                Some(token) => match extract_meta_var(token, sigil) {
                    Ok(var) => {
                        list.push(var);
                    },
                    Err(_) => {
                        assert(failed(i as int));
                        return Err(
                            PatternError::InvalidMetaVariableSyntax {
                                token: String::from_str(token),
                                offset: node.start,
                            },
                        );
                    },
                },
            }
        }
        proof {
            assert(!failed(i as int));
            assert(list@[i as int]@ == tag_at(tree@, text@, trivia@, sigil, i as int)->Ok_0);
            assert forall|j: int| 0 <= j < i + 1 implies Ok::<MetaVariableView, PatternErrorView>(
                (#[trigger] list@[j])@,
            ) == tag_at(tree@, text@, trivia@, sigil, j) by {
                if j < i {
                    assert(list@[j] == list_before[j]);
                }
            }
        }
        i = i + 1;
    }
    Ok(list)
}

/// Normalizes the parse `tree` of the fragment `text` for the language
/// named `language`, with its `sigil`, its `trivia` kinds and its priority
/// order `unwrap_order` of wrapper kinds.
pub fn normalize_tree(
    language: &str,
    tree: SyntaxTree,
    text: &str,
    sigil: char,
    trivia: &Vec<u16>,
    unwrap_order: &Vec<u16>,
) -> (outcome: Result<Pattern, PatternError>)
    ensures
        pattern_outcome_view(outcome) == normalized(
            language@,
            tree@,
            text@,
            sigil,
            trivia@,
            unwrap_order@,
        ),
{
    match find_broken(&tree) {
        Some(i) => {
            let nodes = tree.nodes();
            return Err(PatternError::PatternParse { offset: nodes[i].start });
        },
        None => {},
    }
    let roots = match find_roots(&tree, trivia, unwrap_order) {
        Err(e) => {
            return Err(e);
        },
        Ok(roots) => roots,
    };
    let captures = match read_tokens(&tree, text, sigil, trivia) {
        Err(e) => {
            return Err(e);
        },
        Ok(captures) => captures,
    };
    let ghost nodes = tree@;
    let pattern = Pattern { language: String::from_str(language), tree, roots, captures };
    proof {
        assert(pattern@.captures =~= Seq::new(
            nodes.len(),
            |i: int| tag_at(nodes, text@, trivia@, sigil, i)->Ok_0,
        ));
    }
    Ok(pattern)
}

impl Pattern {
    #[verifier::type_invariant]
    spec fn valid(self) -> bool {
        &&& self.captures@.len() == self.tree@.len()
        &&& self.roots@.len() > 0
        &&& forall|k: int| 0 <= k < self.roots@.len() ==> #[trigger] self.roots@[k] < self.tree@.len()
    }

    /// The positions, in the pattern's tree, of the nodes that the pattern
    /// stands for, from left to right: one node, or a sequence of siblings.
    pub fn root_nodes(&self) -> (roots: &Vec<usize>)
        ensures
            positions(roots@) == self@.roots,
            roots@.len() > 0,
            forall|k: int| 0 <= k < roots@.len() ==> #[trigger] roots@[k] < self@.nodes.len(),
    {
        proof {
            use_type_invariant(self);
        }
        &self.roots
    }

    /// The parse of the fragment.
    pub fn tree(&self) -> (tree: &SyntaxTree)
        ensures
            tree@ == self@.nodes,
    {
        &self.tree
    }

    /// The name of the language that the pattern was made for.
    pub fn language(&self) -> (name: &str)
        ensures
            name@ == self@.language,
    {
        self.language.as_str()
    }

    /// What node `i` captures; `None` where the tree has no node `i`.
    pub fn capture(&self, i: usize) -> (tag: Option<&MetaVariable>)
        ensures
            self@.captures.len() == self@.nodes.len(),
            match tag {
                Some(var) => i < self@.nodes.len() && var@ == self@.captures[i as int],
                None => i >= self@.nodes.len(),
            },
    {
        proof {
            use_type_invariant(self);
        }
        if i < self.captures.len() {
            Some(&self.captures[i])
        } else {
            None
        }
    }
}

} // verus!
