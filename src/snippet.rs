//! Selection of the parses of a wrapped fragment that can serve as match anchors.

use vstd::prelude::*;

verus! {

/// One node of a parse tree, as the resolver reads it.
#[derive(Clone, Copy, Debug, PartialEq, Eq)]
pub struct SyntaxNode {
    pub kind: u16,
    pub start_byte: usize,
    pub end_byte: usize,
    /// The node is an error node or a node the parser inserted as missing.
    pub is_error: bool,
}

/// A fragment wrapped in one template, with the nodes of its parse
/// (`None` where the parser gave no tree).
#[derive(Clone, Debug)]
pub struct Candidate {
    pub prefix: String,
    pub suffix: String,
    pub source: String,
    pub start: usize,
    pub end: usize,
    pub nodes: Option<Vec<SyntaxNode>>,
}

/// An accepted parse: the template, the wrapped source, the fragment's span in
/// it and the nodes that cover that span exactly.
#[derive(Clone, Debug)]
pub struct ParsedSnippet {
    pub prefix: String,
    pub suffix: String,
    pub source: String,
    pub start: usize,
    pub end: usize,
    pub matches: Vec<SyntaxNode>,
}

/// What an accepted parse is, as plain values.
pub struct SnippetModel {
    pub prefix: Seq<char>,
    pub suffix: Seq<char>,
    pub start: nat,
    pub end: nat,
    pub matches: Seq<SyntaxNode>,
}

pub open spec fn covers_exactly(n: SyntaxNode, start: int, end: int) -> bool {
    n.start_byte == start && n.end_byte == end
}

pub open spec fn lies_within(n: SyntaxNode, start: int, end: int) -> bool {
    start <= n.start_byte && n.end_byte <= end
}

/// Some error node of the parse lies (partly) outside the fragment's span.
pub open spec fn error_outside(nodes: Seq<SyntaxNode>, start: int, end: int) -> bool {
    exists|i: int| 0 <= i < nodes.len() && #[trigger] nodes[i].is_error && !lies_within(nodes[i], start, end)
}

/// The nodes, other than error nodes, whose span is exactly the fragment's, in
/// tree order.
pub open spec fn exact_nodes(nodes: Seq<SyntaxNode>, start: int, end: int) -> Seq<SyntaxNode> {
    nodes.filter(|n: SyntaxNode| covers_exactly(n, start, end) && !n.is_error)
}

/// The nodes that anchor the fragment, or `None` where the parse is rejected.
pub open spec fn located(nodes: Seq<SyntaxNode>, start: int, end: int) -> Option<Seq<SyntaxNode>> {
    let found = exact_nodes(nodes, start, end);
    if error_outside(nodes, start, end) || found.len() == 0 {
        None
    } else {
        Some(found)
    }
}

/// The model of a candidate's result, where it is accepted.
pub open spec fn accept(c: Candidate) -> Option<SnippetModel> {
    match c.nodes {
        None => None,
        Some(ns) => match located(ns@, c.start as int, c.end as int) {
            None => None,
            Some(found) => Some(
                SnippetModel {
                    prefix: c.prefix@,
                    suffix: c.suffix@,
                    start: c.start as nat,
                    end: c.end as nat,
                    matches: found,
                },
            ),
        },
    }
}

/// The accepted candidates, in the order of the templates.
pub open spec fn selected(cs: Seq<Candidate>) -> Seq<SnippetModel>
    decreases cs.len(),
{
    if cs.len() == 0 {
        Seq::empty()
    } else {
        let rest = selected(cs.drop_last());
        match accept(cs.last()) {
            Some(m) => rest.push(m),
            None => rest,
        }
    }
}

pub open spec fn model_of(s: ParsedSnippet) -> SnippetModel {
    SnippetModel {
        prefix: s.prefix@,
        suffix: s.suffix@,
        start: s.start as nat,
        end: s.end as nat,
        matches: s.matches@,
    }
}

/// Two candidates that wrap the same text in the same template, with the same
/// span and the same parse.
pub open spec fn same_candidate(a: Candidate, b: Candidate) -> bool {
    &&& a.prefix@ == b.prefix@
    &&& a.suffix@ == b.suffix@
    &&& a.start == b.start
    &&& a.end == b.end
    &&& match (a.nodes, b.nodes) {
        (None, None) => true,
        (Some(x), Some(y)) => x@ == y@,
        _ => false,
    }
}

/// Selection is deterministic: the same templates with the same parses select
/// the same templates with the same located nodes.
pub proof fn lemma_selection_deterministic(cs1: Seq<Candidate>, cs2: Seq<Candidate>)
    requires
        cs1.len() == cs2.len(),
        forall|i: int| 0 <= i < cs1.len() ==> same_candidate(#[trigger] cs1[i], cs2[i]),
    ensures
        selected(cs1) == selected(cs2),
    decreases cs1.len(),
{
    if cs1.len() > 0 {
        let n = cs1.len() - 1;
        assert(same_candidate(cs1[n], cs2[n]));
        assert(accept(cs1.last()) == accept(cs2.last()));
        lemma_selection_deterministic(cs1.drop_last(), cs2.drop_last());
    }
}

/// A model is selected exactly when some candidate is accepted with it.
pub proof fn lemma_selected_members(cs: Seq<Candidate>)
    ensures
        forall|m: SnippetModel|
            selected(cs).contains(m) <==> exists|i: int| 0 <= i < cs.len() && accept(#[trigger] cs[i]) == Some(m),
    decreases cs.len(),
{
    if cs.len() > 0 {
        let rest = cs.drop_last();
        lemma_selected_members(rest);
        assert forall|m: SnippetModel|
            selected(cs).contains(m) <==> exists|i: int| 0 <= i < cs.len() && accept(#[trigger] cs[i]) == Some(m) by {
            if selected(cs).contains(m) {
                if selected(rest).contains(m) {
                    let i = choose|i: int| 0 <= i < rest.len() && accept(#[trigger] rest[i]) == Some(m);
                    assert(cs[i] == rest[i]);
                } else {
                    let k = choose|k: int| 0 <= k < selected(cs).len() && selected(cs)[k] == m;
                    assert(accept(cs[cs.len() - 1]) == Some(m));
                }
            }
            if exists|i: int| 0 <= i < cs.len() && accept(#[trigger] cs[i]) == Some(m) {
                let i = choose|i: int| 0 <= i < cs.len() && accept(#[trigger] cs[i]) == Some(m);
                if i < cs.len() - 1 {
                    assert(rest[i] == cs[i]);
                    assert(selected(rest).contains(m));
                    let k = choose|k: int| 0 <= k < selected(rest).len() && selected(rest)[k] == m;
                    assert(selected(cs)[k] == m);
                } else {
                    assert(selected(cs) == selected(rest).push(m));
                    assert(selected(cs)[selected(rest).len() as int] == m);
                }
            }
        }
    }
}

/// The selected set does not depend on the order of the templates: the same
/// templates with the same parses, in any order, select the same set.
pub proof fn lemma_selection_order_independent(cs1: Seq<Candidate>, cs2: Seq<Candidate>)
    requires
        cs1.to_set() == cs2.to_set(),
    ensures
        selected(cs1).to_set() == selected(cs2).to_set(),
{
    lemma_selected_members(cs1);
    lemma_selected_members(cs2);
    assert forall|m: SnippetModel| selected(cs1).to_set().contains(m) implies selected(cs2).to_set().contains(m) by {
        let i = choose|i: int| 0 <= i < cs1.len() && accept(#[trigger] cs1[i]) == Some(m);
        assert(cs1.to_set().contains(cs1[i]));
        assert(cs2.to_set().contains(cs1[i]));
        let j = choose|j: int| 0 <= j < cs2.len() && cs2[j] == cs1[i];
        assert(accept(cs2[j]) == Some(m));
    }
    assert forall|m: SnippetModel| selected(cs2).to_set().contains(m) implies selected(cs1).to_set().contains(m) by {
        let j = choose|j: int| 0 <= j < cs2.len() && accept(#[trigger] cs2[j]) == Some(m);
        assert(cs2.to_set().contains(cs2[j]));
        assert(cs1.to_set().contains(cs2[j]));
        let i = choose|i: int| 0 <= i < cs1.len() && cs1[i] == cs2[j];
        assert(accept(cs1[i]) == Some(m));
    }
    assert(selected(cs1).to_set() =~= selected(cs2).to_set());
}

/// The nodes, other than error nodes, whose span is exactly `[start, end)`.
pub fn exact_span_nodes(nodes: &Vec<SyntaxNode>, start: usize, end: usize) -> (r: Vec<SyntaxNode>)
    ensures
        r@ == exact_nodes(nodes@, start as int, end as int),
{
    let mut r: Vec<SyntaxNode> = Vec::new();
    let mut i: usize = 0;
    while i < nodes.len()
        invariant
            i <= nodes@.len(),
            r@ == exact_nodes(nodes@.subrange(0, i as int), start as int, end as int),
        decreases nodes@.len() - i,
    {
        let n = nodes[i];
        proof {
            reveal(Seq::filter);
            assert(nodes@.subrange(0, i as int + 1).drop_last() =~= nodes@.subrange(0, i as int));
        }
        if n.start_byte == start && n.end_byte == end && !n.is_error {
            r.push(n);
        }
        i += 1;
    }
    assert(nodes@.subrange(0, nodes@.len() as int) =~= nodes@);
    r
}

/// Whether some error node of the parse reaches outside `[start, end)`.
pub fn has_error_outside(nodes: &Vec<SyntaxNode>, start: usize, end: usize) -> (r: bool)
    ensures
        r == error_outside(nodes@, start as int, end as int),
{
    let mut i: usize = 0;
    while i < nodes.len()
        invariant
            i <= nodes@.len(),
            forall|j: int|
                0 <= j < i ==> !(#[trigger] nodes@[j].is_error && !lies_within(nodes@[j], start as int, end as int)),
        decreases nodes@.len() - i,
    {
        let n = nodes[i];
        if n.is_error && !(start <= n.start_byte && n.end_byte <= end) {
            return true;
        }
        i += 1;
    }
    false
}

/// The nodes that anchor the fragment at `[start, end)`, or `None` where an
/// error lies outside the span or no node but an error node covers the span
/// exactly.
pub fn locate_fragment(nodes: &Vec<SyntaxNode>, start: usize, end: usize) -> (r: Option<Vec<SyntaxNode>>)
    ensures
        match r {
            Some(v) => located(nodes@, start as int, end as int) == Some(v@),
            None => located(nodes@, start as int, end as int) is None,
        },
{
    if has_error_outside(nodes, start, end) {
        return None;
    }
    let found = exact_span_nodes(nodes, start, end);
    if found.len() == 0 {
        None
    } else {
        Some(found)
    }
}

/// Keeps, in order, the candidates whose parse anchors the fragment.
pub fn select_snippets(candidates: &Vec<Candidate>) -> (r: Vec<ParsedSnippet>)
    ensures
        r@.len() == selected(candidates@).len(),
        forall|k: int| 0 <= k < r@.len() ==> model_of(#[trigger] r@[k]) == selected(candidates@)[k],
{
    let mut r: Vec<ParsedSnippet> = Vec::new();
    let mut i: usize = 0;
    while i < candidates.len()
        invariant
            i <= candidates@.len(),
            r@.len() == selected(candidates@.subrange(0, i as int)).len(),
            forall|k: int|
                0 <= k < r@.len() ==> model_of(#[trigger] r@[k]) == selected(candidates@.subrange(0, i as int))[k],
        decreases candidates@.len() - i,
    {
        let c = &candidates[i];
        proof {
            assert(candidates@.subrange(0, i as int + 1).drop_last() =~= candidates@.subrange(0, i as int));
            assert(candidates@.subrange(0, i as int + 1).last() == candidates@[i as int]);
        }
        match &c.nodes {
            None => {},
            Some(ns) => {
                match locate_fragment(ns, c.start, c.end) {
                    None => {},
                    Some(found) => {
                        r.push(
                            ParsedSnippet {
                                prefix: c.prefix.clone(),
                                suffix: c.suffix.clone(),
                                source: c.source.clone(),
                                start: c.start,
                                end: c.end,
                                matches: found,
                            },
                        );
                    },
                }
            },
        }
        i += 1;
    }
    assert(candidates@.subrange(0, candidates@.len() as int) =~= candidates@);
    r
}

/// All the anchoring nodes of the accepted parses, in order.
pub fn nodes_from_indices(snippets: &Vec<ParsedSnippet>) -> (r: Vec<SyntaxNode>)
    ensures
        r@ == snippets@.map_values(|s: ParsedSnippet| s.matches@).flatten(),
{
    let mut r: Vec<SyntaxNode> = Vec::new();
    let mut i: usize = 0;
    while i < snippets.len()
        invariant
            i <= snippets@.len(),
            r@ == snippets@.subrange(0, i as int).map_values(|s: ParsedSnippet| s.matches@).flatten(),
        decreases snippets@.len() - i,
    {
        let ms = &snippets[i].matches;
        let mut j: usize = 0;
        let ghost base = r@;
        while j < ms.len()
            invariant
                j <= ms@.len(),
                ms == snippets@[i as int].matches,
                r@ == base + ms@.subrange(0, j as int),
            decreases ms@.len() - j,
        {
            r.push(ms[j]);
            j += 1;
            proof {
                assert(r@ =~= base + ms@.subrange(0, j as int));
            }
        }
        proof {
            let f = |s: ParsedSnippet| s.matches@;
            let pre = snippets@.subrange(0, i as int);
            let next = snippets@.subrange(0, i as int + 1);
            assert(next =~= pre.push(snippets@[i as int]));
            assert(next.map_values(f) =~= pre.map_values(f).push(ms@));
            pre.map_values(f).lemma_flatten_push(ms@);
            assert(ms@.subrange(0, j as int) =~= ms@);
        }
        i += 1;
    }
    assert(snippets@.subrange(0, snippets@.len() as int) =~= snippets@);
    r
}

} // verus!
