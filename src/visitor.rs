use vstd::prelude::*;
use crate::config::LoggerRule;
use crate::rules::RuleIndex;
use crate::tree::{Attribute, Element, Node, NodeKind};

verus! {

/// Only attribute names that start with `data-` are looked up.
pub open spec fn has_data_prefix(name: Seq<char>) -> bool {
    name.len() >= 5 && name.subrange(0, 5) == seq!['d', 'a', 't', 'a', '-']
}

/// The rules that the attributes `attrs` match in `table`, in attribute
/// order: one for each plain-named `data-` attribute that is a key.
pub open spec fn attr_matches(attrs: Seq<Attribute>, table: Map<Seq<char>, LoggerRule>) -> Seq<
    (Seq<char>, LoggerRule),
>
    decreases attrs.len(),
{
    if attrs.len() == 0 {
        seq![]
    } else {
        let prev = attr_matches(attrs.drop_last(), table);
        match attrs.last() {
            Attribute::Named(n) => if has_data_prefix(n@) && table.contains_key(n@) {
                prev.push((n@, table[n@]))
            } else {
                prev
            },
            _ => prev,
        }
    }
}

/// The rules that an element matches, whatever its name: those of its
/// attribute list.
pub open spec fn element_matches(e: Element, table: Map<Seq<char>, LoggerRule>) -> Seq<
    (Seq<char>, LoggerRule),
> {
    attr_matches(e.attrs@, table)
}

/// The rules that a node matches by itself.
pub open spec fn node_own_matches(n: Node, table: Map<Seq<char>, LoggerRule>) -> Seq<
    (Seq<char>, LoggerRule),
> {
    match n.kind {
        NodeKind::Element(e) => element_matches(e, table),
        NodeKind::Other => seq![],
    }
}

/// Whether a name starts with `data-`.
pub fn is_data_attribute(name: &str) -> (r: bool)
    ensures
        r == has_data_prefix(name@),
{
    let n = name.unicode_len();
    if n >= 5 && name.get_char(0) == 'd' && name.get_char(1) == 'a' && name.get_char(2) == 't'
        && name.get_char(3) == 'a' && name.get_char(4) == '-' {
        assert(name@.subrange(0, 5) =~= seq!['d', 'a', 't', 'a', '-']);
        true
    } else {
        assert(has_data_prefix(name@) ==> name@.subrange(0, 5)[0] == 'd' && name@.subrange(0, 5)[1] == 'a'
            && name@.subrange(0, 5)[2] == 't' && name@.subrange(0, 5)[3] == 'a'
            && name@.subrange(0, 5)[4] == '-');
        false
    }
}

/// The views of matches handed out as values.
pub open spec fn pairs_view(v: Seq<(String, LoggerRule)>) -> Seq<(Seq<char>, LoggerRule)> {
    v.map_values(|p: (String, LoggerRule)| (p.0@, p.1))
}

/// Matches an element's attributes against the index: spread entries,
/// namespaced names and names without the `data-` prefix are never looked up.
pub fn match_element(e: &Element, index: &RuleIndex) -> (r: Vec<(String, LoggerRule)>)
    ensures
        pairs_view(r@) == element_matches(*e, index@),
{
    let mut out: Vec<(String, LoggerRule)> = Vec::new();
    let mut i: usize = 0;
    while i < e.attrs.len()
        invariant
            i <= e.attrs@.len(),
            pairs_view(out@) == attr_matches(e.attrs@.subrange(0, i as int), index@),
        decreases e.attrs@.len() - i,
    {
        let ghost before = out@;
        assert(e.attrs@.subrange(0, i + 1).drop_last() =~= e.attrs@.subrange(0, i as int));
        match &e.attrs[i] {
            Attribute::Named(name) => {
                if is_data_attribute(name.as_str()) {
                    match index.resolve(name.as_str()) {
                        Some(rule) => {
                            let copy = LoggerRule { task: rule.task.clone(), kind: rule.kind.clone() };
                            out.push((name.clone(), copy));
                            assert(pairs_view(out@) =~= pairs_view(before).push((name@, index@[name@])));
                        },
                        None => {},
                    }
                }
            },
            _ => {},
        }
        i = i + 1;
    }
    assert(e.attrs@.subrange(0, e.attrs@.len() as int) =~= e.attrs@);
    out
}

/// Whether an attribute entry is a spread.
pub open spec fn is_spread(a: Attribute) -> bool {
    a is Spread
}

/// Spread entries never match: the matches of an attribute list are those
/// of the list with its spread entries removed, whatever the table holds.
pub proof fn lemma_spread_never_matches(attrs: Seq<Attribute>, table: Map<Seq<char>, LoggerRule>)
    ensures
        attr_matches(attrs, table) == attr_matches(attrs.filter(|a: Attribute| !is_spread(a)), table),
    decreases attrs.len(),
{
    let keep = |a: Attribute| !is_spread(a);
    if attrs.len() > 0 {
        let init = attrs.drop_last();
        lemma_spread_never_matches(init, table);
        init.lemma_filter_push(attrs.last(), keep);
        assert(init.push(attrs.last()) =~= attrs);
        if keep(attrs.last()) {
            let f = attrs.filter(keep);
            assert(f.drop_last() == init.filter(keep));
            assert(f.last() == attrs.last());
        }
    }
}

/// Only names with the `data-` prefix are looked up: rules stored under
/// other names have no effect on what an attribute list matches, even when
/// an attribute carries exactly such a name.
pub proof fn lemma_only_prefixed_names_looked_up(
    attrs: Seq<Attribute>,
    table: Map<Seq<char>, LoggerRule>,
)
    ensures
        attr_matches(attrs, table) == attr_matches(
            attrs,
            table.restrict(Set::new(|k: Seq<char>| has_data_prefix(k))),
        ),
        forall|i: int|
            0 <= i < attr_matches(attrs, table).len() ==> has_data_prefix(
                (#[trigger] attr_matches(attrs, table)[i]).0,
            ),
    decreases attrs.len(),
{
    if attrs.len() > 0 {
        lemma_only_prefixed_names_looked_up(attrs.drop_last(), table);
    }
}

/// What the visitor records of one node: where it stands, and the rules
/// that its attributes matched.
#[derive(Debug, Clone, PartialEq, Eq)]
pub struct NodeVisit {
    pub path: Vec<usize>,
    pub matches: Vec<(String, LoggerRule)>,
}

/// The view of one visit.
pub open spec fn visit_view(v: NodeVisit) -> (Seq<usize>, Seq<(Seq<char>, LoggerRule)>) {
    (v.path@, pairs_view(v.matches@))
}

/// The views of a sequence of visits.
pub open spec fn trace_view(s: Seq<NodeVisit>) -> Seq<(Seq<usize>, Seq<(Seq<char>, LoggerRule)>)> {
    s.map_values(|v: NodeVisit| visit_view(v))
}

/// The visits of a depth-first, pre-order walk of the tree `n` standing at
/// `path`: the node itself first, then each child's walk in order, the
/// `i`-th child standing at `path.push(i)`.
pub open spec fn trace(n: Node, table: Map<Seq<char>, LoggerRule>, path: Seq<usize>) -> Seq<
    (Seq<usize>, Seq<(Seq<char>, LoggerRule)>),
>
    decreases n, 1int,
{
    seq![(path, node_own_matches(n, table))] + children_trace(
        n.children@,
        table,
        path,
        n.children@.len() as int,
    )
}

/// The walks of the first `k` of the children `cs` of the node at `path`.
pub open spec fn children_trace(
    cs: Seq<Node>,
    table: Map<Seq<char>, LoggerRule>,
    path: Seq<usize>,
    k: int,
) -> Seq<(Seq<usize>, Seq<(Seq<char>, LoggerRule)>)>
    decreases cs, 0int, k,
{
    if k <= 0 || k > cs.len() {
        seq![]
    } else {
        children_trace(cs, table, path, k - 1) + trace(cs[k - 1], table, path.push((k - 1) as usize))
    }
}

fn copy_path(path: &Vec<usize>) -> (r: Vec<usize>)
    ensures
        r@ == path@,
{
    let r = path.clone();
    assert(r@ =~= path@);
    r
}

fn visit_node(node: &Node, index: &RuleIndex, path: &mut Vec<usize>, out: &mut Vec<NodeVisit>)
    ensures
        final(path)@ == old(path)@,
        trace_view(final(out)@) == trace_view(old(out)@) + trace(*node, index@, old(path)@),
    decreases node,
{
    let own = match &node.kind {
        NodeKind::Element(e) => match_element(e, index),
        NodeKind::Other => {
            let none: Vec<(String, LoggerRule)> = Vec::new();
            assert(pairs_view(none@) =~= seq![]);
            none
        },
    };
    assert(pairs_view(own@) == node_own_matches(*node, index@));
    let ghost start = out@;
    out.push(NodeVisit { path: copy_path(path), matches: own });
    assert(trace_view(out@) =~= trace_view(start) + seq![(path@, node_own_matches(*node, index@))]);
    let mut i: usize = 0;
    while i < node.children.len()
        invariant
            i <= node.children@.len(),
            path@ == old(path)@,
            trace_view(out@) == trace_view(start) + seq![(path@, node_own_matches(*node, index@))]
                + children_trace(node.children@, index@, path@, i as int),
        decreases node.children@.len() - i,
    {
        let ghost before = out@;
        path.push(i);
        visit_node(&node.children[i], index, path, out);
        let _ = path.pop();
        assert(path@ =~= old(path)@);
        assert(trace_view(out@) =~= trace_view(before) + trace(node.children@[i as int], index@, path@.push(i)));
        i = i + 1;
    }
}

/// Walks the tree depth-first in pre-order and records, for every node, its
/// path from the root and the rules that its attributes match.
pub fn visit_tree(root: &Node, index: &RuleIndex) -> (r: Vec<NodeVisit>)
    ensures
        trace_view(r@) == trace(*root, index@, seq![]),
{
    let mut path: Vec<usize> = Vec::new();
    let mut out: Vec<NodeVisit> = Vec::new();
    visit_node(root, index, &mut path, &mut out);
    assert(trace_view(out@) =~= trace(*root, index@, seq![]));
    out
}

} // verus!
