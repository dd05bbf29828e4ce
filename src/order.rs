use vstd::prelude::*;
use crate::config::LoggerRule;
use crate::tree::Node;
use crate::tree::{Attribute, NodeKind};
use crate::visitor::{trace, children_trace, node_own_matches, attr_matches, has_data_prefix, element_matches};

verus! {

/// The node that `p` leads to from `n`, following the `p[0]`-th child first.
pub open spec fn node_at(n: Node, p: Seq<usize>) -> Option<Node>
    decreases p.len(),
{
    if p.len() == 0 {
        Some(n)
    } else if p[0] < n.children@.len() {
        node_at(n.children@[p[0] as int], p.drop_first())
    } else {
        None
    }
}

/// Whether `a` is a prefix of `b`, that is, names `b` or one of its ancestors.
pub open spec fn is_prefix(a: Seq<usize>, b: Seq<usize>) -> bool {
    a.len() <= b.len() && b.subrange(0, a.len() as int) == a
}

proof fn lemma_trace_shape(n: Node, t: Map<Seq<char>, LoggerRule>, b: Seq<usize>, i: int)
    requires
        0 <= i < trace(n, t, b).len(),
    ensures
        ({
            let q = trace(n, t, b)[i].0;
            &&& is_prefix(b, q)
            &&& node_at(n, q.subrange(b.len() as int, q.len() as int)) is Some
            &&& trace(n, t, b)[i].1 == node_own_matches(node_at(n, q.subrange(b.len() as int, q.len() as int))->0, t)
            &&& i > 0 ==> q.len() > b.len()
        }),
    decreases n, 1int,
{
    let q = trace(n, t, b)[i].0;
    if i == 0 {
        assert(q == b);
        assert(b.subrange(0, b.len() as int) =~= b);
        assert(q.subrange(b.len() as int, q.len() as int) =~= Seq::<usize>::empty());
    } else {
        let cs = n.children@;
        assert(n.children@.len() == n.children.len());
        lemma_children_shape(cs, t, b, cs.len() as int, i - 1);
        let c = q[b.len() as int];
        let s = q.subrange(b.len() as int, q.len() as int);
        assert(s[0] == c);
        assert(s.drop_first() =~= q.subrange(b.len() as int + 1, q.len() as int));
    }
}

proof fn lemma_children_shape(
    cs: Seq<Node>,
    t: Map<Seq<char>, LoggerRule>,
    b: Seq<usize>,
    k: int,
    i: int,
)
    requires
        0 <= k <= cs.len(),
        cs.len() <= usize::MAX,
        0 <= i < children_trace(cs, t, b, k).len(),
    ensures
        ({
            let q = children_trace(cs, t, b, k)[i].0;
            &&& is_prefix(b, q)
            &&& q.len() > b.len()
            &&& q[b.len() as int] < k
            &&& node_at(cs[q[b.len() as int] as int], q.subrange(b.len() as int + 1, q.len() as int)) is Some
            &&& children_trace(cs, t, b, k)[i].1 == node_own_matches(
                node_at(cs[q[b.len() as int] as int], q.subrange(b.len() as int + 1, q.len() as int))->0,
                t,
            )
        }),
    decreases cs, 0int, k,
{
    if k > 0 {
        let prev = children_trace(cs, t, b, k - 1);
        let bc = b.push((k - 1) as usize);
        let q = children_trace(cs, t, b, k)[i].0;
        if i < prev.len() {
            lemma_children_shape(cs, t, b, k - 1, i);
        } else {
            lemma_trace_shape(cs[k - 1], t, bc, i - prev.len());
            assert(q.subrange(0, b.len() as int) =~= q.subrange(0, bc.len() as int).subrange(0, b.len() as int));
            assert(bc.subrange(0, b.len() as int) =~= b);
            assert(q[b.len() as int] == q.subrange(0, bc.len() as int)[b.len() as int]);
        }
    }
}

proof fn lemma_trace_order(n: Node, t: Map<Seq<char>, LoggerRule>, b: Seq<usize>, i: int, j: int)
    requires
        0 <= i < trace(n, t, b).len(),
        0 <= j < trace(n, t, b).len(),
        is_prefix(trace(n, t, b)[i].0, trace(n, t, b)[j].0),
    ensures
        i <= j,
    decreases n, 1int,
{
    if i > 0 {
        lemma_trace_shape(n, t, b, i);
        if j > 0 {
            assert(n.children@.len() == n.children.len());
            lemma_children_order(n.children@, t, b, n.children@.len() as int, i - 1, j - 1);
        }
    }
}

proof fn lemma_children_order(
    cs: Seq<Node>,
    t: Map<Seq<char>, LoggerRule>,
    b: Seq<usize>,
    k: int,
    i: int,
    j: int,
)
    requires
        0 <= k <= cs.len(),
        cs.len() <= usize::MAX,
        0 <= i < children_trace(cs, t, b, k).len(),
        0 <= j < children_trace(cs, t, b, k).len(),
        is_prefix(children_trace(cs, t, b, k)[i].0, children_trace(cs, t, b, k)[j].0),
    ensures
        i <= j,
    decreases cs, 0int, k,
{
    if k > 0 {
        let prev = children_trace(cs, t, b, k - 1);
        let m = prev.len() as int;
        let bc = b.push((k - 1) as usize);
        if i < m && j < m {
            lemma_children_order(cs, t, b, k - 1, i, j);
        } else if i >= m && j >= m {
            lemma_trace_order(cs[k - 1], t, bc, i - m, j - m);
        } else if i >= m {
            let qi = children_trace(cs, t, b, k)[i].0;
            let qj = children_trace(cs, t, b, k)[j].0;
            lemma_children_shape(cs, t, b, k, i);
            lemma_children_shape(cs, t, b, k - 1, j);
            lemma_trace_shape(cs[k - 1], t, bc, i - m);
            assert(qi[b.len() as int] == qi.subrange(0, bc.len() as int)[b.len() as int]);
            assert(qj[b.len() as int] == qj.subrange(0, qi.len() as int)[b.len() as int]);
        }
    }
}

proof fn lemma_trace_complete(n: Node, t: Map<Seq<char>, LoggerRule>, b: Seq<usize>, r: Seq<usize>)
    requires
        node_at(n, r) is Some,
    ensures
        exists|i: int| 0 <= i < trace(n, t, b).len() && (#[trigger] trace(n, t, b)[i]).0 == b + r,
    decreases n, 1int,
{
    if r.len() == 0 {
        assert(b + r =~= b);
        assert(trace(n, t, b)[0].0 == b + r);
    } else {
        let cs = n.children@;
        let c = r[0];
        assert(n.children@.len() == n.children.len());
        lemma_children_complete(cs, t, b, cs.len() as int, c as int, r.drop_first());
        let ct = children_trace(cs, t, b, cs.len() as int);
        let i = choose|i: int| 0 <= i < ct.len() && (#[trigger] ct[i]).0 == b.push(c) + r.drop_first();
        assert(b.push(c) + r.drop_first() =~= b + r);
        assert(trace(n, t, b)[i + 1] == ct[i]);
    }
}

proof fn lemma_children_complete(
    cs: Seq<Node>,
    t: Map<Seq<char>, LoggerRule>,
    b: Seq<usize>,
    k: int,
    c: int,
    r: Seq<usize>,
)
    requires
        0 <= c < k <= cs.len(),
        cs.len() <= usize::MAX,
        node_at(cs[c], r) is Some,
    ensures
        exists|i: int|
            0 <= i < children_trace(cs, t, b, k).len() && (#[trigger] children_trace(cs, t, b, k)[i]).0
                == b.push(c as usize) + r,
    decreases cs, 0int, k,
{
    let prev = children_trace(cs, t, b, k - 1);
    let all = children_trace(cs, t, b, k);
    if c < k - 1 {
        lemma_children_complete(cs, t, b, k - 1, c, r);
        let i = choose|i: int| 0 <= i < prev.len() && (#[trigger] prev[i]).0 == b.push(c as usize) + r;
        assert(all[i] == prev[i]);
    } else {
        let bc = b.push((k - 1) as usize);
        lemma_trace_complete(cs[k - 1], t, bc, r);
        let tr = trace(cs[k - 1], t, bc);
        let i = choose|i: int| 0 <= i < tr.len() && (#[trigger] tr[i]).0 == bc + r;
        assert(all[prev.len() + i] == tr[i]);
    }
}

/// The walk that the visitor makes visits each node of the tree exactly
/// once, names only nodes of the tree, and visits every node after all of
/// its ancestors: a parent strictly before each of its children.
pub proof fn lemma_preorder_visits(root: Node, table: Map<Seq<char>, LoggerRule>)
    ensures
        forall|i: int|
            0 <= i < trace(root, table, seq![]).len() ==> node_at(root, (#[trigger] trace(root, table, seq![])[i]).0) is Some,
        forall|p: Seq<usize>|
            #[trigger] node_at(root, p) is Some ==> exists|i: int|
                0 <= i < trace(root, table, seq![]).len() && (#[trigger] trace(root, table, seq![])[i]).0 == p,
        forall|i: int, j: int|
            0 <= i < trace(root, table, seq![]).len() && 0 <= j < trace(root, table, seq![]).len()
                && (#[trigger] trace(root, table, seq![])[i]).0 == (#[trigger] trace(root, table, seq![])[j]).0
                ==> i == j,
        forall|i: int, j: int|
            0 <= i < trace(root, table, seq![]).len() && 0 <= j < trace(root, table, seq![]).len()
                && is_prefix((#[trigger] trace(root, table, seq![])[i]).0, (#[trigger] trace(root, table, seq![])[j]).0)
                && trace(root, table, seq![])[i].0 != trace(root, table, seq![])[j].0 ==> i < j,
{
    let tr = trace(root, table, seq![]);
    let e = Seq::<usize>::empty();
    assert forall|i: int| 0 <= i < tr.len() implies node_at(root, (#[trigger] tr[i]).0) is Some by {
        lemma_trace_shape(root, table, e, i);
        assert(tr[i].0.subrange(0, tr[i].0.len() as int) =~= tr[i].0);
    }
    assert forall|p: Seq<usize>| #[trigger] node_at(root, p) is Some implies exists|i: int|
        0 <= i < tr.len() && (#[trigger] tr[i]).0 == p by {
        lemma_trace_complete(root, table, e, p);
        assert(e + p =~= p);
    }
    assert forall|i: int, j: int|
        0 <= i < tr.len() && 0 <= j < tr.len() && (#[trigger] tr[i]).0 == (#[trigger] tr[j]).0 implies i == j by {
        assert(tr[j].0.subrange(0, tr[i].0.len() as int) =~= tr[i].0);
        assert(tr[i].0.subrange(0, tr[j].0.len() as int) =~= tr[j].0);
        lemma_trace_order(root, table, e, i, j);
        lemma_trace_order(root, table, e, j, i);
    }
    assert forall|i: int, j: int|
        0 <= i < tr.len() && 0 <= j < tr.len() && is_prefix((#[trigger] tr[i]).0, (#[trigger] tr[j]).0)
            && tr[i].0 != tr[j].0 implies i < j by {
        lemma_trace_order(root, table, e, i, j);
    }
}

/// Each match of an attribute list comes from a plain-named attribute of the
/// list whose name has the `data-` prefix and is a key of the table, and it
/// carries the rule stored under that name.
pub proof fn lemma_attr_match_source(attrs: Seq<Attribute>, table: Map<Seq<char>, LoggerRule>, k: int)
    requires
        0 <= k < attr_matches(attrs, table).len(),
    ensures
        ({
            let m = attr_matches(attrs, table)[k];
            &&& has_data_prefix(m.0)
            &&& table.contains_key(m.0)
            &&& m.1 == table[m.0]
            &&& exists|a: int|
                0 <= a < attrs.len() && (#[trigger] attrs[a]) is Named && attrs[a]->Named_0@ == m.0
        }),
    decreases attrs.len(),
{
    let init = attrs.drop_last();
    let prev = attr_matches(init, table);
    if k < prev.len() {
        lemma_attr_match_source(init, table, k);
        let a = choose|a: int| 0 <= a < init.len() && (#[trigger] init[a]) is Named && init[a]->Named_0@ == prev[k].0;
        assert(attrs[a] == init[a]);
    } else {
        assert(attrs[attrs.len() - 1] == attrs.last());
    }
}

/// Over the whole walk: every match recorded at a node comes from a
/// plain-named attribute of that node's element whose name has the `data-`
/// prefix and is a key of the table, and carries the rule stored under that
/// name. So names that are not keys never match, names without the prefix
/// are never looked up, and spread entries never match, anywhere in the tree.
pub proof fn lemma_tree_matches_sound(root: Node, table: Map<Seq<char>, LoggerRule>, i: int, k: int)
    requires
        0 <= i < trace(root, table, seq![]).len(),
        0 <= k < trace(root, table, seq![])[i].1.len(),
    ensures
        ({
            let path = trace(root, table, seq![])[i].0;
            let m = trace(root, table, seq![])[i].1[k];
            &&& node_at(root, path) is Some
            &&& node_at(root, path)->0.kind is Element
            &&& has_data_prefix(m.0)
            &&& table.contains_key(m.0)
            &&& m.1 == table[m.0]
            &&& exists|a: int|
                0 <= a < node_at(root, path)->0.kind->Element_0.attrs@.len()
                    && (#[trigger] node_at(root, path)->0.kind->Element_0.attrs@[a]) is Named
                    && node_at(root, path)->0.kind->Element_0.attrs@[a]->Named_0@ == m.0
        }),
{
    let e = Seq::<usize>::empty();
    lemma_trace_shape(root, table, e, i);
    let path = trace(root, table, e)[i].0;
    assert(path.subrange(0, path.len() as int) =~= path);
    let nd = node_at(root, path)->0;
    match nd.kind {
        NodeKind::Element(el) => {
            assert(element_matches(el, table) == attr_matches(el.attrs@, table));
            lemma_attr_match_source(el.attrs@, table, k);
        },
        NodeKind::Other => {},
    }
}

} // verus!
