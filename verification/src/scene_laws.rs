//! What the traversal orders of the scene graph guarantee.

use vstd::prelude::*;
use crate::scene::{
    is_rectangle_at, leaf_paths, leaf_paths_from, node_at, prefixed, render_paths, render_paths_from,
    update_paths, update_paths_from, RenderNode,
};

verus! {

proof fn lemma_reverse_concat<A>(a: Seq<A>, b: Seq<A>)
    ensures
        (a + b).reverse() == b.reverse() + a.reverse(),
{
    assert((a + b).reverse() =~= b.reverse() + a.reverse());
}

proof fn lemma_reverse_prefixed(i: usize, paths: Seq<Seq<usize>>)
    ensures
        prefixed(i, paths).reverse() == prefixed(i, paths.reverse()),
{
    assert(prefixed(i, paths).reverse() =~= prefixed(i, paths.reverse()));
}

proof fn lemma_render_is_reverse_from<P>(children: Seq<RenderNode<P>>, lo: nat)
    ensures
        render_paths_from(children, lo) == leaf_paths_from(children, lo).reverse(),
    decreases children, children.len() - lo,
{
    if lo >= children.len() || lo > usize::MAX {
        assert(leaf_paths_from(children, lo).reverse() =~= Seq::<Seq<usize>>::empty());
    } else {
        lemma_render_is_reverse_from(children, lo + 1);
        law_painting_order_reverses_document_order(children[lo as int]);
        let head = prefixed(lo as usize, leaf_paths(children[lo as int]));
        lemma_reverse_concat(head, leaf_paths_from(children, lo + 1));
        lemma_reverse_prefixed(lo as usize, leaf_paths(children[lo as int]));
    }
}

/// Rectangles are painted in the reverse of their document order: the last
/// child of a group is painted first, so that earlier children end up on top.
pub proof fn law_painting_order_reverses_document_order<P>(node: RenderNode<P>)
    ensures
        render_paths(node) == leaf_paths(node).reverse(),
    decreases node, 0nat,
{
    match node {
        RenderNode::Rectangle(_) => {
            assert(leaf_paths(node).reverse() =~= seq![Seq::<usize>::empty()]);
        },
        RenderNode::Group(g) => {
            lemma_render_is_reverse_from(g.children@, 0);
        },
    }
}

proof fn lemma_concat_contains<A>(a: Seq<A>, b: Seq<A>, x: A)
    ensures
        (a + b).contains(x) <==> (a.contains(x) || b.contains(x)),
{
    if (a + b).contains(x) {
        let k = choose|k: int| 0 <= k < (a + b).len() && (a + b)[k] == x;
        if k < a.len() {
            assert(a[k] == x);
        } else {
            assert(b[k - a.len()] == x);
        }
    }
    if a.contains(x) {
        let k = choose|k: int| 0 <= k < a.len() && a[k] == x;
        assert((a + b)[k] == x);
    }
    if b.contains(x) {
        let k = choose|k: int| 0 <= k < b.len() && b[k] == x;
        assert((a + b)[k + a.len()] == x);
    }
}

proof fn lemma_reverse_contains<A>(a: Seq<A>, x: A)
    ensures
        a.reverse().contains(x) <==> a.contains(x),
{
    if a.contains(x) {
        let k = choose|k: int| 0 <= k < a.len() && a[k] == x;
        assert(a.reverse()[a.len() - 1 - k] == x);
    }
    if a.reverse().contains(x) {
        let k = choose|k: int| 0 <= k < a.reverse().len() && a.reverse()[k] == x;
        assert(a[a.len() - 1 - k] == x);
    }
}

proof fn lemma_prefixed_contains(i: usize, paths: Seq<Seq<usize>>, p: Seq<usize>)
    ensures
        prefixed(i, paths).contains(p) <==> (p.len() > 0 && p[0] == i && paths.contains(
            p.drop_first(),
        )),
{
    if prefixed(i, paths).contains(p) {
        let k = choose|k: int| 0 <= k < prefixed(i, paths).len() && prefixed(i, paths)[k] == p;
        assert(p.drop_first() =~= paths[k]);
    }
    if p.len() > 0 && p[0] == i && paths.contains(p.drop_first()) {
        let k = choose|k: int| 0 <= k < paths.len() && paths[k] == p.drop_first();
        assert(prefixed(i, paths)[k] =~= p);
    }
}

proof fn lemma_leaf_paths_from_contains<P>(children: Seq<RenderNode<P>>, lo: nat, p: Seq<usize>)
    ensures
        leaf_paths_from(children, lo).contains(p) <==> (p.len() > 0 && lo <= p[0] < children.len()
            && leaf_paths(children[p[0] as int]).contains(p.drop_first())),
    decreases children.len() - lo,
{
    if lo >= children.len() || lo > usize::MAX {
    } else {
        let head = prefixed(lo as usize, leaf_paths(children[lo as int]));
        lemma_concat_contains(head, leaf_paths_from(children, lo + 1), p);
        lemma_prefixed_contains(lo as usize, leaf_paths(children[lo as int]), p);
        lemma_leaf_paths_from_contains(children, lo + 1, p);
    }
}

proof fn lemma_update_paths_from_contains<P>(children: Seq<RenderNode<P>>, lo: nat, p: Seq<usize>)
    ensures
        update_paths_from(children, lo).contains(p) <==> (p.len() > 0 && lo <= p[0]
            < children.len() && update_paths(children[p[0] as int]).contains(p.drop_first())),
    decreases children.len() - lo,
{
    if lo >= children.len() || lo > usize::MAX {
    } else {
        let head = prefixed(lo as usize, update_paths(children[lo as int]));
        lemma_concat_contains(head, update_paths_from(children, lo + 1), p);
        lemma_prefixed_contains(lo as usize, update_paths(children[lo as int]), p);
        lemma_update_paths_from_contains(children, lo + 1, p);
    }
}

proof fn lemma_leaf_paths_contains<P>(node: RenderNode<P>, p: Seq<usize>)
    ensures
        leaf_paths(node).contains(p) <==> is_rectangle_at(node, p),
    decreases p.len(),
{
    match node {
        RenderNode::Rectangle(_) => {
            if p.len() == 0 {
                assert(leaf_paths(node)[0] =~= p);
            } else {
                assert(leaf_paths(node).contains(p) ==> leaf_paths(node)[0] == p);
            }
        },
        RenderNode::Group(g) => {
            lemma_leaf_paths_from_contains(g.children@, 0, p);
            if p.len() > 0 && p[0] < g.children@.len() {
                lemma_leaf_paths_contains(g.children@[p[0] as int], p.drop_first());
            }
        },
    }
}

/// Painting reaches exactly the rectangles of the tree: a path is in the
/// painting order if and only if it leads to a rectangle.
pub proof fn law_painting_reaches_exactly_the_rectangles<P>(node: RenderNode<P>, p: Seq<usize>)
    ensures
        render_paths(node).contains(p) <==> is_rectangle_at(node, p),
{
    law_painting_order_reverses_document_order(node);
    lemma_reverse_contains(leaf_paths(node), p);
    lemma_leaf_paths_contains(node, p);
}

/// Property evaluation reaches every node of the tree: a path is in the
/// evaluation order if and only if it leads to a node.
pub proof fn law_evaluation_reaches_every_node<P>(node: RenderNode<P>, p: Seq<usize>)
    ensures
        update_paths(node).contains(p) <==> node_at(node, p) is Some,
    decreases p.len(),
{
    match node {
        RenderNode::Rectangle(_) => {
            if p.len() == 0 {
                assert(update_paths(node)[0] =~= p);
            } else {
                assert(update_paths(node).contains(p) ==> update_paths(node)[0] == p);
            }
        },
        RenderNode::Group(g) => {
            lemma_concat_contains(seq![Seq::<usize>::empty()], update_paths_from(g.children@, 0), p);
            lemma_update_paths_from_contains(g.children@, 0, p);
            if p.len() == 0 {
                assert(seq![Seq::<usize>::empty()][0] =~= p);
            } else {
                assert(seq![Seq::<usize>::empty()].contains(p) ==> seq![Seq::<usize>::empty()][0]
                    == p);
                if p[0] < g.children@.len() {
                    law_evaluation_reaches_every_node(g.children@[p[0] as int], p.drop_first());
                }
            }
        },
    }
}

proof fn lemma_leaf_paths_from_distinct<P>(children: Seq<RenderNode<P>>, lo: nat)
    ensures
        leaf_paths_from(children, lo).no_duplicates(),
    decreases children, children.len() - lo,
{
    if lo >= children.len() || lo > usize::MAX {
    } else {
        let i = lo as usize;
        let u = leaf_paths(children[lo as int]);
        let head = prefixed(i, u);
        let rest = leaf_paths_from(children, lo + 1);
        let all = leaf_paths_from(children, lo);
        lemma_leaf_paths_from_distinct(children, lo + 1);
        lemma_leaf_paths_distinct(children[lo as int]);
        assert forall|a: int, b: int| 0 <= a < all.len() && 0 <= b < all.len() && a != b implies all[a]
            != all[b] by {
            if a < head.len() && b < head.len() {
                if all[a] == all[b] {
                    assert(u[a] =~= all[a].drop_first());
                    assert(u[b] =~= all[b].drop_first());
                }
            } else if a >= head.len() && b >= head.len() {
                assert(all[a] == rest[a - head.len()]);
                assert(all[b] == rest[b - head.len()]);
            } else {
                let (x, y) = if a < head.len() { (a, b) } else { (b, a) };
                assert(rest.contains(all[y])) by {
                    assert(rest[y - head.len()] == all[y]);
                }
                lemma_leaf_paths_from_contains(children, lo + 1, all[y]);
                assert(all[x][0] == i);
            }
        }
    }
}

proof fn lemma_leaf_paths_distinct<P>(node: RenderNode<P>)
    ensures
        leaf_paths(node).no_duplicates(),
    decreases node, 1nat,
{
    match node {
        RenderNode::Rectangle(_) => {},
        RenderNode::Group(g) => {
            lemma_leaf_paths_from_distinct(g.children@, 0);
        },
    }
}

/// No rectangle is painted twice: the painting order holds no path twice.
pub proof fn law_painting_order_has_no_repeats<P>(node: RenderNode<P>)
    ensures
        render_paths(node).no_duplicates(),
{
    law_painting_order_reverses_document_order(node);
    lemma_leaf_paths_distinct(node);
    let l = leaf_paths(node);
    assert forall|a: int, b: int|
        0 <= a < l.reverse().len() && 0 <= b < l.reverse().len() && a != b implies l.reverse()[a]
        != l.reverse()[b] by {
        assert(l.reverse()[a] == l[l.len() - 1 - a]);
        assert(l.reverse()[b] == l[l.len() - 1 - b]);
    }
}

proof fn lemma_update_paths_from_distinct<P>(children: Seq<RenderNode<P>>, lo: nat)
    ensures
        update_paths_from(children, lo).no_duplicates(),
    decreases children, children.len() - lo,
{
    if lo >= children.len() || lo > usize::MAX {
    } else {
        let i = lo as usize;
        let u = update_paths(children[lo as int]);
        let head = prefixed(i, u);
        let rest = update_paths_from(children, lo + 1);
        let all = update_paths_from(children, lo);
        lemma_update_paths_from_distinct(children, lo + 1);
        law_evaluation_order_has_no_repeats(children[lo as int]);
        assert forall|a: int, b: int| 0 <= a < all.len() && 0 <= b < all.len() && a != b implies all[a]
            != all[b] by {
            if a < head.len() && b < head.len() {
                if all[a] == all[b] {
                    assert(u[a] =~= all[a].drop_first());
                    assert(u[b] =~= all[b].drop_first());
                }
            } else if a >= head.len() && b >= head.len() {
                assert(all[a] == rest[a - head.len()]);
                assert(all[b] == rest[b - head.len()]);
            } else {
                let (x, y) = if a < head.len() { (a, b) } else { (b, a) };
                assert(rest.contains(all[y])) by {
                    assert(rest[y - head.len()] == all[y]);
                }
                lemma_update_paths_from_contains(children, lo + 1, all[y]);
                assert(all[x][0] == i);
            }
        }
    }
}

/// No node is evaluated twice: the evaluation order holds no path twice.
pub proof fn law_evaluation_order_has_no_repeats<P>(node: RenderNode<P>)
    ensures
        update_paths(node).no_duplicates(),
    decreases node, 1nat,
{
    match node {
        RenderNode::Rectangle(_) => {},
        RenderNode::Group(g) => {
            let rest = update_paths_from(g.children@, 0);
            let all = update_paths(node);
            lemma_update_paths_from_distinct(g.children@, 0);
            assert(all == seq![Seq::<usize>::empty()] + rest);
            assert forall|a: int, b: int|
                0 <= a < all.len() && 0 <= b < all.len() && a != b implies all[a] != all[b] by {
                if a > 0 && b > 0 {
                    assert(all[a] == rest[a - 1]);
                    assert(all[b] == rest[b - 1]);
                } else {
                    let y = if a == 0 { b } else { a };
                    assert(rest.contains(all[y])) by {
                        assert(rest[y - 1] == all[y]);
                    }
                    lemma_update_paths_from_contains(g.children@, 0, all[y]);
                }
            }
        },
    }
}

/// `r` is a proper prefix of `p`: the path of a strict ancestor.
pub open spec fn is_proper_prefix(r: Seq<usize>, p: Seq<usize>) -> bool {
    r.len() < p.len() && r == p.take(r.len() as int)
}

/// Every path of `paths` comes after the paths of all its strict ancestors.
pub open spec fn ancestors_first(paths: Seq<Seq<usize>>) -> bool {
    forall|k: int, r: Seq<usize>|
        0 <= k < paths.len() && #[trigger] is_proper_prefix(r, paths[k]) ==> #[trigger] paths.take(
            k,
        ).contains(r)
}

/// Within the children `lo..`, every non-empty strict ancestor path of an
/// entry comes before it.
spec fn nonempty_ancestors_first(paths: Seq<Seq<usize>>) -> bool {
    forall|k: int, r: Seq<usize>|
        0 <= k < paths.len() && #[trigger] is_proper_prefix(r, paths[k]) && r.len() > 0
            ==> #[trigger] paths.take(k).contains(r)
}

proof fn lemma_update_paths_from_ancestors_first<P>(children: Seq<RenderNode<P>>, lo: nat)
    ensures
        nonempty_ancestors_first(update_paths_from(children, lo)),
    decreases children, children.len() - lo,
{
    if lo >= children.len() || lo > usize::MAX {
    } else {
        let i = lo as usize;
        let u = update_paths(children[lo as int]);
        let head = prefixed(i, u);
        let rest = update_paths_from(children, lo + 1);
        let all = update_paths_from(children, lo);
        assert(all == head + rest);
        lemma_update_paths_from_ancestors_first(children, lo + 1);
        law_evaluation_visits_ancestors_first(children[lo as int]);
        assert forall|k: int, r: Seq<usize>|
            0 <= k < all.len() && #[trigger] is_proper_prefix(r, all[k]) && r.len()
                > 0 implies #[trigger] all.take(k).contains(r) by {
            if k < head.len() {
                let q = u[k];
                assert(all[k] == seq![i] + q);
                let r2 = r.drop_first();
                assert(r[0] == i);
                assert(is_proper_prefix(r2, q)) by {
                    assert(r2 =~= q.take(r2.len() as int));
                }
                assert(u.take(k).contains(r2));
                let m = choose|m: int| 0 <= m < u.take(k).len() && u.take(k)[m] == r2;
                assert(all.take(k)[m] =~= r);
            } else {
                let k2 = k - head.len();
                assert(all[k] == rest[k2]);
                assert(rest.take(k2).contains(r));
                let m = choose|m: int| 0 <= m < rest.take(k2).len() && rest.take(k2)[m] == r;
                assert(all.take(k)[head.len() + m] == r);
            }
        }
    }
}

/// Properties are evaluated in pre-order: every node is evaluated after all
/// of its ancestors.
pub proof fn law_evaluation_visits_ancestors_first<P>(node: RenderNode<P>)
    ensures
        ancestors_first(update_paths(node)),
    decreases node, 1nat,
{
    match node {
        RenderNode::Rectangle(_) => {
            assert forall|k: int, r: Seq<usize>|
                0 <= k < update_paths(node).len() && #[trigger] is_proper_prefix(
                    r,
                    update_paths(node)[k],
                ) implies #[trigger] update_paths(node).take(k).contains(r) by {
                assert(update_paths(node)[k].len() == 0);
            }
        },
        RenderNode::Group(g) => {
            let all = update_paths(node);
            let rest = update_paths_from(g.children@, 0);
            lemma_update_paths_from_ancestors_first(g.children@, 0);
            assert(all == seq![Seq::<usize>::empty()] + rest);
            assert forall|k: int, r: Seq<usize>|
                0 <= k < all.len() && #[trigger] is_proper_prefix(r, all[k]) implies #[trigger] all.take(
                    k,
                ).contains(r) by {
                if k == 0 {
                    assert(all[0].len() == 0);
                } else if r.len() == 0 {
                    assert(r =~= Seq::<usize>::empty());
                    assert(all.take(k)[0] == r);
                } else {
                    let k2 = k - 1;
                    assert(all[k] == rest[k2]);
                    assert(rest.take(k2).contains(r));
                    let m = choose|m: int| 0 <= m < rest.take(k2).len() && rest.take(k2)[m] == r;
                    assert(all.take(k)[1 + m] == r);
                }
            }
        },
    }
}


/// `p` comes before `q` in document order: either `p` leads to a strict
/// ancestor of the node that `q` leads to, or, at the first step where the
/// two paths part, `p` takes the earlier child.
pub open spec fn precedes(p: Seq<usize>, q: Seq<usize>) -> bool
    decreases p.len(),
{
    if p.len() == 0 {
        q.len() > 0
    } else if q.len() == 0 {
        false
    } else if p[0] != q[0] {
        p[0] < q[0]
    } else {
        precedes(p.drop_first(), q.drop_first())
    }
}

/// Each path of `paths` comes before every later one in document order.
pub open spec fn in_document_order(paths: Seq<Seq<usize>>) -> bool {
    forall|a: int, b: int| 0 <= a < b < paths.len() ==> #[trigger] precedes(paths[a], paths[b])
}

proof fn lemma_precedes_prefixed(i: usize, p: Seq<usize>, q: Seq<usize>)
    ensures
        precedes(seq![i] + p, seq![i] + q) == precedes(p, q),
{
    assert((seq![i] + p).drop_first() =~= p);
    assert((seq![i] + q).drop_first() =~= q);
}

proof fn lemma_prefixed_in_order(i: usize, paths: Seq<Seq<usize>>)
    requires
        in_document_order(paths),
    ensures
        in_document_order(prefixed(i, paths)),
{
    let pp = prefixed(i, paths);
    assert forall|a: int, b: int| 0 <= a < b < pp.len() implies #[trigger] precedes(pp[a], pp[b]) by {
        lemma_precedes_prefixed(i, paths[a], paths[b]);
        assert(precedes(paths[a], paths[b]));
    }
}

proof fn lemma_concat_in_order(a: Seq<Seq<usize>>, b: Seq<Seq<usize>>)
    requires
        in_document_order(a),
        in_document_order(b),
        forall|x: int, y: int| 0 <= x < a.len() && 0 <= y < b.len() ==> #[trigger] precedes(a[x], b[y]),
    ensures
        in_document_order(a + b),
{
    let ab = a + b;
    assert forall|i: int, j: int| 0 <= i < j < ab.len() implies #[trigger] precedes(ab[i], ab[j]) by {
        if j < a.len() {
            assert(ab[i] == a[i]);
            assert(ab[j] == a[j]);
            assert(precedes(a[i], a[j]));
        } else if i >= a.len() {
            assert(ab[i] == b[i - a.len()]);
            assert(ab[j] == b[j - a.len()]);
            assert(precedes(b[i - a.len()], b[j - a.len()]));
        } else {
            assert(ab[i] == a[i]);
            assert(ab[j] == b[j - a.len()]);
            assert(precedes(a[i], b[j - a.len()]));
        }
    }
}

proof fn lemma_update_paths_from_in_order<P>(children: Seq<RenderNode<P>>, lo: nat)
    ensures
        in_document_order(update_paths_from(children, lo)),
    decreases children, children.len() - lo,
{
    if lo >= children.len() || lo > usize::MAX {
    } else {
        let i = lo as usize;
        let u = update_paths(children[lo as int]);
        let head = prefixed(i, u);
        let rest = update_paths_from(children, lo + 1);
        law_evaluation_follows_document_order(children[lo as int]);
        lemma_update_paths_from_in_order(children, lo + 1);
        lemma_prefixed_in_order(i, u);
        assert forall|x: int, y: int| 0 <= x < head.len() && 0 <= y < rest.len() implies #[trigger] precedes(
            head[x],
            rest[y],
        ) by {
            assert(rest.contains(rest[y]));
            lemma_update_paths_from_contains(children, lo + 1, rest[y]);
            assert(head[x] == seq![i] + u[x]);
            assert(head[x][0] == i);
        }
        lemma_concat_in_order(head, rest);
        assert(update_paths_from(children, lo) == head + rest);
    }
}

/// Properties are evaluated in document order: of two nodes, the one whose
/// path comes first in document order is evaluated first. So a node is
/// evaluated before its descendants, and the children of a group, with all
/// that lies under them, from the first child to the last.
pub proof fn law_evaluation_follows_document_order<P>(node: RenderNode<P>)
    ensures
        in_document_order(update_paths(node)),
    decreases node, 1nat,
{
    match node {
        RenderNode::Rectangle(_) => {},
        RenderNode::Group(g) => {
            let rest = update_paths_from(g.children@, 0);
            let top = seq![Seq::<usize>::empty()];
            lemma_update_paths_from_in_order(g.children@, 0);
            assert forall|x: int, y: int| 0 <= x < top.len() && 0 <= y < rest.len() implies #[trigger] precedes(
                top[x],
                rest[y],
            ) by {
                assert(rest.contains(rest[y]));
                lemma_update_paths_from_contains(g.children@, 0, rest[y]);
            }
            lemma_concat_in_order(top, rest);
            assert(update_paths(node) == top + rest);
        },
    }
}

proof fn lemma_leaf_paths_from_in_order<P>(children: Seq<RenderNode<P>>, lo: nat)
    ensures
        in_document_order(leaf_paths_from(children, lo)),
    decreases children, children.len() - lo,
{
    if lo >= children.len() || lo > usize::MAX {
    } else {
        let i = lo as usize;
        let u = leaf_paths(children[lo as int]);
        let head = prefixed(i, u);
        let rest = leaf_paths_from(children, lo + 1);
        lemma_leaf_paths_in_order(children[lo as int]);
        lemma_leaf_paths_from_in_order(children, lo + 1);
        lemma_prefixed_in_order(i, u);
        assert forall|x: int, y: int| 0 <= x < head.len() && 0 <= y < rest.len() implies #[trigger] precedes(
            head[x],
            rest[y],
        ) by {
            assert(rest.contains(rest[y]));
            lemma_leaf_paths_from_contains(children, lo + 1, rest[y]);
            assert(head[x] == seq![i] + u[x]);
            assert(head[x][0] == i);
        }
        lemma_concat_in_order(head, rest);
        assert(leaf_paths_from(children, lo) == head + rest);
    }
}

proof fn lemma_leaf_paths_in_order<P>(node: RenderNode<P>)
    ensures
        in_document_order(leaf_paths(node)),
    decreases node, 1nat,
{
    match node {
        RenderNode::Rectangle(_) => {},
        RenderNode::Group(g) => {
            lemma_leaf_paths_from_in_order(g.children@, 0);
        },
    }
}

/// Rectangles are painted against document order: of two rectangles, the
/// one whose path comes later in document order is painted first, so that
/// the earlier one ends up on top.
pub proof fn law_painting_goes_against_document_order<P>(node: RenderNode<P>)
    ensures
        forall|a: int, b: int|
            0 <= a < b < render_paths(node).len() ==> #[trigger] precedes(
                render_paths(node)[b],
                render_paths(node)[a],
            ),
{
    law_painting_order_reverses_document_order(node);
    lemma_leaf_paths_in_order(node);
    let l = leaf_paths(node);
    let r = render_paths(node);
    assert forall|a: int, b: int| 0 <= a < b < r.len() implies #[trigger] precedes(r[b], r[a]) by {
        assert(r[a] == l[l.len() - 1 - a]);
        assert(r[b] == l[l.len() - 1 - b]);
        assert(precedes(l[l.len() - 1 - b], l[l.len() - 1 - a]));
    }
}

} // verus!
