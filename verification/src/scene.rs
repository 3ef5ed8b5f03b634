//! The Carbon scene graph: a tree of groups and rectangles, and the orders in
//! which the engine evaluates and paints its nodes.
//!
//! A node is found by its path: the sequence of child indices that leads to
//! it from the root. Each node carries a payload of type `P` with what the
//! drawing code needs (transforms, sizes, colors).

use vstd::prelude::*;

verus! {

/// A node that lays out its children; it draws nothing itself.
pub struct Group<P> {
    pub id: String,
    pub props: P,
    pub children: Vec<RenderNode<P>>,
}

/// A leaf that paints a rectangle.
pub struct Rectangle<P> {
    pub id: String,
    pub props: P,
}

/// A node of the scene graph.
pub enum RenderNode<P> {
    Group(Group<P>),
    Rectangle(Rectangle<P>),
}

/// A scene: a tree of render nodes.
pub struct SceneGraph<P> {
    pub root: RenderNode<P>,
}

/// Each path of `paths` with child index `i` in front.
pub open spec fn prefixed(i: usize, paths: Seq<Seq<usize>>) -> Seq<Seq<usize>> {
    paths.map_values(|p: Seq<usize>| seq![i] + p)
}

/// The views of a sequence of vectors of indices.
pub open spec fn path_views(v: Seq<Vec<usize>>) -> Seq<Seq<usize>> {
    v.map_values(|p: Vec<usize>| p@)
}

/// The paths of the rectangles under `node`, in the order in which they are
/// painted: the children of a group from the last to the first.
pub open spec fn render_paths<P>(node: RenderNode<P>) -> Seq<Seq<usize>>
    decreases node, 0nat,
{
    match node {
        RenderNode::Rectangle(_) => seq![Seq::empty()],
        RenderNode::Group(g) => render_paths_from(g.children@, 0),
    }
}

/// The painting order of the children `lo..` of a group: the later children
/// first.
pub open spec fn render_paths_from<P>(children: Seq<RenderNode<P>>, lo: nat) -> Seq<Seq<usize>>
    decreases children, children.len() - lo,
{
    if lo >= children.len() || lo > usize::MAX {
        Seq::empty()
    } else {
        render_paths_from(children, lo + 1) + prefixed(lo as usize, render_paths(children[lo as int]))
    }
}

/// The paths of all nodes under `node`, in the order in which their
/// properties are evaluated: each node before its children, the children of
/// a group from the first to the last.
pub open spec fn update_paths<P>(node: RenderNode<P>) -> Seq<Seq<usize>>
    decreases node, 0nat,
{
    match node {
        RenderNode::Rectangle(_) => seq![Seq::empty()],
        RenderNode::Group(g) => seq![Seq::empty()] + update_paths_from(g.children@, 0),
    }
}

/// The evaluation order of the children `lo..` of a group.
pub open spec fn update_paths_from<P>(children: Seq<RenderNode<P>>, lo: nat) -> Seq<Seq<usize>>
    decreases children, children.len() - lo,
{
    if lo >= children.len() || lo > usize::MAX {
        Seq::empty()
    } else {
        prefixed(lo as usize, update_paths(children[lo as int])) + update_paths_from(children, lo + 1)
    }
}

/// The paths of the rectangles under `node`, in document order: the
/// children of a group from the first to the last.
pub open spec fn leaf_paths<P>(node: RenderNode<P>) -> Seq<Seq<usize>>
    decreases node, 0nat,
{
    match node {
        RenderNode::Rectangle(_) => seq![Seq::empty()],
        RenderNode::Group(g) => leaf_paths_from(g.children@, 0),
    }
}

/// The document order of the rectangles under the children `lo..` of a
/// group.
pub open spec fn leaf_paths_from<P>(children: Seq<RenderNode<P>>, lo: nat) -> Seq<Seq<usize>>
    decreases children, children.len() - lo,
{
    if lo >= children.len() || lo > usize::MAX {
        Seq::empty()
    } else {
        prefixed(lo as usize, leaf_paths(children[lo as int])) + leaf_paths_from(children, lo + 1)
    }
}

/// The node that `path` leads to from `node`, if it leads to one.
pub open spec fn node_at<P>(node: RenderNode<P>, path: Seq<usize>) -> Option<RenderNode<P>>
    decreases path.len(),
{
    if path.len() == 0 {
        Some(node)
    } else {
        match node {
            RenderNode::Rectangle(_) => None,
            RenderNode::Group(g) => if path[0] < g.children@.len() {
                node_at(g.children@[path[0] as int], path.drop_first())
            } else {
                None
            },
        }
    }
}

/// `path` leads from `node` to a rectangle.
pub open spec fn is_rectangle_at<P>(node: RenderNode<P>, path: Seq<usize>) -> bool {
    node_at(node, path) matches Some(RenderNode::Rectangle(_))
}

/// Putting `i` in front of each path and then `pre` in front of that puts
/// `pre` followed by `i` in front of each path.
proof fn lemma_prefixed_behind(paths: Seq<Seq<usize>>, pre: Seq<usize>, i: usize)
    ensures
        prefixed(i, paths).map_values(|p: Seq<usize>| pre + p) == paths.map_values(
            |p: Seq<usize>| pre.push(i) + p,
        ),
{
    assert forall|j: int| 0 <= j < paths.len() implies pre + (seq![i] + paths[j]) == pre.push(i)
        + paths[j] by {
        assert(pre + (seq![i] + paths[j]) =~= pre.push(i) + paths[j]);
    }
    assert(prefixed(i, paths).map_values(|p: Seq<usize>| pre + p) =~= paths.map_values(
        |p: Seq<usize>| pre.push(i) + p,
    ));
}

/// Appends to `out` the painting order of the rectangles under `node`, each
/// path behind `prefix`.
fn collect_render_paths<P>(node: &RenderNode<P>, prefix: &mut Vec<usize>, out: &mut Vec<Vec<usize>>)
    ensures
        final(prefix)@ == old(prefix)@,
        path_views(final(out)@) == path_views(old(out)@) + render_paths(*node).map_values(
            |p: Seq<usize>| old(prefix)@ + p,
        ),
    decreases node,
{
    match node {
        RenderNode::Rectangle(_) => {
            let ghost out0 = path_views(out@);
            out.push(prefix.clone());
            assert(path_views(out@) =~= out0 + render_paths(*node).map_values(
                |p: Seq<usize>| prefix@ + p,
            ));
        },
        RenderNode::Group(g) => {
            let ghost out0 = path_views(out@);
            let ghost pre = prefix@;
            let mut i = g.children.len();
            while i > 0
                invariant
                    *node == RenderNode::<P>::Group(*g),
                    i <= g.children@.len(),
                    prefix@ == pre,
                    path_views(out@) == out0 + render_paths_from(g.children@, i as nat).map_values(
                        |p: Seq<usize>| pre + p,
                    ),
                decreases i,
            {
                i = i - 1;
                prefix.push(i);
                proof {
                    assert(decreases_to!(*node => g.children@[i as int])) by {
                        assert(decreases_to!(*node => node->Group_0));
                        assert(decreases_to!(node->Group_0 => node->Group_0.children));
                        assert(decreases_to!(g.children => g.children@));
                        assert(decreases_to!(g.children@ => g.children@[i as int]));
                    }
                }
                collect_render_paths(&g.children[i], prefix, out);
                prefix.pop();
                proof {
                    lemma_prefixed_behind(render_paths(g.children@[i as int]), pre, i);
                    assert(render_paths_from(g.children@, i as nat).map_values(
                        |p: Seq<usize>| pre + p,
                    ) =~= render_paths_from(g.children@, (i + 1) as nat).map_values(
                        |p: Seq<usize>| pre + p,
                    ) + prefixed(i, render_paths(g.children@[i as int])).map_values(
                        |p: Seq<usize>| pre + p,
                    ));
                }
            }
        },
    }
}

/// Appends to `out` the evaluation order of the nodes under `node`, each
/// path behind `prefix`.
fn collect_update_paths<P>(node: &RenderNode<P>, prefix: &mut Vec<usize>, out: &mut Vec<Vec<usize>>)
    ensures
        final(prefix)@ == old(prefix)@,
        path_views(final(out)@) == path_views(old(out)@) + update_paths(*node).map_values(
            |p: Seq<usize>| old(prefix)@ + p,
        ),
    decreases node,
{
    let ghost out0 = path_views(out@);
    let ghost pre = prefix@;
    out.push(prefix.clone());
    match node {
        RenderNode::Rectangle(_) => {
            assert(path_views(out@) =~= out0 + update_paths(*node).map_values(
                |p: Seq<usize>| pre + p,
            ));
        },
        RenderNode::Group(g) => {
            let ghost out1 = path_views(out@);
            assert(out1 =~= out0 + seq![pre]);
            let len = g.children.len();
            let mut i: usize = 0;
            while i < len
                invariant
                    *node == RenderNode::<P>::Group(*g),
                    len == g.children@.len(),
                    i <= len,
                    prefix@ == pre,
                    path_views(out@) + update_paths_from(g.children@, i as nat).map_values(
                        |p: Seq<usize>| pre + p,
                    ) == out1 + update_paths_from(g.children@, 0).map_values(
                        |p: Seq<usize>| pre + p,
                    ),
                decreases len - i,
            {
                prefix.push(i);
                proof {
                    assert(decreases_to!(*node => g.children@[i as int])) by {
                        assert(decreases_to!(*node => node->Group_0));
                        assert(decreases_to!(node->Group_0 => node->Group_0.children));
                        assert(decreases_to!(g.children => g.children@));
                        assert(decreases_to!(g.children@ => g.children@[i as int]));
                    }
                }
                let ghost before = path_views(out@);
                collect_update_paths(&g.children[i], prefix, out);
                prefix.pop();
                proof {
                    lemma_prefixed_behind(update_paths(g.children@[i as int]), pre, i);
                    assert(update_paths_from(g.children@, i as nat).map_values(
                        |p: Seq<usize>| pre + p,
                    ) =~= prefixed(i, update_paths(g.children@[i as int])).map_values(
                        |p: Seq<usize>| pre + p,
                    ) + update_paths_from(g.children@, (i + 1) as nat).map_values(
                        |p: Seq<usize>| pre + p,
                    ));
                    assert(path_views(out@) + update_paths_from(g.children@, (i + 1) as nat).map_values(
                        |p: Seq<usize>| pre + p,
                    ) =~= before + update_paths_from(g.children@, i as nat).map_values(
                        |p: Seq<usize>| pre + p,
                    ));
                }
                i = i + 1;
            }
            assert(update_paths_from(g.children@, i as nat) =~= Seq::<Seq<usize>>::empty());
            assert(path_views(out@) =~= out0 + update_paths(*node).map_values(
                |p: Seq<usize>| pre + p,
            ));
        },
    }
}

impl<P> RenderNode<P> {
    /// The id of the node.
    pub fn get_id(&self) -> (r: &String)
        ensures
            *r == match *self {
                RenderNode::Group(g) => g.id,
                RenderNode::Rectangle(rect) => rect.id,
            },
    {
        match self {
            RenderNode::Group(g) => &g.id,
            RenderNode::Rectangle(r) => &r.id,
        }
    }

    /// The children of a group; a rectangle has none.
    pub fn get_children(&self) -> (r: Option<&Vec<RenderNode<P>>>)
        ensures
            match *self {
                RenderNode::Group(g) => r == Some(&g.children),
                RenderNode::Rectangle(_) => r is None,
            },
    {
        match self {
            RenderNode::Group(g) => Some(&g.children),
            RenderNode::Rectangle(_) => None,
        }
    }

    /// Mutable access to the children of a group; a rectangle has none.
    pub fn get_children_mut(&mut self) -> (r: Option<&mut Vec<RenderNode<P>>>)
        ensures
            match *old(self) {
                RenderNode::Group(g) => r matches Some(c) && *c == g.children,
                RenderNode::Rectangle(_) => r is None && *final(self) == *old(self),
            },
            r matches Some(c) ==> (*final(self) matches RenderNode::Group(g) && g.children
                == *final(c) && g.id == old(self)->Group_0.id && g.props
                == old(self)->Group_0.props),
    {
        match self {
            RenderNode::Group(g) => Some(&mut g.children),
            RenderNode::Rectangle(_) => None,
        }
    }

    /// The node that `path` leads to, if it leads to one.
    pub fn get_node(&self, path: &[usize]) -> (r: Option<&RenderNode<P>>)
        ensures
            match node_at(*self, path@) {
                Some(n) => r == Some(&n),
                None => r is None,
            },
    {
        let mut cur = self;
        let mut k: usize = 0;
        assert(path@.skip(0) =~= path@);
        while k < path.len()
            invariant
                k <= path@.len(),
                node_at(*self, path@) == node_at(*cur, path@.skip(k as int)),
            decreases path@.len() - k,
        {
            assert(path@.skip(k as int).drop_first() =~= path@.skip(k + 1));
            match cur {
                RenderNode::Rectangle(_) => {
                    return None;
                },
                RenderNode::Group(g) => {
                    if path[k] < g.children.len() {
                        cur = &g.children[path[k]];
                    } else {
                        return None;
                    }
                },
            }
            k = k + 1;
        }
        assert(path@.skip(k as int) =~= Seq::<usize>::empty());
        Some(cur)
    }
}

impl<P> SceneGraph<P> {
    /// The paths of the rectangles of the scene, in the order in which they
    /// are painted.
    pub fn render_order(&self) -> (r: Vec<Vec<usize>>)
        ensures
            path_views(r@) == render_paths(self.root),
    {
        let mut prefix: Vec<usize> = Vec::new();
        let mut out: Vec<Vec<usize>> = Vec::new();
        collect_render_paths(&self.root, &mut prefix, &mut out);
        assert(render_paths(self.root).map_values(|p: Seq<usize>| prefix@ + p) =~= render_paths(
            self.root,
        )) by {
            assert forall|j: int| 0 <= j < render_paths(self.root).len() implies prefix@
                + render_paths(self.root)[j] == render_paths(self.root)[j] by {
                assert(prefix@ + render_paths(self.root)[j] =~= render_paths(self.root)[j]);
            }
        }
        assert(path_views(out@) =~= render_paths(self.root));
        out
    }

    /// The paths of all nodes of the scene, in the order in which their
    /// properties are evaluated.
    pub fn update_order(&self) -> (r: Vec<Vec<usize>>)
        ensures
            path_views(r@) == update_paths(self.root),
    {
        let mut prefix: Vec<usize> = Vec::new();
        let mut out: Vec<Vec<usize>> = Vec::new();
        collect_update_paths(&self.root, &mut prefix, &mut out);
        assert(update_paths(self.root).map_values(|p: Seq<usize>| prefix@ + p) =~= update_paths(
            self.root,
        )) by {
            assert forall|j: int| 0 <= j < update_paths(self.root).len() implies prefix@
                + update_paths(self.root)[j] == update_paths(self.root)[j] by {
                assert(prefix@ + update_paths(self.root)[j] =~= update_paths(self.root)[j]);
            }
        }
        assert(path_views(out@) =~= update_paths(self.root));
        out
    }
}

} // verus!
