//! The command tree: node data lives in a `vec_tree::VecTree` arena,
//! reached through a small trusted surface whose contents are named by
//! `arena_nodes` and `arena_children`. On top of it the tree keeps a
//! verified handle layer (dense `usize` handles in insertion order), so
//! every public contract speaks over a plain `TreeShape` model.
use vstd::prelude::*;

use crate::node::{node_of_segment, spec_merge_eq, spec_node_of_segment, Node, NodeModel, Segment,
    SegmentModel};

verus! {

#[verifier::external_type_specification]
#[verifier::external_body]
#[verifier::reject_recursive_types(T)]
pub struct ExVecTree<T>(vec_tree::VecTree<T>);

#[verifier::external_type_specification]
#[verifier::external_body]
pub struct ExIndex(vec_tree::Index);

/// The arena that stores the command nodes.
pub type Arena = vec_tree::VecTree<Node>;

/// The node value stored at each live arena index.
pub uninterp spec fn arena_nodes(t: Arena) -> Map<vec_tree::Index, NodeModel>;

/// The child indices of each live arena index, in sibling order.
pub uninterp spec fn arena_children(t: Arena) -> Map<vec_tree::Index, Seq<vec_tree::Index>>;

/// The arena holds no nodes at all.
pub open spec fn arena_empty(t: Arena) -> bool {
    arena_nodes(t) == Map::<vec_tree::Index, NodeModel>::empty() && arena_children(t)
        == Map::<vec_tree::Index, Seq<vec_tree::Index>>::empty()
}

/// Relies on vec_tree::VecTree::new: constructs an empty tree.
#[verifier::external_body]
fn arena_new() -> (res: Arena)
    ensures
        arena_empty(res),
{
    vec_tree::VecTree::new()
}

/// Relies on vec_tree::VecTree::insert_root: creates the root node and
/// returns its index; it panics if a root already exists, so it is only
/// called on an empty tree.
#[verifier::external_body]
fn arena_insert_root(t: &mut Arena, n: Node) -> (i: vec_tree::Index)
    requires
        arena_empty(*old(t)),
    ensures
        arena_nodes(*final(t)) == arena_nodes(*old(t)).insert(i, n@),
        arena_children(*final(t)) == arena_children(*old(t)).insert(i, Seq::empty()),
{
    t.insert_root(n)
}

/// Relies on vec_tree::VecTree::insert: stores the data at a fresh
/// index and appends that index as the parent's last child; it panics
/// only on an invalid parent index.
#[verifier::external_body]
fn arena_insert(t: &mut Arena, n: Node, parent: vec_tree::Index) -> (i: vec_tree::Index)
    requires
        arena_nodes(*old(t)).dom().contains(parent),
    ensures
        !arena_nodes(*old(t)).dom().contains(i),
        arena_nodes(*final(t)) == arena_nodes(*old(t)).insert(i, n@),
        arena_children(*final(t)) == arena_children(*old(t)).insert(i, Seq::empty()).insert(
            parent,
            arena_children(*old(t))[parent].push(i),
        ),
{
    t.insert(n, parent)
}

/// Relies on vec_tree::VecTree::get: the data at a live index, `None`
/// for an index the arena does not hold.
#[verifier::external_body]
fn arena_get<'a>(t: &'a Arena, i: vec_tree::Index) -> (r: Option<&'a Node>)
    ensures
        match r {
            Some(n) => arena_nodes(*t).dom().contains(i) && n@ == arena_nodes(*t)[i],
            None => !arena_nodes(*t).dom().contains(i),
        },
{
    t.get(i)
}

/// The tree's mathematical value: node values and child-handle lists,
/// both indexed by dense handles; handle 0 is the root.
#[verifier::ext_equal]
pub struct TreeShape {
    pub nodes: Seq<NodeModel>,
    pub kids: Seq<Seq<usize>>,
}

/// The root sentinel: a literal `/` described as `root`; it is never
/// matched against user input.
pub open spec fn root_model() -> NodeModel {
    NodeModel::Fixed { name: seq!['/'], description: seq!['r', 'o', 'o', 't'] }
}

/// The shape of a freshly created tree: only the root sentinel.
pub open spec fn init_shape() -> TreeShape {
    TreeShape { nodes: seq![root_model()], kids: seq![Seq::<usize>::empty()] }
}

/// The shape after hanging a new node under `parent`: the node gets the
/// next dense handle and becomes the parent's last child.
pub open spec fn shape_insert(shape: TreeShape, parent: int, n: NodeModel) -> TreeShape {
    TreeShape {
        nodes: shape.nodes.push(n),
        kids: shape.kids.update(
            parent,
            shape.kids[parent].push(shape.nodes.len() as usize),
        ).push(Seq::<usize>::empty()),
    }
}

/// The first child of `kids` at or after position `j` that is
/// merge-equal to `n`, if any.
pub open spec fn find_merge_child(shape: TreeShape, kids: Seq<usize>, n: NodeModel, j: int) -> Option<
    usize,
>
    decreases kids.len() - j,
{
    if j < 0 || j >= kids.len() {
        None
    } else if spec_merge_eq(shape.nodes[kids[j] as int], n) {
        Some(kids[j])
    } else {
        find_merge_child(shape, kids, n, j + 1)
    }
}

/// The shape after merging one ordered segment list in at position
/// `at`: each segment descends into an existing merge-equal child, or
/// inserts a fresh one and descends into it.
pub open spec fn spec_insert_path(shape: TreeShape, at: int, segs: Seq<SegmentModel>) -> TreeShape
    decreases segs.len(),
{
    if segs.len() == 0 {
        shape
    } else {
        let n = spec_node_of_segment(segs[0]);
        match find_merge_child(shape, shape.kids[at], n, 0) {
            Some(c) => spec_insert_path(shape, c as int, segs.drop_first()),
            None => spec_insert_path(
                shape_insert(shape, at, n),
                shape.nodes.len() as int,
                segs.drop_first(),
            ),
        }
    }
}

/// The shape after merging a whole stream of segment lists, each
/// starting from the root.
pub open spec fn spec_build(shape: TreeShape, paths: Seq<Seq<SegmentModel>>) -> TreeShape
    decreases paths.len(),
{
    if paths.len() == 0 {
        shape
    } else {
        spec_build(spec_insert_path(shape, 0, paths[0]), paths.drop_first())
    }
}

/// Every child handle lies within the shape and is strictly greater
/// than its parent's handle: handles are handed out in insertion order
/// and a node is only ever hung under an existing one. This grounds
/// recursion over the tree.
pub open spec fn shape_ascending(shape: TreeShape) -> bool {
    shape.kids.len() == shape.nodes.len() && (forall|h: int, j: int|
        0 <= h < shape.kids.len() && 0 <= j < shape.kids[h].len() ==> h < (
        #[trigger] shape.kids[h][j]) < shape.nodes.len())
}

/// No two children of one parent are merge-equal: in particular no
/// two literal siblings share a name, and a parent holds at most one
/// parameter child of each kind.
pub open spec fn distinct_siblings(shape: TreeShape) -> bool {
    forall|h: int, j1: int, j2: int|
        0 <= h < shape.kids.len() && 0 <= j1 < j2 < shape.kids[h].len() ==> !spec_merge_eq(
            shape.nodes[#[trigger] shape.kids[h][j1] as int],
            shape.nodes[#[trigger] shape.kids[h][j2] as int],
        )
}

proof fn lemma_find_none(shape: TreeShape, kids: Seq<usize>, n: NodeModel, j: int)
    requires
        find_merge_child(shape, kids, n, j) is None,
        0 <= j,
    ensures
        forall|k: int|
            j <= k < kids.len() ==> !spec_merge_eq(shape.nodes[#[trigger] kids[k] as int], n),
    decreases kids.len() - j,
{
    if j < kids.len() {
        lemma_find_none(shape, kids, n, j + 1);
    }
}

/// One merge step keeps the siblings of every parent pairwise
/// merge-distinct, and the handles ascending.
proof fn lemma_insert_path_distinct(shape: TreeShape, at: int, segs: Seq<SegmentModel>)
    requires
        shape_ascending(shape),
        distinct_siblings(shape),
        0 <= at < shape.nodes.len(),
        shape.nodes.len() + segs.len() <= usize::MAX,
    ensures
        shape_ascending(spec_insert_path(shape, at, segs)),
        distinct_siblings(spec_insert_path(shape, at, segs)),
        shape.nodes.len() <= spec_insert_path(shape, at, segs).nodes.len() <= shape.nodes.len()
            + segs.len(),
    decreases segs.len(),
{
    if segs.len() > 0 {
        let n = spec_node_of_segment(segs[0]);
        match find_merge_child(shape, shape.kids[at], n, 0) {
            Some(c) => {
                lemma_find_some(shape, shape.kids[at], n, 0);
                lemma_insert_path_distinct(shape, c as int, segs.drop_first());
            },
            None => {
                lemma_find_none(shape, shape.kids[at], n, 0);
                let s1 = shape_insert(shape, at, n);
                let oldn = shape.nodes.len() as int;
                assert forall|h: int, j: int|
                    0 <= h < s1.kids.len() && 0 <= j < s1.kids[h].len() implies h < (
                s1.kids[h][j] as int) && (s1.kids[h][j] as int) < s1.nodes.len() by {
                    if h == at {
                        assert(s1.kids[h] =~= shape.kids[at].push(shape.nodes.len() as usize));
                        if j == s1.kids[h].len() - 1 {
                            assert(s1.kids[h][j] == shape.nodes.len() as usize);
                        } else {
                            assert(s1.kids[h][j] == shape.kids[at][j]);
                        }
                    } else if h < oldn {
                        assert(s1.kids[h] =~= shape.kids[h]);
                        assert(s1.kids[h][j] == shape.kids[h][j]);
                    } else {
                        assert(s1.kids[h].len() == 0);
                    }
                }
                assert(shape_ascending(s1));
                assert forall|h: int, j1: int, j2: int|
                    0 <= h < s1.kids.len() && 0 <= j1 < j2 < s1.kids[h].len() implies !spec_merge_eq(
                    s1.nodes[s1.kids[h][j1] as int],
                    s1.nodes[s1.kids[h][j2] as int],
                ) by {
                    if h == at {
                        assert(s1.kids[h] =~= shape.kids[at].push(shape.nodes.len() as usize));
                        assert(s1.kids[h][j1] == shape.kids[at][j1]);
                        if j2 == s1.kids[h].len() - 1 {
                            assert(s1.kids[h][j2] == shape.nodes.len() as usize);
                            assert(!spec_merge_eq(shape.nodes[shape.kids[at][j1] as int], n));
                        } else {
                            assert(s1.kids[h][j2] == shape.kids[at][j2]);
                        }
                    } else if h < oldn {
                        assert(s1.kids[h] =~= shape.kids[h]);
                        assert(s1.kids[h][j1] == shape.kids[h][j1]);
                        assert(s1.kids[h][j2] == shape.kids[h][j2]);
                    } else {
                        assert(s1.kids[h].len() == 0);
                    }
                }
                lemma_insert_path_distinct(s1, oldn, segs.drop_first());
            },
        }
    }
}

proof fn lemma_find_some(shape: TreeShape, kids: Seq<usize>, n: NodeModel, j: int)
    requires
        find_merge_child(shape, kids, n, j) is Some,
        0 <= j,
    ensures
        kids.contains(find_merge_child(shape, kids, n, j)->0),
    decreases kids.len() - j,
{
    if j < kids.len() {
        if spec_merge_eq(shape.nodes[kids[j] as int], n) {
            assert(kids[j] == find_merge_child(shape, kids, n, j)->0);
        } else {
            lemma_find_some(shape, kids, n, j + 1);
        }
    }
}

/// The number of segments over a whole definition stream.
pub open spec fn total_segs(paths: Seq<Seq<SegmentModel>>) -> nat
    decreases paths.len(),
{
    if paths.len() == 0 {
        0
    } else {
        paths[0].len() + total_segs(paths.drop_first())
    }
}

/// The builder invariant: a tree grown from any definition stream that
/// fits in memory never holds two merge-equal children under one
/// parent, so no two literal siblings share a name and each parent has
/// at most one text slot and one number slot.
pub proof fn lemma_build_distinct(shape: TreeShape, paths: Seq<Seq<SegmentModel>>)
    requires
        shape == spec_build(init_shape(), paths),
        1 + total_segs(paths) <= usize::MAX,
    ensures
        distinct_siblings(shape),
        shape_ascending(shape),
    decreases paths.len(),
{
    lemma_build_distinct_from(init_shape(), paths);
}

proof fn lemma_build_distinct_from(shape: TreeShape, paths: Seq<Seq<SegmentModel>>)
    requires
        shape_ascending(shape),
        distinct_siblings(shape),
        shape.nodes.len() >= 1,
        shape.nodes.len() + total_segs(paths) <= usize::MAX,
    ensures
        shape_ascending(spec_build(shape, paths)),
        distinct_siblings(spec_build(shape, paths)),
        shape.nodes.len() <= spec_build(shape, paths).nodes.len() <= shape.nodes.len()
            + total_segs(paths),
    decreases paths.len(),
{
    if paths.len() > 0 {
        lemma_insert_path_distinct(shape, 0, paths[0]);
        lemma_build_distinct_from(spec_insert_path(shape, 0, paths[0]), paths.drop_first());
    }
}

/// Rebuilding from the same definition stream is deterministic: two
/// trees whose shapes both arise from the same input have identical
/// node content and identical sibling ordering.
pub proof fn lemma_build_deterministic(a: TreeShape, b: TreeShape, paths: Seq<Seq<SegmentModel>>)
    requires
        a == spec_build(init_shape(), paths),
        b == spec_build(init_shape(), paths),
    ensures
        a.nodes == b.nodes,
        a.kids == b.kids,
{
}

pub struct CmdTree {
    tree: Arena,
    index_map: Vec<vec_tree::Index>,
    children_lists: Vec<Vec<usize>>,
}

impl CmdTree {
    /// Number of nodes, root included.
    pub closed spec fn size(self) -> nat {
        self.index_map@.len()
    }

    pub closed spec fn spec_nodes(self) -> Seq<NodeModel> {
        Seq::new(self.size(), |h: int| arena_nodes(self.tree)[self.index_map@[h]])
    }

    pub closed spec fn spec_kids(self) -> Seq<Seq<usize>> {
        Seq::new(self.size(), |h: int| self.children_lists@[h]@)
    }

    pub closed spec fn shape(self) -> TreeShape {
        TreeShape { nodes: self.spec_nodes(), kids: self.spec_kids() }
    }

    /// Well-formedness: the handle layer is a faithful mirror of the
    /// arena. Every handle maps to a live arena index, distinct handles
    /// to distinct indices, every arena child list agrees with the
    /// mirrored handle list, and child handles are in range.
    pub closed spec fn wf(self) -> bool {
        let n = self.index_map@.len() as int;
        &&& self.children_lists@.len() == n
        &&& n >= 1
        &&& (forall|h: int|
            0 <= h < n ==> arena_nodes(self.tree).dom().contains(#[trigger] self.index_map@[h]))
        &&& (forall|h1: int, h2: int|
            0 <= h1 < n && 0 <= h2 < n && h1 != h2 ==> #[trigger] self.index_map@[h1]
                != #[trigger] self.index_map@[h2])
        &&& (forall|h: int|
            0 <= h < n ==> arena_children(self.tree)[#[trigger] self.index_map@[h]]
                == self.children_lists@[h]@.map_values(|c: usize| self.index_map@[c as int]))
        &&& (forall|h: int, j: int|
            0 <= h < n && 0 <= j < self.children_lists@[h]@.len()
                ==> (#[trigger] self.children_lists@[h]@[j]) < n)
        &&& (forall|h: int, j: int|
            0 <= h < n && 0 <= j < self.children_lists@[h]@.len()
                ==> (#[trigger] self.children_lists@[h]@[j]) > h)
    }

    /// A fresh tree holding only the root sentinel.
    pub fn new() -> (t: CmdTree)
        ensures
            t.wf(),
            t.shape() == init_shape(),
    {
        let mut name: Vec<char> = Vec::new();
        name.push('/');
        let mut descr: Vec<char> = Vec::new();
        descr.push('r');
        descr.push('o');
        descr.push('o');
        descr.push('t');
        let root = Node::Fixed(name, descr);
        assert(root@ =~~= root_model());
        let mut tree = arena_new();
        let idx = arena_insert_root(&mut tree, root);
        let mut index_map: Vec<vec_tree::Index> = Vec::new();
        index_map.push(idx);
        let mut children_lists: Vec<Vec<usize>> = Vec::new();
        children_lists.push(Vec::new());
        let t = CmdTree { tree, index_map, children_lists };
        proof {
            assert(t.children_lists@[0]@.map_values(|c: usize| t.index_map@[c as int])
                =~= Seq::<vec_tree::Index>::empty());
            assert(t.wf());
            assert(t.shape() =~~= init_shape());
        }
        t
    }

    /// A well-formed tree always holds at least its root, handle 0.
    pub proof fn lemma_wf_root(self)
        requires
            self.wf(),
        ensures
            self.size() >= 1,
    {
    }

    /// A well-formed tree's shape has ascending child handles.
    pub proof fn lemma_shape_ascending(self)
        requires
            self.wf(),
        ensures
            shape_ascending(self.shape()),
            self.shape().nodes.len() == self.size(),
    {
    }

    pub fn node_count(&self) -> (r: usize)
        ensures
            r == self.size(),
    {
        self.index_map.len()
    }

    /// The node value at a handle; the arena lookup cannot fail on a
    /// well-formed tree.
    pub fn node_at(&self, h: usize) -> (r: &Node)
        requires
            self.wf(),
            h < self.size(),
        ensures
            r@ == self.shape().nodes[h as int],
    {
        let idx = self.index_map[h];
        let got = arena_get(&self.tree, idx);
        match got {
            Some(n) => n,
            None => {
                proof {
                    assert(false);
                }
                unreached()
            },
        }
    }

    /// The child handles of a position, in sibling order.
    pub fn children_of(&self, h: usize) -> (r: &Vec<usize>)
        requires
            self.wf(),
            h < self.size(),
        ensures
            r@ == self.shape().kids[h as int],
            forall|j: int| 0 <= j < r@.len() ==> h < (#[trigger] r@[j]) < self.size(),
    {
        &self.children_lists[h]
    }

    /// Hangs a new node under `parent`, returning its handle: the next
    /// dense handle, appended as the parent's last child.
    pub fn insert_child(&mut self, parent: usize, node: Node) -> (h: usize)
        requires
            old(self).wf(),
            parent < old(self).size(),
        ensures
            final(self).wf(),
            h == old(self).size(),
            final(self).shape() == shape_insert(old(self).shape(), parent as int, node@),
            final(self).size() == old(self).size() + 1,
    {
        let ghost pre = *self;
        let ghost nm = node@;
        let pidx = self.index_map[parent];
        let idx = arena_insert(&mut self.tree, node, pidx);
        let h = self.index_map.len();
        self.index_map.push(idx);
        self.children_lists[parent].push(h);
        self.children_lists.push(Vec::new());
        proof {
            let post = *self;
            let n = pre.index_map@.len() as int;
            // distinctness: the fresh index was not live before
            assert(forall|k: int|
                0 <= k < n ==> pre.index_map@[k] == #[trigger] post.index_map@[k]);
            assert(forall|k: int| 0 <= k < n ==> post.index_map@[k] != idx);
            // arena child lists still mirror the handle lists
            assert forall|k: int| 0 <= k < n + 1 implies arena_children(
                post.tree,
            )[#[trigger] post.index_map@[k]] == post.children_lists@[k]@.map_values(
                |c: usize| post.index_map@[c as int],
            ) by {
                if k == n {
                    assert(post.children_lists@[k]@.map_values(
                        |c: usize| post.index_map@[c as int],
                    ) =~= Seq::<vec_tree::Index>::empty());
                } else if k == parent {
                    assert(post.children_lists@[k]@ == pre.children_lists@[k]@.push(h as usize));
                    assert(post.children_lists@[k]@.map_values(
                        |c: usize| post.index_map@[c as int],
                    ) =~= pre.children_lists@[k]@.map_values(
                        |c: usize| pre.index_map@[c as int],
                    ).push(idx));
                } else {
                    assert(post.children_lists@[k]@ == pre.children_lists@[k]@);
                    assert(post.children_lists@[k]@.map_values(
                        |c: usize| post.index_map@[c as int],
                    ) =~= pre.children_lists@[k]@.map_values(|c: usize| pre.index_map@[c as int]));
                    assert(arena_children(post.tree)[post.index_map@[k]] == arena_children(
                        pre.tree,
                    )[pre.index_map@[k]]);
                }
            }
            assert(post.wf());
            // the dense model grows by exactly this node and child edge
            assert(post.spec_nodes() =~= pre.spec_nodes().push(nm));
            assert(post.spec_kids() =~= pre.spec_kids().update(
                parent as int,
                pre.spec_kids()[parent as int].push(h as usize),
            ).push(Seq::<usize>::empty()));
            assert(post.shape() =~~= shape_insert(pre.shape(), parent as int, nm));
        }
        h
    }

    /// The first child of `at` that is merge-equal to `n`, if any.
    pub fn find_child(&self, at: usize, n: &Node) -> (r: Option<usize>)
        requires
            self.wf(),
            at < self.size(),
        ensures
            r == find_merge_child(self.shape(), self.shape().kids[at as int], n@, 0),
            (r matches Some(c) ==> c < self.size()),
    {
        let ghost kids = self.shape().kids[at as int];
        let child_count = self.children_of(at).len();
        let mut j: usize = 0;
        while j < child_count
            invariant
                self.wf(),
                at < self.size(),
                child_count == kids.len(),
                kids == self.shape().kids[at as int],
                j <= child_count,
                find_merge_child(self.shape(), kids, n@, 0) == find_merge_child(
                    self.shape(),
                    kids,
                    n@,
                    j as int,
                ),
            decreases child_count - j,
        {
            let c = self.children_of(at)[j];
            assert(c == kids[j as int] && c < self.size());
            if self.node_at(c).merge_eq(n) {
                proof {
                    assert(find_merge_child(self.shape(), kids, n@, j as int) == Some(
                        kids[j as int],
                    ));
                }
                return Some(c);
            }
            proof {
                assert(find_merge_child(self.shape(), kids, n@, j as int) == find_merge_child(
                    self.shape(),
                    kids,
                    n@,
                    j + 1,
                ));
            }
            j += 1;
        }
        proof {
            assert(find_merge_child(self.shape(), kids, n@, child_count as int) is None);
        }
        None
    }

    /// Merges one ordered segment list into the tree, starting at the
    /// root: each segment reuses the first merge-equal child or inserts
    /// a fresh one, then descends.
    pub fn insert_path(&mut self, segs: Vec<Segment>)
        requires
            old(self).wf(),
        ensures
            final(self).wf(),
            final(self).shape() == spec_insert_path(
                old(self).shape(),
                0,
                segs@.map_values(|s: Segment| s@),
            ),
    {
        let ghost sm = segs@.map_values(|s: Segment| s@);
        let mut rest = segs;
        let mut at: usize = 0;
        while rest.len() > 0
            invariant
                self.wf(),
                at < self.size(),
                spec_insert_path(old(self).shape(), 0, sm) == spec_insert_path(
                    self.shape(),
                    at as int,
                    rest@.map_values(|s: Segment| s@),
                ),
            decreases rest.len(),
        {
            let ghost restm = rest@.map_values(|s: Segment| s@);
            let seg = rest.remove(0);
            proof {
                assert(rest@.map_values(|s: Segment| s@) =~= restm.drop_first());
                assert(restm[0] == seg@);
            }
            let n = node_of_segment(seg);
            let next = self.find_child(at, &n);
            match next {
                Some(c) => {
                    at = c;
                },
                None => {
                    let ghost before = self.shape();
                    let h = self.insert_child(at, n);
                    at = h;
                    proof {
                        assert(before.nodes.len() as int == h as int);
                    }
                },
            }
        }
        proof {
            assert(rest@.map_values(|s: Segment| s@).len() == 0);
        }
    }
}

} // verus!
