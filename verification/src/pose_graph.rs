//! A tree of named frames, each placed in its parent.
//!
//! Nodes live in one arena and refer to their parent by index.  Nothing
//! stops a caller from giving a node one of its own descendants as parent;
//! the queries bound their walk by the number of nodes and report a cycle
//! instead of looping.
use vstd::prelude::*;
use crate::primitives::float3::Float3;
use crate::primitives::quaternion::{can_turn, Quaternion, QuaternionParts};
use crate::primitives::transform::{
    has_reciprocal, lemma_inverse_then_transform, lemma_inverse_then_transform_is_near,
    moved_by_at_most, shortfall, Transform, TransformParts,
};

verus! {

/// One node as plain values.
pub struct PoseNodeParts {
    pub parent: Option<usize>,
    pub transform: TransformParts,
    pub name: Seq<char>,
}

/// One frame of the graph.
#[derive(Clone, Debug)]
pub struct PoseNode {
    pub parent: Option<usize>,
    pub transform: Transform,
    pub name: String,
}

impl View for PoseNode {
    type V = PoseNodeParts;

    open spec fn view(&self) -> PoseNodeParts {
        PoseNodeParts { parent: self.parent, transform: self.transform@, name: self.name@ }
    }
}

/// The walk from a node to the root came back to a node it had left.
#[derive(Clone, Copy, Debug, PartialEq, Eq, Structural)]
pub struct CyclicGraphError {}

/// Why a transform between two nodes could not be computed.
#[derive(Clone, Copy, Debug, PartialEq, Eq, Structural)]
pub enum PoseError {
    /// One of the two nodes has a cycle among its ancestors.
    CyclicGraph,
    /// The target's world transform scales an axis by zero.
    NonInvertible,
}

/// Whether every parent link of `g` points at a node of `g`.
pub open spec fn links_in_range(g: Seq<PoseNodeParts>) -> bool {
    forall|i: int| 0 <= i < g.len() ==> (#[trigger] g[i].parent matches Some(p) ==> p < g.len())
}

/// The transform from `node` to the root, composed from the root down, as
/// far as at most `fuel` parent links reach it.
pub open spec fn world_within(g: Seq<PoseNodeParts>, node: int, fuel: nat) -> Option<
    TransformParts,
>
    decreases fuel,
{
    match g[node].parent {
        None => Some(g[node].transform),
        Some(p) => if fuel == 0 {
            None
        } else {
            match world_within(g, p as int, (fuel - 1) as nat) {
                Some(w) => Some(w.compose(g[node].transform)),
                None => None,
            }
        },
    }
}

/// The world transform of `node`: the one that a walk of at most as many
/// links as the graph has nodes finds.  `None` where the walk does not end,
/// which is where the ancestors of `node` form a cycle.
pub open spec fn world_of(g: Seq<PoseNodeParts>, node: int) -> Option<TransformParts> {
    world_within(g, node, g.len())
}

/// The transform from the frame of `from` to the frame of `to`.
pub open spec fn relative_of(g: Seq<PoseNodeParts>, from: int, to: int) -> Result<
    TransformParts,
    PoseError,
> {
    match (world_of(g, from), world_of(g, to)) {
        (Some(f), Some(t)) => if t.invertible() {
            Ok(t.inverse().compose(f))
        } else {
            Err(PoseError::NonInvertible)
        },
        _ => Err(PoseError::CyclicGraph),
    }
}

/// The transform from a node to itself is the identity up to the rounding
/// of the reciprocal of the node's scale in the world: it sends a point
/// `p` to `p` times the reciprocal scale times the scale, axis by axis.
///
/// This holds of a node that has a world transform with an inverse, whose
/// rotation is one that a rotation value can hold and whose position
/// divided by its scale stays below `2^26`.
pub proof fn lemma_relative_to_itself(g: Seq<PoseNodeParts>, node: int, p: Float3)
    requires
        world_of(g, node) matches Some(w) && w.invertible() && w.rotation.is_bounded() && can_turn(
            w.position.mul(Float3::one().div(w.scale)),
        ),
    ensures
        relative_of(g, node, node) matches Ok(t) && t.apply(p) == p.mul(
            Float3::one().div(world_of(g, node).unwrap().scale).mul(
                world_of(g, node).unwrap().scale,
            ),
        ) && t.position == Float3::zero() && t.rotation
            == QuaternionParts::identity(),
{
    let w = world_of(g, node).unwrap();
    lemma_inverse_then_transform(w);
    assert(w.inverse().compose(w).apply(p) == p.mul(Float3::one().div(w.scale).mul(w.scale)));
}

/// The transform from a node to itself moves a point by no more than
/// rounding: each coordinate moves toward zero by at most its magnitude
/// times the magnitude of the node's scale in the world, in units of the
/// last place.
///
/// This holds of a node whose world transform has a rotation that a
/// rotation value can hold, a scale between `2^-16` and `2^15` in
/// magnitude on every axis, and a position that, divided by the scale,
/// stays below `2^26`.
pub proof fn lemma_relative_to_itself_is_near(g: Seq<PoseNodeParts>, node: int, p: Float3)
    requires
        world_of(g, node) matches Some(w) && w.rotation.is_bounded() && can_turn(
            w.position.mul(Float3::one().div(w.scale)),
        ) && has_reciprocal(w.scale.x) && has_reciprocal(w.scale.y) && has_reciprocal(w.scale.z),
    ensures
        relative_of(g, node, node) matches Ok(t) && ({
            let w = world_of(g, node).unwrap();
            let r = t.apply(p);
            &&& moved_by_at_most(p.x, r.x, shortfall(w.scale.x))
            &&& moved_by_at_most(p.y, r.y, shortfall(w.scale.y))
            &&& moved_by_at_most(p.z, r.z, shortfall(w.scale.z))
        }),
{
    let w = world_of(g, node).unwrap();
    lemma_inverse_then_transform_is_near(w, p);
}

/// A walk that has reached the root keeps its result when it is allowed
/// more links.
pub proof fn lemma_world_within_more_fuel(g: Seq<PoseNodeParts>, node: int, fuel: nat, more: nat)
    requires
        world_within(g, node, fuel).is_some(),
        fuel <= more,
    ensures
        world_within(g, node, more) == world_within(g, node, fuel),
    decreases fuel,
{
    match g[node].parent {
        None => {},
        Some(p) => {
            lemma_world_within_more_fuel(g, p as int, (fuel - 1) as nat, (more - 1) as nat);
        },
    }
}

/// The node that `steps` parent links lead to from `node`; a walk that has
/// reached a node without a parent stays there.
pub open spec fn ancestor(g: Seq<PoseNodeParts>, node: int, steps: nat) -> int
    decreases steps,
{
    if steps == 0 {
        node
    } else {
        let below = ancestor(g, node, (steps - 1) as nat);
        match g[below].parent {
            Some(p) => p as int,
            None => below,
        }
    }
}

/// Walking `first` links and then `more` is walking `first + more`.
pub proof fn lemma_ancestor_adds(g: Seq<PoseNodeParts>, node: int, first: nat, more: nat)
    ensures
        ancestor(g, node, first + more) == ancestor(g, ancestor(g, node, first), more),
    decreases more,
{
    if more > 0 {
        lemma_ancestor_adds(g, node, first, (more - 1) as nat);
    }
}

/// Every node on the walk from a node of the graph is a node of the graph.
pub proof fn lemma_ancestor_in_range(g: Seq<PoseNodeParts>, node: int, steps: nat)
    requires
        links_in_range(g),
        0 <= node < g.len(),
    ensures
        0 <= ancestor(g, node, steps) < g.len(),
    decreases steps,
{
    if steps > 0 {
        lemma_ancestor_in_range(g, node, (steps - 1) as nat);
    }
}

/// A node has a world transform within `fuel` links exactly if the walk
/// of `fuel` links from it ends at a node without a parent.
pub proof fn lemma_world_within_reaches_root(g: Seq<PoseNodeParts>, node: int, fuel: nat)
    ensures
        world_within(g, node, fuel).is_some() == g[ancestor(g, node, fuel)].parent.is_none(),
    decreases fuel,
{
    match g[node].parent {
        None => {
            lemma_root_stays(g, node, fuel);
        },
        Some(p) => {
            if fuel > 0 {
                lemma_world_within_reaches_root(g, p as int, (fuel - 1) as nat);
                lemma_ancestor_adds(g, node, 1, (fuel - 1) as nat);
                assert(ancestor(g, node, 1) == p) by {
                    assert(ancestor(g, node, 0) == node);
                }
            }
        },
    }
}

/// The walk from a node without a parent stays at that node.
pub proof fn lemma_root_stays(g: Seq<PoseNodeParts>, node: int, steps: nat)
    requires
        g[node].parent.is_none(),
    ensures
        ancestor(g, node, steps) == node,
    decreases steps,
{
    if steps > 0 {
        lemma_root_stays(g, node, (steps - 1) as nat);
    }
}

/// The values that `f` takes on `0..count`.
spec fn image(f: spec_fn(int) -> int, count: int) -> Set<int> {
    Set::new(|v: int| exists|k: int| 0 <= k < count && #[trigger] f(k) == v)
}

/// Distinct values are as many as the arguments they are taken at.
proof fn lemma_image_of_distinct(f: spec_fn(int) -> int, count: int, bound: int)
    requires
        0 <= count,
        forall|k: int| 0 <= k < count ==> 0 <= #[trigger] f(k) < bound,
        forall|i: int, j: int| 0 <= i < j < count ==> #[trigger] f(i) != #[trigger] f(j),
    ensures
        image(f, count).finite(),
        image(f, count).len() == count,
        image(f, count).subset_of(vstd::set_lib::set_int_range(0, bound)),
    decreases count,
{
    if count == 0 {
        assert(image(f, count) =~= Set::<int>::empty());
    } else {
        lemma_image_of_distinct(f, count - 1, bound);
        let last = f(count - 1);
        assert(!image(f, count - 1).contains(last));
        assert(image(f, count) =~= image(f, count - 1).insert(last)) by {
            assert forall|v: int| image(f, count).contains(v) implies image(f, count - 1).insert(
                last,
            ).contains(v) by {
                let k = choose|k: int| 0 <= k < count && #[trigger] f(k) == v;
                if k < count - 1 {
                    assert(image(f, count - 1).contains(v));
                }
            }
            assert forall|v: int| image(f, count - 1).insert(last).contains(v) implies image(
                f,
                count,
            ).contains(v) by {
                if v == last {
                    assert(f(count - 1) == v);
                } else {
                    let k = choose|k: int| 0 <= k < count - 1 && #[trigger] f(k) == v;
                    assert(0 <= k < count && f(k) == v);
                }
            }
        }
    }
}

/// Of more values than there are places, two are the same.
proof fn lemma_two_are_the_same(f: spec_fn(int) -> int, bound: int)
    requires
        0 <= bound,
        forall|k: int| 0 <= k <= bound ==> 0 <= #[trigger] f(k) < bound,
    ensures
        exists|i: int, j: int| 0 <= i < j <= bound && #[trigger] f(i) == #[trigger] f(j),
{
    if forall|i: int, j: int| 0 <= i < j < bound + 1 ==> #[trigger] f(i) != #[trigger] f(j) {
        lemma_image_of_distinct(f, bound + 1, bound);
        vstd::set_lib::lemma_int_range(0, bound);
        vstd::set_lib::lemma_len_subset(
            image(f, bound + 1),
            vstd::set_lib::set_int_range(0, bound),
        );
    }
}

/// A walk that reaches a node without a parent at all reaches it within
/// fewer links than the graph has nodes.
proof fn lemma_root_is_near(g: Seq<PoseNodeParts>, node: int, steps: nat)
    requires
        links_in_range(g),
        0 <= node < g.len(),
        g[ancestor(g, node, steps)].parent.is_none(),
    ensures
        g[ancestor(g, node, g.len())].parent.is_none(),
        ancestor(g, node, g.len()) == ancestor(g, node, steps),
    decreases steps,
{
    let n = g.len();
    if steps <= n {
        lemma_ancestor_adds(g, node, steps, (n - steps) as nat);
        lemma_root_stays(g, ancestor(g, node, steps), (n - steps) as nat);
    } else {
        let f = |k: int| ancestor(g, node, k as nat);
        assert forall|k: int| 0 <= k <= n implies 0 <= #[trigger] f(k) < n by {
            lemma_ancestor_in_range(g, node, k as nat);
        }
        lemma_two_are_the_same(f, n as int);
        let (i, j) = choose|i: int, j: int| 0 <= i < j <= n && #[trigger] f(i) == #[trigger] f(j);
        let shorter = (steps - (j - i)) as nat;
        lemma_ancestor_adds(g, node, i as nat, (steps - j) as nat);
        lemma_ancestor_adds(g, node, j as nat, (steps - j) as nat);
        assert(ancestor(g, node, shorter) == ancestor(g, node, steps));
        lemma_root_is_near(g, node, shorter);
    }
}

/// The bound on the walk loses nothing: a node that has a world transform
/// within any number of links has the same one within as many links as
/// the graph has nodes.  So a node is without a world transform only where
/// no walk from it ever ends, which is where its ancestors form a cycle.
pub proof fn lemma_bound_loses_nothing(g: Seq<PoseNodeParts>, node: int, fuel: nat)
    requires
        links_in_range(g),
        0 <= node < g.len(),
        world_within(g, node, fuel).is_some(),
    ensures
        world_of(g, node) == world_within(g, node, fuel),
{
    lemma_world_within_reaches_root(g, node, fuel);
    lemma_root_is_near(g, node, fuel);
    lemma_world_within_reaches_root(g, node, g.len());
    if fuel <= g.len() {
        lemma_world_within_more_fuel(g, node, fuel, g.len());
    } else {
        lemma_world_within_more_fuel(g, node, g.len(), fuel);
    }
}

/// Whether `chain` lists a node and its ancestors in order, each the parent
/// of the one before.
pub open spec fn is_ancestor_chain(g: Seq<PoseNodeParts>, chain: Seq<usize>) -> bool {
    &&& chain.len() > 0
    &&& forall|k: int| 0 <= k < chain.len() ==> (#[trigger] chain[k]) < g.len()
    &&& forall|k: int|
        0 <= k < chain.len() - 1 ==> g[#[trigger] chain[k] as int].parent == Some(chain[k + 1])
}

/// A node with more ancestors than the walk may visit has no world
/// transform within that bound.
pub proof fn lemma_long_chain_has_no_world(g: Seq<PoseNodeParts>, chain: Seq<usize>, from: int)
    requires
        is_ancestor_chain(g, chain),
        0 <= from < chain.len(),
        g[chain[chain.len() - 1] as int].parent.is_some(),
    ensures
        world_within(g, chain[from] as int, (chain.len() - 1 - from) as nat).is_none(),
    decreases chain.len() - from,
{
    if from < chain.len() - 1 {
        lemma_long_chain_has_no_world(g, chain, from + 1);
    }
}

/// The arena of frames.  Node 0 is the root it was made with.
#[derive(Clone, Debug)]
pub struct PoseGraph {
    nodes: Vec<PoseNode>,
}

impl View for PoseGraph {
    type V = Seq<PoseNodeParts>;

    closed spec fn view(&self) -> Seq<PoseNodeParts> {
        Seq::new(self.nodes@.len(), |i: int| self.nodes@[i]@)
    }
}

impl PoseGraph {
    /// Whether the graph has a node and every parent link points at one.
    pub open spec fn wf(&self) -> bool {
        self@.len() > 0 && links_in_range(self@)
    }

    /// A graph of one node, the root: named "root", without a parent, with
    /// the identity transform.
    pub fn root() -> (g: PoseGraph)
        ensures
            g.wf(),
            g@.len() == 1,
            g@[0].parent.is_none(),
            g@[0].transform == TransformParts::identity(),
            g@[0].name == "root"@,
    {
        let mut nodes: Vec<PoseNode> = Vec::new();
        nodes.push(PoseNode { parent: None, transform: Transform::default(), name: "root".to_string() });
        PoseGraph { nodes }
    }

    /// Adds a node named `name` under `parent`, with the identity transform,
    /// and returns its index.
    pub fn new(&mut self, name: &str, parent: usize) -> (id: usize)
        requires
            old(self).wf(),
            parent < old(self)@.len(),
        ensures
            final(self).wf(),
            id == old(self)@.len(),
            final(self)@ == old(self)@.push(
                PoseNodeParts {
                    parent: Some(parent),
                    transform: TransformParts::identity(),
                    name: name@,
                },
            ),
    {
        let id = self.nodes.len();
        self.nodes.push(
            PoseNode { parent: Some(parent), transform: Transform::default(), name: name.to_string() },
        );
        assert(self@ =~= old(self)@.push(
            PoseNodeParts {
                parent: Some(parent),
                transform: TransformParts::identity(),
                name: name@,
            },
        ));
        id
    }

    /// Number of nodes.
    pub fn len(&self) -> (n: usize)
        ensures
            n == self@.len(),
    {
        self.nodes.len()
    }

    /// The parent of `node`, if it has one.
    pub fn parent(&self, node: usize) -> (p: Option<usize>)
        requires
            node < self@.len(),
        ensures
            p == self@[node as int].parent,
    {
        self.nodes[node].parent
    }

    /// The transform of `node` in its parent.
    pub fn transform(&self, node: usize) -> (t: Transform)
        requires
            node < self@.len(),
        ensures
            t@ == self@[node as int].transform,
    {
        self.nodes[node].transform
    }

    /// The name of `node`.
    pub fn name(&self, node: usize) -> (s: &String)
        requires
            node < self@.len(),
        ensures
            s@ == self@[node as int].name,
    {
        &self.nodes[node].name
    }

    /// Makes `parent` the parent of `node`.  No cycle is looked for: a
    /// caller that closes one gets an error from the queries below.
    pub fn set_parent(&mut self, node: usize, parent: usize)
        requires
            old(self).wf(),
            node < old(self)@.len(),
            parent < old(self)@.len(),
        ensures
            final(self).wf(),
            final(self)@ == old(self)@.update(
                node as int,
                PoseNodeParts { parent: Some(parent), ..old(self)@[node as int] },
            ),
    {
        self.nodes[node].parent = Some(parent);
        assert(self@ =~= old(self)@.update(
            node as int,
            PoseNodeParts { parent: Some(parent), ..old(self)@[node as int] },
        ));
    }

    /// Replaces the transform of `node` in its parent.
    pub fn set_transform(&mut self, node: usize, transform: Transform)
        requires
            old(self).wf(),
            node < old(self)@.len(),
        ensures
            final(self).wf(),
            final(self)@ == old(self)@.update(
                node as int,
                PoseNodeParts { transform: transform@, ..old(self)@[node as int] },
            ),
    {
        self.nodes[node].transform = transform;
        assert(self@ =~= old(self)@.update(
            node as int,
            PoseNodeParts { transform: transform@, ..old(self)@[node as int] },
        ));
    }

    /// Multiplies the scale of `node` by `scale`, axis by axis.
    pub fn apply_scale(&mut self, node: usize, scale: Float3)
        requires
            old(self).wf(),
            node < old(self)@.len(),
        ensures
            final(self).wf(),
            final(self)@ == old(self)@.update(
                node as int,
                PoseNodeParts {
                    transform: TransformParts {
                        scale: old(self)@[node as int].transform.scale.mul(scale),
                        ..old(self)@[node as int].transform
                    },
                    ..old(self)@[node as int]
                },
            ),
    {
        let t = self.nodes[node].transform;
        self.set_transform(
            node,
            Transform { position: t.position, scale: t.scale.mul(scale), rotation: t.rotation },
        );
    }

    /// Turns `node` by `rotation`, applied before the rotation it has.
    pub fn apply_rotation(&mut self, node: usize, rotation: Quaternion)
        requires
            old(self).wf(),
            node < old(self)@.len(),
        ensures
            final(self).wf(),
            final(self)@ == old(self)@.update(
                node as int,
                PoseNodeParts {
                    transform: TransformParts {
                        rotation: old(self)@[node as int].transform.rotation.mul(
                            rotation@,
                        ).normalized(),
                        ..old(self)@[node as int].transform
                    },
                    ..old(self)@[node as int]
                },
            ),
    {
        let t = self.nodes[node].transform;
        self.set_transform(
            node,
            Transform { position: t.position, scale: t.scale, rotation: t.rotation.mul(rotation) },
        );
    }

    /// Moves `node` by `translation`, measured in its parent.
    pub fn apply_translation(&mut self, node: usize, translation: Float3)
        requires
            old(self).wf(),
            node < old(self)@.len(),
        ensures
            final(self).wf(),
            final(self)@ == old(self)@.update(
                node as int,
                PoseNodeParts {
                    transform: TransformParts {
                        position: old(self)@[node as int].transform.position.add(translation),
                        ..old(self)@[node as int].transform
                    },
                    ..old(self)@[node as int]
                },
            ),
    {
        let t = self.nodes[node].transform;
        self.set_transform(
            node,
            Transform { position: t.position.add(translation), scale: t.scale, rotation: t.rotation },
        );
    }

    /// The node and its ancestors up to the root, or an error where the
    /// walk has followed as many links as the graph has nodes and still
    /// has a parent above.
    fn ancestors(&self, node: usize) -> (r: Result<Vec<usize>, CyclicGraphError>)
        requires
            self.wf(),
            node < self@.len(),
        ensures
            r matches Ok(chain) ==> {
                &&& is_ancestor_chain(self@, chain@)
                &&& chain@[0] == node
                &&& chain@.len() <= self@.len() + 1
                &&& self@[chain@[chain@.len() - 1] as int].parent.is_none()
            },
            r is Err ==> world_of(self@, node as int).is_none(),
    {
        let mut chain: Vec<usize> = Vec::new();
        chain.push(node);
        let mut current = node;
        loop
            invariant
                self.wf(),
                is_ancestor_chain(self@, chain@),
                chain@[0] == node,
                chain@[chain@.len() - 1] == current,
                chain@.len() <= self@.len() + 1,
            decreases self@.len() + 1 - chain@.len(),
        {
            match self.nodes[current].parent {
                None => {
                    return Ok(chain);
                },
                Some(p) => {
                    if chain.len() > self.nodes.len() {
                        proof {
                            lemma_long_chain_has_no_world(self@, chain@, 0);
                        }
                        return Err(CyclicGraphError {});
                    }
                    chain.push(p);
                    current = p;
                },
            }
        }
    }

    /// The transform from the frame of `node` to the frame of the root:
    /// the root's transform composed with each descendant's in turn, down
    /// to `node`.  An error where the ancestors of `node` form a cycle, so
    /// that no walk from `node`, however long, comes to an end.
    pub fn world_transform(&self, node: usize) -> (r: Result<Transform, CyclicGraphError>)
        requires
            self.wf(),
            node < self@.len(),
        ensures
            r.is_ok() == world_of(self@, node as int).is_some(),
            r matches Ok(t) ==> Some(t@) == world_of(self@, node as int),
            r is Err ==> forall|fuel: nat| world_within(self@, node as int, fuel).is_none(),
    {
        let chain = match self.ancestors(node) {
            Ok(chain) => chain,
            Err(e) => {
                proof {
                    assert forall|fuel: nat| world_within(self@, node as int, fuel).is_none() by {
                        if world_within(self@, node as int, fuel).is_some() {
                            lemma_bound_loses_nothing(self@, node as int, fuel);
                        }
                    }
                }
                return Err(e);
            },
        };
        let links = chain.len() - 1;
        let mut k = links;
        let mut acc = self.nodes[chain[k]].transform;
        while k > 0
            invariant
                self.wf(),
                is_ancestor_chain(self@, chain@),
                links == chain@.len() - 1,
                0 <= k <= links,
                self@[chain@[links as int] as int].parent.is_none(),
                Some(acc@) == world_within(self@, chain@[k as int] as int, (links - k) as nat),
            decreases k,
        {
            k = k - 1;
            acc = acc.compose(&self.nodes[chain[k]].transform);
        }
        proof {
            lemma_world_within_more_fuel(self@, node as int, links as nat, self@.len());
        }
        Ok(acc)
    }

    /// The transform that takes a point of the frame of `from` to the frame
    /// of `to`: the inverse of the world transform of `to`, composed with
    /// the world transform of `from`.
    pub fn relative_transform(&self, from: usize, to: usize) -> (r: Result<Transform, PoseError>)
        requires
            self.wf(),
            from < self@.len(),
            to < self@.len(),
        ensures
            r matches Ok(t) ==> Ok::<TransformParts, PoseError>(t@) == relative_of(
                self@,
                from as int,
                to as int,
            ),
            r matches Err(e) ==> Err::<TransformParts, PoseError>(e) == relative_of(
                self@,
                from as int,
                to as int,
            ),
    {
        let from_world = match self.world_transform(from) {
            Ok(t) => t,
            Err(_) => {
                return Err(PoseError::CyclicGraph);
            },
        };
        let to_world = match self.world_transform(to) {
            Ok(t) => t,
            Err(_) => {
                return Err(PoseError::CyclicGraph);
            },
        };
        match to_world.inverse() {
            Ok(inv) => Ok(inv.compose(&from_world)),
            Err(_) => Err(PoseError::NonInvertible),
        }
    }
}

} // verus!
