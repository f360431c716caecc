//! The parent chain of the kinematic tree.
//!
//! A unit is a tree of rigid bodies (hull, turret, barrel, weapon). Each body
//! refers back to its parent; the root has none. The world pose and velocity
//! of a body are composed along its chain of ancestors, from the body to the
//! root. This module walks that chain. The walk is bounded: a chain that is
//! longer than the bound, as any chain is that runs into a cycle, is
//! reported as invalid and never followed without end.

use vstd::prelude::*;

verus! {

/// Reported when a parent chain did not reach a root within the bound: the
/// tree holds a cycle or is deeper than it was configured to be.
#[derive(Clone, Copy, Debug, PartialEq, Eq, Structural)]
pub struct InvalidChain;

/// The parent of an entity. An entity that the table does not hold has
/// none.
pub open spec fn parent_of(parents: Seq<Option<usize>>, entity: usize) -> Option<usize> {
    if entity < parents.len() {
        parents[entity as int]
    } else {
        None
    }
}

/// The ancestor that lies `steps` parent links above an entity, if the chain
/// is that long. The entity is its own ancestor zero steps up.
pub open spec fn ancestor(parents: Seq<Option<usize>>, entity: usize, steps: nat) -> Option<usize>
    decreases steps,
{
    if steps == 0 {
        Some(entity)
    } else {
        match ancestor(parents, entity, (steps - 1) as nat) {
            Some(below) => parent_of(parents, below),
            None => None,
        }
    }
}

/// The chain of an entity ends exactly `steps` links up: the ancestor there
/// is a root.
pub open spec fn root_at(parents: Seq<Option<usize>>, entity: usize, steps: nat) -> bool {
    ancestor(parents, entity, steps) matches Some(top) && parent_of(parents, top) is None
}

/// The chain of an entity, itself included, has at most `bound` members.
pub open spec fn root_within(parents: Seq<Option<usize>>, entity: usize, bound: nat) -> bool {
    exists|steps: nat| steps < bound && #[trigger] root_at(parents, entity, steps)
}

/// The first `length` members of the chain of an entity, from the entity
/// upwards.
pub open spec fn chain_of(parents: Seq<Option<usize>>, entity: usize, length: nat) -> Seq<usize> {
    Seq::new(length, |i: int| ancestor(parents, entity, i as nat).unwrap())
}

/// Following parent links from the entity leads back to it.
pub open spec fn on_cycle(parents: Seq<Option<usize>>, entity: usize) -> bool {
    exists|steps: nat| steps > 0 && #[trigger] ancestor(parents, entity, steps) == Some(entity)
}

/// No member of the chain of the entity lies on a cycle.
pub open spec fn acyclic_from(parents: Seq<Option<usize>>, entity: usize) -> bool {
    forall|steps: nat| #[trigger]
        ancestor(parents, entity, steps) matches Some(member) ==> !on_cycle(parents, member)
}

/// Going `first` links up and then `then` more is going `first + then` up.
pub proof fn lemma_ancestor_add(parents: Seq<Option<usize>>, entity: usize, first: nat, then: nat)
    ensures
        ancestor(parents, entity, first + then) == match ancestor(parents, entity, first) {
            Some(member) => ancestor(parents, member, then),
            None => None,
        },
    decreases then,
{
    if then > 0 {
        lemma_ancestor_add(parents, entity, first, (then - 1) as nat);
    }
}

/// A chain that has no root among its first `bound` members has that many
/// members, each of them with a parent and so an entity of the table.
proof fn lemma_no_root_within(parents: Seq<Option<usize>>, entity: usize, bound: nat, steps: nat)
    requires
        !root_within(parents, entity, bound),
        steps < bound,
    ensures
        ancestor(parents, entity, steps) matches Some(member) && parent_of(parents, member)
            is Some && member < parents.len(),
    decreases steps,
{
    if steps > 0 {
        lemma_no_root_within(parents, entity, bound, (steps - 1) as nat);
    }
    assert(!root_at(parents, entity, steps));
}

/// Among more members than the table has entities, all of them entities of
/// the table, two are the same.
proof fn lemma_repeated_member(members: Seq<int>, entities: nat) -> (found: (int, int))
    requires
        members.len() > entities,
        forall|i: int| 0 <= i < members.len() ==> 0 <= #[trigger] members[i] < entities,
    ensures
        0 <= found.0 < found.1 < members.len(),
        members[found.0] == members[found.1],
{
    if members.no_duplicates() {
        members.unique_seq_to_set();
        vstd::set_lib::lemma_int_range(0, entities as int);
        assert(members.to_set().subset_of(vstd::set_lib::set_int_range(0, entities as int)));
        vstd::set_lib::lemma_len_subset(
            members.to_set(),
            vstd::set_lib::set_int_range(0, entities as int),
        );
        assert(false);
    }
    let (i, j) = choose|i: int, j: int|
        0 <= i < members.len() && 0 <= j < members.len() && i != j && members[i] == members[j];
    if i < j {
        (i, j)
    } else {
        (j, i)
    }
}

/// A chain with more members than the table has entities, all of them
/// entities of the table, passes through some member twice, and that member
/// lies on a cycle.
proof fn lemma_crowded_chain_cycles(parents: Seq<Option<usize>>, entity: usize, count: nat) -> (at:
    nat)
    requires
        count > parents.len(),
        forall|i: nat|
            i < count ==> ((#[trigger] ancestor(parents, entity, i)) matches Some(member)
                && member < parents.len()),
    ensures
        at < count,
        ancestor(parents, entity, at) matches Some(member) && on_cycle(parents, member),
{
    let members = Seq::new(count, |i: int| ancestor(parents, entity, i as nat).unwrap() as int);
    assert forall|i: int| 0 <= i < members.len() implies 0 <= #[trigger] members[i]
        < parents.len() by {
        assert(ancestor(parents, entity, i as nat) is Some);
    }
    let (i, j) = lemma_repeated_member(members, parents.len());
    assert(ancestor(parents, entity, i as nat) is Some);
    assert(ancestor(parents, entity, j as nat) is Some);
    let member = ancestor(parents, entity, i as nat).unwrap();
    lemma_ancestor_add(parents, entity, i as nat, (j - i) as nat);
    assert(ancestor(parents, member, (j - i) as nat) == Some(member));
    i as nat
}

/// Termination: a chain without a cycle reaches its root, and it does so
/// within as many members as the table has entities, and one more for an
/// entity that the table does not hold.
pub proof fn lemma_acyclic_chain_ends(parents: Seq<Option<usize>>, entity: usize)
    requires
        acyclic_from(parents, entity),
    ensures
        root_within(parents, entity, parents.len() + 1),
{
    let bound = parents.len() + 1;
    if !root_within(parents, entity, bound) {
        assert forall|i: nat| i < bound implies ((#[trigger] ancestor(
            parents,
            entity,
            i,
        )) matches Some(member) && member < parents.len()) by {
            lemma_no_root_within(parents, entity, bound, i);
        }
        let at = lemma_crowded_chain_cycles(parents, entity, bound);
        assert(false);
    }
}

/// Above the end of a chain there is nothing.
pub proof fn lemma_beyond_root(parents: Seq<Option<usize>>, entity: usize, root: nat, steps: nat)
    requires
        root_at(parents, entity, root),
        steps > root,
    ensures
        ancestor(parents, entity, steps) is None,
{
    assert(ancestor(parents, entity, root + 1) is None);
    lemma_ancestor_add(parents, entity, root + 1, (steps - root - 1) as nat);
}

/// Below the root of a chain every member has a parent, and so is an entity
/// of the table.
pub proof fn lemma_below_root(parents: Seq<Option<usize>>, entity: usize, root: nat, steps: nat)
    requires
        root_at(parents, entity, root),
        steps < root,
    ensures
        ancestor(parents, entity, steps) matches Some(member) && parent_of(parents, member)
            is Some && member < parents.len(),
{
    lemma_ancestor_add(parents, entity, steps, (root - steps) as nat);
    if root_at(parents, entity, steps) {
        lemma_beyond_root(parents, entity, steps, root);
    }
}

/// From a member that lies on a cycle of `period` links the chain comes
/// back to it for ever: beyond any number of steps there is a step at which
/// it is there again.
proof fn lemma_cycle_returns(
    parents: Seq<Option<usize>>,
    member: usize,
    period: nat,
    beyond: nat,
) -> (steps: nat)
    requires
        period > 0,
        ancestor(parents, member, period) == Some(member),
    ensures
        steps >= beyond,
        ancestor(parents, member, steps) == Some(member),
    decreases beyond,
{
    if beyond == 0 {
        0
    } else {
        let before = lemma_cycle_returns(parents, member, period, (beyond - 1) as nat);
        lemma_ancestor_add(parents, member, before, period);
        before + period
    }
}

/// A chain that ends, ends within as many links as the table has entities.
pub proof fn lemma_root_is_near(parents: Seq<Option<usize>>, entity: usize, root: nat)
    requires
        root_at(parents, entity, root),
    ensures
        root <= parents.len(),
        root_within(parents, entity, parents.len() + 1),
{
    if root > parents.len() {
        assert forall|i: nat| i < parents.len() + 1 implies ((#[trigger] ancestor(
            parents,
            entity,
            i,
        )) matches Some(member) && member < parents.len()) by {
            lemma_below_root(parents, entity, root, i);
        }
        let at = lemma_crowded_chain_cycles(parents, entity, parents.len() + 1);
        let member = ancestor(parents, entity, at).unwrap();
        let period = choose|period: nat|
            period > 0 && #[trigger] ancestor(parents, member, period) == Some(member);
        let again = lemma_cycle_returns(parents, member, period, root + 1);
        lemma_ancestor_add(parents, entity, at, again);
        lemma_beyond_root(parents, entity, root, at + again);
        assert(false);
    }
}

/// A chain ends if and only if none of its members lies on a cycle.
pub proof fn lemma_chain_ends_iff_acyclic(parents: Seq<Option<usize>>, entity: usize)
    ensures
        root_within(parents, entity, parents.len() + 1) <==> acyclic_from(parents, entity),
{
    if acyclic_from(parents, entity) {
        lemma_acyclic_chain_ends(parents, entity);
    }
    if root_within(parents, entity, parents.len() + 1) {
        let root = choose|steps: nat|
            steps < parents.len() + 1 && #[trigger] root_at(parents, entity, steps);
        assert forall|steps: nat| #[trigger]
            ancestor(parents, entity, steps) matches Some(member) implies !on_cycle(
            parents,
            ancestor(parents, entity, steps).unwrap(),
        ) by {
            let member = ancestor(parents, entity, steps).unwrap();
            if on_cycle(parents, member) {
                let period = choose|period: nat|
                    period > 0 && #[trigger] ancestor(parents, member, period) == Some(member);
                let again = lemma_cycle_returns(parents, member, period, root + 1);
                lemma_ancestor_add(parents, entity, steps, again);
                lemma_beyond_root(parents, entity, root, steps + again);
                assert(false);
            }
        }
    }
}

/// The parent relation of the bodies of a simulation. Entities are numbered
/// from zero in the order in which they were added.
pub struct KinematicTree {
    parents: Vec<Option<usize>>,
}

impl KinematicTree {
    /// The parent of each entity of the table.
    pub closed spec fn view(&self) -> Seq<Option<usize>> {
        self.parents@
    }

    /// A table without entities.
    pub fn new() -> (tree: Self)
        ensures
            tree@ == Seq::<Option<usize>>::empty(),
    {
        KinematicTree { parents: Vec::new() }
    }

    /// The number of entities in the table.
    pub fn entity_count(&self) -> (count: usize)
        ensures
            count == self@.len(),
    {
        self.parents.len()
    }

    /// Adds an entity without a parent and returns its number.
    pub fn add_entity(&mut self) -> (entity: usize)
        ensures
            entity == old(self)@.len(),
            final(self)@ == old(self)@.push(None),
    {
        let entity = self.parents.len();
        self.parents.push(None);
        entity
    }

    /// Makes `parent` the parent of `child`. Returns whether `child` is an
    /// entity of the table; if it is not, nothing changes. Nothing is asked
    /// of `parent`: a reference that closes a cycle is accepted here and
    /// found when a chain is walked.
    pub fn set_parent(&mut self, child: usize, parent: usize) -> (known: bool)
        ensures
            known == (child < old(self)@.len()),
            final(self)@ == if known {
                old(self)@.update(child as int, Some(parent))
            } else {
                old(self)@
            },
    {
        if child < self.parents.len() {
            self.parents.set(child, Some(parent));
            true
        } else {
            false
        }
    }

    /// The parent of an entity, if it has one.
    pub fn parent(&self, entity: usize) -> (parent: Option<usize>)
        ensures
            parent == parent_of(self@, entity),
    {
        if entity < self.parents.len() {
            self.parents[entity]
        } else {
            None
        }
    }

    /// Walks the chain of an entity over at most `max_links` parent links.
    fn walk(&self, entity: usize, max_links: usize) -> (result: Result<Vec<usize>, InvalidChain>)
        ensures
            result is Ok <==> root_within(self@, entity, max_links as nat + 1),
            match result {
                Ok(chain) => {
                    &&& 1 <= chain@.len() <= max_links + 1
                    &&& root_at(self@, entity, (chain@.len() - 1) as nat)
                    &&& chain@ == chain_of(self@, entity, chain@.len())
                },
                Err(_) => true,
            },
    {
        let mut chain: Vec<usize> = Vec::new();
        let mut current = entity;
        let mut links: usize = 0;
        loop
            invariant
                links == chain@.len(),
                links <= max_links,
                ancestor(self@, entity, links as nat) == Some(current),
                !root_within(self@, entity, links as nat),
                chain@ == chain_of(self@, entity, links as nat),
            decreases max_links - links,
        {
            chain.push(current);
            match self.parent(current) {
                None => {
                    assert(root_at(self@, entity, links as nat));
                    return Ok(chain);
                },
                Some(parent) => {
                    assert forall|steps: nat| steps < links + 1 implies !#[trigger] root_at(
                        self@,
                        entity,
                        steps,
                    ) by {}
                    if links == max_links {
                        return Err(InvalidChain);
                    }
                    current = parent;
                    links += 1;
                },
            }
        }
    }

    /// The chain of an entity: the entity, its parent, and so on up to the
    /// root. Fails with `InvalidChain` if the chain has more than
    /// `max_depth` members. However large `max_depth` is, no more links are
    /// followed than the table has entities.
    pub fn chain_to_root(&self, entity: usize, max_depth: usize) -> (result: Result<
        Vec<usize>,
        InvalidChain,
    >)
        ensures
            result is Ok <==> root_within(self@, entity, max_depth as nat),
            match result {
                Ok(chain) => {
                    &&& 1 <= chain@.len() <= max_depth
                    &&& root_at(self@, entity, (chain@.len() - 1) as nat)
                    &&& chain@ == chain_of(self@, entity, chain@.len())
                },
                Err(_) => true,
            },
    {
        if max_depth == 0 {
            Err(InvalidChain)
        } else if max_depth - 1 <= self.parents.len() {
            self.walk(entity, max_depth - 1)
        } else {
            // No chain that ends has more links than the table has entities.
            proof {
                if root_within(self@, entity, max_depth as nat) {
                    let root = choose|steps: nat|
                        steps < max_depth && #[trigger] root_at(self@, entity, steps);
                    lemma_root_is_near(self@, entity, root);
                }
            }
            self.walk(entity, self.parents.len())
        }
    }

    /// The chain of an entity in a tree of any depth. Succeeds on every
    /// chain without a cycle, and fails with `InvalidChain` on every chain
    /// that runs into one.
    pub fn world_chain(&self, entity: usize) -> (result: Result<Vec<usize>, InvalidChain>)
        ensures
            result is Ok <==> acyclic_from(self@, entity),
            match result {
                Ok(chain) => {
                    &&& 1 <= chain@.len() <= self@.len() + 1
                    &&& root_at(self@, entity, (chain@.len() - 1) as nat)
                    &&& chain@ == chain_of(self@, entity, chain@.len())
                },
                Err(_) => true,
            },
    {
        proof {
            lemma_chain_ends_iff_acyclic(self@, entity);
        }
        self.walk(entity, self.parents.len())
    }
}

} // verus!
