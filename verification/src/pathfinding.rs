//! Grid pathfinding for mobs: a direct-line walk first, then A* over block
//! positions with step-up, drop and diagonal successors.
//!
//! Costs are integers: a move costs one thousand per block of fluid drag,
//! and the heuristic is the squared Euclidean distance to the goal (larger
//! than the true remaining cost on purpose: it prefers few long moves over
//! zig-zags). A roundabout budget bounds expansions that fail to improve the
//! best node seen, so the search always halts, reachable goal or not.

use vstd::prelude::*;
use crate::block::Blocks;
use crate::world::{in_world_band, BlockPos, WorldMap};

verus! {

/// The node table of one search: insertion-ordered, keyed by position,
/// carrying each node's best known cost and the index of its parent.
pub type NodeKey = (i32, i32, i32);

/// Best cost and parent index of one node.
pub type NodeValue = (u64, usize);

#[verifier::external_type_specification]
#[verifier::external_body]
#[verifier::reject_recursive_types(K)]
#[verifier::reject_recursive_types(V)]
#[verifier::reject_recursive_types(S)]
pub struct ExIndexMap<K, V, S>(indexmap::IndexMap<K, V, S>);

/// The entries of a node table in insertion order.
pub uninterp spec fn node_map_entries(
    m: &indexmap::IndexMap<NodeKey, NodeValue, std::collections::hash_map::RandomState>,
) -> Seq<(NodeKey, NodeValue)>;

/// The first index holding a key, or the entry count if none does.
pub open spec fn spec_key_index(entries: Seq<(NodeKey, NodeValue)>, key: NodeKey) -> int
    decreases entries.len(),
{
    if entries.len() == 0 {
        0
    } else if entries[0].0 == key {
        0
    } else {
        1 + spec_key_index(entries.skip(1), key)
    }
}

/// Keys appear at most once.
pub open spec fn spec_keys_unique(entries: Seq<(NodeKey, NodeValue)>) -> bool {
    forall|i: int, j: int|
        0 <= i < j < entries.len() ==> (#[trigger] entries[i]).0 != (#[trigger] entries[j]).0
}

/// Relies on indexmap's `IndexMap::new`: a map with no entries.
#[verifier::external_body]
fn node_map_new() -> (m: indexmap::IndexMap<
    NodeKey,
    NodeValue,
    std::collections::hash_map::RandomState,
>)
    ensures
        node_map_entries(&m) == Seq::<(NodeKey, NodeValue)>::empty(),
{
    indexmap::IndexMap::new()
}

/// Relies on indexmap's `IndexMap::len`: the number of entries.
#[verifier::external_body]
fn node_map_len(
    m: &indexmap::IndexMap<NodeKey, NodeValue, std::collections::hash_map::RandomState>,
) -> (n: usize)
    ensures
        n == node_map_entries(m).len(),
{
    m.len()
}

/// Relies on indexmap's `IndexMap::get_index`: the entry at an insertion
/// index, if the index is in range.
#[verifier::external_body]
fn node_map_get_index(
    m: &indexmap::IndexMap<NodeKey, NodeValue, std::collections::hash_map::RandomState>,
    index: usize,
) -> (r: Option<(NodeKey, NodeValue)>)
    ensures
        r == if index < node_map_entries(m).len() {
            Some(node_map_entries(m)[index as int])
        } else {
            None::<(NodeKey, NodeValue)>
        },
{
    m.get_index(index).map(|(k, v)| (*k, *v))
}

/// Relies on indexmap's `IndexMap::get_index_of`: the insertion index of a
/// key, if present.
#[verifier::external_body]
fn node_map_get_index_of(
    m: &indexmap::IndexMap<NodeKey, NodeValue, std::collections::hash_map::RandomState>,
    key: &NodeKey,
) -> (r: Option<usize>)
    ensures
        r == if spec_key_index(node_map_entries(m), *key) < node_map_entries(m).len() {
            Some(spec_key_index(node_map_entries(m), *key) as usize)
        } else {
            None::<usize>
        },
{
    m.get_index_of(key)
}

/// Relies on indexmap's `IndexMap::insert`: an existing key keeps its index
/// and takes the new value; a new key lands at the end.
#[verifier::external_body]
fn node_map_insert(
    m: &mut indexmap::IndexMap<NodeKey, NodeValue, std::collections::hash_map::RandomState>,
    key: NodeKey,
    value: NodeValue,
)
    ensures
        ({
            let before = node_map_entries(old(m));
            let idx = spec_key_index(before, key);
            node_map_entries(final(m)) == if idx < before.len() {
                before.update(idx, (key, value))
            } else {
                before.push((key, value))
            }
        }),
        spec_keys_unique(node_map_entries(old(m))) ==> spec_keys_unique(node_map_entries(final(m))),
{
    m.insert(key, value);
}

/// An open-list entry: a candidate path to a node.
#[derive(Clone, Copy, PartialEq, Eq, Structural, Debug)]
pub struct Successor {
    /// Index of the node in the node table.
    pub node_index: usize,
    /// Cost walked so far.
    pub move_cost: u64,
    /// Squared distance from the node to the goal.
    pub heuristic_cost: u64,
}

impl Successor {
    /// The ordering key: walked cost plus the heuristic, saturating.
    pub open spec fn spec_cost(self) -> int {
        if self.move_cost + self.heuristic_cost <= u64::MAX {
            self.move_cost + self.heuristic_cost
        } else {
            u64::MAX as int
        }
    }

    fn cost(&self) -> (r: u64)
        ensures
            r == self.spec_cost(),
    {
        if u64::MAX - self.move_cost >= self.heuristic_cost {
            self.move_cost + self.heuristic_cost
        } else {
            u64::MAX
        }
    }
}

/// Remove and return the cheapest open entry (ties broken towards the
/// smaller heuristic, then the earlier entry).
fn pop_best(queue: &mut Vec<Successor>) -> (r: Option<Successor>)
    ensures
        match r {
            Some(s) => {
                &&& old(queue)@.len() > 0
                &&& final(queue)@.len() == old(queue)@.len() - 1
                &&& old(queue)@.contains(s)
                &&& forall|i: int|
                    0 <= i < final(queue)@.len() ==> s.spec_cost() <= (
                    #[trigger] final(queue)@[i]).spec_cost()
            },
            None => old(queue)@.len() == 0 && final(queue)@ == old(queue)@,
        },
{
    if queue.len() == 0 {
        return None;
    }
    let mut best: usize = 0;
    let mut i: usize = 1;
    while i < queue.len()
        invariant
            queue@.len() > 0,
            best < i <= queue@.len(),
            forall|j: int|
                0 <= j < i ==> queue@[best as int].spec_cost() <= (#[trigger] queue@[j]).spec_cost()
                    || (queue@[best as int].spec_cost() == queue@[j].spec_cost()),
            forall|j: int|
                0 <= j < i ==> queue@[best as int].spec_cost() <= (
                #[trigger] queue@[j]).spec_cost(),
        decreases queue@.len() - i,
    {
        let ci = queue[i].cost();
        let cb = queue[best].cost();
        if ci < cb || (ci == cb && queue[i].heuristic_cost < queue[best].heuristic_cost) {
            best = i;
        }
        i = i + 1;
    }
    let ghost before = queue@;
    let picked = queue[best];
    let removed = queue.swap_remove(best);
    proof {
        assert(removed == picked);
        assert(before.contains(picked)) by {
            assert(before[best as int] == picked);
        }
        assert forall|k: int|
            0 <= k < queue@.len() implies picked.spec_cost() <= (
        #[trigger] queue@[k]).spec_cost() by {
            if k == best {
                assert(queue@[k] == before[before.len() - 1]);
            } else {
                assert(queue@[k] == before[k]);
            }
        }
    }
    Some(removed)
}

/// The cost of standing in a block: impassable (`None`) when the chunk is
/// missing or the block solid, else one thousandth per unit of the block's
/// largest drag component.
pub open spec fn spec_move_cost(world: WorldMap, blocks: Blocks, position: BlockPos) -> Option<
    u64,
> {
    match world.spec_block_at(position) {
        None => None,
        Some(id) => {
            if id as int >= blocks.configs@.len() {
                None
            } else if blocks.configs@[id as int].solid {
                None
            } else {
                match blocks.configs@[id as int].friction {
                    crate::block::Friction::Drag { x, y, z } => {
                        let m = if x >= y && x >= z {
                            x
                        } else if y >= z {
                            y
                        } else {
                            z
                        };
                        Some(m as u64)
                    },
                    crate::block::Friction::Surface { .. } => Some(0u64),
                }
            }
        },
    }
}

/// See `spec_move_cost`.
pub fn get_move_cost(world: &WorldMap, blocks: &Blocks, position: &BlockPos) -> (r: Option<u64>)
    requires
        world.wf(),
        blocks.wf(),
        in_world_band(*position),
    ensures
        r == spec_move_cost(*world, *blocks, *position),
{
    let id = match world.get_block(position) {
        Some(id) => id,
        None => return None,
    };
    let config = match blocks.get_config(id) {
        Some(c) => c,
        None => return None,
    };
    if config.solid {
        return None;
    }
    match config.friction.drag() {
        Some((x, y, z)) => {
            let mut m = x;
            if y > m {
                m = y;
            }
            if z > m {
                m = z;
            }
            Some(m as u64)
        },
        None => Some(0),
    }
}

/// The key scan lands inside the entry list or just past it.
proof fn lemma_key_index_range(entries: Seq<(NodeKey, NodeValue)>, key: NodeKey)
    ensures
        0 <= spec_key_index(entries, key) <= entries.len(),
        spec_key_index(entries, key) < entries.len() ==> entries[spec_key_index(
            entries,
            key,
        )].0 == key,
    decreases entries.len(),
{
    if entries.len() > 0 && entries[0].0 != key {
        lemma_key_index_range(entries.skip(1), key);
        let idx1 = spec_key_index(entries.skip(1), key);
        if idx1 < entries.skip(1).len() {
            assert(entries.skip(1)[idx1] == entries[1 + idx1]);
        }
    }
}

/// An insert of an in-band key keeps every key in the band.
proof fn lemma_insert_keeps_band(
    before: Seq<(NodeKey, NodeValue)>,
    after: Seq<(NodeKey, NodeValue)>,
    key: NodeKey,
    value: NodeValue,
)
    requires
        keys_in_band(before),
        in_world_band(BlockPos { x: key.0, y: key.1, z: key.2 }),
        after == if spec_key_index(before, key) < before.len() {
            before.update(spec_key_index(before, key), (key, value))
        } else {
            before.push((key, value))
        },
    ensures
        keys_in_band(after),
{
    lemma_key_index_range(before, key);
    let idx = spec_key_index(before, key);
    assert forall|k: int|
        0 <= k < after.len() implies in_world_band(
        BlockPos { x: (#[trigger] after[k]).0.0, y: after[k].0.1, z: after[k].0.2 },
    ) by {
        if idx < before.len() {
            if k != idx {
                assert(after[k] == before[k]);
            }
        } else {
            if k < before.len() {
                assert(after[k] == before[k]);
            }
        }
    }
}

/// Every node key the search recorded lies inside the world band.
pub open spec fn keys_in_band(entries: Seq<(NodeKey, NodeValue)>) -> bool {
    forall|k: int|
        0 <= k < entries.len() ==> in_world_band(
            BlockPos {
                x: (#[trigger] entries[k]).0.0,
                y: entries[k].0.1,
                z: entries[k].0.2,
            },
        )
}

/// A mob's grid path, consumed from the goal backwards.
pub struct PathFinder {
    /// The path, goal first; followers pop from the back.
    pub path: Vec<BlockPos>,
    /// Where the last search started.
    pub start: BlockPos,
    /// Where the last search was headed.
    pub goal: BlockPos,
}

/// The planar offsets a node expands to: the four cardinal and four diagonal
/// neighbours, by index.
fn planar_offset(o: usize) -> (r: (i32, i32))
    requires
        o < 8,
    ensures
        -1 <= r.0 <= 1 && -1 <= r.1 <= 1,
{
    if o == 0 {
        (1, 0)
    } else if o == 1 {
        (-1, 0)
    } else if o == 2 {
        (0, 1)
    } else if o == 3 {
        (0, -1)
    } else if o == 4 {
        (1, 1)
    } else if o == 5 {
        (1, -1)
    } else if o == 6 {
        (-1, 1)
    } else {
        (-1, -1)
    }
}

/// How many non-improving expansions the search tolerates before settling
/// for the best node seen.
pub const ROUNDABOUT_LIMIT: u64 = 25;

/// How one search ended.
#[derive(Clone, Copy, PartialEq, Eq, Structural, Debug)]
pub enum PathOutcome {
    /// Already standing at the goal, or already pathing to it: nothing
    /// changed.
    Skipped,
    /// The straight line was clear; the path is just the goal.
    Direct,
    /// The grid search reached the goal's cell; the path starts (at its
    /// front) with the goal.
    Reached,
    /// The roundabout budget ran out; the path leads to the best node seen.
    BestEffort,
    /// The open set ran dry before the goal: no path.
    Exhausted,
}

/// A way-point within a quarter block (planar) counts as reached, in squared
/// thousandths.
pub const NODE_REACH_SQ_MILLI: u64 = 62_500;

impl PathFinder {
    /// Every committed way-point lies inside the world band.
    pub open spec fn wf(self) -> bool {
        forall|i: int| 0 <= i < self.path@.len() ==> in_world_band(#[trigger] self.path@[i])
    }

    /// A finder with no path.
    pub fn new() -> (r: PathFinder)
        ensures
            r.wf(),
            r.path@.len() == 0,
    {
        PathFinder {
            path: Vec::new(),
            start: BlockPos { x: 0, y: 0, z: 0 },
            goal: BlockPos { x: 0, y: 0, z: 0 },
        }
    }

    /// Walk the parent chain from a node into a path, goal end first. The
    /// walk carries fuel so a malformed chain cannot cycle forever.
    fn set_path(
        &mut self,
        node_map: &indexmap::IndexMap<
            NodeKey,
            NodeValue,
            std::collections::hash_map::RandomState,
        >,
        index: usize,
        accurate_goal: Option<BlockPos>,
    )
        requires
            keys_in_band(node_map_entries(node_map)),
            match accurate_goal {
                Some(g) => in_world_band(g),
                None => true,
            },
        ensures
            final(self).wf(),
            final(self).path@.len() <= node_map_entries(node_map).len() + 1,
            final(self).start == old(self).start,
            final(self).goal == old(self).goal,
            match accurate_goal {
                Some(g) => index < node_map_entries(node_map).len() ==> final(self).path@.len()
                    >= 1 && final(self).path@[0] == g,
                None => true,
            },
    {
        self.path = Vec::new();
        let mut fuel = node_map_len(node_map);
        let mut index = index;
        // The walk's head: the goal node, swapped for the accurate goal when
        // the search really reached it.
        match node_map_get_index(node_map, index) {
            Some((key, value)) => {
                match accurate_goal {
                    Some(goal) => {
                        self.path.push(goal);
                    },
                    None => {
                        self.path.push(BlockPos { x: key.0, y: key.1, z: key.2 });
                    },
                }
                index = value.1;
            },
            None => {
                return ;
            },
        }
        while fuel > 0
            invariant
                keys_in_band(node_map_entries(node_map)),
                self.wf(),
                self.path@.len() >= 1,
                match accurate_goal {
                    Some(g) => self.path@[0] == g,
                    None => true,
                },
                self.path@.len() <= node_map_entries(node_map).len() + 1 - fuel,
                self.start == old(self).start,
                self.goal == old(self).goal,
                fuel <= node_map_entries(node_map).len(),
            decreases fuel,
        {
            fuel = fuel - 1;
            if index == usize::MAX {
                break ;
            }
            match node_map_get_index(node_map, index) {
                Some((key, value)) => {
                    self.path.push(BlockPos { x: key.0, y: key.1, z: key.2 });
                    index = value.1;
                },
                None => {
                    break ;
                },
            }
        }
        // The walker already stands at the start node; drop it.
        if self.path.len() > 1 {
            self.path.pop();
        }
    }

    /// The successors of a node: each planar neighbour, lifted one block
    /// when a wall with head room blocks it, or dropped down as much as two
    /// blocks onto the first standable cell. Impassable neighbours are left
    /// out. Every returned position is passable and inside the world band.
    fn get_potential_successors(
        &self,
        position: &BlockPos,
        goal: &BlockPos,
        world: &WorldMap,
        blocks: &Blocks,
    ) -> (successors: Vec<(BlockPos, u64, u64)>)
        requires
            world.wf(),
            blocks.wf(),
            in_world_band(*position),
            in_world_band(*goal),
        ensures
            forall|i: int|
                0 <= i < successors@.len() ==> in_world_band((#[trigger] successors@[i]).0),
    {
        let mut successors: Vec<(BlockPos, u64, u64)> = Vec::new();
        // Head room above the node decides whether it may step up.
        let above = BlockPos { x: position.x, y: position.y + 1, z: position.z };
        let can_step_up = in_band(&above) && {
            match get_move_cost(world, blocks, &above) {
                Some(_) => true,
                None => false,
            }
        };
        let mut o: usize = 0;
        while o < 8
            invariant
                world.wf(),
                blocks.wf(),
                in_world_band(*position),
                in_world_band(*goal),
                forall|i: int|
                    0 <= i < successors@.len() ==> in_world_band((#[trigger] successors@[i]).0),
            decreases 8 - o,
        {
            let (dx, dz) = planar_offset(o);
            o = o + 1;
            let candidate = BlockPos { x: position.x + dx, y: position.y, z: position.z + dz };
            if !in_band(&candidate) {
                continue ;
            }
            match get_move_cost(world, blocks, &candidate) {
                None => {
                    // A wall: jump one block up if there is head room.
                    if can_step_up {
                        let up = BlockPos { x: candidate.x, y: candidate.y + 1, z: candidate.z };
                        if in_band(&up) {
                            if let Some(cost) = get_move_cost(world, blocks, &up) {
                                let move_cost = sat_add(cost, 1000);
                                let h = heuristic(&up, goal);
                                successors.push((up, move_cost, h));
                            }
                        }
                    }
                },
                Some(cost0) => {
                    // Open cell: stand here, or fall up to two blocks onto
                    // the first solid floor.
                    let mut move_cost: u64 = cost0;
                    let mut landed: Option<BlockPos> = None;
                    let mut steps: i32 = 0;
                    while steps <= 2
                        invariant
                            world.wf(),
                            blocks.wf(),
                            0 <= steps <= 3,
                            in_world_band(candidate),
                            match landed {
                                Some(p) => in_world_band(p),
                                None => true,
                            },
                        decreases 3 - steps,
                    {
                        let below = BlockPos {
                            x: candidate.x,
                            y: candidate.y - steps - 1,
                            z: candidate.z,
                        };
                        if !in_band(&below) {
                            break ;
                        }
                        match get_move_cost(world, blocks, &below) {
                            None => {
                                // Solid floor: land on the cell above it.
                                let land = BlockPos {
                                    x: candidate.x,
                                    y: candidate.y - steps,
                                    z: candidate.z,
                                };
                                move_cost = sat_add(move_cost, steps as u64);
                                if in_band(&land) {
                                    landed = Some(land);
                                }
                                break ;
                            },
                            Some(below_cost) => {
                                move_cost = sat_add(move_cost, below_cost);
                            },
                        }
                        steps = steps + 1;
                    }
                    if let Some(land) = landed {
                        let h = heuristic(&land, goal);
                        successors.push((land, move_cost, h));
                    }
                },
            }
        }
        successors
    }

    /// Search for a path from `start` to `goal`.
    ///
    /// The direct line is tried first; if it is clear the path is just the
    /// goal. Otherwise A* runs until it reaches the goal's cell or spends
    /// its roundabout budget, in which case the path leads to the best node
    /// seen. The search halts on every input: each expansion either improves
    /// the best known cost (a positive amount off a finite total) or spends
    /// roundabout budget.
    pub fn find_path(
        &mut self,
        world: &WorldMap,
        blocks: &Blocks,
        start: BlockPos,
        goal: BlockPos,
    ) -> (outcome: PathOutcome)
        requires
            old(self).wf(),
            world.wf(),
            blocks.wf(),
            in_world_band(start),
            in_world_band(goal),
        ensures
            final(self).wf(),
            outcome is Skipped ==> *final(self) == *old(self),
            !(outcome is Skipped) ==> final(self).start == start && final(self).goal == goal,
            outcome is Direct ==> final(self).path@ == seq![goal],
            outcome is Reached ==> final(self).path@.len() >= 1 && final(self).path@[0] == goal,
            outcome is Exhausted ==> final(self).path@.len() == 0,
    {
        if start == goal || self.goal == goal {
            // Already there, or already pathing to this goal.
            return PathOutcome::Skipped;
        }
        self.start = start;
        self.goal = goal;
        self.path = Vec::new();

        // Direct paths feel much better, so one is always tried before the
        // grid search.
        if self.find_direct_path(world, blocks, start, goal) {
            return PathOutcome::Direct;
        }

        let mut node_map = node_map_new();
        node_map_insert(&mut node_map, (start.x, start.y, start.z), (0, usize::MAX));

        let mut queue: Vec<Successor> = Vec::new();
        queue.push(Successor { node_index: 0, move_cost: 0, heuristic_cost: u64::MAX });

        let mut roundabout: u64 = 0;
        let mut best_node_index: usize = 0;
        let mut best_node_cost: u64 = u64::MAX;

        loop
            invariant
                world.wf(),
                blocks.wf(),
                in_world_band(goal),
                roundabout <= ROUNDABOUT_LIMIT,
                spec_keys_unique(node_map_entries(&node_map)),
                keys_in_band(node_map_entries(&node_map)),
                self.start == start,
                self.goal == goal,
                self.path@.len() == 0,
            ensures
                self.start == start,
                self.goal == goal,
                self.path@.len() == 0,
            decreases best_node_cost, ROUNDABOUT_LIMIT - roundabout, queue@.len(),
        {
            let successor = match pop_best(&mut queue) {
                Some(s) => s,
                None => {
                    break ;
                },
            };

            let (node_position, node_cost, node_parent) = match node_map_get_index(
                &node_map,
                successor.node_index,
            ) {
                Some((key, value)) => (BlockPos { x: key.0, y: key.1, z: key.2 }, value.0, value.1),
                None => {
                    break ;
                },
            };

            if successor.cost() < best_node_cost {
                best_node_cost = successor.cost();
                best_node_index = successor.node_index;
            } else {
                roundabout = roundabout + 1;
                if roundabout > ROUNDABOUT_LIMIT {
                    self.set_path(&node_map, best_node_index, None);
                    return PathOutcome::BestEffort;
                }
            }

            if successor.cost() > node_cost && node_parent != usize::MAX {
                // A stale queue entry: the node has a better path already.
                // The root carries no parent and is never stale.
                continue ;
            }

            if !in_band_world(&node_position) {
                continue ;
            }

            let successors = self.get_potential_successors(&node_position, &goal, world, blocks);

            let mut k: usize = 0;
            while k < successors.len()
                invariant
                    world.wf(),
                    blocks.wf(),
                    in_world_band(goal),
                    spec_keys_unique(node_map_entries(&node_map)),
                    keys_in_band(node_map_entries(&node_map)),
                    self.start == start,
                    self.goal == goal,
                    self.path@.len() == 0,
                    k <= successors@.len(),
                    forall|i: int|
                        0 <= i < successors@.len() ==> in_world_band(
                            (#[trigger] successors@[i]).0,
                        ),
                decreases successors@.len() - k,
            {
                let (position, move_cost, heuristic_cost) = successors[k];
                k = k + 1;
                let cost = sat_add(sat_add(successor.move_cost, move_cost), heuristic_cost);
                let key = (position.x, position.y, position.z);
                let node_index = match node_map_get_index_of(&node_map, &key) {
                    Some(existing) => {
                        let keep = match node_map_get_index(&node_map, existing) {
                            Some((_, value)) => value.0 <= cost,
                            None => true,
                        };
                        if keep {
                            continue ;
                        }
                        let ghost before = node_map_entries(&node_map);
                        node_map_insert(&mut node_map, key, (cost, successor.node_index));
                        proof {
                            lemma_insert_keeps_band(
                                before,
                                node_map_entries(&node_map),
                                key,
                                (cost, successor.node_index),
                            );
                            lemma_key_index_range(before, key);
                            assert((existing as int) < node_map_entries(&node_map).len());
                        }
                        existing
                    },
                    None => {
                        let index = node_map_len(&node_map);
                        let ghost before = node_map_entries(&node_map);
                        node_map_insert(&mut node_map, key, (cost, successor.node_index));
                        proof {
                            lemma_insert_keeps_band(
                                before,
                                node_map_entries(&node_map),
                                key,
                                (cost, successor.node_index),
                            );
                            lemma_key_index_range(before, key);
                            assert((index as int) < node_map_entries(&node_map).len());
                        }
                        index
                    },
                };

                if position == goal {
                    self.set_path(&node_map, node_index, Some(goal));
                    return PathOutcome::Reached;
                }

                queue.push(
                    Successor {
                        node_index,
                        move_cost: sat_add(successor.move_cost, move_cost),
                        heuristic_cost,
                    },
                );
            }
        }
        PathOutcome::Exhausted
    }

    /// Walk the straight line from start to goal, one grid cell at a time,
    /// stepping up or dropping as the terrain asks; succeed only if the walk
    /// reaches the goal's cell, in which case the path is just the goal.
    fn find_direct_path(
        &mut self,
        world: &WorldMap,
        blocks: &Blocks,
        start: BlockPos,
        goal: BlockPos,
    ) -> (found: bool)
        requires
            world.wf(),
            blocks.wf(),
            in_world_band(start),
            in_world_band(goal),
            old(self).path@.len() == 0,
        ensures
            final(self).wf(),
            final(self).start == old(self).start,
            final(self).goal == old(self).goal,
            found ==> final(self).path@ == seq![goal],
            !found ==> final(self).path@.len() == 0,
    {
        let dx: i64 = goal.x as i64 - start.x as i64;
        let dz: i64 = goal.z as i64 - start.z as i64;
        let adx: i64 = if dx >= 0 {
            dx
        } else {
            -dx
        };
        let adz: i64 = if dz >= 0 {
            dz
        } else {
            -dz
        };
        let sx: i32 = if dx >= 0 {
            1
        } else {
            -1
        };
        let sz: i32 = if dz >= 0 {
            1
        } else {
            -1
        };

        let mut x = start.x;
        let mut y = start.y;
        let mut z = start.z;
        // Twice the signed distance of the walk from the ideal line, clamped
        // far outside any value a real walk reaches.
        let mut err: i64 = adx - adz;

        let mut remaining: i64 = adx + adz;
        while remaining > 0
            invariant
                world.wf(),
                blocks.wf(),
                in_world_band(start),
                in_world_band(goal),
                self.path@.len() == 0,
                self.start == old(self).start,
                self.goal == old(self).goal,
                adx == if goal.x >= start.x { goal.x - start.x } else { start.x - goal.x },
                adz == if goal.z >= start.z { goal.z - start.z } else { start.z - goal.z },
                sx == if goal.x >= start.x { 1int } else { -1int },
                sz == if goal.z >= start.z { 1int } else { -1int },
                sx == 1 ==> start.x <= x <= goal.x,
                sx == -1 ==> goal.x <= x <= start.x,
                sz == 1 ==> start.z <= z <= goal.z,
                sz == -1 ==> goal.z <= z <= start.z,
                -0x4000_0002 <= y <= 0x4000_0001,
                -0x4000_0000_0000 <= err <= 0x4000_0000_0000,
                0 <= remaining <= 0x2_0000_0000,
            decreases remaining,
        {
            remaining = remaining - 1;
            let e2: i64 = 2 * err;
            if e2 >= -adz && adx > 0 {
                err = clamp_err(err - adz);
                if x != goal.x {
                    x = x + sx;
                } else if z != goal.z {
                    z = z + sz;
                }
            } else {
                err = clamp_err(err + adx);
                if z != goal.z {
                    z = z + sz;
                } else if x != goal.x {
                    x = x + sx;
                }
            }
            if x == goal.x && z == goal.z {
                self.path.push(goal);
                return true;
            }

            let here = BlockPos { x, y, z };
            if !in_band_world(&here) {
                return false;
            }
            let above = BlockPos { x, y: y + 1, z };
            let below = BlockPos { x, y: y - 1, z };
            let second_below = BlockPos { x, y: y - 2, z };
            if !in_band(&above) || !in_band(&below) || !in_band(&second_below) {
                return false;
            }
            if get_move_cost(world, blocks, &above).is_none() {
                // A block at head height: fail.
                return false;
            }
            if get_move_cost(world, blocks, &here).is_none() {
                // A wall: step up one block.
                y = y + 1;
                continue ;
            }
            if get_move_cost(world, blocks, &below).is_none() {
                // Standing on solid ground: walk on.
                continue ;
            }
            // Step down, and fall one further when that cell is open too.
            y = y - 1;
            if get_move_cost(world, blocks, &second_below).is_some() {
                y = y - 1;
            }
        }
        false
    }

    /// The next way-point: the last path entry whose planar distance to the
    /// caller is at least a quarter block; nearer entries are consumed.
    /// Positions in thousandths of a block.
    pub fn next_node(&mut self, x_milli: i64, z_milli: i64) -> (r: Option<BlockPos>)
        requires
            old(self).wf(),
            -0x1_0000_0000_000 <= x_milli <= 0x1_0000_0000_000,
            -0x1_0000_0000_000 <= z_milli <= 0x1_0000_0000_000,
        ensures
            final(self).wf(),
            final(self).start == old(self).start,
            final(self).goal == old(self).goal,
            match r {
                Some(p) => final(self).path@.len() > 0 && final(self).path@.last() == p,
                None => final(self).path@.len() == 0,
            },
    {
        while self.path.len() > 0
            invariant
                self.wf(),
                self.start == old(self).start,
                self.goal == old(self).goal,
                -0x1_0000_0000_000 <= x_milli <= 0x1_0000_0000_000,
                -0x1_0000_0000_000 <= z_milli <= 0x1_0000_0000_000,
            decreases self.path@.len(),
        {
            let next = self.path[self.path.len() - 1];
            // Block centers: the way-point is half a block into its cell.
            let nx = next.x as i64 * 1000 + 500;
            let nz = next.z as i64 * 1000 + 500;
            let ddx = nx - x_milli;
            let ddz = nz - z_milli;
            proof {
                assert(ddx * ddx >= 0 && ddx * ddx <= 0x2000_0000_0000 * 0x2000_0000_0000
                    && ddz * ddz >= 0 && ddz * ddz <= 0x2000_0000_0000 * 0x2000_0000_0000)
                    by (nonlinear_arith)
                    requires
                        -0x2000_0000_0000 <= ddx <= 0x2000_0000_0000,
                        -0x2000_0000_0000 <= ddz <= 0x2000_0000_0000,
                ;
            }
            let dist_sq = (ddx as i128) * (ddx as i128) + (ddz as i128) * (ddz as i128);
            if dist_sq >= NODE_REACH_SQ_MILLI as i128 {
                return Some(next);
            }
            self.path.pop();
        }
        None
    }
}

/// Clamp the walk's error term into its working range.
fn clamp_err(e: i64) -> (r: i64)
    requires
        -0x8000_0000_0000 <= e <= 0x8000_0000_0000,
    ensures
        -0x4000_0000_0000 <= r <= 0x4000_0000_0000,
{
    if e > 0x4000_0000_0000 {
        0x4000_0000_0000
    } else if e < -0x4000_0000_0000 {
        -0x4000_0000_0000
    } else {
        e
    }
}

/// Saturating addition.
fn sat_add(a: u64, b: u64) -> (r: u64)
    ensures
        r == if a + b <= u64::MAX {
            a + b
        } else {
            u64::MAX as int
        },
{
    if u64::MAX - a >= b {
        a + b
    } else {
        u64::MAX
    }
}

/// Squared distance to the goal: the (deliberately inadmissible) heuristic.
fn heuristic(p: &BlockPos, goal: &BlockPos) -> (r: u64)
    requires
        in_world_band(*p),
        in_world_band(*goal),
    ensures
        r == crate::world::spec_distance_squared(*p, *goal),
{
    p.distance_squared(goal)
}

/// Whether a position is inside the world band (exec form).
fn in_band(p: &BlockPos) -> (r: bool)
    ensures
        r == in_world_band(*p),
{
    -0x4000_0000 <= p.x && p.x <= 0x4000_0000 && -0x4000_0000 <= p.y && p.y <= 0x4000_0000
        && -0x4000_0000 <= p.z && p.z <= 0x4000_0000
}

/// `in_band` under a name usable where only the world band matters.
fn in_band_world(p: &BlockPos) -> (r: bool)
    ensures
        r == in_world_band(*p),
{
    in_band(p)
}

} // verus!
