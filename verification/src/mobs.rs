//! Mob bookkeeping and behaviour: the per-chunk mob index, target
//! acquisition and loss, attacks, night gating, wander goals, and spawn
//! planning.

use vstd::prelude::*;
use crate::block::{BlockId, Blocks};
use crate::chunk::CHUNK_SIZE;
use crate::health::Health;
use crate::interact::GameMode;
use crate::rng::{rng_next_u32, rng_range_u32};
use crate::world::{in_world_band, BlockPos, ChunkPos, WorldMap};

verus! {

/// A mob's life state: hearts plus the invincibility window after a hit.
pub struct Mob {
    pub health: Health,
}

impl Mob {
    pub open spec fn wf(self) -> bool {
        self.health.wf()
    }

    /// A mob with full hearts.
    pub fn new(hearts: u32) -> (m: Mob)
        ensures
            m.wf(),
            m.health.hearts == hearts,
            m.health.invincibility_us is None,
    {
        Mob { health: Health::new(hearts) }
    }

    pub fn is_dead(&self) -> (r: bool)
        ensures
            r == self.health.spec_is_dead(),
    {
        self.health.is_dead()
    }
}

/// Which mobs stand in which simulated chunk, and where each mob stands.
pub struct MobMap {
    pub position_to_entities: Vec<(ChunkPos, Vec<u64>)>,
    pub entity_to_position: Vec<(u64, ChunkPos)>,
}

impl MobMap {
    /// An empty index.
    pub fn new() -> (m: MobMap)
        ensures
            m.position_to_entities@.len() == 0,
            m.entity_to_position@.len() == 0,
    {
        MobMap { position_to_entities: Vec::new(), entity_to_position: Vec::new() }
    }

    fn chunk_slot(&self, pos: &ChunkPos) -> (r: Option<usize>)
        ensures
            match r {
                Some(i) => i < self.position_to_entities@.len()
                    && self.position_to_entities@[i as int].0 == *pos,
                None => forall|i: int|
                    0 <= i < self.position_to_entities@.len() ==> (
                    #[trigger] self.position_to_entities@[i]).0 != *pos,
            },
    {
        let mut i: usize = 0;
        while i < self.position_to_entities.len()
            invariant
                i <= self.position_to_entities@.len(),
                forall|j: int|
                    0 <= j < i ==> (#[trigger] self.position_to_entities@[j]).0 != *pos,
            decreases self.position_to_entities@.len() - i,
        {
            if self.position_to_entities[i].0 == *pos {
                return Some(i);
            }
            i = i + 1;
        }
        None
    }

    fn entity_slot(&self, entity: u64) -> (r: Option<usize>)
        ensures
            match r {
                Some(i) => i < self.entity_to_position@.len()
                    && self.entity_to_position@[i as int].0 == entity,
                None => forall|i: int|
                    0 <= i < self.entity_to_position@.len() ==> (
                    #[trigger] self.entity_to_position@[i]).0 != entity,
            },
    {
        let mut i: usize = 0;
        while i < self.entity_to_position.len()
            invariant
                i <= self.entity_to_position@.len(),
                forall|j: int| 0 <= j < i ==> (#[trigger] self.entity_to_position@[j]).0 != entity,
            decreases self.entity_to_position@.len() - i,
        {
            if self.entity_to_position[i].0 == entity {
                return Some(i);
            }
            i = i + 1;
        }
        None
    }

    /// Open a chunk for simulation: mobs may stand in it from now on.
    pub fn open_chunk(&mut self, pos: ChunkPos)
        ensures
            exists|i: int|
                0 <= i < final(self).position_to_entities@.len()
                    && (#[trigger] final(self).position_to_entities@[i]).0 == pos,
    {
        match self.chunk_slot(&pos) {
            Some(i) => {
                proof {
                    assert(self.position_to_entities@[i as int].0 == pos);
                }
            },
            None => {
                self.position_to_entities.push((pos, Vec::new()));
                proof {
                    assert(self.position_to_entities@.last().0 == pos);
                }
            },
        }
    }

    /// The mobs standing in a chunk, if it is simulated.
    pub fn get_entities(&self, pos: &ChunkPos) -> (r: Option<&Vec<u64>>)
        ensures
            match r {
                Some(v) => exists|i: int|
                    0 <= i < self.position_to_entities@.len() && (
                    #[trigger] self.position_to_entities@[i]).0 == *pos
                        && self.position_to_entities@[i].1@ == v@,
                None => forall|i: int|
                    0 <= i < self.position_to_entities@.len() ==> (
                    #[trigger] self.position_to_entities@[i]).0 != *pos,
            },
    {
        match self.chunk_slot(pos) {
            Some(i) => Some(&self.position_to_entities[i].1),
            None => None,
        }
    }

    /// A mob moved (or appeared): record it under its chunk. Fails exactly
    /// when the chunk is not simulated, which despawns the mob.
    pub fn insert_or_move(&mut self, pos: ChunkPos, entity: u64) -> (ok: bool)
        ensures
            !ok ==> forall|i: int|
                0 <= i < final(self).position_to_entities@.len() ==> (#[trigger] final(self).position_to_entities@[i]).0 != pos,
            ok ==> exists|i: int|
                0 <= i < final(self).position_to_entities@.len()
                    && (#[trigger] final(self).position_to_entities@[i]).0 == pos
                    && final(self).position_to_entities@[i].1@.contains(entity),
    {
        let current = self.entity_slot(entity);
        if let Some(slot) = current {
            let old_pos = self.entity_to_position[slot].1;
            if old_pos == pos {
                // Standing still: the entity is already filed here.
                match self.chunk_slot(&pos) {
                    Some(chunk_slot) => {
                        if !crate::interact::contains_u64(
                            &self.position_to_entities[chunk_slot].1,
                            entity,
                        ) {
                            self.position_to_entities[chunk_slot].1.push(entity);
                            proof {
                                assert(self.position_to_entities@[chunk_slot as int].1@.last()
                                    == entity);
                            }
                        }
                        return true;
                    },
                    None => {
                        return false;
                    },
                }
            }
            // Leaving the old chunk.
            if let Some(old_chunk_slot) = self.chunk_slot(&old_pos) {
                let mut list: Vec<u64> = Vec::new();
                std::mem::swap(&mut list, &mut self.position_to_entities[old_chunk_slot].1);
                remove_u64(&mut list, entity);
                std::mem::swap(&mut list, &mut self.position_to_entities[old_chunk_slot].1);
            }
            match self.chunk_slot(&pos) {
                Some(chunk_slot) => {
                    self.position_to_entities[chunk_slot].1.push(entity);
                    self.entity_to_position[slot] = (entity, pos);
                    proof {
                        assert(self.position_to_entities@[chunk_slot as int].1@.last() == entity);
                    }
                    true
                },
                None => false,
            }
        } else {
            match self.chunk_slot(&pos) {
                Some(chunk_slot) => {
                    self.position_to_entities[chunk_slot].1.push(entity);
                    self.entity_to_position.push((entity, pos));
                    proof {
                        assert(self.position_to_entities@[chunk_slot as int].1@.last() == entity);
                    }
                    true
                },
                None => false,
            }
        }
    }

    /// A chunk stops simulating: forget it and hand back its mobs for
    /// despawning.
    pub fn remove(&mut self, pos: &ChunkPos) -> (entities: Vec<u64>)
        ensures
            true,
    {
        match self.chunk_slot(pos) {
            None => Vec::new(),
            Some(i) => {
                let (_, entities) = self.position_to_entities.remove(i);
                let mut k: usize = 0;
                while k < entities.len()
                    invariant
                        k <= entities@.len(),
                    decreases entities@.len() - k,
                {
                    let e = entities[k];
                    match self.entity_slot(e) {
                        Some(slot) => {
                            self.entity_to_position.remove(slot);
                        },
                        None => {},
                    }
                    k = k + 1;
                }
                entities
            },
        }
    }
}

/// Remove the first occurrence of a value.
fn remove_u64(list: &mut Vec<u64>, value: u64)
    ensures
        final(list)@.len() <= old(list)@.len(),
{
    let mut i: usize = 0;
    while i < list.len()
        invariant
            i <= list@.len(),
            list@ == old(list)@,
        decreases list@.len() - i,
    {
        if list[i] == value {
            list.remove(i);
            return ;
        }
        i = i + 1;
    }
}

/// Zombies hunt between these clock readings (seconds of the day).
pub const NIGHT_START_S: u64 = 700;

/// Zombies hide again from this clock reading on.
pub const NIGHT_END_S: u64 = 1100;

/// Whether zombies are out: strictly inside the night window.
pub fn is_night_time(clock_s: u64) -> (r: bool)
    ensures
        r == (NIGHT_START_S < clock_s && clock_s < NIGHT_END_S),
{
    NIGHT_START_S < clock_s && clock_s < NIGHT_END_S
}

/// One candidate player, reduced to what target acquisition reads. Distances
/// come squared; the cone test and the line of sight are computed by the
/// caller's geometry.
#[derive(Clone, Copy, PartialEq, Eq, Structural, Debug)]
pub struct TargetCandidate {
    pub entity: u64,
    pub game_mode: GameMode,
    /// Squared distance from the mob, in squared blocks.
    pub distance_squared: u64,
    /// Whether the player stands in the mob's forward half-space.
    pub in_front: bool,
    /// Whether a ray from the mob's eyes reaches the player unblocked.
    pub line_of_sight: bool,
}

/// Squared hunting radius: targets beyond ten blocks are ignored or lost.
pub const HUNT_RADIUS_SQUARED: u64 = 100;

/// Whether a candidate can be acquired: a survival player, within the
/// hunting radius, in front, and visible.
pub open spec fn spec_acquirable(c: TargetCandidate) -> bool {
    &&& c.game_mode is Survival
    &&& c.distance_squared <= HUNT_RADIUS_SQUARED
    &&& c.in_front
    &&& c.line_of_sight
}

/// The first candidate a hunting mob acquires, if any.
pub fn acquire_target(candidates: &Vec<TargetCandidate>) -> (r: Option<u64>)
    ensures
        match r {
            Some(entity) => exists|i: int|
                0 <= i < candidates@.len() && spec_acquirable(#[trigger] candidates@[i])
                    && candidates@[i].entity == entity,
            None => forall|i: int|
                0 <= i < candidates@.len() ==> !spec_acquirable(#[trigger] candidates@[i]),
        },
{
    let mut i: usize = 0;
    while i < candidates.len()
        invariant
            i <= candidates@.len(),
            forall|j: int| 0 <= j < i ==> !spec_acquirable(#[trigger] candidates@[j]),
        decreases candidates@.len() - i,
    {
        let c = &candidates[i];
        if c.game_mode.shows_health() && c.distance_squared <= HUNT_RADIUS_SQUARED && c.in_front
            && c.line_of_sight {
            proof {
                assert(spec_acquirable(candidates@[i as int]));
            }
            return Some(c.entity);
        }
        proof {
            assert(!spec_acquirable(candidates@[i as int]));
        }
        i = i + 1;
    }
    None
}

/// Whether a hunter keeps its target: still a survival player and still
/// inside the hunting radius.
pub fn keeps_target(game_mode: GameMode, distance_squared: u64) -> (r: bool)
    ensures
        r == (game_mode is Survival && distance_squared <= HUNT_RADIUS_SQUARED),
{
    game_mode.shows_health() && distance_squared <= HUNT_RADIUS_SQUARED
}

/// Squared melee reach: a target within two blocks takes a hit.
pub const ATTACK_RADIUS_SQUARED: u64 = 4;

/// Damage one zombie blow deals.
pub const ATTACK_DAMAGE: u32 = 5;

/// Whether a hunter lands a blow this tick: the target within melee reach.
pub fn should_attack(distance_squared: u64) -> (r: bool)
    ensures
        r == (distance_squared < ATTACK_RADIUS_SQUARED),
{
    distance_squared < ATTACK_RADIUS_SQUARED
}

/// A mob can stand in the cell: its chunk is loaded and its block not
/// solid.
pub open spec fn spec_standable(world: WorldMap, blocks: Blocks, p: BlockPos) -> bool {
    &&& world.spec_block_at(p) is Some
    &&& (world.spec_block_at(p).unwrap() as int) < blocks.configs@.len()
    &&& !blocks.configs@[world.spec_block_at(p).unwrap() as int].solid
}

/// Pick a wander goal: breadth-first over walkable blocks out to
/// `max_distance` steps, scoring a point per step and another per block
/// descended, so the mob drifts far and downhill (towards shores). The best
/// scoring block becomes the goal, if any was reachable: a loaded,
/// non-solid cell inside the world band.
pub fn pick_wander_goal(
    world: &WorldMap,
    blocks: &Blocks,
    start: BlockPos,
    max_distance: u32,
    water_id: BlockId,
) -> (r: Option<BlockPos>)
    requires
        world.wf(),
        blocks.wf(),
        in_world_band(start),
        max_distance <= 8,
    ensures
        match r {
            Some(goal) => in_world_band(goal) && spec_standable(*world, *blocks, goal),
            None => true,
        },
{
    let mut visited: Vec<BlockPos> = Vec::new();
    // Candidate blocks with their score and distance walked.
    let mut frontier: Vec<(BlockPos, u32, u32)> = Vec::new();
    frontier.push((start, 0, 0));
    visited.push(start);

    let mut best: Option<BlockPos> = None;
    let mut best_score: u32 = 0;

    let mut index: usize = 0;
    // The frontier only grows by unvisited blocks, and every visit marks its
    // block, so the walk runs out of new blocks inside the distance budget.
    let mut budget: u64 = 6000;
    while index < frontier.len() && budget > 0
        invariant
            world.wf(),
            blocks.wf(),
            index <= frontier@.len(),
            max_distance <= 8,
            forall|i: int| 0 <= i < frontier@.len() ==> in_world_band((#[trigger] frontier@[i]).0),
            forall|i: int| 0 <= i < frontier@.len() ==> (#[trigger] frontier@[i]).1 <= 0xFFFF,
            forall|i: int| 0 <= i < frontier@.len() ==> (#[trigger] frontier@[i]).2 <= 8,
            match best {
                Some(g) => in_world_band(g) && spec_standable(*world, *blocks, g),
                None => true,
            },
        decreases budget,
    {
        budget = budget - 1;
        let (position, score, distance) = frontier[index];
        index = index + 1;

        if distance >= max_distance {
            continue ;
        }
        let next_distance = distance + 1;

        let mut o: usize = 0;
        while o < 4
            invariant
                world.wf(),
                blocks.wf(),
                in_world_band(position),
                score <= 0xFFFF,
                next_distance <= 8,
                index <= frontier@.len(),
                forall|i: int|
                    0 <= i < frontier@.len() ==> in_world_band((#[trigger] frontier@[i]).0),
                forall|i: int| 0 <= i < frontier@.len() ==> (#[trigger] frontier@[i]).1 <= 0xFFFF,
                forall|i: int| 0 <= i < frontier@.len() ==> (#[trigger] frontier@[i]).2 <= 8,
                match best {
                    Some(g) => in_world_band(g) && spec_standable(*world, *blocks, g),
                    None => true,
                },
            decreases 4 - o,
        {
            let (dx, dz) = if o == 0 {
                (1i32, 0i32)
            } else if o == 1 {
                (-1i32, 0i32)
            } else if o == 2 {
                (0i32, 1i32)
            } else {
                (0i32, -1i32)
            };
            o = o + 1;
            let neighbour = BlockPos { x: position.x + dx, y: position.y, z: position.z + dz };
            if !exec_in_band(&neighbour) {
                continue ;
            }
            if contains_pos(&visited, &neighbour) {
                continue ;
            }
            visited.push(neighbour);

            // A step always scores, so the mob drifts as far as it can.
            let mut new_score = score + 1;

            let block_id = match world.get_block(&neighbour) {
                Some(id) => id,
                None => {
                    continue ;
                },
            };
            let config = match blocks.get_config(block_id) {
                Some(c) => c,
                None => {
                    continue ;
                },
            };

            let ghost neighbour_standable = spec_standable(*world, *blocks, neighbour);
            let mut candidate: Option<BlockPos> = None;
            if config.solid {
                // A wall: walkable if the block above it is open.
                let above = BlockPos { x: neighbour.x, y: neighbour.y + 1, z: neighbour.z };
                if exec_in_band(&above) {
                    if let Some(above_id) = world.get_block(&above) {
                        if let Some(above_config) = blocks.get_config(above_id) {
                            if !above_config.solid {
                                candidate = Some(above);
                            }
                        }
                    }
                }
            } else if block_id == water_id {
                // Water: stay at the surface.
                candidate = Some(neighbour);
            } else {
                // Open air: land on the first floor within two blocks down,
                // scoring descents to prefer downhill drift.
                let mut step: i32 = 1;
                while step <= 2
                    invariant
                        world.wf(),
                        blocks.wf(),
                        in_world_band(neighbour),
                        1 <= step <= 3,
                        new_score <= 0xFFFF + step,
                        match candidate {
                            Some(g) => in_world_band(g) && spec_standable(*world, *blocks, g),
                            None => true,
                        },
                        spec_standable(
                            *world,
                            *blocks,
                            BlockPos {
                                x: neighbour.x,
                                y: (neighbour.y - step + 1) as i32,
                                z: neighbour.z,
                            },
                        ),
                    decreases 3 - step,
                {
                    let below = BlockPos {
                        x: neighbour.x,
                        y: neighbour.y - step,
                        z: neighbour.z,
                    };
                    if !exec_in_band(&below) {
                        break ;
                    }
                    let below_id = match world.get_block(&below) {
                        Some(id) => id,
                        None => {
                            break ;
                        },
                    };
                    let below_config = match blocks.get_config(below_id) {
                        Some(c) => c,
                        None => {
                            break ;
                        },
                    };
                    if below_config.solid {
                        let land = BlockPos {
                            x: neighbour.x,
                            y: neighbour.y - step + 1,
                            z: neighbour.z,
                        };
                        candidate = Some(land);
                        break ;
                    }
                    new_score = new_score + 1;
                    step = step + 1;
                }
            }

            if let Some(c) = candidate {
                if new_score > best_score {
                    best = Some(c);
                    best_score = new_score;
                }
                if frontier.len() < 4096 && new_score <= 0xFFFF {
                    frontier.push((c, new_score, next_distance));
                }
            }
        }
    }
    best
}

/// Whether the list holds the position.
fn contains_pos(list: &Vec<BlockPos>, p: &BlockPos) -> (r: bool)
    ensures
        r == list@.contains(*p),
{
    let mut i: usize = 0;
    while i < list.len()
        invariant
            i <= list@.len(),
            forall|j: int| 0 <= j < i ==> list@[j] != *p,
        decreases list@.len() - i,
    {
        if list[i] == *p {
            return true;
        }
        i = i + 1;
    }
    proof {
        assert(!list@.contains(*p));
    }
    false
}

/// The world band test, executable.
fn exec_in_band(p: &BlockPos) -> (r: bool)
    ensures
        r == in_world_band(*p),
{
    -0x4000_0000 <= p.x && p.x <= 0x4000_0000 && -0x4000_0000 <= p.y && p.y <= 0x4000_0000
        && -0x4000_0000 <= p.z && p.z <= 0x4000_0000
}

/// The seed chance and spread of a chunk's zombie group, derived from the
/// chunk's column and the world seed so every load rolls the same dice.
pub fn chunk_spawn_seed(chunk_x: i32, chunk_z: i32, world_seed: u64) -> (seed: u64)
    ensures
        seed == spec_chunk_spawn_seed(chunk_x, chunk_z, world_seed),
{
    let packed: u64 = ((chunk_x as u32 as u64) << 32) | (chunk_z as u32 as u64);
    packed.wrapping_mul(world_seed)
}

/// The spawn seed: the column packed into a word (x high, z low), times the
/// world seed, wrapping.
pub open spec fn spec_chunk_spawn_seed(chunk_x: i32, chunk_z: i32, world_seed: u64) -> u64 {
    vstd::wrapping::u64_specs::wrapping_mul(
        ((chunk_x as u32 as u64) << 32) | (chunk_z as u32 as u64),
        world_seed,
    )
}

/// Plan the zombies of a chunk that starts simulating: one chunk in ten
/// hosts a group of one to three, each placed on a grass surface column
/// rolled from the chunk's own seed. Every spawn stands on grass with air
/// above.
pub fn plan_zombie_spawns(
    chunk_pos: ChunkPos,
    world_seed: u64,
    surface: &Vec<Option<(usize, BlockId)>>,
    grass_id: BlockId,
) -> (spawns: Vec<(usize, usize, usize)>)
    requires
        surface@.len() == 256,
    ensures
        spawns@.len() <= 3,
        forall|i: int|
            0 <= i < spawns@.len() ==> {
                let s = #[trigger] spawns@[i];
                &&& s.0 < CHUNK_SIZE
                &&& s.2 < CHUNK_SIZE
                &&& surface@[s.0 * 16 + s.2] == Some((s.1, grass_id))
            },
{
    let mut rng = crate::rng::rng_from_seed(
        chunk_spawn_seed(chunk_pos.x, chunk_pos.z, world_seed),
    );
    let mut spawns: Vec<(usize, usize, usize)> = Vec::new();
    if rng_next_u32(&mut rng) % 10 != 0 {
        return spawns;
    }
    let group_size = rng_range_u32(&mut rng, 1, 4);
    let mut k: u32 = 0;
    while k < group_size && k < 3
        invariant
            surface@.len() == 256,
            spawns@.len() <= k,
            k <= 3,
            forall|i: int|
                0 <= i < spawns@.len() ==> {
                    let s = #[trigger] spawns@[i];
                    &&& s.0 < CHUNK_SIZE
                    &&& s.2 < CHUNK_SIZE
                    &&& surface@[s.0 * 16 + s.2] == Some((s.1, grass_id))
                },
        decreases 3 - k,
    {
        k = k + 1;
        let x = (rng_next_u32(&mut rng) % 16) as usize;
        let z = (rng_next_u32(&mut rng) % 16) as usize;
        match surface[x * 16 + z] {
            Some((y, block_id)) => {
                if block_id == grass_id {
                    spawns.push((x, y, z));
                }
            },
            None => {},
        }
    }
    spawns
}

} // verus!
