//! Click handling: mining target selection, the prioritized right-click
//! order (interact, then place, then use), block placement rules, and the
//! item-use rules for food, hoes and seeds.

use vstd::prelude::*;
use crate::block::{BlockFace, BlockId, Blocks, BlockState, Rotation};
use crate::items::{Inventory, ItemId, ItemStack};
use crate::world::{in_lookup_band, in_world_band, BlockPos, WorldMap};

verus! {

/// Everything the rules need to know about a kind of item.
#[derive(Clone, Debug)]
pub struct ItemConfig {
    /// The block this item places, if any.
    pub block: Option<BlockId>,
    /// Mining speed multiplier in thousandths (one thousand is bare-handed).
    pub tool_efficiency_milli: u32,
    /// Damage dealt when hitting a mob with the item held.
    pub damage: u32,
    /// The model shown when the item lies in the world.
    pub model_id: u32,
    /// Microseconds of furnace heat one unit of this item burns for, if it
    /// is a fuel.
    pub fuel_us: Option<u64>,
}

/// The item configuration table: one config and one name per item id.
#[derive(Clone, Debug)]
pub struct Items {
    pub configs: Vec<ItemConfig>,
    pub names: Vec<String>,
}

impl Items {
    pub open spec fn wf(self) -> bool {
        &&& self.configs@.len() == self.names@.len()
        &&& self.configs@.len() <= 0xFFFF_FFFF
    }

    /// An empty table.
    pub fn new() -> (r: Items)
        ensures
            r.wf(),
            r.configs@.len() == 0,
    {
        Items { configs: Vec::new(), names: Vec::new() }
    }

    /// Register an item kind under a name; its id is its position.
    pub fn insert(&mut self, name: String, config: ItemConfig) -> (id: Option<ItemId>)
        requires
            old(self).wf(),
        ensures
            final(self).wf(),
            match id {
                Some(i) => {
                    &&& i == old(self).configs@.len()
                    &&& final(self).configs@ == old(self).configs@.push(config)
                    &&& final(self).names@ == old(self).names@.push(name)
                },
                None => old(self).configs@.len() == 0xFFFF_FFFF && *final(self) == *old(self),
            },
    {
        if self.configs.len() == 0xFFFF_FFFF {
            return None;
        }
        let id = self.configs.len() as u32;
        self.configs.push(config);
        self.names.push(name);
        Some(id)
    }

    /// The id registered under a name, if any.
    pub fn get_id(&self, name: &String) -> (r: Option<ItemId>)
        requires
            self.wf(),
        ensures
            match r {
                Some(id) => (id as int) < self.names@.len() && self.names@[id as int]@ == name@,
                None => forall|i: int| 0 <= i < self.names@.len() ==> self.names@[i]@ != name@,
            },
    {
        let mut i: usize = 0;
        while i < self.names.len()
            invariant
                self.wf(),
                i <= self.names@.len(),
                forall|j: int| 0 <= j < i ==> self.names@[j]@ != name@,
            decreases self.names@.len() - i,
        {
            if self.names[i] == *name {
                return Some(i as u32);
            }
            i = i + 1;
        }
        None
    }

    /// The config of an item id.
    pub fn get_config(&self, id: ItemId) -> (r: Option<&ItemConfig>)
        requires
            self.wf(),
        ensures
            match r {
                Some(c) => (id as int) < self.configs@.len() && *c == self.configs@[id as int],
                None => (id as int) >= self.configs@.len(),
            },
    {
        if (id as usize) < self.configs.len() {
            Some(&self.configs[id as usize])
        } else {
            None
        }
    }
}

impl BlockFace {
    /// The neighbouring position on the other side of this face.
    pub open spec fn spec_shift(self, p: BlockPos) -> BlockPos {
        match self {
            BlockFace::Front => BlockPos { x: p.x, y: p.y, z: (p.z + 1) as i32 },
            BlockFace::Back => BlockPos { x: p.x, y: p.y, z: (p.z - 1) as i32 },
            BlockFace::Right => BlockPos { x: (p.x + 1) as i32, y: p.y, z: p.z },
            BlockFace::Left => BlockPos { x: (p.x - 1) as i32, y: p.y, z: p.z },
            BlockFace::Top => BlockPos { x: p.x, y: (p.y + 1) as i32, z: p.z },
            BlockFace::Bottom => BlockPos { x: p.x, y: (p.y - 1) as i32, z: p.z },
        }
    }

    /// The neighbouring position on the other side of this face.
    pub fn shift_position(self, p: &BlockPos) -> (r: BlockPos)
        requires
            in_world_band(*p),
        ensures
            r == self.spec_shift(*p),
            in_lookup_band(r),
    {
        match self {
            BlockFace::Front => BlockPos { x: p.x, y: p.y, z: p.z + 1 },
            BlockFace::Back => BlockPos { x: p.x, y: p.y, z: p.z - 1 },
            BlockFace::Right => BlockPos { x: p.x + 1, y: p.y, z: p.z },
            BlockFace::Left => BlockPos { x: p.x - 1, y: p.y, z: p.z },
            BlockFace::Top => BlockPos { x: p.x, y: p.y + 1, z: p.z },
            BlockFace::Bottom => BlockPos { x: p.x, y: p.y - 1, z: p.z },
        }
    }
}

/// What a player's crosshair ray hit, nearest first.
#[derive(Clone, Copy, PartialEq, Eq, Structural, Debug)]
pub enum Target {
    /// A block, with the entity bound to it if one exists (a chest, a door).
    Block { position: BlockPos, block_id: BlockId, face: BlockFace, entity: Option<u64> },
    /// A free-standing entity (a mob, a dropped item).
    Entity { entity: u64 },
}

impl Target {
    /// The entity this target offers for interaction, if any.
    pub open spec fn spec_entity(self) -> Option<u64> {
        match self {
            Target::Block { entity, .. } => entity,
            Target::Entity { entity } => Some(entity),
        }
    }
}

/// Whether a block target's id satisfies: the block exists and is breakable.
pub open spec fn spec_is_breakable_target(t: Target, blocks: Blocks) -> bool {
    match t {
        Target::Block { block_id, .. } => (block_id as int) < blocks.configs@.len()
            && blocks.configs@[block_id as int].hardness_us is Some,
        Target::Entity { .. } => false,
    }
}

/// The first target whose block can be mined, scanning nearest first.
pub open spec fn spec_first_breakable(ts: Seq<Target>, blocks: Blocks) -> Option<Target>
    decreases ts.len(),
{
    if ts.len() == 0 {
        None
    } else if spec_is_breakable_target(ts[0], blocks) {
        Some(ts[0])
    } else {
        spec_first_breakable(ts.skip(1), blocks)
    }
}

proof fn lemma_first_breakable_at(ts: Seq<Target>, blocks: Blocks, i: int)
    requires
        0 <= i < ts.len(),
        spec_is_breakable_target(ts[i], blocks),
        forall|j: int| 0 <= j < i ==> !spec_is_breakable_target(#[trigger] ts[j], blocks),
    ensures
        spec_first_breakable(ts, blocks) == Some(ts[i]),
    decreases i,
{
    if i > 0 {
        assert(forall|j: int|
            0 <= j < i - 1 ==> !spec_is_breakable_target(#[trigger] ts.skip(1)[j], blocks));
        assert(ts.skip(1)[i - 1] == ts[i]);
        lemma_first_breakable_at(ts.skip(1), blocks, i - 1);
    }
}

/// A found first breakable target is one of the targets.
proof fn lemma_first_breakable_member(ts: Seq<Target>, blocks: Blocks)
    ensures
        match spec_first_breakable(ts, blocks) {
            Some(t) => exists|i: int| 0 <= i < ts.len() && #[trigger] ts[i] == t,
            None => true,
        },
    decreases ts.len(),
{
    if ts.len() > 0 && !spec_is_breakable_target(ts[0], blocks) {
        lemma_first_breakable_member(ts.skip(1), blocks);
        match spec_first_breakable(ts.skip(1), blocks) {
            Some(t) => {
                let i = choose|i: int| 0 <= i < ts.skip(1).len() && #[trigger] ts.skip(1)[i] == t;
                assert(ts[i + 1] == t);
            },
            None => {},
        }
    }
}

proof fn lemma_first_breakable_none(ts: Seq<Target>, blocks: Blocks)
    requires
        forall|j: int| 0 <= j < ts.len() ==> !spec_is_breakable_target(#[trigger] ts[j], blocks),
    ensures
        spec_first_breakable(ts, blocks) is None,
    decreases ts.len(),
{
    if ts.len() > 0 {
        assert(forall|j: int|
            0 <= j < ts.skip(1).len() ==> !spec_is_breakable_target(
                #[trigger] ts.skip(1)[j],
                blocks,
            ));
        lemma_first_breakable_none(ts.skip(1), blocks);
    }
}

/// The first targeted block whose kind can be mined: what a left click
/// starts breaking and what a right click places against.
pub fn first_breakable_target(targets: &Vec<Target>, blocks: &Blocks) -> (r: Option<Target>)
    requires
        blocks.wf(),
    ensures
        r == spec_first_breakable(targets@, *blocks),
{
    let mut i: usize = 0;
    while i < targets.len()
        invariant
            blocks.wf(),
            i <= targets@.len(),
            forall|j: int|
                0 <= j < i ==> !spec_is_breakable_target(#[trigger] targets@[j], *blocks),
        decreases targets@.len() - i,
    {
        let t = targets[i];
        if let Target::Block { block_id, .. } = t {
            if let Some(config) = blocks.get_config(block_id) {
                if config.is_breakable() {
                    proof {
                        lemma_first_breakable_at(targets@, *blocks, i as int);
                    }
                    return Some(t);
                }
            }
        }
        proof {
            assert(!spec_is_breakable_target(targets@[i as int], *blocks));
        }
        i = i + 1;
    }
    proof {
        lemma_first_breakable_none(targets@, *blocks);
    }
    None
}

/// Where a placement lands and what it places, if it is legal.
///
/// The held item must be bound to a block, that block must accept the face,
/// and the target must be solid. The new block replaces the target when the
/// target is replaceable (grass); otherwise it lands on the face-adjacent
/// cell if that cell is loaded and replaceable.
pub open spec fn spec_block_placement(
    held: ItemStack,
    block_id: BlockId,
    face: BlockFace,
    position: BlockPos,
    items: Items,
    blocks: Blocks,
    world: WorldMap,
) -> Option<(BlockId, BlockPos)> {
    if block_id as int >= blocks.configs@.len() || !blocks.configs@[block_id as int].solid {
        None
    } else if held.item is None || held.item.unwrap() as int >= items.configs@.len() {
        None
    } else {
        match items.configs@[held.item.unwrap() as int].block {
            None => None,
            Some(new_block_id) => {
                if new_block_id as int >= blocks.configs@.len() {
                    None
                } else if !blocks.configs@[new_block_id as int].placeable_faces@.contains(face) {
                    None
                } else if blocks.configs@[block_id as int].replaceable {
                    Some((new_block_id, position))
                } else {
                    let shifted = face.spec_shift(position);
                    match world.spec_block_at(shifted) {
                        None => None,
                        Some(neighbour) => {
                            if (neighbour as int) < blocks.configs@.len()
                                && blocks.configs@[neighbour as int].replaceable {
                                Some((new_block_id, shifted))
                            } else {
                                None
                            }
                        },
                    }
                }
            },
        }
    }
}

/// Decide a block placement; see `spec_block_placement` for the rule.
pub fn block_placement(
    held: &ItemStack,
    block_id: BlockId,
    face: BlockFace,
    position: BlockPos,
    items: &Items,
    blocks: &Blocks,
    world: &WorldMap,
) -> (r: Option<(BlockId, BlockPos)>)
    requires
        items.wf(),
        blocks.wf(),
        world.wf(),
        in_world_band(position),
    ensures
        r == spec_block_placement(*held, block_id, face, position, *items, *blocks, *world),
{
    let against = match blocks.get_config(block_id) {
        Some(c) => c,
        None => return None,
    };
    if !against.solid {
        return None;
    }
    let item = match held.item {
        Some(item) => item,
        None => return None,
    };
    let item_config = match items.get_config(item) {
        Some(c) => c,
        None => return None,
    };
    let new_block_id = match item_config.block {
        Some(id) => id,
        None => return None,
    };
    let new_config = match blocks.get_config(new_block_id) {
        Some(c) => c,
        None => return None,
    };
    if !new_config.is_placeable(face) {
        return None;
    }
    if against.replaceable {
        return Some((new_block_id, position));
    }
    let shifted = face.shift_position(&position);
    let neighbour = match world.get_block(&shifted) {
        Some(id) => id,
        None => return None,
    };
    let neighbour_config = match blocks.get_config(neighbour) {
        Some(c) => c,
        None => return None,
    };
    if neighbour_config.replaceable {
        Some((new_block_id, shifted))
    } else {
        None
    }
}

/// What one right click does, in priority order.
#[derive(Clone, Copy, PartialEq, Eq, Structural, Debug)]
pub enum RightClickAction {
    /// Push the player onto a targeted entity's interaction queue.
    Interact { entity: u64 },
    /// Place a block: `block_id` lands at `position`.
    Place { block_id: BlockId, position: BlockPos },
    /// Use the held item through its registered handler.
    UseItem { item: ItemId },
    /// Nothing to do.
    Nothing,
}

/// Whether a target offers an entity that accepts hand interactions.
pub open spec fn spec_is_interactable(t: Target, interactable: Seq<u64>) -> bool {
    t.spec_entity() is Some && interactable.contains(t.spec_entity().unwrap())
}

/// Whether some target offers an interaction.
pub open spec fn spec_any_interactable(ts: Seq<Target>, interactable: Seq<u64>) -> bool {
    exists|i: int| 0 <= i < ts.len() && spec_is_interactable(#[trigger] ts[i], interactable)
}

/// What placing against the first breakable target would do, if anything.
pub open spec fn spec_targeted_placement(
    ts: Seq<Target>,
    held: ItemStack,
    items: Items,
    blocks: Blocks,
    world: WorldMap,
) -> Option<(BlockId, BlockPos)> {
    match spec_first_breakable(ts, blocks) {
        Some(Target::Block { position, block_id, face, .. }) => spec_block_placement(
            held,
            block_id,
            face,
            position,
            items,
            blocks,
            world,
        ),
        _ => None,
    }
}

/// Decide a right click: interacting with a targeted entity wins, then
/// placing the held block against the first breakable target, then using
/// the held item; an empty hand with nothing targeted does nothing.
///
/// `interactable` lists the entities that accept hand interactions.
pub fn right_click_action(
    targets: &Vec<Target>,
    interactable: &Vec<u64>,
    held: &ItemStack,
    items: &Items,
    blocks: &Blocks,
    world: &WorldMap,
) -> (action: RightClickAction)
    requires
        items.wf(),
        blocks.wf(),
        world.wf(),
        forall|i: int|
            0 <= i < targets@.len() ==> match #[trigger] targets@[i] {
                Target::Block { position, .. } => in_world_band(position),
                Target::Entity { .. } => true,
            },
    ensures
        match action {
            RightClickAction::Interact { entity } => spec_any_interactable(
                targets@,
                interactable@,
            ) && exists|i: int|
                0 <= i < targets@.len() && (#[trigger] targets@[i]).spec_entity() == Some(entity)
                    && interactable@.contains(entity),
            RightClickAction::Place { block_id, position } => !spec_any_interactable(
                targets@,
                interactable@,
            ) && spec_targeted_placement(targets@, *held, *items, *blocks, *world) == Some(
                (block_id, position),
            ),
            RightClickAction::UseItem { item } => {
                &&& held.item == Some(item)
                &&& !spec_any_interactable(targets@, interactable@)
                &&& spec_targeted_placement(targets@, *held, *items, *blocks, *world) is None
            },
            RightClickAction::Nothing => {
                &&& held.item is None
                &&& !spec_any_interactable(targets@, interactable@)
                &&& spec_targeted_placement(targets@, *held, *items, *blocks, *world) is None
            },
        },
{
    // Interact: the first target whose entity accepts hand interactions.
    let mut i: usize = 0;
    while i < targets.len()
        invariant
            i <= targets@.len(),
            forall|j: int|
                0 <= j < i ==> !spec_is_interactable(#[trigger] targets@[j], interactable@),
        decreases targets@.len() - i,
    {
        let entity = match targets[i] {
            Target::Block { entity, .. } => entity,
            Target::Entity { entity } => Some(entity),
        };
        if let Some(entity) = entity {
            if contains_u64(interactable, entity) {
                proof {
                    assert(targets@[i as int].spec_entity() == Some(entity));
                }
                return RightClickAction::Interact { entity };
            }
        }
        proof {
            assert(!spec_is_interactable(targets@[i as int], interactable@));
        }
        i = i + 1;
    }

    // Place: against the first breakable (so air and water never anchor a
    // placement).
    proof {
        lemma_first_breakable_member(targets@, *blocks);
    }
    if let Some(Target::Block { position, block_id, face, .. }) = first_breakable_target(
        targets,
        blocks,
    ) {
        if let Some((new_block_id, placed_at)) = block_placement(
            held,
            block_id,
            face,
            position,
            items,
            blocks,
            world,
        ) {
            return RightClickAction::Place { block_id: new_block_id, position: placed_at };
        }
    }

    // Use the held item, if there is one.
    match held.item {
        Some(item) => RightClickAction::UseItem { item },
        None => RightClickAction::Nothing,
    }
}

/// Whether the list holds the id.
pub fn contains_u64(ids: &Vec<u64>, id: u64) -> (r: bool)
    ensures
        r == ids@.contains(id),
{
    let mut i: usize = 0;
    while i < ids.len()
        invariant
            i <= ids@.len(),
            forall|j: int| 0 <= j < i ==> ids@[j] != id,
        decreases ids@.len() - i,
    {
        if ids[i] == id {
            return true;
        }
        i = i + 1;
    }
    proof {
        assert(!ids@.contains(id));
    }
    false
}

/// Handler entities of usable items: using a registered item pushes the user
/// onto its handler's queue.
#[derive(Clone, Debug)]
pub struct ItemRegistry {
    pub handlers: Vec<(ItemId, u64)>,
}

impl ItemRegistry {
    pub fn new() -> (r: ItemRegistry)
        ensures
            r.handlers@.len() == 0,
    {
        ItemRegistry { handlers: Vec::new() }
    }

    /// Register a handler entity for an item.
    pub fn insert(&mut self, item_id: ItemId, handler_entity: u64)
        ensures
            final(self).handlers@ == old(self).handlers@.push((item_id, handler_entity)),
    {
        self.handlers.push((item_id, handler_entity));
    }

    /// The handler registered for an item, if any.
    pub fn get(&self, item_id: ItemId) -> (r: Option<u64>)
        ensures
            match r {
                Some(e) => exists|i: int|
                    0 <= i < self.handlers@.len() && #[trigger] self.handlers@[i] == (item_id, e),
                None => forall|i: int|
                    0 <= i < self.handlers@.len() ==> (#[trigger] self.handlers@[i]).0 != item_id,
            },
    {
        let mut i: usize = 0;
        while i < self.handlers.len()
            invariant
                i <= self.handlers@.len(),
                forall|j: int| 0 <= j < i ==> (#[trigger] self.handlers@[j]).0 != item_id,
            decreases self.handlers@.len() - i,
        {
            if self.handlers[i].0 == item_id {
                return Some(self.handlers[i].1);
            }
            i = i + 1;
        }
        None
    }
}

/// Hearts restored by eating bread.
pub const BREAD_HEALING: u32 = 8;

/// Eat from the held stack: one item leaves the hand and the eater is owed
/// the bread healing.
pub fn eat_bread(inventory: &mut Inventory) -> (healing: u32)
    requires
        old(inventory).wf(),
    ensures
        final(inventory).wf(),
        healing == BREAD_HEALING,
        final(inventory).equipped == old(inventory).equipped,
        final(inventory).slots@.len() == old(inventory).slots@.len(),
        ({
            let e = old(inventory).equipped as int;
            let before = old(inventory).slots@[e];
            let after = final(inventory).slots@[e];
            &&& after.size == if before.size > 0 {
                before.size - 1
            } else {
                0int
            }
            &&& forall|i: int|
                0 <= i < old(inventory).slots@.len() && i != e ==> final(inventory).slots@[i]
                    == old(inventory).slots@[i]
        }),
{
    let e = inventory.equipped;
    let mut held = inventory.slots[e];
    held.take(1);
    inventory.slots[e] = held;
    BREAD_HEALING
}

/// What a hoe use does to the world.
#[derive(Clone, Copy, PartialEq, Eq, Structural, Debug)]
pub struct HoeUse {
    /// The dirt or grass block turned into soil.
    pub position: BlockPos,
    /// Whether the block was grass, which also drops wheat seeds.
    pub drops_seeds: bool,
}

/// Whether a target is a block of one of two kinds.
pub open spec fn spec_is_block_of(t: Target, a: BlockId, b: BlockId) -> bool {
    match t {
        Target::Block { block_id, .. } => block_id == a || block_id == b,
        Target::Entity { .. } => false,
    }
}

/// Use a hoe: the first targeted dirt or grass block becomes soil; grass
/// also drops wheat seeds.
pub fn use_hoe(targets: &Vec<Target>, dirt: BlockId, grass: BlockId) -> (r: Option<HoeUse>)
    ensures
        match r {
            Some(hoe_use) => exists|i: int|
                0 <= i < targets@.len() && ((#[trigger] targets@[i]) matches Target::Block {
                    position,
                    block_id,
                    ..
                } && position == hoe_use.position && (block_id == dirt || block_id == grass)
                    && hoe_use.drops_seeds == (block_id == grass)),
            None => forall|i: int|
                0 <= i < targets@.len() ==> !spec_is_block_of(#[trigger] targets@[i], dirt, grass),
        },
{
    let mut i: usize = 0;
    while i < targets.len()
        invariant
            i <= targets@.len(),
            forall|j: int| 0 <= j < i ==> !spec_is_block_of(#[trigger] targets@[j], dirt, grass),
        decreases targets@.len() - i,
    {
        if let Target::Block { position, block_id, .. } = targets[i] {
            if block_id == dirt || block_id == grass {
                return Some(HoeUse { position, drops_seeds: block_id == grass });
            }
        }
        proof {
            assert(!spec_is_block_of(targets@[i as int], dirt, grass));
        }
        i = i + 1;
    }
    None
}

/// Whether a target is a block of one kind.
pub open spec fn spec_is_block(t: Target, id: BlockId) -> bool {
    match t {
        Target::Block { block_id, .. } => block_id == id,
        Target::Entity { .. } => false,
    }
}

/// Use seeds: wheat sprouts above the first targeted soil block whose cell
/// above is loaded air.
pub fn use_seeds(targets: &Vec<Target>, world: &WorldMap, soil: BlockId, air: BlockId) -> (r:
    Option<BlockPos>)
    requires
        world.wf(),
        forall|i: int|
            0 <= i < targets@.len() ==> match #[trigger] targets@[i] {
                Target::Block { position, .. } => in_world_band(position),
                Target::Entity { .. } => true,
            },
    ensures
        match r {
            Some(p) => world.spec_block_at(p) == Some(air) && exists|i: int|
                0 <= i < targets@.len() && ((#[trigger] targets@[i]) matches Target::Block {
                    position,
                    block_id,
                    ..
                } && block_id == soil && p == BlockFace::Top.spec_shift(position)),
            None => true,
        },
{
    let mut i: usize = 0;
    while i < targets.len()
        invariant
            world.wf(),
            i <= targets@.len(),
            forall|k: int|
                0 <= k < targets@.len() ==> match #[trigger] targets@[k] {
                    Target::Block { position, .. } => in_world_band(position),
                    Target::Entity { .. } => true,
                },
        decreases targets@.len() - i,
    {
        if let Target::Block { position, block_id, .. } = targets[i] {
            if block_id == soil {
                let above = BlockFace::Top.shift_position(&position);
                match world.get_block(&above) {
                    Some(above_id) if above_id == air => {
                        return Some(above);
                    },
                    _ => {
                        return None;
                    },
                }
            }
        }
        i = i + 1;
    }
    None
}

/// A player's mode of play.
#[derive(Clone, Copy, PartialEq, Eq, Structural, Debug)]
pub enum GameMode {
    Survival,
    Creative,
    Spectator,
}

impl GameMode {
    /// The code the movement plugin is told.
    pub fn code(self) -> (r: u32)
        ensures
            r == match self {
                GameMode::Survival => 0u32,
                GameMode::Creative => 1u32,
                GameMode::Spectator => 2u32,
            },
    {
        match self {
            GameMode::Survival => 0,
            GameMode::Creative => 1,
            GameMode::Spectator => 2,
        }
    }

    /// The mode a settings-button selection stands for; an unknown selection
    /// changes nothing.
    pub fn from_selection(selected: u32) -> (r: Option<GameMode>)
        ensures
            r == match selected {
                0u32 => Some(GameMode::Survival),
                1u32 => Some(GameMode::Creative),
                2u32 => Some(GameMode::Spectator),
                _ => None::<GameMode>,
            },
    {
        if selected == 0 {
            Some(GameMode::Survival)
        } else if selected == 1 {
            Some(GameMode::Creative)
        } else if selected == 2 {
            Some(GameMode::Spectator)
        } else {
            None
        }
    }

    /// Whether the health bar shows in this mode.
    pub fn shows_health(self) -> (r: bool)
        ensures
            r == (self is Survival),
    {
        match self {
            GameMode::Survival => true,
            GameMode::Creative => false,
            GameMode::Spectator => false,
        }
    }
}

/// A changed block's loaded neighbours, paired with their states: what the
/// fragile-attachment rule inspects.
pub struct NeighbourChange {
    pub position: BlockPos,
    pub right: Option<(BlockId, Option<BlockState>)>,
    pub left: Option<(BlockId, Option<BlockState>)>,
    pub front: Option<(BlockId, Option<BlockState>)>,
    pub back: Option<(BlockId, Option<BlockState>)>,
    pub top: Option<(BlockId, Option<BlockState>)>,
}

/// Whether a neighbouring torch was attached to the changed block: it is a
/// torch whose stored rotation points back at the change. A torch above
/// (standing on the block) carries no rotation.
pub open spec fn spec_torch_attached(
    neighbour: Option<(BlockId, Option<BlockState>)>,
    torch: BlockId,
    expected: Option<Rotation>,
) -> bool {
    match neighbour {
        None => false,
        Some((id, state)) => id == torch && match state {
            None => false,
            Some(s) => match expected {
                Some(rot) => !s.spec_rotation_disabled() && s.spec_rotation() == rot,
                None => s.spec_rotation_disabled(),
            },
        },
    }
}

/// Check one neighbour for a torch that loses its support.
fn torch_attached(
    neighbour: &Option<(BlockId, Option<BlockState>)>,
    torch: BlockId,
    expected: Option<Rotation>,
) -> (r: bool)
    ensures
        r == spec_torch_attached(*neighbour, torch, expected),
{
    match neighbour {
        None => false,
        Some((id, state)) => {
            if *id != torch {
                return false;
            }
            match state {
                None => false,
                Some(s) => {
                    let disabled = s.0 & crate::block::ROTATION_DISABLED_BIT != 0;
                    match expected {
                        Some(rot) => !disabled && s.rotation() == rot,
                        None => disabled,
                    }
                },
            }
        },
    }
}

/// Where torches broke off a changed block, one slot per side.
#[derive(Clone, Copy, PartialEq, Eq, Structural, Debug)]
pub struct FragileBreaks {
    pub right: Option<BlockPos>,
    pub left: Option<BlockPos>,
    pub front: Option<BlockPos>,
    pub back: Option<BlockPos>,
    pub top: Option<BlockPos>,
}

/// Torches attached to a changed block break off: each side reports the
/// position of a neighbouring torch that pointed at the change, ready to be
/// replaced with air and dropped.
pub fn fragile_break_positions(change: &NeighbourChange, torch: BlockId) -> (r: FragileBreaks)
    requires
        in_world_band(change.position),
    ensures
        ({
            let p = change.position;
            &&& r.right == if spec_torch_attached(change.right, torch, Some(Rotation::East)) {
                Some(BlockFace::Right.spec_shift(p))
            } else {
                None::<BlockPos>
            }
            &&& r.left == if spec_torch_attached(change.left, torch, Some(Rotation::West)) {
                Some(BlockFace::Left.spec_shift(p))
            } else {
                None::<BlockPos>
            }
            &&& r.front == if spec_torch_attached(change.front, torch, Some(Rotation::North)) {
                Some(BlockFace::Front.spec_shift(p))
            } else {
                None::<BlockPos>
            }
            &&& r.back == if spec_torch_attached(change.back, torch, Some(Rotation::South)) {
                Some(BlockFace::Back.spec_shift(p))
            } else {
                None::<BlockPos>
            }
            &&& r.top == if spec_torch_attached(change.top, torch, None) {
                Some(BlockFace::Top.spec_shift(p))
            } else {
                None::<BlockPos>
            }
        }),
{
    let p = change.position;
    FragileBreaks {
        right: if torch_attached(&change.right, torch, Some(Rotation::East)) {
            Some(BlockFace::Right.shift_position(&p))
        } else {
            None
        },
        left: if torch_attached(&change.left, torch, Some(Rotation::West)) {
            Some(BlockFace::Left.shift_position(&p))
        } else {
            None
        },
        front: if torch_attached(&change.front, torch, Some(Rotation::North)) {
            Some(BlockFace::Front.shift_position(&p))
        } else {
            None
        },
        back: if torch_attached(&change.back, torch, Some(Rotation::South)) {
            Some(BlockFace::Back.shift_position(&p))
        } else {
            None
        },
        top: if torch_attached(&change.top, torch, None) {
            Some(BlockFace::Top.shift_position(&p))
        } else {
            None
        },
    }
}

} // verus!
