//! Block identifiers, packed block state, and per-block configuration.
//!
//! A block state is a `u16` whose low bits encode a rotation around the
//! vertical axis in quarter turns; setting the rotation-disable bit makes the
//! state decode to the identity rotation regardless of the quadrant bits.

use vstd::prelude::*;

verus! {

/// Identifies a kind of block. An index into the block configuration table.
pub type BlockId = u16;

/// Rotation of a block around the vertical axis, in quarter turns.
#[derive(Clone, Copy, PartialEq, Eq, Structural, Debug)]
pub enum Rotation {
    /// 0 degrees.
    North,
    /// 90 degrees.
    East,
    /// 180 degrees.
    South,
    /// 270 degrees.
    West,
}

impl Rotation {
    /// The quadrant this rotation encodes to, in the low two state bits.
    pub open spec fn spec_quadrant(self) -> u16 {
        match self {
            Rotation::North => 0,
            Rotation::East => 1,
            Rotation::South => 2,
            Rotation::West => 3,
        }
    }

    /// The quadrant this rotation encodes to.
    pub fn quadrant(self) -> (q: u16)
        ensures
            q == self.spec_quadrant(),
    {
        match self {
            Rotation::North => 0,
            Rotation::East => 1,
            Rotation::South => 2,
            Rotation::West => 3,
        }
    }
}

/// Packed per-block mutable metadata.
#[derive(Clone, Copy, PartialEq, Eq, Structural, Debug)]
pub struct BlockState(pub u16);

/// The bit that disables rotation for a state.
pub const ROTATION_DISABLED_BIT: u16 = 0b100;

/// Mask of the two bits holding the rotation quadrant.
pub const ROTATION_MASK: u16 = 0b11;

impl BlockState {
    /// Whether the state's rotation bits are ignored.
    pub open spec fn spec_rotation_disabled(self) -> bool {
        self.0 & ROTATION_DISABLED_BIT != 0
    }

    /// The rotation a state decodes to: the quadrant in the low two bits,
    /// unless the rotation-disable bit is set, in which case the identity.
    pub open spec fn spec_rotation(self) -> Rotation {
        if self.spec_rotation_disabled() {
            Rotation::North
        } else if self.0 & ROTATION_MASK == 0 {
            Rotation::North
        } else if self.0 & ROTATION_MASK == 1 {
            Rotation::East
        } else if self.0 & ROTATION_MASK == 2 {
            Rotation::South
        } else {
            Rotation::West
        }
    }

    /// Decode the rotation stored in this state.
    pub fn rotation(self) -> (r: Rotation)
        ensures
            r == self.spec_rotation(),
    {
        if self.0 & ROTATION_DISABLED_BIT != 0 {
            Rotation::North
        } else {
            let quadrant = self.0 & ROTATION_MASK;
            if quadrant == 0 {
                Rotation::North
            } else if quadrant == 1 {
                Rotation::East
            } else if quadrant == 2 {
                Rotation::South
            } else {
                Rotation::West
            }
        }
    }

    /// Re-encode a rotation into this state, keeping every other bit.
    pub fn with_rotation(self, rotation: Rotation) -> (s: BlockState)
        ensures
            s.0 & ROTATION_MASK == rotation.spec_quadrant(),
            s.0 & !ROTATION_MASK == self.0 & !ROTATION_MASK,
    {
        let cleared = self.0 & !ROTATION_MASK;
        let q = rotation.quadrant();
        let packed = cleared | q;
        proof {
            let s0 = self.0;
            assert((s0 & !ROTATION_MASK | q) & ROTATION_MASK == q
                && (s0 & !ROTATION_MASK | q) & !ROTATION_MASK == s0 & !ROTATION_MASK) by (bit_vector)
                requires
                    q == 0 || q == 1 || q == 2 || q == 3,
            ;
        }
        BlockState(packed)
    }
}

/// A face of a block.
#[derive(Clone, Copy, PartialEq, Eq, Structural, Debug)]
pub enum BlockFace {
    Front,
    Back,
    Left,
    Right,
    Top,
    Bottom,
}

/// Friction a block applies to entities touching or inside it, in
/// thousandths: either per-face surface friction, or a per-axis drag for
/// volumes such as water.
#[derive(Clone, Copy, PartialEq, Eq, Structural, Debug)]
pub enum Friction {
    Surface { front: u32, back: u32, left: u32, right: u32, top: u32, bottom: u32 },
    Drag { x: u32, y: u32, z: u32 },
}

impl Friction {
    /// The drag vector, if this block is a drag volume.
    pub fn drag(&self) -> (r: Option<(u32, u32, u32)>)
        ensures
            match r {
                Some(d) => *self == (Friction::Drag { x: d.0, y: d.1, z: d.2 }),
                None => self is Surface,
            },
    {
        match self {
            Friction::Drag { x, y, z } => Some((*x, *y, *z)),
            Friction::Surface { .. } => None,
        }
    }

    /// The friction of one face, zero for drag volumes.
    pub fn surface_friction(&self, face: BlockFace) -> (r: u32)
        ensures
            r == self.spec_surface_friction(face),
    {
        match self {
            Friction::Surface { front, back, left, right, top, bottom } => match face {
                BlockFace::Front => *front,
                BlockFace::Back => *back,
                BlockFace::Left => *left,
                BlockFace::Right => *right,
                BlockFace::Top => *top,
                BlockFace::Bottom => *bottom,
            },
            Friction::Drag { .. } => 0,
        }
    }

    /// The friction of one face, zero for drag volumes.
    pub open spec fn spec_surface_friction(self, face: BlockFace) -> u32 {
        match self {
            Friction::Surface { front, back, left, right, top, bottom } => match face {
                BlockFace::Front => front,
                BlockFace::Back => back,
                BlockFace::Left => left,
                BlockFace::Right => right,
                BlockFace::Top => top,
                BlockFace::Bottom => bottom,
            },
            Friction::Drag { .. } => 0,
        }
    }
}

/// Everything the rules need to know about a kind of block.
#[derive(Clone, Debug)]
pub struct BlockConfig {
    /// Microseconds to break at tool efficiency one; absent for unbreakable
    /// blocks.
    pub hardness_us: Option<u64>,
    /// How the block slows entities.
    pub friction: Friction,
    /// Whether entities collide with the block.
    pub solid: bool,
    /// Whether a climbing entity may hold onto the block.
    pub climbable: bool,
    /// Whether placing a block may overwrite this one (grass, water).
    pub replaceable: bool,
    /// Faces a new block of this kind may be placed against.
    pub placeable_faces: Vec<BlockFace>,
    /// The item and count dropped when the block breaks.
    pub drop: Option<(u32, u32)>,
    /// The model rendered for the block, if any.
    pub model: Option<u32>,
}

impl BlockConfig {
    /// Whether mining can break the block.
    pub fn is_breakable(&self) -> (r: bool)
        ensures
            r == (self.hardness_us is Some),
    {
        self.hardness_us.is_some()
    }

    /// Whether a new block of this kind may be placed against `face`.
    pub fn is_placeable(&self, face: BlockFace) -> (r: bool)
        ensures
            r == self.placeable_faces@.contains(face),
    {
        let mut i: usize = 0;
        while i < self.placeable_faces.len()
            invariant
                i <= self.placeable_faces@.len(),
                forall|j: int| 0 <= j < i ==> self.placeable_faces@[j] != face,
            decreases self.placeable_faces@.len() - i,
        {
            if self.placeable_faces[i] == face {
                return true;
            }
            i = i + 1;
        }
        proof {
            assert(!self.placeable_faces@.contains(face));
        }
        false
    }
}

/// The block configuration table: one config and one name per block id.
#[derive(Clone, Debug)]
pub struct Blocks {
    pub configs: Vec<BlockConfig>,
    pub names: Vec<String>,
}

impl Blocks {
    pub open spec fn wf(self) -> bool {
        &&& self.configs@.len() == self.names@.len()
        &&& self.configs@.len() <= 0x1_0000
    }

    /// An empty table.
    pub fn new() -> (b: Blocks)
        ensures
            b.wf(),
            b.configs@.len() == 0,
    {
        Blocks { configs: Vec::new(), names: Vec::new() }
    }

    /// Register a block kind under a name; its id is its position.
    pub fn insert(&mut self, name: String, config: BlockConfig) -> (id: Option<BlockId>)
        requires
            old(self).wf(),
        ensures
            final(self).wf(),
            match id {
                Some(i) => {
                    &&& i == old(self).configs@.len()
                    &&& final(self).configs@ == old(self).configs@.push(config)
                    &&& final(self).names@ == old(self).names@.push(name)
                },
                None => old(self).configs@.len() == 0x1_0000 && *final(self) == *old(self),
            },
    {
        if self.configs.len() == 0x1_0000 {
            return None;
        }
        let id = self.configs.len() as u16;
        self.configs.push(config);
        self.names.push(name);
        Some(id)
    }

    /// The id registered under a name, if any.
    pub fn get_id(&self, name: &String) -> (r: Option<BlockId>)
        requires
            self.wf(),
        ensures
            match r {
                Some(id) => (id as int) < self.names@.len() && self.names@[id as int]@ == name@,
                None => forall|i: int| 0 <= i < self.names@.len() ==> self.names@[i]@ != name@,
            },
    {
        let mut i: usize = 0;
        while i < self.names.len()
            invariant
                self.wf(),
                i <= self.names@.len(),
                forall|j: int| 0 <= j < i ==> self.names@[j]@ != name@,
            decreases self.names@.len() - i,
        {
            if self.names[i] == *name {
                return Some(i as u16);
            }
            i = i + 1;
        }
        None
    }

    /// The config of a block id.
    pub fn get_config(&self, id: BlockId) -> (r: Option<&BlockConfig>)
        requires
            self.wf(),
        ensures
            match r {
                Some(c) => (id as int) < self.configs@.len() && *c == self.configs@[id as int],
                None => (id as int) >= self.configs@.len(),
            },
    {
        if (id as usize) < self.configs.len() {
            Some(&self.configs[id as usize])
        } else {
            None
        }
    }
}

/// Decoding then re-encoding a state with rotation enabled preserves the
/// stored quadrant and every other bit; with rotation disabled the state
/// always decodes to the identity rotation.
pub proof fn lemma_rotation_round_trip(s: BlockState)
    ensures
        !s.spec_rotation_disabled() ==> s.spec_rotation().spec_quadrant() == s.0 & ROTATION_MASK,
        s.spec_rotation_disabled() ==> s.spec_rotation() == Rotation::North,
{
    let v = s.0;
    assert(v & ROTATION_MASK == 0 || v & ROTATION_MASK == 1 || v & ROTATION_MASK == 2
        || v & ROTATION_MASK == 3) by (bit_vector);
}

} // verus!
