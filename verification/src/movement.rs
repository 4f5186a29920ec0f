//! Player movement against the block grid: integration of the velocity, and
//! penetration resolution with step-up, grounding, drag volumes and
//! climbing.
//!
//! Geometry runs in thousandths of a block, velocities in thousandths per
//! second, time in microseconds. The resolver works per axis: the axis whose
//! crossing lies latest inside the tick caused the collision and is pushed
//! back (with a one-percent overshoot against re-overlap); a small vertical
//! overlap under a grounded player is absorbed upward instead, which is what
//! walks a player up a low step.

use vstd::prelude::*;
use crate::block::{BlockFace, Blocks, Friction};
use crate::world::{BlockPos, WorldMap};

verus! {

/// A vector in thousandths of a block (or thousandths per second).
#[derive(Clone, Copy, PartialEq, Eq, Structural, Debug)]
pub struct Vec3M {
    pub x: i64,
    pub y: i64,
    pub z: i64,
}

/// The working range of movement geometry: far beyond the playable world,
/// far inside the arithmetic's.
pub const COORD_LIMIT_MILLI: i64 = 0x8_0000_0000;

/// The fastest speed the integrator keeps, in thousandths of a block per
/// second: a thousand blocks a second, far past anything the game reaches.
pub const SPEED_LIMIT_MILLI: i64 = 1_000_000;

/// A velocity inside the integrator's speed range.
pub open spec fn speed_in_range(v: Vec3M) -> bool {
    &&& -SPEED_LIMIT_MILLI <= v.x <= SPEED_LIMIT_MILLI
    &&& -SPEED_LIMIT_MILLI <= v.y <= SPEED_LIMIT_MILLI
    &&& -SPEED_LIMIT_MILLI <= v.z <= SPEED_LIMIT_MILLI
}

pub open spec fn vec_in_range(v: Vec3M) -> bool {
    &&& -COORD_LIMIT_MILLI <= v.x <= COORD_LIMIT_MILLI
    &&& -COORD_LIMIT_MILLI <= v.y <= COORD_LIMIT_MILLI
    &&& -COORD_LIMIT_MILLI <= v.z <= COORD_LIMIT_MILLI
}

/// Magnitude of a bounded value.
pub open spec fn abs64(v: i64) -> int {
    if v >= 0 {
        v as int
    } else {
        -(v as int)
    }
}

fn abs_i64(v: i64) -> (r: i64)
    requires
        v > i64::MIN,
    ensures
        r == abs64(v),
{
    if v >= 0 {
        v
    } else {
        -v
    }
}

/// An axis-aligned box: a center and half extents, in thousandths.
#[derive(Clone, Copy, PartialEq, Eq, Structural, Debug)]
pub struct AabbM {
    pub center: Vec3M,
    pub half: Vec3M,
}

/// The player's box: sixty centimetres square, one block and four fifths
/// tall, its origin at the feet.
pub const PLAYER_HALF_X: i64 = 300;

pub const PLAYER_HALF_Y: i64 = 900;

pub const PLAYER_HALF_Z: i64 = 300;

impl AabbM {
    pub open spec fn wf(self) -> bool {
        &&& vec_in_range(self.center)
        &&& 0 <= self.half.x <= 1_000_000
        &&& 0 <= self.half.y <= 1_000_000
        &&& 0 <= self.half.z <= 1_000_000
    }

    /// The box between two corners. Odd spans lose their last thousandth to
    /// the integer halving: the low corner is kept exactly, the high corner
    /// shrinks by the span's parity.
    pub fn from_min_max(min: Vec3M, max: Vec3M) -> (r: AabbM)
        requires
            vec_in_range(min),
            vec_in_range(max),
            min.x <= max.x && max.x - min.x <= 2_000_000,
            min.y <= max.y && max.y - min.y <= 2_000_000,
            min.z <= max.z && max.z - min.z <= 2_000_000,
        ensures
            r.wf(),
            r.half.x == (max.x - min.x) / 2 && r.center.x == min.x + r.half.x,
            r.half.y == (max.y - min.y) / 2 && r.center.y == min.y + r.half.y,
            r.half.z == (max.z - min.z) / 2 && r.center.z == min.z + r.half.z,
            r.center.x - r.half.x == min.x && r.center.x + r.half.x == max.x - (max.x - min.x)
                % 2,
            r.center.y - r.half.y == min.y && r.center.y + r.half.y == max.y - (max.y - min.y)
                % 2,
            r.center.z - r.half.z == min.z && r.center.z + r.half.z == max.z - (max.z - min.z)
                % 2,
    {
        let half = Vec3M { x: (max.x - min.x) / 2, y: (max.y - min.y) / 2, z: (max.z - min.z) / 2 };
        AabbM {
            center: Vec3M { x: min.x + half.x, y: min.y + half.y, z: min.z + half.z },
            half,
        }
    }

    /// The low corner.
    pub fn min(&self) -> (r: Vec3M)
        requires
            self.wf(),
        ensures
            r.x == self.center.x - self.half.x,
            r.y == self.center.y - self.half.y,
            r.z == self.center.z - self.half.z,
    {
        Vec3M {
            x: self.center.x - self.half.x,
            y: self.center.y - self.half.y,
            z: self.center.z - self.half.z,
        }
    }

    /// The high corner.
    pub fn max(&self) -> (r: Vec3M)
        requires
            self.wf(),
        ensures
            r.x == self.center.x + self.half.x,
            r.y == self.center.y + self.half.y,
            r.z == self.center.z + self.half.z,
    {
        Vec3M {
            x: self.center.x + self.half.x,
            y: self.center.y + self.half.y,
            z: self.center.z + self.half.z,
        }
    }

    /// The penetration depth of one axis: both half widths minus the center
    /// distance.
    pub open spec fn spec_overlap_x(self, other: AabbM) -> int {
        self.half.x + other.half.x - abs64((self.center.x - other.center.x) as i64)
    }

    pub open spec fn spec_overlap_y(self, other: AabbM) -> int {
        self.half.y + other.half.y - abs64((self.center.y - other.center.y) as i64)
    }

    pub open spec fn spec_overlap_z(self, other: AabbM) -> int {
        self.half.z + other.half.z - abs64((self.center.z - other.center.z) as i64)
    }

    /// The overlap with another box, signed per axis by which side the other
    /// box lies on; absent exactly when some axis clears.
    pub fn intersection(&self, other: &AabbM) -> (r: Option<Vec3M>)
        requires
            self.wf(),
            other.wf(),
        ensures
            match r {
                Some(overlap) => {
                    &&& self.spec_overlap_x(*other) > 0 && self.spec_overlap_y(*other) > 0
                        && self.spec_overlap_z(*other) > 0
                    &&& abs64(overlap.x) == self.spec_overlap_x(*other)
                    &&& abs64(overlap.y) == self.spec_overlap_y(*other)
                    &&& abs64(overlap.z) == self.spec_overlap_z(*other)
                    &&& (overlap.x > 0 <==> self.center.x >= other.center.x)
                    &&& (overlap.y > 0 <==> self.center.y >= other.center.y)
                    &&& (overlap.z > 0 <==> self.center.z >= other.center.z)
                },
                None => !(self.spec_overlap_x(*other) > 0 && self.spec_overlap_y(*other) > 0
                    && self.spec_overlap_z(*other) > 0),
            },
    {
        let dx = self.center.x - other.center.x;
        let dy = self.center.y - other.center.y;
        let dz = self.center.z - other.center.z;
        let ox = self.half.x + other.half.x - abs_i64(dx);
        let oy = self.half.y + other.half.y - abs_i64(dy);
        let oz = self.half.z + other.half.z - abs_i64(dz);
        if ox > 0 && oy > 0 && oz > 0 {
            // Keep the sign of the separation, to tell which side of the
            // other box was hit.
            Some(
                Vec3M {
                    x: if dx >= 0 {
                        ox
                    } else {
                        -ox
                    },
                    y: if dy >= 0 {
                        oy
                    } else {
                        -oy
                    },
                    z: if dz >= 0 {
                        oz
                    } else {
                        -oz
                    },
                },
            )
        } else {
            None
        }
    }
}

/// Gravity, in thousandths of a block per second per second.
pub const GRAVITY_MILLI: i64 = -32_000;

/// The vertical speed a jump grants.
pub const JUMP_VELOCITY_MILLI: i64 = 9_000;

/// The shortest interval between jumps, in microseconds: the time the jump
/// speed takes to decay by seventeen tenths under gravity.
pub const JUMP_INTERVAL_US: u64 = 478_125;

/// The largest vertical overlap the step-up rule absorbs, in thousandths.
pub const STEP_UP_LIMIT_MILLI: i64 = 510;

/// How much vertical lift one tick's step-up grants at most.
pub const STEP_UP_SOFT_MILLI: i64 = 50;

/// The speed boost leaving water grants, for a steady bob at the surface.
pub const SWIM_EXIT_BOB_MILLI: i64 = 1_500;

/// The per-tick state the resolver reads and writes.
#[derive(Clone, Copy, PartialEq, Eq, Structural, Debug)]
pub struct PlayerMotion {
    /// Velocity in thousandths of a block per second.
    pub velocity: Vec3M,
    /// Per-axis contact flags.
    pub grounded_x: bool,
    pub grounded_y: bool,
    pub grounded_z: bool,
    /// Whether the player stands in a strong drag volume.
    pub is_swimming: bool,
    /// Whether a climbable block touches the player.
    pub is_climbing: bool,
    /// Microseconds since the last jump fired.
    pub last_jump_us: u64,
}

impl PlayerMotion {
    pub open spec fn wf(self) -> bool {
        speed_in_range(self.velocity)
    }

    /// A player at rest.
    pub fn new() -> (m: PlayerMotion)
        ensures
            m.wf(),
            m.velocity == (Vec3M { x: 0i64, y: 0i64, z: 0i64 }),
            !m.is_swimming,
    {
        PlayerMotion {
            velocity: Vec3M { x: 0, y: 0, z: 0 },
            grounded_x: false,
            grounded_y: false,
            grounded_z: false,
            is_swimming: false,
            is_climbing: false,
            last_jump_us: JUMP_INTERVAL_US + 1,
        }
    }
}

/// Whether a grounded survival player may jump now: only at rest on the
/// ground, and not again until the jump interval has passed.
pub fn may_jump(grounded_y: bool, last_jump_us: u64) -> (r: bool)
    ensures
        r == (grounded_y && last_jump_us > JUMP_INTERVAL_US),
{
    grounded_y && last_jump_us > JUMP_INTERVAL_US
}

/// Leaving the water this tick lifts the vertical speed by the bob constant
/// (capped at the speed range); any other tick leaves it alone.
pub open spec fn spec_swim_exit_bob(velocity_y: int, was_swimming: bool, is_swimming: bool) -> int {
    if was_swimming && !is_swimming {
        if velocity_y + SWIM_EXIT_BOB_MILLI <= SPEED_LIMIT_MILLI {
            velocity_y + SWIM_EXIT_BOB_MILLI
        } else {
            SPEED_LIMIT_MILLI as int
        }
    } else {
        velocity_y
    }
}

/// The bob leaving water grants; see `spec_swim_exit_bob`.
pub fn swim_exit_bob(velocity_y: i64, was_swimming: bool, is_swimming: bool) -> (r: i64)
    requires
        -SPEED_LIMIT_MILLI <= velocity_y <= SPEED_LIMIT_MILLI,
    ensures
        r == spec_swim_exit_bob(velocity_y as int, was_swimming, is_swimming),
        -SPEED_LIMIT_MILLI <= r <= SPEED_LIMIT_MILLI,
{
    if was_swimming && !is_swimming {
        if velocity_y + SWIM_EXIT_BOB_MILLI <= SPEED_LIMIT_MILLI {
            velocity_y + SWIM_EXIT_BOB_MILLI
        } else {
            SPEED_LIMIT_MILLI
        }
    } else {
        velocity_y
    }
}

/// A penetration plus one percent, the overshoot that stops immediate
/// re-overlap; the sign of the penetration is kept.
pub open spec fn spec_overshoot(o: int) -> int {
    if o >= 0 {
        o + o / 100
    } else {
        o - (-o) / 100
    }
}

fn overshoot(o: i64) -> (r: i64)
    requires
        -2_000_000 <= o <= 2_000_000,
    ensures
        r == spec_overshoot(o as int),
        -2_100_000 <= r <= 2_100_000,
{
    if o >= 0 {
        o + o / 100
    } else {
        o - (-o) / 100
    }
}

/// Microseconds ago the moving box crossed into an axis overlap: the
/// magnitude of the overlap over the speed against it, zero when the motion
/// is separating or still, capped far outside any tick.
pub open spec fn spec_back_time(overlap: int, velocity: int) -> int {
    if velocity == 0 {
        0
    } else if (overlap > 0 && velocity < 0) || (overlap < 0 && velocity > 0) {
        let mag = if overlap >= 0 {
            overlap
        } else {
            -overlap
        };
        let speed = if velocity >= 0 {
            velocity
        } else {
            -velocity
        };
        let t = (mag * 1_000_000) / speed;
        if t > 2_000_000_000_000 {
            2_000_000_000_000
        } else {
            t
        }
    } else {
        0
    }
}

/// See `spec_back_time`.
fn back_time(overlap: i64, velocity: i64) -> (r: i64)
    requires
        -2_000_000 <= overlap <= 2_000_000,
        -SPEED_LIMIT_MILLI <= velocity <= SPEED_LIMIT_MILLI,
    ensures
        r == spec_back_time(overlap as int, velocity as int),
        0 <= r <= 2_000_000_000_000,
{
    if velocity == 0 {
        return 0;
    }
    if !((overlap > 0 && velocity < 0) || (overlap < 0 && velocity > 0)) {
        return 0;
    }
    let mag: i64 = if overlap >= 0 {
        overlap
    } else {
        -overlap
    };
    let speed: i64 = if velocity >= 0 {
        velocity
    } else {
        -velocity
    };
    let t = (mag * 1_000_000) / speed;
    if t > 2_000_000_000_000 {
        2_000_000_000_000
    } else {
        t
    }
}

/// Which axis the resolver pushes back: the latest crossing among the axes
/// whose back-time lies inside the stretched tick; ties keep the earlier
/// axis in the x, y, z scan. Three means none qualified.
pub open spec fn spec_resolution_axis(tx: int, ty: int, tz: int, limit: int) -> int {
    let vx = 0 < tx < limit;
    let vy = 0 < ty < limit;
    let vz = 0 < tz < limit;
    let (a1, b1): (int, int) = if vx {
        (0, tx)
    } else {
        (3, -1)
    };
    let (a2, b2): (int, int) = if vy && ty > b1 {
        (1, ty)
    } else {
        (a1, b1)
    };
    if vz && tz > b2 {
        2
    } else {
        a2
    }
}

/// The degeneracy fallback: with no axis inside the tick, the smallest
/// back-time inside twice the tick is pushed instead (y preferred on ties,
/// then x, then z). Three means nothing finite at all.
pub open spec fn spec_fallback_axis(tx: int, ty: int, tz: int, wide: int) -> int {
    let okx = 0 < tx < wide;
    let oky = 0 < ty < wide;
    let okz = 0 < tz < wide;
    let s1: int = if okx {
        tx
    } else {
        0x7FFF_FFFF_FFFF_FFFF
    };
    let s2: int = if oky && ty < s1 {
        ty
    } else {
        s1
    };
    let s3: int = if okz && tz < s2 {
        tz
    } else {
        s2
    };
    if oky && ty == s3 {
        1
    } else if okx && tx == s3 {
        0
    } else if okz && tz == s3 {
        2
    } else {
        3
    }
}

/// The face whose friction a vertical contact takes.
pub open spec fn spec_face_y(velocity_y: int) -> BlockFace {
    if velocity_y >= 0 {
        BlockFace::Bottom
    } else {
        BlockFace::Top
    }
}

pub open spec fn spec_face_x(velocity_x: int) -> BlockFace {
    if velocity_x >= 0 {
        BlockFace::Left
    } else {
        BlockFace::Right
    }
}

pub open spec fn spec_face_z(velocity_z: int) -> BlockFace {
    if velocity_z >= 0 {
        BlockFace::Back
    } else {
        BlockFace::Front
    }
}

/// What one resolved contact did.
#[derive(Clone, Copy, PartialEq, Eq, Structural, Debug)]
pub struct Resolution {
    /// Push-back per axis, in thousandths.
    pub move_back: Vec3M,
    /// Surface friction met, in thousandths.
    pub friction: i64,
    /// Axis flags that became grounded.
    pub grounded_x: bool,
    pub grounded_y: bool,
    pub grounded_z: bool,
    /// Whether the step-up rule fired instead of an axis resolution.
    pub stepped_up: bool,
}

/// Resolve one overlap against one solid block.
///
/// A grounded player with a vertical overlap inside the step-up limit is
/// lifted by at most the soft step instead of resolving the walk away.
/// Otherwise the latest valid crossing is pushed back by its overlap plus
/// one percent, its velocity zeroed, its contact flag set, and the contacted
/// face's friction taken; with no valid crossing, the smallest back-time
/// inside twice the tick is pushed and the motion left alone.
pub fn resolve_conflict(
    motion: &mut PlayerMotion,
    config_friction: &Friction,
    velocity: Vec3M,
    overlap: Vec3M,
    dt_us: u64,
) -> (r: Resolution)
    requires
        old(motion).wf(),
        speed_in_range(velocity),
        -2_000_000 <= overlap.x <= 2_000_000,
        -2_000_000 <= overlap.y <= 2_000_000,
        -2_000_000 <= overlap.z <= 2_000_000,
        0 < dt_us <= 1_000_000,
    ensures
        final(motion).wf(),
        -2_100_000 <= r.move_back.x <= 2_100_000,
        -2_100_000 <= r.move_back.y <= 2_100_000,
        -2_100_000 <= r.move_back.z <= 2_100_000,
        r.friction >= 0,
        final(motion).is_swimming == old(motion).is_swimming,
        final(motion).is_climbing == old(motion).is_climbing,
        final(motion).last_jump_us == old(motion).last_jump_us,
        ({
            let tx = spec_back_time(overlap.x as int, velocity.x as int);
            let ty = spec_back_time(overlap.y as int, velocity.y as int);
            let tz = spec_back_time(overlap.z as int, velocity.z as int);
            let limit = dt_us + dt_us / 100;
            let stepped = old(motion).grounded_y && 0 < overlap.y <= STEP_UP_LIMIT_MILLI;
            &&& r.stepped_up == stepped
            &&& if stepped {
                let lift = if spec_overshoot(overlap.y as int) < STEP_UP_SOFT_MILLI {
                    spec_overshoot(overlap.y as int)
                } else {
                    STEP_UP_SOFT_MILLI as int
                };
                &&& r.move_back == (Vec3M { x: 0i64, y: lift as i64, z: 0i64 })
                &&& 0 <= r.move_back.y <= STEP_UP_SOFT_MILLI
                &&& r.grounded_y && !r.grounded_x && !r.grounded_z
                &&& r.friction == config_friction.spec_surface_friction(
                    spec_face_y(velocity.y as int),
                )
                &&& *final(motion) == (PlayerMotion {
                    velocity: Vec3M { x: old(motion).velocity.x, y: 0i64, z: old(motion).velocity.z },
                    grounded_y: true,
                    ..*old(motion)
                })
            } else {
                let axis = spec_resolution_axis(tx, ty, tz, limit as int);
                &&& (axis == 1 ==> {
                    &&& r.move_back == (Vec3M {
                        x: 0i64,
                        y: spec_overshoot(overlap.y as int) as i64,
                        z: 0i64,
                    })
                    &&& r.grounded_y && !r.grounded_x && !r.grounded_z
                    &&& r.friction == config_friction.spec_surface_friction(
                        spec_face_y(velocity.y as int),
                    )
                    &&& *final(motion) == (PlayerMotion {
                        velocity: Vec3M {
                            x: old(motion).velocity.x,
                            y: 0i64,
                            z: old(motion).velocity.z,
                        },
                        grounded_y: true,
                        ..*old(motion)
                    })
                })
                &&& (axis == 0 ==> {
                    &&& r.move_back == (Vec3M {
                        x: spec_overshoot(overlap.x as int) as i64,
                        y: 0i64,
                        z: 0i64,
                    })
                    &&& r.grounded_x && !r.grounded_y && !r.grounded_z
                    &&& r.friction == config_friction.spec_surface_friction(
                        spec_face_x(velocity.x as int),
                    )
                    &&& *final(motion) == (PlayerMotion {
                        velocity: Vec3M {
                            x: 0i64,
                            y: old(motion).velocity.y,
                            z: old(motion).velocity.z,
                        },
                        grounded_x: true,
                        ..*old(motion)
                    })
                })
                &&& (axis == 2 ==> {
                    &&& r.move_back == (Vec3M {
                        x: 0i64,
                        y: 0i64,
                        z: spec_overshoot(overlap.z as int) as i64,
                    })
                    &&& r.grounded_z && !r.grounded_x && !r.grounded_y
                    &&& r.friction == config_friction.spec_surface_friction(
                        spec_face_z(velocity.z as int),
                    )
                    &&& *final(motion) == (PlayerMotion {
                        velocity: Vec3M {
                            x: old(motion).velocity.x,
                            y: old(motion).velocity.y,
                            z: 0i64,
                        },
                        grounded_z: true,
                        ..*old(motion)
                    })
                })
                &&& (axis == 3 ==> {
                    let fallback = spec_fallback_axis(tx, ty, tz, 2 * dt_us);
                    &&& *final(motion) == *old(motion)
                    &&& r.friction == 0
                    &&& !r.grounded_x && !r.grounded_y && !r.grounded_z
                    &&& (fallback == 1 ==> r.move_back == (Vec3M {
                        x: 0i64,
                        y: spec_overshoot(overlap.y as int) as i64,
                        z: 0i64,
                    }))
                    &&& (fallback == 0 ==> r.move_back == (Vec3M {
                        x: spec_overshoot(overlap.x as int) as i64,
                        y: 0i64,
                        z: 0i64,
                    }))
                    &&& (fallback == 2 ==> r.move_back == (Vec3M {
                        x: 0i64,
                        y: 0i64,
                        z: spec_overshoot(overlap.z as int) as i64,
                    }))
                    &&& (fallback == 3 ==> r.move_back == (Vec3M { x: 0i64, y: 0i64, z: 0i64 }))
                })
            }
        }),
{
    // How long ago each axis started overlapping: overlap over speed.
    let t_back_x = back_time(overlap.x, velocity.x);
    let t_back_y = back_time(overlap.y, velocity.y);
    let t_back_z = back_time(overlap.z, velocity.z);
    let limit: i64 = (dt_us + dt_us / 100) as i64;
    let valid_x = 0 < t_back_x && t_back_x < limit;
    let valid_y = 0 < t_back_y && t_back_y < limit;
    let valid_z = 0 < t_back_z && t_back_z < limit;

    // The latest valid crossing caused the collision.
    let mut axis: u8 = 3;  // none
    let mut best: i64 = -1;
    if valid_x {
        axis = 0;
        best = t_back_x;
    }
    if valid_y && t_back_y > best {
        axis = 1;
        best = t_back_y;
    }
    if valid_z && t_back_z > best {
        axis = 2;
        best = t_back_z;
    }

    let mut r = Resolution {
        move_back: Vec3M { x: 0, y: 0, z: 0 },
        friction: 0,
        grounded_x: false,
        grounded_y: false,
        grounded_z: false,
        stepped_up: false,
    };

    if motion.grounded_y && 0 < overlap.y && overlap.y <= STEP_UP_LIMIT_MILLI {
        // Step up: absorb a small vertical overlap instead of resolving the
        // walk away.
        let lift_cap = overshoot(overlap.y);
        let lift = if lift_cap < STEP_UP_SOFT_MILLI {
            lift_cap
        } else {
            STEP_UP_SOFT_MILLI
        };
        r.move_back.y = lift;
        r.grounded_y = true;
        r.stepped_up = true;
        motion.grounded_y = true;
        motion.velocity.y = 0;
        r.friction = config_friction.surface_friction(
            if velocity.y >= 0 {
                BlockFace::Bottom
            } else {
                BlockFace::Top
            },
        ) as i64;
        return r;
    }
    if axis == 1 {
        r.move_back.y = overshoot(overlap.y);
        r.grounded_y = true;
        motion.grounded_y = true;
        motion.velocity.y = 0;
        r.friction = config_friction.surface_friction(
            if velocity.y >= 0 {
                BlockFace::Bottom
            } else {
                BlockFace::Top
            },
        ) as i64;
    } else if axis == 0 {
        r.move_back.x = overshoot(overlap.x);
        r.grounded_x = true;
        motion.grounded_x = true;
        motion.velocity.x = 0;
        r.friction = config_friction.surface_friction(
            if velocity.x >= 0 {
                BlockFace::Left
            } else {
                BlockFace::Right
            },
        ) as i64;
    } else if axis == 2 {
        r.move_back.z = overshoot(overlap.z);
        r.grounded_z = true;
        motion.grounded_z = true;
        motion.velocity.z = 0;
        r.friction = config_friction.surface_friction(
            if velocity.z >= 0 {
                BlockFace::Back
            } else {
                BlockFace::Front
            },
        ) as i64;
    } else {
        // No valid crossing (near-zero speeds): push out along the smallest
        // finite back-time, if any axis has one at all.
        let wide: i64 = 2 * (dt_us as i64);
        let ok_x = 0 < t_back_x && t_back_x < wide;
        let ok_y = 0 < t_back_y && t_back_y < wide;
        let ok_z = 0 < t_back_z && t_back_z < wide;
        let mut smallest: i64 = i64::MAX;
        if ok_x {
            smallest = t_back_x;
        }
        if ok_y && t_back_y < smallest {
            smallest = t_back_y;
        }
        if ok_z && t_back_z < smallest {
            smallest = t_back_z;
        }
        if ok_y && t_back_y == smallest {
            r.move_back.y = overshoot(overlap.y);
        } else if ok_x && t_back_x == smallest {
            r.move_back.x = overshoot(overlap.x);
        } else if ok_z && t_back_z == smallest {
            r.move_back.z = overshoot(overlap.z);
        }
    }
    r
}

/// What one movement pass found in the world.
#[derive(Clone, Copy, PartialEq, Eq, Structural, Debug)]
pub struct TickContact {
    /// Combined push-back.
    pub move_back: Vec3M,
    /// The largest drag met per axis, in thousandths.
    pub drag: Vec3M,
    /// The largest surface friction met, in thousandths.
    pub friction: i64,
    /// Whether a strong vertical drag (water) holds the player.
    pub swimming: bool,
    /// Whether a climbable block touches the player.
    pub climbing: bool,
}

/// The block cells the player's box at a position overlaps, by whole-block
/// floor of the box's corners.
pub open spec fn spec_cell_in_sweep(position: Vec3M, bx: int, by: int, bz: int) -> bool {
    &&& (position.x - PLAYER_HALF_X) / 1000 <= bx <= (position.x + PLAYER_HALF_X) / 1000
    &&& (position.y as int) / 1000 <= by <= (position.y + 2 * PLAYER_HALF_Y) / 1000
    &&& (position.z - PLAYER_HALF_Z) / 1000 <= bz <= (position.z + PLAYER_HALF_Z) / 1000
}

/// Sweep the player's box at a tentative position over every block it
/// overlaps, resolving solids and collecting drag, climb and friction.
/// Fails exactly when some overlapped cell's chunk is not loaded, which
/// aborts the tick.
pub fn resolve_blocks(
    motion: &mut PlayerMotion,
    position: Vec3M,
    velocity: Vec3M,
    world: &WorldMap,
    blocks: &Blocks,
    dt_us: u64,
) -> (r: Option<TickContact>)
    requires
        old(motion).wf(),
        world.wf(),
        blocks.wf(),
        speed_in_range(velocity),
        -2_000_000_000 <= position.x <= 2_000_000_000,
        -2_000_000_000 <= position.y <= 2_000_000_000,
        -2_000_000_000 <= position.z <= 2_000_000_000,
        0 < dt_us <= 1_000_000,
    ensures
        final(motion).wf(),
        match r {
            Some(contact) => {
                &&& -2_100_000 <= contact.move_back.x <= 2_100_000
                &&& -2_100_000 <= contact.move_back.y <= 2_100_000
                &&& -2_100_000 <= contact.move_back.z <= 2_100_000
                &&& contact.drag.x >= 0 && contact.drag.y >= 0 && contact.drag.z >= 0
                &&& contact.friction >= 0
                &&& forall|bx: int, by: int, bz: int|
                    spec_cell_in_sweep(position, bx, by, bz)
                        ==> #[trigger] world.spec_block_at(
                        BlockPos { x: bx as i32, y: by as i32, z: bz as i32 },
                    ) is Some
            },
            None => {
                &&& *final(motion) == *old(motion)
                &&& exists|bx: int, by: int, bz: int|
                    spec_cell_in_sweep(position, bx, by, bz)
                        && #[trigger] world.spec_block_at(
                        BlockPos { x: bx as i32, y: by as i32, z: bz as i32 },
                    ) is None
            },
        },
{
    let player = AabbM {
        center: Vec3M { x: position.x, y: position.y + PLAYER_HALF_Y, z: position.z },
        half: Vec3M { x: PLAYER_HALF_X, y: PLAYER_HALF_Y, z: PLAYER_HALF_Z },
    };
    let min_bx = floor_milli(position.x - PLAYER_HALF_X);
    let max_bx = floor_milli(position.x + PLAYER_HALF_X);
    let min_by = floor_milli(position.y);
    let max_by = floor_milli(position.y + 2 * PLAYER_HALF_Y);
    let min_bz = floor_milli(position.z - PLAYER_HALF_Z);
    let max_bz = floor_milli(position.z + PLAYER_HALF_Z);

    let motion0 = *motion;
    let mut contact = TickContact {
        move_back: Vec3M { x: 0, y: 0, z: 0 },
        drag: Vec3M { x: 0, y: 0, z: 0 },
        friction: 0,
        swimming: false,
        climbing: false,
    };

    let mut bx = min_bx;
    while bx <= max_bx
        invariant
            motion.wf(),
            world.wf(),
            blocks.wf(),
            speed_in_range(velocity),
            0 < dt_us <= 1_000_000,
            min_bx <= bx <= max_bx + 1,
            motion0 == *old(motion),
            old(motion).wf(),
            -2_100_000 <= contact.move_back.x <= 2_100_000,
            -2_100_000 <= contact.move_back.y <= 2_100_000,
            -2_100_000 <= contact.move_back.z <= 2_100_000,
            contact.drag.x >= 0 && contact.drag.y >= 0 && contact.drag.z >= 0,
            contact.friction >= 0,
            -2_000_101 <= min_bx <= max_bx <= 2_000_101,
            -2_000_101 <= min_by <= max_by <= 2_000_101,
            -2_000_101 <= min_bz <= max_bz <= 2_000_101,
            min_bx == (position.x - PLAYER_HALF_X) / 1000,
            max_bx == (position.x + PLAYER_HALF_X) / 1000,
            min_by == position.y as int / 1000,
            max_by == (position.y + 2 * PLAYER_HALF_Y) / 1000,
            min_bz == (position.z - PLAYER_HALF_Z) / 1000,
            max_bz == (position.z + PLAYER_HALF_Z) / 1000,
            player.wf(),
            forall|cx: int, cy: int, cz: int|
                min_bx <= cx < bx && min_by <= cy <= max_by && min_bz <= cz <= max_bz
                    ==> #[trigger] world.spec_block_at(
                    BlockPos { x: cx as i32, y: cy as i32, z: cz as i32 },
                ) is Some,
        decreases max_bx + 1 - bx,
    {
        let mut by = min_by;
        while by <= max_by
            invariant
                motion.wf(),
                world.wf(),
                blocks.wf(),
                speed_in_range(velocity),
                0 < dt_us <= 1_000_000,
                min_by <= by <= max_by + 1,
                min_bx <= bx <= max_bx,
                motion0 == *old(motion),
                old(motion).wf(),
                min_bx == (position.x - PLAYER_HALF_X) / 1000,
                max_bx == (position.x + PLAYER_HALF_X) / 1000,
                min_by == position.y as int / 1000,
                max_by == (position.y + 2 * PLAYER_HALF_Y) / 1000,
                min_bz == (position.z - PLAYER_HALF_Z) / 1000,
                max_bz == (position.z + PLAYER_HALF_Z) / 1000,
                -2_100_000 <= contact.move_back.x <= 2_100_000,
                -2_100_000 <= contact.move_back.y <= 2_100_000,
                -2_100_000 <= contact.move_back.z <= 2_100_000,
                contact.drag.x >= 0 && contact.drag.y >= 0 && contact.drag.z >= 0,
                contact.friction >= 0,
                -2_000_101 <= min_bx <= max_bx <= 2_000_101,
                -2_000_101 <= min_by <= max_by <= 2_000_101,
                -2_000_101 <= min_bz <= max_bz <= 2_000_101,
                player.wf(),
                forall|cx: int, cy: int, cz: int|
                    min_bx <= cx < bx && min_by <= cy <= max_by && min_bz <= cz <= max_bz
                        ==> #[trigger] world.spec_block_at(
                        BlockPos { x: cx as i32, y: cy as i32, z: cz as i32 },
                    ) is Some,
                forall|cy: int, cz: int|
                    min_by <= cy < by && min_bz <= cz <= max_bz
                        ==> #[trigger] world.spec_block_at(
                        BlockPos { x: bx as i32, y: cy as i32, z: cz as i32 },
                    ) is Some,
            decreases max_by + 1 - by,
        {
            let mut bz = min_bz;
            while bz <= max_bz
                invariant
                    motion.wf(),
                    world.wf(),
                    blocks.wf(),
                    speed_in_range(velocity),
                    0 < dt_us <= 1_000_000,
                    min_bz <= bz <= max_bz + 1,
                    min_bx <= bx <= max_bx,
                    min_by <= by <= max_by,
                    motion0 == *old(motion),
                    old(motion).wf(),
                    min_bx == (position.x - PLAYER_HALF_X) / 1000,
                    max_bx == (position.x + PLAYER_HALF_X) / 1000,
                    min_by == position.y as int / 1000,
                    max_by == (position.y + 2 * PLAYER_HALF_Y) / 1000,
                    min_bz == (position.z - PLAYER_HALF_Z) / 1000,
                    max_bz == (position.z + PLAYER_HALF_Z) / 1000,
                    -2_100_000 <= contact.move_back.x <= 2_100_000,
                    -2_100_000 <= contact.move_back.y <= 2_100_000,
                    -2_100_000 <= contact.move_back.z <= 2_100_000,
                    contact.drag.x >= 0 && contact.drag.y >= 0 && contact.drag.z >= 0,
                    contact.friction >= 0,
                    -2_000_101 <= min_bx <= max_bx <= 2_000_101,
                    -2_000_101 <= min_by <= max_by <= 2_000_101,
                    -2_000_101 <= min_bz <= max_bz <= 2_000_101,
                    player.wf(),
                    forall|cx: int, cy: int, cz: int|
                        min_bx <= cx < bx && min_by <= cy <= max_by && min_bz <= cz <= max_bz
                            ==> #[trigger] world.spec_block_at(
                            BlockPos { x: cx as i32, y: cy as i32, z: cz as i32 },
                        ) is Some,
                    forall|cy: int, cz: int|
                        min_by <= cy < by && min_bz <= cz <= max_bz
                            ==> #[trigger] world.spec_block_at(
                            BlockPos { x: bx as i32, y: cy as i32, z: cz as i32 },
                        ) is Some,
                    forall|cz: int|
                        min_bz <= cz < bz ==> #[trigger] world.spec_block_at(
                            BlockPos { x: bx as i32, y: by as i32, z: cz as i32 },
                        ) is Some,
                decreases max_bz + 1 - bz,
            {
                let pos = BlockPos { x: bx as i32, y: by as i32, z: bz as i32 };
                let id = match world.get_block(&pos) {
                    Some(id) => id,
                    None => {
                        // A hole in the world: abort the whole tick.
                        proof {
                            assert(spec_cell_in_sweep(position, bx as int, by as int, bz as int));
                        }
                        *motion = motion0;
                        return None;
                    },
                };
                let config = match blocks.get_config(id) {
                    Some(c) => c,
                    None => {
                        bz = bz + 1;
                        continue ;
                    },
                };
                let block_box = AabbM {
                    center: Vec3M {
                        x: (bx as i64) * 1000 + 500,
                        y: (by as i64) * 1000 + 500,
                        z: (bz as i64) * 1000 + 500,
                    },
                    half: Vec3M { x: 500, y: 500, z: 500 },
                };
                let overlap = match player.intersection(&block_box) {
                    Some(o) => o,
                    None => {
                        bz = bz + 1;
                        continue ;
                    },
                };
                if config.climbable {
                    contact.climbing = true;
                }
                match config.friction.drag() {
                    Some((dx, dy, dz)) => {
                        // A drag volume slows instead of colliding.
                        if (dx as i64) > contact.drag.x {
                            contact.drag.x = dx as i64;
                        }
                        if (dy as i64) > contact.drag.y {
                            contact.drag.y = dy as i64;
                        }
                        if (dz as i64) > contact.drag.z {
                            contact.drag.z = dz as i64;
                        }
                        if dy >= 500 {
                            contact.swimming = true;
                        }
                    },
                    None => {
                        if config.solid {
                            let r = resolve_conflict(
                                motion,
                                &config.friction,
                                velocity,
                                overlap,
                                dt_us,
                            );
                            if abs_i64(r.move_back.x) > abs_i64(contact.move_back.x) {
                                contact.move_back.x = r.move_back.x;
                            }
                            if abs_i64(r.move_back.y) > abs_i64(contact.move_back.y) {
                                contact.move_back.y = r.move_back.y;
                            }
                            if abs_i64(r.move_back.z) > abs_i64(contact.move_back.z) {
                                contact.move_back.z = r.move_back.z;
                            }
                            if r.friction > contact.friction {
                                contact.friction = r.friction;
                            }
                        }
                    },
                }
                bz = bz + 1;
            }
            by = by + 1;
        }
        bx = bx + 1;
    }
    Some(contact)
}

/// The whole block a coordinate in thousandths lies in.
fn floor_milli(a: i64) -> (r: i64)
    requires
        -0x1_0000_0000_000 <= a <= 0x1_0000_0000_000,
    ensures
        r == a as int / 1000,
        -0x1_0000_0000_000 <= r <= 0x1_0000_0000_000,
{
    let q = a / 1000;
    let rem = a % 1000;
    if rem < 0 {
        q - 1
    } else {
        q
    }
}

/// Speeds stay inside the integrator's range.
pub open spec fn spec_clamp_speed(v: int) -> int {
    if v > SPEED_LIMIT_MILLI {
        SPEED_LIMIT_MILLI as int
    } else if v < -SPEED_LIMIT_MILLI {
        -(SPEED_LIMIT_MILLI as int)
    } else {
        v
    }
}

fn clamp_speed(v: i64) -> (r: i64)
    requires
        -0x10_0000_0000 <= v <= 0x10_0000_0000,
    ensures
        r == spec_clamp_speed(v as int),
        -SPEED_LIMIT_MILLI <= r <= SPEED_LIMIT_MILLI,
{
    if v > SPEED_LIMIT_MILLI {
        SPEED_LIMIT_MILLI
    } else if v < -SPEED_LIMIT_MILLI {
        -SPEED_LIMIT_MILLI
    } else {
        v
    }
}

/// A rate times the tick length, in the rate's own units: `v·dt/1e6`,
/// truncated towards zero.
pub open spec fn spec_scale_by_dt(v: int, dt_us: int) -> int {
    if v >= 0 {
        (v * dt_us) / 1_000_000
    } else {
        -(((-v) * dt_us) / 1_000_000)
    }
}

fn scale_by_dt(v: i64, dt_us: i64) -> (r: i64)
    requires
        -1_000_000_000 <= v <= 1_000_000_000,
        0 < dt_us <= 1_000_000,
    ensures
        r == spec_scale_by_dt(v as int, dt_us as int),
        -1_000_000_000 <= r <= 1_000_000_000,
        v >= 0 ==> 0 <= r <= v,
        v <= 0 ==> v <= r <= 0,
{
    let mag: i64 = if v >= 0 {
        v
    } else {
        -v
    };
    proof {
        assert(0 <= mag * dt_us <= 1_000_000_000_000_000) by (nonlinear_arith)
            requires
                0 <= mag <= 1_000_000_000,
                0 < dt_us <= 1_000_000,
        ;
        assert((mag * dt_us) / 1_000_000 <= mag) by (nonlinear_arith)
            requires
                0 <= mag,
                0 < dt_us <= 1_000_000,
        ;
    }
    let scaled = (mag * dt_us) / 1_000_000;
    if v >= 0 {
        scaled
    } else {
        -scaled
    }
}

/// One tick of friction: remove `f` thousandths of the speed four times a
/// second, scaled to the tick length and truncated towards zero — the
/// integer first-order form of an exponential decay.
pub open spec fn spec_damp(v: int, f_milli: int, dt_us: int) -> int {
    if f_milli == 0 {
        v
    } else {
        let f = if f_milli > 1000 {
            1000
        } else {
            f_milli
        };
        let loss = (f * 4 * dt_us) / 1_000_000;
        let keep = 1000 - (if loss > 1000 {
            1000
        } else {
            loss
        });
        if v >= 0 {
            (v * keep) / 1000
        } else {
            -(((-v) * keep) / 1000)
        }
    }
}

fn damp(v: i64, f_milli: i64, dt_us: u64) -> (r: i64)
    requires
        -SPEED_LIMIT_MILLI <= v <= SPEED_LIMIT_MILLI,
        0 <= f_milli,
        dt_us <= 100_000,
    ensures
        r == spec_damp(v as int, f_milli as int, dt_us as int),
        -SPEED_LIMIT_MILLI <= r <= SPEED_LIMIT_MILLI,
        f_milli == 0 ==> r == v,
{
    if f_milli == 0 {
        return v;
    }
    let f = if f_milli > 1000 {
        1000i64
    } else {
        f_milli
    };
    proof {
        assert(0 <= f * 4 * (dt_us as int) <= 400_000_000_000) by (nonlinear_arith)
            requires
                0 <= f <= 1000,
                dt_us <= 100_000,
        ;
    }
    let loss_milli = f * 4 * (dt_us as i64) / 1_000_000;
    let keep = 1000 - (if loss_milli > 1000 {
        1000i64
    } else {
        loss_milli
    });
    let mag: i64 = if v >= 0 {
        v
    } else {
        -v
    };
    proof {
        assert(0 <= mag * keep <= SPEED_LIMIT_MILLI * 1000 && (mag * keep) / 1000 <= mag)
            by (nonlinear_arith)
            requires
                0 <= mag <= SPEED_LIMIT_MILLI,
                0 <= keep <= 1000,
        ;
    }
    let scaled = (mag * keep) / 1000;
    if v >= 0 {
        scaled
    } else {
        -scaled
    }
}

/// The larger of two values.
pub open spec fn spec_max64(a: int, b: int) -> int {
    if a >= b {
        a
    } else {
        b
    }
}

/// What one whole tick did, beyond the new position and motion: the two
/// passes' contacts and the intermediate velocities the contract is written
/// over.
#[derive(Clone, Copy, PartialEq, Eq, Structural, Debug)]
pub struct TickOutcome {
    /// The vertical pass.
    pub vertical: TickContact,
    /// The horizontal pass.
    pub horizontal: TickContact,
    /// The velocity right after integrating the acceleration.
    pub integrated_velocity: Vec3M,
    /// The velocity after both passes, before friction and the bob.
    pub resolved_velocity: Vec3M,
    /// Whether the player swims after the tick.
    pub swimming: bool,
}

/// One fixed movement tick for a walking player against the block grid:
/// integrate the velocity, resolve the vertical motion, then the horizontal,
/// commit the integrated step plus both push-backs, damp by the strongest
/// friction or drag met, and grant the swim-exit bob. Fails — committing
/// nothing at all — exactly when a chunk the swept box needs is missing.
#[verifier::rlimit(100)]
pub fn walk_tick(
    position: &mut Vec3M,
    motion: &mut PlayerMotion,
    acceleration: Vec3M,
    world: &WorldMap,
    blocks: &Blocks,
    dt_us: u64,
) -> (r: Option<TickOutcome>)
    requires
        old(motion).wf(),
        world.wf(),
        blocks.wf(),
        -1_000_000_000 <= acceleration.x <= 1_000_000_000,
        -1_000_000_000 <= acceleration.y <= 1_000_000_000,
        -1_000_000_000 <= acceleration.z <= 1_000_000_000,
        -1_000_000_000 <= old(position).x <= 1_000_000_000,
        -1_000_000_000 <= old(position).y <= 1_000_000_000,
        -1_000_000_000 <= old(position).z <= 1_000_000_000,
        0 < dt_us <= 100_000,
    ensures
        final(motion).wf(),
        match r {
            Some(o) => {
                // The velocity the step was integrated with.
                let vx = spec_clamp_speed(
                    old(motion).velocity.x + spec_scale_by_dt(
                        acceleration.x as int,
                        dt_us as int,
                    ),
                );
                let vy = spec_clamp_speed(
                    old(motion).velocity.y + spec_scale_by_dt(
                        acceleration.y as int,
                        dt_us as int,
                    ),
                );
                let vz = spec_clamp_speed(
                    old(motion).velocity.z + spec_scale_by_dt(
                        acceleration.z as int,
                        dt_us as int,
                    ),
                );
                // The strongest damping per axis: drags and surface
                // frictions of both passes.
                let fs = spec_max64(
                    o.vertical.friction as int,
                    o.horizontal.friction as int,
                );
                let fx = spec_max64(
                    spec_max64(o.vertical.drag.x as int, o.horizontal.drag.x as int),
                    fs,
                );
                let fy = spec_max64(
                    spec_max64(o.vertical.drag.y as int, o.horizontal.drag.y as int),
                    fs,
                );
                let fz = spec_max64(
                    spec_max64(o.vertical.drag.z as int, o.horizontal.drag.z as int),
                    fs,
                );
                &&& o.integrated_velocity == (Vec3M { x: vx as i64, y: vy as i64, z: vz as i64 })
                // The committed position: the integrated step plus both
                // passes' push-backs.
                &&& final(position).x == old(position).x + spec_scale_by_dt(vx, dt_us as int)
                    + o.vertical.move_back.x + o.horizontal.move_back.x
                &&& final(position).y == old(position).y + spec_scale_by_dt(vy, dt_us as int)
                    + o.vertical.move_back.y + o.horizontal.move_back.y
                &&& final(position).z == old(position).z + spec_scale_by_dt(vz, dt_us as int)
                    + o.vertical.move_back.z + o.horizontal.move_back.z
                // The committed velocity: the resolved velocity damped, with
                // the bob on a swim-to-air transition.
                &&& final(motion).velocity.x == spec_damp(
                    o.resolved_velocity.x as int,
                    fx,
                    dt_us as int,
                )
                &&& final(motion).velocity.y == spec_swim_exit_bob(
                    spec_damp(o.resolved_velocity.y as int, fy, dt_us as int),
                    old(motion).is_swimming,
                    o.swimming,
                )
                &&& final(motion).velocity.z == spec_damp(
                    o.resolved_velocity.z as int,
                    fz,
                    dt_us as int,
                )
                &&& o.swimming == final(motion).is_swimming
                &&& o.swimming == (o.vertical.swimming || o.horizontal.swimming)
                &&& final(motion).is_climbing == (o.vertical.climbing || o.horizontal.climbing)
            },
            // A missing chunk aborts the tick without touching anything.
            None => *final(position) == *old(position) && *final(motion) == *old(motion),
        },
{
    let was_swimming = motion.is_swimming;
    let mut m = *motion;

    // Contact flags reset for axes in motion.
    if m.velocity.x != 0 {
        m.grounded_x = false;
    }
    if m.velocity.y != 0 {
        m.grounded_y = false;
    }
    if m.velocity.z != 0 {
        m.grounded_z = false;
    }

    // Integrate: v += a dt, p' = p + v dt.
    let dti = dt_us as i64;
    m.velocity.x = clamp_speed(m.velocity.x + scale_by_dt(acceleration.x, dti));
    m.velocity.y = clamp_speed(m.velocity.y + scale_by_dt(acceleration.y, dti));
    m.velocity.z = clamp_speed(m.velocity.z + scale_by_dt(acceleration.z, dti));
    let integrated_velocity = m.velocity;

    let step = Vec3M {
        x: scale_by_dt(m.velocity.x, dti),
        y: scale_by_dt(m.velocity.y, dti),
        z: scale_by_dt(m.velocity.z, dti),
    };

    // Resolve the vertical motion alone, then the horizontal: this stops
    // corner tunnelling and keeps step-up a horizontal affair.
    let vertical = Vec3M { x: 0, y: m.velocity.y, z: 0 };
    let pos_vertical = Vec3M { x: position.x, y: position.y + step.y, z: position.z };
    let first = match resolve_blocks(&mut m, pos_vertical, vertical, world, blocks, dt_us) {
        Some(c) => c,
        None => {
            return None;
        },
    };

    let horizontal = Vec3M { x: m.velocity.x, y: 0, z: m.velocity.z };
    let pos_horizontal = Vec3M {
        x: position.x + step.x,
        y: position.y + step.y,
        z: position.z + step.z,
    };
    let second = match resolve_blocks(&mut m, pos_horizontal, horizontal, world, blocks, dt_us) {
        Some(c) => c,
        None => {
            return None;
        },
    };
    let resolved_velocity = m.velocity;

    // Commit the integrated step and both push-backs.
    position.x = position.x + step.x + first.move_back.x + second.move_back.x;
    position.y = position.y + step.y + first.move_back.y + second.move_back.y;
    position.z = position.z + step.z + first.move_back.z + second.move_back.z;

    m.is_climbing = first.climbing || second.climbing;
    let swimming = first.swimming || second.swimming;
    m.is_swimming = swimming;

    // Damp by the strongest friction or drag met, scaled to the tick.
    let mut fs = first.friction;
    if second.friction > fs {
        fs = second.friction;
    }
    let mut fx = first.drag.x;
    if second.drag.x > fx {
        fx = second.drag.x;
    }
    let mut fy = first.drag.y;
    if second.drag.y > fy {
        fy = second.drag.y;
    }
    let mut fz = first.drag.z;
    if second.drag.z > fz {
        fz = second.drag.z;
    }
    if fs > fx {
        fx = fs;
    }
    if fs > fy {
        fy = fs;
    }
    if fs > fz {
        fz = fs;
    }
    m.velocity.x = damp(m.velocity.x, fx, dt_us);
    m.velocity.y = damp(m.velocity.y, fy, dt_us);
    m.velocity.z = damp(m.velocity.z, fz, dt_us);

    // Leaving the water grants the bob that keeps a surface swim steady.
    m.velocity.y = swim_exit_bob(m.velocity.y, was_swimming, swimming);

    m.last_jump_us = if m.last_jump_us <= u64::MAX - dt_us {
        m.last_jump_us + dt_us
    } else {
        m.last_jump_us
    };
    *motion = m;
    Some(
        TickOutcome {
            vertical: first,
            horizontal: second,
            integrated_velocity,
            resolved_velocity,
            swimming,
        },
    )
}

} // verus!
