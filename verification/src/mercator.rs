use crate::source::XYZ;
use vstd::arithmetic::power2::{
    lemma2_to64, lemma2_to64_rest, lemma_pow2_pos, lemma_pow2_strictly_increases,
    lemma_pow2_unfold, pow2,
};
use vstd::prelude::*;

verus! {

/// Half the Web-Mercator world span in centimeters: 20037508.34 m.
/// The tiling coordinate space (SRID 3857) spans [-WORLD_CM, WORLD_CM]
/// on both axes.
pub const WORLD_CM: i64 = 2003750834;

/// Web-Mercator coordinate of the west edge of tile column `x` at zoom
/// `z`, expressed exactly as a numerator over the denominator 2^z, in
/// centimeters: the edge sits at `env_west_num(z, x) / 2^z` cm.
pub open spec fn env_west_num(z: nat, x: int) -> int {
    2 * 2003750834 * x - 2003750834 * (pow2(z) as int)
}

/// East edge of tile column `x` at zoom `z` (numerator over 2^z, cm):
/// the west edge of the next column.
pub open spec fn env_east_num(z: nat, x: int) -> int {
    env_west_num(z, x + 1)
}

/// North edge of tile row `y` at zoom `z` (numerator over 2^z, cm).
/// Row 0 is the northernmost row.
pub open spec fn env_north_num(z: nat, y: int) -> int {
    2003750834 * (pow2(z) as int) - 2 * 2003750834 * y
}

/// South edge of tile row `y` at zoom `z` (numerator over 2^z, cm):
/// the north edge of the next row.
pub open spec fn env_south_num(z: nat, y: int) -> int {
    env_north_num(z, y + 1)
}

/// The Web-Mercator envelope of one tile, held exactly: each edge's
/// coordinate in centimeters is the stored numerator divided by
/// 2^shift.
#[derive(Clone, Copy, Debug, PartialEq, Eq, Structural)]
pub struct Envelope {
    pub west: i128,
    pub south: i128,
    pub east: i128,
    pub north: i128,
    pub shift: u32,
}

/// `e` is the exact Web-Mercator envelope of tile `t`.
pub open spec fn is_envelope_of(e: Envelope, t: XYZ) -> bool {
    &&& e.shift == t.z
    &&& e.west as int == env_west_num(t.z as nat, t.x as int)
    &&& e.east as int == env_east_num(t.z as nat, t.x as int)
    &&& e.north as int == env_north_num(t.z as nat, t.y as int)
    &&& e.south as int == env_south_num(t.z as nat, t.y as int)
}

/// 2 raised to `z`, as a machine integer.
pub fn pow2_u64(z: u32) -> (r: u64)
    requires
        z <= 62,
    ensures
        r == pow2(z as nat),
{
    let mut r: u64 = 1;
    let mut i: u32 = 0;
    proof {
        lemma2_to64();
    }
    while i < z
        invariant
            i <= z <= 62,
            r == pow2(i as nat),
        decreases z - i,
    {
        proof {
            if (i as nat) < 62 {
                lemma_pow2_strictly_increases(i as nat, 62);
            }
            lemma2_to64_rest();
            lemma_pow2_unfold((i + 1) as nat);
        }
        r = r * 2;
        i = i + 1;
    }
    r
}

/// Computes the exact Web-Mercator envelope of tile `t` by the
/// standard tile-to-mercator formula: the world span is divided into
/// 2^z columns west to east and 2^z rows north to south.  The zoom
/// must leave the scaled numerators representable.
pub fn tile_envelope(t: &XYZ) -> (e: Envelope)
    requires
        t.z <= 30,
    ensures
        is_envelope_of(e, *t),
{
    let p: i128 = pow2_u64(t.z) as i128;
    proof {
        lemma_pow2_strictly_increases(t.z as nat, 31);
        lemma2_to64();
        lemma_pow2_pos(t.z as nat);
    }
    let x: i128 = t.x as i128;
    let y: i128 = t.y as i128;
    Envelope {
        west: 4007501668 * x - 2003750834 * p,
        east: 4007501668 * (x + 1) - 2003750834 * p,
        north: 2003750834 * p - 4007501668 * y,
        south: 2003750834 * p - 4007501668 * (y + 1),
        shift: t.z,
    }
}

/// Law: at zoom 0 the single tile's envelope covers the full world
/// extent, [-WORLD_CM, WORLD_CM] on both axes (the denominator 2^0 is
/// 1, so the numerators are the coordinates themselves).
pub proof fn lemma_envelope_zoom0_covers_world()
    ensures
        env_west_num(0, 0) == -(WORLD_CM as int),
        env_east_num(0, 0) == WORLD_CM as int,
        env_south_num(0, 0) == -(WORLD_CM as int),
        env_north_num(0, 0) == WORLD_CM as int,
{
    lemma2_to64();
}

/// Law: the four children of tile (z, x, y) exactly partition its
/// envelope.  Numerators at zoom z+1 carry the denominator 2^(z+1),
/// so a coordinate equal at both zooms has its numerator doubled:
/// the children's outer edges coincide with the parent's edges, and
/// on each axis the two inner edges meet at one shared cut.
pub proof fn lemma_children_partition_parent(z: nat, x: int, y: int)
    ensures
        env_west_num(z + 1, 2 * x) == 2 * env_west_num(z, x),
        env_east_num(z + 1, 2 * x + 1) == 2 * env_east_num(z, x),
        env_east_num(z + 1, 2 * x) == env_west_num(z + 1, 2 * x + 1),
        env_north_num(z + 1, 2 * y) == 2 * env_north_num(z, y),
        env_south_num(z + 1, 2 * y + 1) == 2 * env_south_num(z, y),
        env_south_num(z + 1, 2 * y) == env_north_num(z + 1, 2 * y + 1),
{
    lemma_pow2_unfold(z + 1);
    assert(pow2(z + 1) == 2 * pow2(z));
    assert(env_west_num(z + 1, 2 * x) == 2 * 2003750834 * (2 * x) - 2003750834 * (pow2(
        z + 1,
    ) as int));
    assert(env_west_num(z + 1, 2 * x) == 2 * env_west_num(z, x));
}

} // verus!
