//! Integer map geometry: squared distances, movement thresholds, and the
//! coarse direction and location descriptions used in advisories.

use vstd::prelude::*;
use vstd::math::abs;

verus! {

/// Squared Euclidean distance between two integer map positions.
pub open spec fn spec_distance_squared(a: (int, int), b: (int, int)) -> int {
    (a.0 - b.0) * (a.0 - b.0) + (a.1 - b.1) * (a.1 - b.1)
}

/// Squared distance between two map positions, exact in integers.
pub fn distance_squared(p1: (i32, i32), p2: (i32, i32)) -> (r: i128)
    ensures
        r as int == spec_distance_squared(
            (p1.0 as int, p1.1 as int),
            (p2.0 as int, p2.1 as int),
        ),
        r >= 0,
{
    let dx: i128 = p1.0 as i128 - p2.0 as i128;
    let dy: i128 = p1.1 as i128 - p2.1 as i128;
    proof {
        assert(0 <= dx * dx <= 0x10000000000000000) by (nonlinear_arith)
            requires -0x100000000 <= dx <= 0x100000000;
        assert(0 <= dy * dy <= 0x10000000000000000) by (nonlinear_arith)
            requires -0x100000000 <= dy <= 0x100000000;
    }
    dx * dx + dy * dy
}

/// Whether a position change is large enough to call a relocation: more than
/// a thousand map units between the two points.
pub fn has_moved_significantly(old_pos: (i32, i32), new_pos: (i32, i32)) -> (r: bool)
    ensures
        r == (spec_distance_squared(
            (old_pos.0 as int, old_pos.1 as int),
            (new_pos.0 as int, new_pos.1 as int),
        ) > 1000000),
{
    distance_squared(old_pos, new_pos) > 1000000
}

/// Whether a position lies in the contested central area of the map.
pub open spec fn spec_position_dangerous(x: int, y: int) -> bool {
    -1000 < x < 1000 && -1000 < y < 1000
}

/// Whether a position lies inside the contested central square of the map.
pub fn is_position_dangerous(position: &(i32, i32)) -> (r: bool)
    ensures
        r == spec_position_dangerous(position.0 as int, position.1 as int),
{
    position.0 > -1000 && position.0 < 1000 && position.1 > -1000 && position.1 < 1000
}

/// Compass direction of a displacement: a axis name when one component clearly
/// dominates (more than twice the other), a diagonal otherwise.
pub open spec fn spec_relative_direction(dx: int, dy: int) -> Seq<char> {
    if abs(dx) > abs(dy) * 2 {
        if dx > 0 {
            "east"@
        } else {
            "west"@
        }
    } else if abs(dy) > abs(dx) * 2 {
        if dy > 0 {
            "north"@
        } else {
            "south"@
        }
    } else if dx > 0 && dy > 0 {
        "northeast"@
    } else if dx > 0 && dy < 0 {
        "southeast"@
    } else if dx < 0 && dy > 0 {
        "northwest"@
    } else {
        "southwest"@
    }
}

/// Verbal distance band for a squared distance between two positions.
pub open spec fn spec_distance_band(d2: int) -> Seq<char> {
    if d2 < 1000000 {
        "very close to you"@
    } else if d2 < 4000000 {
        "nearby"@
    } else if d2 < 16000000 {
        "at medium distance"@
    } else {
        "far away"@
    }
}

/// Description of an observed position relative to the player's own: a
/// distance band and a compass direction.
pub open spec fn spec_relative_position(player: (int, int), enemy: (int, int)) -> Seq<char> {
    spec_distance_band(spec_distance_squared(player, enemy)) + " to the "@
        + spec_relative_direction(enemy.0 - player.0, enemy.1 - player.1)
}

/// Describe where an enemy position lies relative to the player: how far
/// ("very close to you" through "far away") and toward which compass point.
pub fn describe_position_relative_to_player(player_pos: (i32, i32), enemy_pos: (i32, i32)) -> (r:
    String)
    ensures
        r@ == spec_relative_position(
            (player_pos.0 as int, player_pos.1 as int),
            (enemy_pos.0 as int, enemy_pos.1 as int),
        ),
{
    let d2 = distance_squared(player_pos, enemy_pos);
    let band: &str = if d2 < 1000000 {
        "very close to you"
    } else if d2 < 4000000 {
        "nearby"
    } else if d2 < 16000000 {
        "at medium distance"
    } else {
        "far away"
    };
    let dx: i64 = enemy_pos.0 as i64 - player_pos.0 as i64;
    let dy: i64 = enemy_pos.1 as i64 - player_pos.1 as i64;
    let adx: i64 = if dx < 0 {
        -dx
    } else {
        dx
    };
    let ady: i64 = if dy < 0 {
        -dy
    } else {
        dy
    };
    let dir: &str = if adx > ady * 2 {
        if dx > 0 {
            "east"
        } else {
            "west"
        }
    } else if ady > adx * 2 {
        if dy > 0 {
            "north"
        } else {
            "south"
        }
    } else if dx > 0 && dy > 0 {
        "northeast"
    } else if dx > 0 && dy < 0 {
        "southeast"
    } else if dx < 0 && dy > 0 {
        "northwest"
    } else {
        "southwest"
    };
    let mut s = band.to_owned();
    s.append(" to the ");
    s.append(dir);
    proof {
        assert(s@ =~= spec_relative_position(
            (player_pos.0 as int, player_pos.1 as int),
            (enemy_pos.0 as int, enemy_pos.1 as int),
        ));
    }
    s
}

/// Approximate named region of the map for an integer position.
pub open spec fn spec_map_location(x: int, y: int) -> Seq<char> {
    if x > 5000 && y > 5000 {
        "Radiant jungle"@
    } else if x > 3000 && y < -3000 {
        "Dire jungle"@
    } else if abs(x) < 3000 && abs(y) < 3000 {
        "mid lane area"@
    } else if x > 0 && y > 0 {
        "Radiant top lane"@
    } else if x < 0 && y > 0 {
        "Radiant bottom lane"@
    } else if x > 0 && y < 0 {
        "Dire top lane"@
    } else {
        "Dire bottom lane"@
    }
}

/// Name the approximate map region that a position falls in.
pub fn describe_map_location(position: (i32, i32)) -> (r: String)
    ensures
        r@ == spec_map_location(position.0 as int, position.1 as int),
{
    let x: i64 = position.0 as i64;
    let y: i64 = position.1 as i64;
    let ax: i64 = if x < 0 {
        -x
    } else {
        x
    };
    let ay: i64 = if y < 0 {
        -y
    } else {
        y
    };
    let name: &str = if x > 5000 && y > 5000 {
        "Radiant jungle"
    } else if x > 3000 && y < -3000 {
        "Dire jungle"
    } else if ax < 3000 && ay < 3000 {
        "mid lane area"
    } else if x > 0 && y > 0 {
        "Radiant top lane"
    } else if x < 0 && y > 0 {
        "Radiant bottom lane"
    } else if x > 0 && y < 0 {
        "Dire top lane"
    } else {
        "Dire bottom lane"
    };
    name.to_owned()
}

} // verus!
