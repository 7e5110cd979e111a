//! The player, the other things in the world, and the movement integrator.
//!
//! Movement is tested one axis at a time: the x part of a move is taken only
//! if the cell it leads to is open, then the y part likewise from where the
//! x part left the player. So a player walking into a wall at an angle
//! slides along it.
use vstd::prelude::*;
use crate::fixed::{rotate, Turn, Vec2, MAX_LEN, ONE};
use crate::input::InputState;
use crate::map::{default_grid, TileMap};
use crate::raycast::Camera;

verus! {

/// Cells per second that a held movement key moves the player, per unit of
/// vector length.
pub const MOVE_RATE: i64 = 5;

/// The camera plane the game starts with: 0.66 in fixed point.
pub const START_PLANE: i64 = 2834678415;

/// The player. It's you!
pub struct Player {
    pub alive: bool,
    pub position: Vec2,
    pub direction: Vec2,
}

impl Player {
    /// Standing at cell (22, 12), looking toward negative x.
    pub fn new() -> (r: Player)
        ensures
            r.alive,
            r.position.x == 22 * ONE,
            r.position.y == 12 * ONE,
            r.direction.x == -ONE,
            r.direction.y == 0,
    {
        Player { alive: true, position: Vec2 { x: 22 * ONE, y: 12 * ONE }, direction: Vec2 { x: -ONE, y: 0 } }
    }
}

/// Something else that lives on the map.
pub struct Mob {
    pub alive: bool,
    pub position: Vec2,
    /// Facing angle, in fixed-point radians.
    pub yaw: i64,
    pub sprite: usize,
}

impl Mob {
    pub fn new(position: Vec2) -> (r: Mob)
        ensures
            r.alive,
            r.position == position,
            r.yaw == 0,
            r.sprite == 0,
    {
        Mob { alive: true, position, yaw: 0, sprite: 0 }
    }
}

/// A shot in flight.
pub struct Bullet {
    pub position: Vec2,
    pub direction: Vec2,
}

impl Bullet {
    pub fn new(position: Vec2, direction: Vec2) -> (r: Bullet)
        ensures
            r.position == position,
            r.direction == direction,
    {
        Bullet { position, direction }
    }
}

/// The fixed-point distance moved in `dt_micros` microseconds at unit speed.
pub open spec fn move_speed(dt_micros: int) -> int {
    dt_micros * MOVE_RATE * ONE / 1_000_000
}

/// `v * speed`, in fixed point, rounded toward zero.
pub open spec fn scaled(v: int, speed: int) -> int {
    if v < 0 {
        -((-v) * speed / (ONE as int))
    } else {
        v * speed / (ONE as int)
    }
}

/// Whether the fixed-point point `(x, y)` lies in an open cell of the map.
pub open spec fn open_at(map: &TileMap, x: int, y: int) -> bool {
    x >= 0 && y >= 0 && !map.solid(x / (ONE as int), y / (ONE as int))
}

/// The point after a move by `(dx, dy)`, each axis taken only if it leads
/// into an open cell, x first.
pub open spec fn slide(map: &TileMap, p: Vec2, dx: int, dy: int) -> Vec2 {
    let px = if open_at(map, p.x + dx, p.y as int) {
        p.x + dx
    } else {
        p.x as int
    };
    let py = if open_at(map, px, p.y + dy) {
        p.y + dy
    } else {
        p.y as int
    };
    Vec2 { x: px as i64, y: py as i64 }
}

/// The position after one tick of held keys: forward, backward, strafe
/// right, strafe left, in that order, each by `speed` times its vector.
pub open spec fn moved(
    map: &TileMap,
    p: Vec2,
    dir: Vec2,
    plane: Vec2,
    speed: int,
    input: InputState,
) -> Vec2 {
    let fx = scaled(dir.x as int, speed);
    let fy = scaled(dir.y as int, speed);
    let sx = scaled(plane.x as int, speed);
    let sy = scaled(plane.y as int, speed);
    let p1 = if input.forward_down {
        slide(map, p, fx, fy)
    } else {
        p
    };
    let p2 = if input.backward_down {
        slide(map, p1, -fx, -fy)
    } else {
        p1
    };
    let p3 = if input.right_down {
        slide(map, p2, sx, sy)
    } else {
        p2
    };
    if input.left_down {
        slide(map, p3, -sx, -sy)
    } else {
        p3
    }
}

/// One move, x then y, from a point in an open cell ends in an open cell.
pub proof fn lemma_slide_stays_open(map: &TileMap, p: Vec2, dx: int, dy: int)
    requires
        map.wf(),
        open_at(map, p.x as int, p.y as int),
    ensures
        open_at(map, slide(map, p, dx, dy).x as int, slide(map, p, dx, dy).y as int),
{
    lemma_open_fits(map, p.x + dx, p.y as int);
    let px = if open_at(map, p.x + dx, p.y as int) {
        p.x + dx
    } else {
        p.x as int
    };
    lemma_open_fits(map, px, p.y + dy);
}

proof fn lemma_open_fits(map: &TileMap, x: int, y: int)
    requires
        map.wf(),
    ensures
        open_at(map, x, y) ==> 0 <= x < map.width * ONE && 0 <= y < map.height * ONE,
{
    if open_at(map, x, y) {
        assert(x / (ONE as int) < map.width);
        assert(y / (ONE as int) < map.height);
    }
}

/// The movement integrator never puts the player into a wall: whatever keys
/// are held and however long the tick, a player who starts in an open cell
/// ends the tick in an open cell. By induction, so does every sequence of
/// ticks.
pub proof fn lemma_moves_stay_open(
    map: &TileMap,
    p: Vec2,
    dir: Vec2,
    plane: Vec2,
    speed: int,
    input: InputState,
)
    requires
        map.wf(),
        open_at(map, p.x as int, p.y as int),
    ensures
        open_at(
            map,
            moved(map, p, dir, plane, speed, input).x as int,
            moved(map, p, dir, plane, speed, input).y as int,
        ),
{
    let fx = scaled(dir.x as int, speed);
    let fy = scaled(dir.y as int, speed);
    let sx = scaled(plane.x as int, speed);
    let sy = scaled(plane.y as int, speed);
    lemma_slide_stays_open(map, p, fx, fy);
    let p1 = if input.forward_down {
        slide(map, p, fx, fy)
    } else {
        p
    };
    lemma_slide_stays_open(map, p1, -fx, -fy);
    let p2 = if input.backward_down {
        slide(map, p1, -fx, -fy)
    } else {
        p1
    };
    lemma_slide_stays_open(map, p2, sx, sy);
    let p3 = if input.right_down {
        slide(map, p2, sx, sy)
    } else {
        p2
    };
    lemma_slide_stays_open(map, p3, -sx, -sy);
}

/// The master container for all worldly things: the player, enemies, map
/// data, bullets.
///
/// The view is kept as a total heading and the two vectors it turns:
/// `player.direction` and `plane` are always `base_direction` and
/// `base_plane` turned by the matrix of the heading, so rounding never
/// builds up over many turns.
pub struct World {
    pub player: Player,
    pub mobs: Vec<Mob>,
    /// Bullets in flight, each under a name of its own.
    pub bullet: Vec<(String, Bullet)>,
    pub map: TileMap,
    pub plane: Vec2,
    pub base_direction: Vec2,
    pub base_plane: Vec2,
    /// Total turn since the start, in thousandths of a radian.
    pub heading: i64,
}

fn scale(v: i64, speed: i64) -> (r: i64)
    requires
        -MAX_LEN <= v <= MAX_LEN,
        0 <= speed <= 0x8000_0000_0000,
    ensures
        r == scaled(v as int, speed as int),
        -0x8_0000_0000_0000 <= r <= 0x8_0000_0000_0000,
{
    let m: i128 = if v < 0 { -(v as i128) } else { v as i128 };
    assert(0 <= m * speed <= 0x10_0000_0000 * 0x8000_0000_0000) by (nonlinear_arith)
        requires
            0 <= m <= 0x10_0000_0000,
            0 <= speed <= 0x8000_0000_0000,
    ;
    let q: i128 = m * (speed as i128) / (ONE as i128);
    assert(0 <= q <= 0x8_0000_0000_0000) by (nonlinear_arith)
        requires
            0 <= m * speed <= 0x10_0000_0000 * 0x8000_0000_0000,
            q == m * speed / 0x1_0000_0000,
    ;
    if v < 0 {
        -(q as i64)
    } else {
        q as i64
    }
}

/// The heading after a tick whose mouse motion asks for a turn of
/// `-mouse_delta_x` thousandths of a radian, held within `i64`.
pub open spec fn heading_after(heading: int, mouse_delta_x: int) -> int {
    let h = heading - mouse_delta_x;
    if h < i64::MIN {
        i64::MIN as int
    } else if h > i64::MAX {
        i64::MAX as int
    } else {
        h
    }
}

/// No two bullets share a name.
pub open spec fn names_unique(bullet: Seq<(String, Bullet)>) -> bool {
    forall|i: int, j: int|
        0 <= i < bullet.len() && 0 <= j < bullet.len() && i != j ==> #[trigger] bullet[i].0@
            != #[trigger] bullet[j].0@
}

impl World {
    /// The map is walled all round, the player stands in an open cell, the
    /// view vectors are bounded, and no two bullets share a name.
    pub open spec fn wf(&self) -> bool {
        &&& self.map.wf()
        &&& self.map.border_solid()
        &&& open_at(&self.map, self.player.position.x as int, self.player.position.y as int)
        &&& self.player.direction.bounded()
        &&& self.plane.bounded()
        &&& self.base_direction.bounded()
        &&& self.base_plane.bounded()
        &&& names_unique(self.bullet@)
    }

    pub open spec fn camera_of(&self) -> Camera {
        Camera { position: self.player.position, direction: self.player.direction, plane: self.plane }
    }

    /// The default map, the player at cell (22, 12) looking toward negative
    /// x, a camera plane of 0.66 for a field of view of about 66 degrees.
    pub fn new() -> (r: World)
        ensures
            r.wf(),
            r.map.grid() == default_grid(),
            r.player.alive,
            r.player.position.x == 22 * ONE,
            r.player.position.y == 12 * ONE,
            r.player.direction.x == -ONE,
            r.player.direction.y == 0,
            r.plane == (Vec2 { x: 0, y: START_PLANE }),
            r.base_direction == r.player.direction,
            r.base_plane == r.plane,
            r.heading == 0,
            r.mobs@.len() == 0,
            r.bullet@.len() == 0,
    {
        let map = TileMap::new();
        assert((22 * ONE) as int / (ONE as int) == 22 && (12 * ONE) as int / (ONE as int) == 12);
        assert(!map.solid(22, 12));
        let player = Player::new();
        let plane = Vec2 { x: 0, y: START_PLANE };
        assert(plane.x == 0 && plane.y == 2834678415);
        assert(plane.len_sq() <= MAX_LEN * MAX_LEN) by (nonlinear_arith)
            requires
                plane.x == 0 && plane.y == 2834678415,
                MAX_LEN == 68719476736,
        ;
        assert(player.direction.len_sq() == ONE * ONE);
        let bullet: Vec<(String, Bullet)> = Vec::new();
        assert(names_unique(bullet@));
        World {
            base_direction: player.direction,
            player,
            mobs: Vec::new(),
            bullet,
            map,
            plane,
            base_plane: plane,
            heading: 0,
        }
    }

    pub fn camera(&self) -> (c: Camera)
        requires
            self.wf(),
        ensures
            c == self.camera_of(),
            c.fits(&self.map),
    {
        Camera { position: self.player.position, direction: self.player.direction, plane: self.plane }
    }

    /// The heading after a tick with this input.
    pub fn next_heading(&self, input: &InputState) -> (h: i64)
        ensures
            h == heading_after(self.heading as int, input.mouse_delta_x as int),
    {
        let m = input.mouse_delta_x;
        if m >= 0 {
            if self.heading < i64::MIN + m {
                i64::MIN
            } else {
                self.heading - m
            }
        } else {
            if self.heading > i64::MAX + m {
                i64::MAX
            } else {
                self.heading - m
            }
        }
    }

    /// Moves the player by `(dx, dy)`, one axis at a time, never into a
    /// solid cell.
    fn slide_player(&mut self, dx: i64, dy: i64)
        requires
            old(self).wf(),
            -0x8_0000_0000_0000 <= dx <= 0x8_0000_0000_0000,
            -0x8_0000_0000_0000 <= dy <= 0x8_0000_0000_0000,
        ensures
            final(self).wf(),
            final(self).player.position == slide(&old(self).map, old(self).player.position, dx as int, dy as int),
            final(self).player.direction == old(self).player.direction,
            final(self).player.alive == old(self).player.alive,
            final(self).plane == old(self).plane,
            final(self).map == old(self).map,
            final(self).mobs == old(self).mobs,
            final(self).bullet == old(self).bullet,
            final(self).base_direction == old(self).base_direction,
            final(self).base_plane == old(self).base_plane,
            final(self).heading == old(self).heading,
    {
        let p = self.player.position;
        assert(p.x < self.map.width * ONE && p.y < self.map.height * ONE);
        let tx = p.x + dx;
        if tx >= 0 && p.y >= 0 && self.map.is_open(tx / ONE, p.y / ONE) {
            self.player.position.x = tx;
        }
        let q = self.player.position;
        let ty = q.y + dy;
        if q.x >= 0 && ty >= 0 && self.map.is_open(q.x / ONE, ty / ONE) {
            self.player.position.y = ty;
        }
        assert(self.player.position.x < self.map.width * ONE);
        assert(self.player.position.y < self.map.height * ONE);
    }

    fn do_player_controls(&mut self, dt_micros: u32, input: &InputState, turn: Turn)
        requires
            old(self).wf(),
            turn.valid(),
        ensures
            final(self).wf(),
            final(self).player.position == moved(
                &old(self).map,
                old(self).player.position,
                old(self).player.direction,
                old(self).plane,
                move_speed(dt_micros as int),
                *input,
            ),
            final(self).player.direction == old(self).base_direction.rotated(turn),
            final(self).plane == old(self).base_plane.rotated(turn),
            final(self).player.direction.len_sq() <= old(self).base_direction.len_sq(),
            final(self).plane.len_sq() <= old(self).base_plane.len_sq(),
            final(self).player.direction.widened_len_sq() * (ONE * ONE) >= old(
                self,
            ).base_direction.len_sq() * ((ONE - 2) * (ONE - 2)),
            final(self).plane.widened_len_sq() * (ONE * ONE) >= old(self).base_plane.len_sq() * ((
            ONE - 2) * (ONE - 2)),
            final(self).heading == heading_after(old(self).heading as int, input.mouse_delta_x as int),
            final(self).player.alive == old(self).player.alive,
            final(self).map == old(self).map,
            final(self).mobs == old(self).mobs,
            final(self).bullet == old(self).bullet,
            final(self).base_direction == old(self).base_direction,
            final(self).base_plane == old(self).base_plane,
    {
        let wide: i128 = (dt_micros as i128) * (MOVE_RATE as i128) * (ONE as i128) / 1_000_000;
        assert(0 <= wide <= 0x8000_0000_0000) by (nonlinear_arith)
            requires
                wide == dt_micros * 5 * 0x1_0000_0000 / 1_000_000,
                0 <= dt_micros <= 0xffff_ffff,
        ;
        let speed = wide as i64;
        proof {
            crate::fixed::lemma_vec_components(self.player.direction);
            crate::fixed::lemma_vec_components(self.plane);
        }
        let fx = scale(self.player.direction.x, speed);
        let fy = scale(self.player.direction.y, speed);
        let sx = scale(self.plane.x, speed);
        let sy = scale(self.plane.y, speed);
        if input.forward_down {
            self.slide_player(fx, fy);
        }
        if input.backward_down {
            self.slide_player(-fx, -fy);
        }
        if input.right_down {
            self.slide_player(sx, sy);
        }
        if input.left_down {
            self.slide_player(-sx, -sy);
        }
        self.heading = self.next_heading(input);
        self.player.direction = rotate(self.base_direction, turn);
        self.plane = rotate(self.base_plane, turn);
    }

    /// One tick of the world: `dt_micros` microseconds of the keys held in
    /// `input`, then the view set to the heading that the mouse motion asks
    /// for. `turn` is the matrix of that new heading, `next_heading(input)`
    /// thousandths of a radian; the view vectors are the base vectors turned
    /// by it, so each tick rounds once and no error builds up.
    pub fn on_tick(&mut self, dt_micros: u32, input: &InputState, turn: Turn)
        requires
            old(self).wf(),
            turn.valid(),
        ensures
            final(self).wf(),
            final(self).player.position == moved(
                &old(self).map,
                old(self).player.position,
                old(self).player.direction,
                old(self).plane,
                move_speed(dt_micros as int),
                *input,
            ),
            final(self).player.direction == old(self).base_direction.rotated(turn),
            final(self).plane == old(self).base_plane.rotated(turn),
            final(self).player.direction.len_sq() <= old(self).base_direction.len_sq(),
            final(self).plane.len_sq() <= old(self).base_plane.len_sq(),
            final(self).player.direction.widened_len_sq() * (ONE * ONE) >= old(
                self,
            ).base_direction.len_sq() * ((ONE - 2) * (ONE - 2)),
            final(self).plane.widened_len_sq() * (ONE * ONE) >= old(self).base_plane.len_sq() * ((
            ONE - 2) * (ONE - 2)),
            final(self).heading == heading_after(old(self).heading as int, input.mouse_delta_x as int),
            final(self).player.alive == old(self).player.alive,
            final(self).map == old(self).map,
            final(self).mobs == old(self).mobs,
            final(self).bullet == old(self).bullet,
            final(self).base_direction == old(self).base_direction,
            final(self).base_plane == old(self).base_plane,
    {
        self.do_player_controls(dt_micros, input, turn);
    }
}

} // verus!
