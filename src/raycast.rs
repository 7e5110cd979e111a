//! Grid ray casting (DDA) from a camera pose, one ray per screen column.
//!
//! A ray for column `col` of a `w`-column image has the direction
//! `direction + plane * (2 * col / w - 1)`. Scaled by `ONE * w` this is an
//! integer vector, so the caster compares distances exactly: the distance to
//! the next vertical grid line is `nx / |rx|` and to the next horizontal one
//! `ny / |ry|` (up to a common factor), and `nx * |ry| < ny * |rx|` decides
//! which one the ray crosses first.
use vstd::prelude::*;
use crate::fixed::{abs, Vec2, ONE, MAX_LEN};
use crate::map::{TileMap, MAX_DIM};

verus! {

/// Largest image width or height the caster accepts, in pixels.
pub const MAX_SCREEN: u32 = 8192;


/// Where the eye is and where it looks.
#[derive(Clone, Copy, Debug, PartialEq, Eq, Structural)]
pub struct Camera {
    pub position: Vec2,
    pub direction: Vec2,
    pub plane: Vec2,
}

impl Camera {
    /// The camera stands on the map and its vectors are bounded.
    pub open spec fn fits(&self, map: &TileMap) -> bool {
        &&& 0 <= self.position.x < map.width * ONE
        &&& 0 <= self.position.y < map.height * ONE
        &&& self.direction.bounded()
        &&& self.plane.bounded()
    }
}

/// What a ray hit.
#[derive(Clone, Copy, Debug, PartialEq, Eq, Structural)]
pub struct WallHit {
    /// The cell that stopped the ray.
    pub map_x: i64,
    pub map_y: i64,
    /// `0` when the ray last crossed a vertical grid line, `1` a horizontal one.
    pub side: u8,
    /// The tile of that cell; `0` if the cell is off the map.
    pub tile: u8,
    /// The distance from the camera plane, `dist_num / dist_den` cells.
    pub dist_num: u64,
    pub dist_den: u64,
    /// How many cells the ray stepped through.
    pub steps: u32,
}

/// The state of a ray between two steps.
pub struct RayState {
    pub cx: int,
    pub cy: int,
    /// Distances to the next vertical and horizontal grid line, scaled.
    pub nx: int,
    pub ny: int,
    pub side: int,
    pub steps: nat,
}

pub open spec fn step_dir(a: int) -> int {
    if a < 0 {
        -1
    } else {
        1
    }
}

/// The ray's x direction for column `col`, scaled by `ONE * w`.
pub open spec fn ray_x(cam: Camera, w: int, col: int) -> int {
    cam.direction.x * w + cam.plane.x * (2 * col - w)
}

pub open spec fn ray_y(cam: Camera, w: int, col: int) -> int {
    cam.direction.y * w + cam.plane.y * (2 * col - w)
}

/// Distance along one axis from `p` to the first grid line in direction `r`.
pub open spec fn first_gap(p: int, r: int) -> int {
    if r < 0 {
        p - (p / (ONE as int)) * ONE
    } else {
        (p / (ONE as int) + 1) * ONE - p
    }
}

pub open spec fn ray_start(cam: Camera, w: int, col: int) -> RayState {
    RayState {
        cx: (cam.position.x as int) / (ONE as int),
        cy: (cam.position.y as int) / (ONE as int),
        nx: first_gap(cam.position.x as int, ray_x(cam, w, col)),
        ny: first_gap(cam.position.y as int, ray_y(cam, w, col)),
        side: 0,
        steps: 0,
    }
}

/// One step: into the next cell along whichever grid line the ray meets first.
pub open spec fn ray_advance(s: RayState, rx: int, ry: int) -> RayState {
    if s.nx * abs(ry) < s.ny * abs(rx) {
        RayState { cx: s.cx + step_dir(rx), nx: s.nx + ONE, side: 0, steps: s.steps + 1, ..s }
    } else {
        RayState { cy: s.cy + step_dir(ry), ny: s.ny + ONE, side: 1, steps: s.steps + 1, ..s }
    }
}

/// Steps until the ray enters a solid cell, at most `fuel` times.
pub open spec fn ray_walk(map: &TileMap, s: RayState, rx: int, ry: int, fuel: nat) -> RayState
    decreases fuel,
{
    if fuel == 0 {
        s
    } else {
        let n = ray_advance(s, rx, ry);
        if map.solid(n.cx, n.cy) {
            n
        } else {
            ray_walk(map, n, rx, ry, (fuel - 1) as nat)
        }
    }
}

/// The state in which the ray for column `col` stops.
pub open spec fn ray_end(map: &TileMap, cam: Camera, w: int, col: int) -> RayState {
    ray_walk(
        map,
        ray_start(cam, w, col),
        ray_x(cam, w, col),
        ray_y(cam, w, col),
        (map.width + map.height) as nat,
    )
}

/// Numerator of the perpendicular wall distance in cells.
pub open spec fn dist_num_of(s: RayState, w: int) -> int {
    if s.side == 0 {
        (s.nx - ONE) * w
    } else {
        (s.ny - ONE) * w
    }
}

/// Denominator of the perpendicular wall distance in cells.
pub open spec fn dist_den_of(s: RayState, rx: int, ry: int) -> int {
    if s.side == 0 {
        abs(rx)
    } else {
        abs(ry)
    }
}

/// The hit record for column `col`.
pub open spec fn hit_of(map: &TileMap, cam: Camera, w: int, col: int) -> WallHit {
    let s = ray_end(map, cam, w, col);
    WallHit {
        map_x: s.cx as i64,
        map_y: s.cy as i64,
        side: s.side as u8,
        tile: if map.in_bounds(s.cx, s.cy) {
            map.tile(s.cx, s.cy)
        } else {
            0
        },
        dist_num: dist_num_of(s, w) as u64,
        dist_den: dist_den_of(s, ray_x(cam, w, col), ray_y(cam, w, col)) as u64,
        steps: s.steps as u32,
    }
}

spec fn state_of(cx: i64, cy: i64, nx: i64, ny: i64, side: u8, steps: u32) -> RayState {
    RayState {
        cx: cx as int,
        cy: cy as int,
        nx: nx as int,
        ny: ny as int,
        side: side as int,
        steps: steps as nat,
    }
}

/// The measure that each step lowers: cells left to the edge of the map
/// along both axes, in the ray's directions.
pub open spec fn cells_ahead(map: &TileMap, cx: int, cy: int, rx: int, ry: int) -> int {
    (if rx < 0 {
        cx + 1
    } else {
        map.width - cx
    }) + (if ry < 0 {
        cy + 1
    } else {
        map.height - cy
    })
}

proof fn lemma_ray_bounds(cam: Camera, w: int, col: int)
    requires
        cam.direction.bounded(),
        cam.plane.bounded(),
        1 <= w <= MAX_SCREEN,
        0 <= col < w,
    ensures
        abs(ray_x(cam, w, col)) <= 2 * MAX_LEN * MAX_SCREEN,
        abs(ray_y(cam, w, col)) <= 2 * MAX_LEN * MAX_SCREEN,
        -(MAX_LEN * MAX_SCREEN) <= cam.direction.x * w <= MAX_LEN * MAX_SCREEN,
        -(MAX_LEN * MAX_SCREEN) <= cam.plane.x * (2 * col - w) <= MAX_LEN * MAX_SCREEN,
        -(MAX_LEN * MAX_SCREEN) <= cam.direction.y * w <= MAX_LEN * MAX_SCREEN,
        -(MAX_LEN * MAX_SCREEN) <= cam.plane.y * (2 * col - w) <= MAX_LEN * MAX_SCREEN,
{
    crate::fixed::lemma_vec_components(cam.direction);
    crate::fixed::lemma_vec_components(cam.plane);
    let m = MAX_LEN as int;
    let s = MAX_SCREEN as int;
    assert(-(m * s) <= cam.direction.x * w <= m * s) by (nonlinear_arith)
        requires
            -m <= cam.direction.x <= m,
            1 <= w <= s,
    ;
    assert(-(m * s) <= cam.plane.x * (2 * col - w) <= m * s) by (nonlinear_arith)
        requires
            -m <= cam.plane.x <= m,
            -w <= 2 * col - w <= w,
            1 <= w <= s,
    ;
    assert(-(m * s) <= cam.direction.y * w <= m * s) by (nonlinear_arith)
        requires
            -m <= cam.direction.y <= m,
            1 <= w <= s,
    ;
    assert(-(m * s) <= cam.plane.y * (2 * col - w) <= m * s) by (nonlinear_arith)
        requires
            -m <= cam.plane.y <= m,
            -w <= 2 * col - w <= w,
            1 <= w <= s,
    ;
}

proof fn lemma_wide_product(a: int, b: int)
    requires
        i64::MIN <= a <= i64::MAX,
        i64::MIN <= b <= i64::MAX,
    ensures
        i128::MIN <= a * b <= i128::MAX,
{
    assert(-0x4000_0000_0000_0000_0000_0000_0000_0000 <= a * b <= 0x4000_0000_0000_0000_0000_0000_0000_0000) by (nonlinear_arith)
        requires
            -0x8000_0000_0000_0000 <= a <= 0x8000_0000_0000_0000,
            -0x8000_0000_0000_0000 <= b <= 0x8000_0000_0000_0000,
    ;
}

/// The camera stands strictly inside a cell, on no grid line.
pub open spec fn off_grid(p: Vec2) -> bool {
    p.x % ONE != 0 && p.y % ONE != 0
}

spec fn keeps_positive(s: RayState, rx: int, ry: int) -> bool {
    &&& s.nx > 0
    &&& s.ny > 0
    &&& s.steps > 0 ==> (s.side == 0 ==> s.nx > ONE && rx != 0) && (s.side == 1 ==> s.ny > ONE
        && ry != 0)
}

proof fn lemma_walk_positive(map: &TileMap, s: RayState, rx: int, ry: int, fuel: nat)
    requires
        keeps_positive(s, rx, ry),
        rx != 0 || ry != 0,
    ensures
        keeps_positive(ray_walk(map, s, rx, ry, fuel), rx, ry),
        fuel > 0 ==> ray_walk(map, s, rx, ry, fuel).steps > s.steps,
    decreases fuel,
{
    if fuel > 0 {
        let n = ray_advance(s, rx, ry);
        if s.nx * abs(ry) < s.ny * abs(rx) {
            assert(rx != 0) by (nonlinear_arith)
                requires
                    s.nx * abs(ry) < s.ny * abs(rx),
                    s.nx > 0,
                    abs(ry) >= 0,
                    rx == 0 ==> abs(rx) == 0,
            ;
        } else {
            assert(ry != 0) by (nonlinear_arith)
                requires
                    s.nx * abs(ry) >= s.ny * abs(rx),
                    s.ny > 0,
                    rx != 0 || ry != 0,
                    ry == 0 ==> abs(ry) == 0,
                    rx != 0 ==> abs(rx) > 0,
            ;
        }
        assert(keeps_positive(n, rx, ry));
        if !map.solid(n.cx, n.cy) {
            lemma_walk_positive(map, n, rx, ry, (fuel - 1) as nat);
        }
    }
}

/// A camera that stands on no grid line, casting a ray that is not the zero
/// vector, sees every wall at a distance greater than zero.
pub proof fn lemma_distance_positive(map: &TileMap, cam: Camera, w: int, col: int)
    requires
        map.wf(),
        cam.fits(map),
        1 <= w <= MAX_SCREEN,
        0 <= col < w,
        off_grid(cam.position),
        ray_x(cam, w, col) != 0 || ray_y(cam, w, col) != 0,
    ensures
        dist_num_of(ray_end(map, cam, w, col), w) > 0,
        dist_den_of(ray_end(map, cam, w, col), ray_x(cam, w, col), ray_y(cam, w, col)) > 0,
{
    let rx = ray_x(cam, w, col);
    let ry = ray_y(cam, w, col);
    let st = ray_start(cam, w, col);
    let px = cam.position.x as int;
    let py = cam.position.y as int;
    let o = ONE as int;
    assert(px % o != 0 && py % o != 0);
    assert(st.nx > 0 && st.ny > 0) by (nonlinear_arith)
        requires
            st.nx == (if rx < 0 { px - (px / o) * o } else { (px / o + 1) * o - px }),
            st.ny == (if ry < 0 { py - (py / o) * o } else { (py / o + 1) * o - py }),
            o > 0,
            px % o != 0,
            py % o != 0,
            px == (px / o) * o + px % o,
            py == (py / o) * o + py % o,
            0 <= px % o < o,
            0 <= py % o < o,
    ;
    lemma_walk_positive(map, st, rx, ry, (map.width + map.height) as nat);
    let e = ray_end(map, cam, w, col);
    assert(e.side == 0 || e.side == 1) by {
        lemma_walk_side(map, st, rx, ry, (map.width + map.height) as nat);
    }
    assert(dist_num_of(e, w) > 0) by (nonlinear_arith)
        requires
            e.side == 0 ==> e.nx > ONE,
            e.side == 1 ==> e.ny > ONE,
            e.side == 0 || e.side == 1,
            w >= 1,
            dist_num_of(e, w) == if e.side == 0 {
                (e.nx - ONE) * w
            } else {
                (e.ny - ONE) * w
            },
    ;
}

proof fn lemma_walk_side(map: &TileMap, s: RayState, rx: int, ry: int, fuel: nat)
    requires
        s.side == 0 || s.side == 1,
    ensures
        ray_walk(map, s, rx, ry, fuel).side == 0 || ray_walk(map, s, rx, ry, fuel).side == 1,
    decreases fuel,
{
    if fuel > 0 {
        let n = ray_advance(s, rx, ry);
        if !map.solid(n.cx, n.cy) {
            lemma_walk_side(map, n, rx, ry, (fuel - 1) as nat);
        }
    }
}

/// Casts the ray of column `col` of a `w`-column image and reports the first
/// solid cell it enters after its starting cell.
pub fn cast_column(map: &TileMap, cam: &Camera, w: u32, col: u32) -> (hit: WallHit)
    requires
        map.wf(),
        cam.fits(map),
        1 <= w <= MAX_SCREEN,
        col < w,
    ensures
        hit == hit_of(map, *cam, w as int, col as int),
        map.solid(hit.map_x as int, hit.map_y as int),
        hit.steps <= map.width + map.height,
        hit.side == 0 || hit.side == 1,
        map.border_solid() && map.interior(cam.position.x / ONE, cam.position.y / ONE)
            ==> map.in_bounds(hit.map_x as int, hit.map_y as int) && hit.tile != 0,
        off_grid(cam.position) && (ray_x(*cam, w as int, col as int) != 0 || ray_y(
            *cam,
            w as int,
            col as int,
        ) != 0) ==> hit.dist_num > 0 && hit.dist_den > 0,
{
    let ghost rx = ray_x(*cam, w as int, col as int);
    let ghost ry = ray_y(*cam, w as int, col as int);
    let ghost fuel = (map.width + map.height) as nat;
    proof {
        lemma_ray_bounds(*cam, w as int, col as int);
        crate::fixed::lemma_vec_components(cam.direction);
        crate::fixed::lemma_vec_components(cam.plane);
    }
    let wi = w as i64;
    let span = 2 * (col as i64) - wi;
    let rdx = cam.direction.x * wi + cam.plane.x * span;
    let rdy = cam.direction.y * wi + cam.plane.y * span;
    assert(rdx == rx && rdy == ry);
    let adx: i64 = if rdx < 0 { -rdx } else { rdx };
    let ady: i64 = if rdy < 0 { -rdy } else { rdy };
    let sx: i64 = if rdx < 0 { -1 } else { 1 };
    let sy: i64 = if rdy < 0 { -1 } else { 1 };
    let px = cam.position.x;
    let py = cam.position.y;
    let mut cx: i64 = px / ONE;
    let mut cy: i64 = py / ONE;
    let mut nx: i64 = if rdx < 0 { px - cx * ONE } else { (cx + 1) * ONE - px };
    let mut ny: i64 = if rdy < 0 { py - cy * ONE } else { (cy + 1) * ONE - py };
    let mut side: u8 = 0;
    let mut steps: u32 = 0;
    let ghost start = ray_start(*cam, w as int, col as int);
    let ghost m0 = cells_ahead(map, cx as int, cy as int, rx, ry);
    assert(0 <= cx < map.width) by (nonlinear_arith)
        requires
            0 <= px < map.width * ONE,
            cx == px / ONE,
    ;
    assert(0 <= cy < map.height) by (nonlinear_arith)
        requires
            0 <= py < map.height * ONE,
            cy == py / ONE,
    ;
    let ghost walled = map.border_solid() && map.interior(cx as int, cy as int);
    let mut hit = false;
    while !hit
        invariant
            map.wf(),
            adx == abs(rx),
            ady == abs(ry),
            sx == step_dir(rx),
            sy == step_dir(ry),
            0 <= adx <= 2 * MAX_LEN * MAX_SCREEN,
            0 <= ady <= 2 * MAX_LEN * MAX_SCREEN,
            fuel == map.width + map.height,
            m0 <= map.width + map.height,
            -1 <= cx <= map.width,
            -1 <= cy <= map.height,
            0 <= nx <= ONE * (1 + steps),
            0 <= ny <= ONE * (1 + steps),
            side == 0 || side == 1,
            steps > 0 ==> (side == 0 ==> nx >= ONE) && (side == 1 ==> ny >= ONE),
            hit ==> steps > 0,
            steps + cells_ahead(map, cx as int, cy as int, rx, ry) == m0,
            !hit ==> map.in_bounds(cx as int, cy as int),
            !hit ==> ray_walk(map, state_of(cx, cy, nx, ny, side, steps), rx, ry, (fuel - steps) as nat)
                == ray_walk(map, start, rx, ry, fuel),
            hit ==> state_of(cx, cy, nx, ny, side, steps) == ray_walk(map, start, rx, ry, fuel),
            hit ==> map.solid(cx as int, cy as int),
            walled ==> map.border_solid(),
            walled ==> (!hit ==> map.interior(cx as int, cy as int)) && (hit ==> map.in_bounds(
                cx as int,
                cy as int,
            )),
        decreases cells_ahead(map, cx as int, cy as int, rx, ry),
    {
        let ghost cur = state_of(cx, cy, nx, ny, side, steps);
        proof {
            lemma_wide_product(nx as int, ady as int);
            lemma_wide_product(ny as int, adx as int);
        }
        if (nx as i128) * (ady as i128) < (ny as i128) * (adx as i128) {
            cx = cx + sx;
            nx = nx + ONE;
            side = 0;
        } else {
            cy = cy + sy;
            ny = ny + ONE;
            side = 1;
        }
        steps = steps + 1;
        let ghost next = state_of(cx, cy, nx, ny, side, steps);
        assert(next == ray_advance(cur, rx, ry));
        if !map.is_open(cx, cy) {
            hit = true;
        }
        proof {
            if walled && !hit {
                map.lemma_open_is_interior(cx as int, cy as int);
            }
        }
    }
    assert(steps <= 2 * MAX_DIM);
    assert((side == 0 ==> 0 <= (nx - ONE) * w <= 8804682956800 * 8192) && (side == 1 ==> 0 <= (ny
        - ONE) * w <= 8804682956800 * 8192)) by (nonlinear_arith)
        requires
            side == 0 ==> 0 <= nx - ONE <= 8804682956800,
            side == 1 ==> 0 <= ny - ONE <= 8804682956800,
            0 <= w <= 8192,
            side == 0 || side == 1,
    ;
    let tile: u8 = match map.tile_at(cx, cy) {
        Some(t) => t,
        None => 0,
    };
    let (dist_num, dist_den) = if side == 0 {
        ((nx - ONE) as u64 * w as u64, adx as u64)
    } else {
        ((ny - ONE) as u64 * w as u64, ady as u64)
    };
    proof {
        if off_grid(cam.position) && (rx != 0 || ry != 0) {
            lemma_distance_positive(map, *cam, w as int, col as int);
        }
    }
    WallHit { map_x: cx, map_y: cy, side, tile, dist_num, dist_den, steps }
}

} // verus!
