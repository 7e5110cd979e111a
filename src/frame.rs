//! Filling an RGBA frame buffer from the ray caster's hits.
//!
//! Pixel `(x, y)` of a buffer with row stride `pitch` takes the four bytes
//! from `y * pitch + 4 * x`, in the order red, green, blue, alpha.
use vstd::prelude::*;
use vstd::arithmetic::div_mod::{lemma_fundamental_div_mod, lemma_fundamental_div_mod_converse};
use crate::column::{
    color_of, column_span, height_of, line_height, span_end, span_start, wall_color, Rgba,
};
use crate::map::TileMap;
use crate::raycast::{cast_column, hit_of, Camera, MAX_SCREEN};
use crate::world::World;

verus! {

/// Whether byte `i` belongs to rows `start..=end` of pixel column `x`.
pub open spec fn in_run(pitch: int, x: int, start: int, end: int, i: int) -> bool {
    &&& start <= i / pitch <= end
    &&& 4 * x <= i % pitch < 4 * x + 4
}

/// Byte `i` after rows `start..=end` of column `x` are painted `c`.
pub open spec fn run_byte(pitch: int, x: int, start: int, end: int, c: Rgba, old: u8, i: int) -> u8 {
    if in_run(pitch, x, start, end, i) {
        c.channel(i % pitch - 4 * x)
    } else {
        old
    }
}

/// Byte `i` of a `w` by `h` frame of the view from `cam`, over a buffer
/// that held `old` there: the wall's colour inside the column's run, `old`
/// elsewhere.
pub open spec fn frame_byte(
    map: &TileMap,
    cam: Camera,
    w: int,
    h: int,
    pitch: int,
    old: u8,
    i: int,
) -> u8 {
    let x = (i % pitch) / 4;
    if x < w {
        let hit = hit_of(map, cam, w, x);
        let lh = height_of(h, hit.dist_num as int, hit.dist_den as int);
        run_byte(
            pitch,
            x,
            span_start(h, lh),
            span_end(h, lh),
            color_of(hit.tile, hit.side),
            old,
            i,
        )
    } else {
        old
    }
}

/// Paints rows `start..=end` of pixel column `x` with `c`, leaving every
/// other byte as it was.
pub fn fill_run(buf: &mut Vec<u8>, pitch: usize, x: usize, start: usize, end: usize, c: Rgba)
    requires
        4 * x + 4 <= pitch,
        start <= end,
        end * pitch + 4 * x + 4 <= old(buf).len(),
    ensures
        final(buf).len() == old(buf).len(),
        forall|i: int|
            0 <= i < old(buf).len() ==> #[trigger] final(buf)@[i] == run_byte(
                pitch as int,
                x as int,
                start as int,
                end as int,
                c,
                old(buf)@[i],
                i,
            ),
{
    let ghost orig = buf@;
    assert(orig.len() == buf.len());
    let mut y: usize = start;
    while y <= end
        invariant
            4 * x + 4 <= pitch,
            start <= y <= end + 1,
            end * pitch + 4 * x + 4 <= orig.len(),
            orig.len() <= usize::MAX,
            buf@.len() == orig.len(),
            forall|i: int|
                0 <= i < orig.len() ==> #[trigger] buf@[i] == run_byte(
                    pitch as int,
                    x as int,
                    start as int,
                    y - 1,
                    c,
                    orig[i],
                    i,
                ),
        decreases end + 1 - y,
    {
        assert(y * pitch <= end * pitch) by (nonlinear_arith)
            requires
                y <= end,
        ;
        assert(end <= end * pitch) by (nonlinear_arith)
            requires
                pitch >= 4,
        ;
        let base = y * pitch + 4 * x;
        let ghost prev = buf@;
        buf.set(base, c.r);
        buf.set(base + 1, c.g);
        buf.set(base + 2, c.b);
        buf.set(base + 3, c.a);
        proof {
            let p = pitch as int;
            assert forall|i: int| 0 <= i < orig.len() implies #[trigger] buf@[i] == run_byte(
                p,
                x as int,
                start as int,
                y as int,
                c,
                orig[i],
                i,
            ) by {
                lemma_fundamental_div_mod(i, p);
                if base <= i < base + 4 {
                    lemma_fundamental_div_mod_converse(i, p, y as int, i - y * p);
                } else {
                    assert(buf@[i] == prev[i]);
                    if i / p == y && 4 * x <= i % p < 4 * x + 4 {
                        assert(i == (i / p) * p + i % p);
                        assert(false);
                    }
                }
            }
        }
        y = y + 1;
    }
}

/// Draws the walls of the map.
pub struct Renderer {
    pub texture_size: i32,
}

impl Renderer {
    pub fn new() -> (r: Renderer)
        ensures
            r.texture_size == 64,
    {
        Renderer { texture_size: 64 }
    }

    /// Paints the view of the world's player into a `w` by `h` frame.
    pub fn draw(&mut self, world: &World, w: u32, h: u32, buf: &mut Vec<u8>, pitch: usize)
        requires
            world.wf(),
            1 <= w <= MAX_SCREEN,
            1 <= h <= MAX_SCREEN,
            4 * w <= pitch,
            (h - 1) * pitch + 4 * w <= old(buf).len(),
        ensures
            *final(self) == *old(self),
            final(buf).len() == old(buf).len(),
            forall|i: int|
                0 <= i < old(buf).len() ==> #[trigger] final(buf)@[i] == frame_byte(
                    &world.map,
                    world.camera_of(),
                    w as int,
                    h as int,
                    pitch as int,
                    old(buf)@[i],
                    i,
                ),
    {
        let cam = world.camera();
        self.raycast(&world.map, &cam, w, h, buf, pitch);
    }

    /// Whether `draw` accepts a frame of this shape.
    pub fn frame_fits(w: u32, h: u32, len: usize, pitch: usize) -> (r: bool)
        ensures
            r == (1 <= w <= MAX_SCREEN && 1 <= h <= MAX_SCREEN && 4 * w <= pitch && (h - 1) * pitch
                + 4 * w <= len),
    {
        if w < 1 || w > MAX_SCREEN || h < 1 || h > MAX_SCREEN || (pitch as u64) < 4 * (w as u64) {
            return false;
        }
        let rows = (h - 1) as u128;
        assert(rows * pitch <= 8192 * 0xffff_ffff_ffff_ffff) by (nonlinear_arith)
            requires
                rows <= 8192,
                pitch <= 0xffff_ffff_ffff_ffff,
        ;
        let need = rows * (pitch as u128) + 4 * (w as u128);
        need <= len as u128
    }

    /// Casts one ray per column of a `w` by `h` frame and paints each
    /// column's wall run into `buf`, whose rows are `pitch` bytes apart.
    /// Bytes outside every run are left as they were.
    pub fn raycast(&self, map: &TileMap, cam: &Camera, w: u32, h: u32, buf: &mut Vec<u8>, pitch: usize)
        requires
            map.wf(),
            cam.fits(map),
            1 <= w <= MAX_SCREEN,
            1 <= h <= MAX_SCREEN,
            4 * w <= pitch,
            (h - 1) * pitch + 4 * w <= old(buf).len(),
        ensures
            final(buf).len() == old(buf).len(),
            forall|i: int|
                0 <= i < old(buf).len() ==> #[trigger] final(buf)@[i] == frame_byte(
                    map,
                    *cam,
                    w as int,
                    h as int,
                    pitch as int,
                    old(buf)@[i],
                    i,
                ),
    {
        let ghost orig = buf@;
        let mut col: u32 = 0;
        while col < w
            invariant
                map.wf(),
                cam.fits(map),
                1 <= w <= MAX_SCREEN,
                1 <= h <= MAX_SCREEN,
                4 * w <= pitch,
                (h - 1) * pitch + 4 * w <= orig.len(),
                col <= w,
                buf@.len() == orig.len(),
                forall|i: int|
                    0 <= i < orig.len() ==> #[trigger] buf@[i] == if (i % pitch as int) / 4 < col {
                        frame_byte(map, *cam, w as int, h as int, pitch as int, orig[i], i)
                    } else {
                        orig[i]
                    },
            decreases w - col,
        {
            let hit = cast_column(map, cam, w, col);
            let lh = line_height(h, hit.dist_num, hit.dist_den);
            let (start, end) = column_span(h, lh);
            let c = wall_color(hit.tile, hit.side);
            assert((end as int) * (pitch as int) <= (h as int - 1) * (pitch as int)) by (
            nonlinear_arith)
                requires
                    end <= h - 1,
            ;
            let ghost prev = buf@;
            fill_run(buf, pitch, col as usize, start as usize, end as usize, c);
            proof {
                let p = pitch as int;
                assert forall|i: int| 0 <= i < orig.len() implies #[trigger] buf@[i] == if (i % p)
                    / 4 < col + 1 {
                    frame_byte(map, *cam, w as int, h as int, p, orig[i], i)
                } else {
                    orig[i]
                } by {
                    assert(buf@[i] == run_byte(p, col as int, start as int, end as int, c, prev[i], i));
                    lemma_fundamental_div_mod(i, p);
                    if (i % p) / 4 != col as int {
                        assert(!in_run(p, col as int, start as int, end as int, i));
                    }
                }
            }
            col = col + 1;
        }
    }
}

} // verus!
