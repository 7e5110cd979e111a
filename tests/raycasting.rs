use boom::column::{column_span, line_height, wall_color, Rgba, HEIGHT_CAP};
use boom::fixed::{rotate, Turn, Vec2, ONE};
use boom::frame::{fill_run, Renderer};
use boom::map::{is_wall, MapError, TileMap};
use boom::raycast::{cast_column, Camera};
use boom::world::{World, START_PLANE};

/// A room `w` cells wide and `h` tall, walled on its outer edge with tile `t`.
fn room(w: usize, h: usize, t: u8) -> Vec<Vec<u8>> {
    let mut cols = Vec::new();
    for x in 0..w {
        let mut col = Vec::new();
        for y in 0..h {
            let edge = x == 0 || y == 0 || x == w - 1 || y == h - 1;
            col.push(if edge { t } else { 0 });
        }
        cols.push(col);
    }
    cols
}

fn frac(x: f64) -> i64 {
    (x * ONE as f64) as i64
}

fn half() -> i64 {
    ONE / 2
}

#[test]
fn center_column_hits_wall_at_end_of_corridor() {
    // Open cells 1..=d along x; the player stands in the middle of cell d,
    // looking toward negative x: the wall face at x = 1 is d - 0.5 away.
    for d in 1..8i64 {
        let map = TileMap::from_columns(room(d as usize + 3, 5, 1)).unwrap();
        let cam = Camera {
            position: Vec2::new(d * ONE + half(), 2 * ONE + half()),
            direction: Vec2::new(-ONE, 0),
            plane: Vec2::new(0, START_PLANE),
        };
        let hit = cast_column(&map, &cam, 64, 32);
        assert_eq!(hit.side, 0);
        assert_eq!(hit.map_x, 0);
        assert_eq!(hit.map_y, 2);
        assert_eq!(hit.tile, 1);
        // dist_num / dist_den == d - 0.5
        assert_eq!(2 * hit.dist_num as i128, (2 * d as i128 - 1) * hit.dist_den as i128);
    }
}

#[test]
fn ray_along_y_reports_horizontal_side() {
    let map = TileMap::from_columns(room(5, 9, 2)).unwrap();
    let cam = Camera {
        position: Vec2::new(2 * ONE + half(), 6 * ONE + half()),
        direction: Vec2::new(0, -ONE),
        plane: Vec2::new(START_PLANE, 0),
    };
    let hit = cast_column(&map, &cam, 10, 5);
    assert_eq!(hit.side, 1);
    assert_eq!((hit.map_x, hit.map_y), (2, 0));
    assert_eq!(hit.tile, 2);
    // 5.5 cells to the wall face at y = 1
    assert_eq!(2 * hit.dist_num as i128, 11 * hit.dist_den as i128);
}

#[test]
fn every_ray_stops_within_width_plus_height_steps() {
    let world = World::new();
    let cam = Camera {
        position: Vec2::new(11 * ONE + 12345, 9 * ONE + 777),
        direction: Vec2::new(-frac(0.7071), frac(0.7071)),
        plane: Vec2::new(frac(0.4667), frac(0.4667)),
    };
    for col in 0..320u32 {
        let hit = cast_column(&world.map, &cam, 320, col);
        assert!(hit.steps as usize <= world.map.width + world.map.height);
        assert!(is_wall(hit.tile));
        assert!(hit.dist_num > 0 && hit.dist_den > 0);
    }
}

#[test]
fn distance_is_positive_in_every_column_of_the_start_view() {
    let world = World::new();
    let mut cam = world.camera();
    cam.position = Vec2::new(22 * ONE + 100, 12 * ONE + 100);
    for col in 0..512u32 {
        let hit = cast_column(&world.map, &cam, 512, col);
        assert!(hit.dist_num > 0, "column {}", col);
        assert!(hit.dist_den > 0, "column {}", col);
    }
}

#[test]
fn line_height_divides_image_height_by_distance() {
    assert_eq!(line_height(480, 2, 1), 240);
    assert_eq!(line_height(480, 3, 2), 320);
    assert_eq!(line_height(480, 7, 1), 68);
    assert_eq!(line_height(480, 0, 5), HEIGHT_CAP);
    assert_eq!(line_height(480, 1, u64::MAX), HEIGHT_CAP);
}

#[test]
fn farther_walls_are_never_taller() {
    let mut last = u32::MAX;
    for tenths in 1..200u64 {
        let lh = line_height(600, tenths, 10);
        assert!(lh <= last);
        last = lh;
    }
}

#[test]
fn column_span_is_centred_and_clipped() {
    assert_eq!(column_span(100, 40), (30, 70));
    assert_eq!(column_span(100, 0), (50, 50));
    assert_eq!(column_span(100, 1000), (0, 99));
    assert_eq!(column_span(101, 41), (30, 70));
    assert_eq!(column_span(1, HEIGHT_CAP), (0, 0));
}

#[test]
fn wall_colours_and_shading() {
    assert_eq!(wall_color(1, 0), Rgba { r: 255, g: 0, b: 0, a: 0 });
    assert_eq!(wall_color(2, 0), Rgba { r: 0, g: 255, b: 0, a: 0 });
    assert_eq!(wall_color(3, 0), Rgba { r: 0, g: 0, b: 255, a: 0 });
    assert_eq!(wall_color(4, 0), Rgba { r: 255, g: 255, b: 255, a: 0 });
    assert_eq!(wall_color(7, 0), Rgba { r: 255, g: 255, b: 0, a: 0 });
    assert_eq!(wall_color(1, 1), Rgba { r: 127, g: 0, b: 0, a: 0 });
    assert_eq!(wall_color(4, 1), Rgba { r: 127, g: 127, b: 127, a: 0 });
    assert_eq!(wall_color(8, 1), Rgba { r: 127, g: 127, b: 0, a: 0 });
}

#[test]
fn fill_run_paints_only_its_column_rows() {
    let pitch = 20usize;
    let mut buf = vec![9u8; pitch * 4];
    let c = Rgba { r: 1, g: 2, b: 3, a: 4 };
    fill_run(&mut buf, pitch, 2, 1, 2, c);
    for i in 0..buf.len() {
        let (y, off) = (i / pitch, i % pitch);
        let inside = (1..=2).contains(&y) && (8..12).contains(&off);
        let want = if inside { [1, 2, 3, 4][off - 8] } else { 9 };
        assert_eq!(buf[i], want, "byte {}", i);
    }
}

#[test]
fn draw_fills_each_column_with_its_wall() {
    let map = TileMap::from_columns(room(5, 5, 3)).unwrap();
    let mut world = World::new();
    world.map = map;
    world.player.position = Vec2::new(2 * ONE + half(), 2 * ONE + half());
    world.player.direction = Vec2::new(-ONE, 0);
    world.plane = Vec2::new(0, START_PLANE);
    world.base_direction = world.player.direction;
    world.base_plane = world.plane;
    let (w, h) = (8u32, 6u32);
    let pitch = 4 * w as usize + 4;
    let mut buf = vec![0xAAu8; pitch * h as usize];
    let mut r = Renderer::new();
    assert_eq!(r.texture_size, 64);
    assert!(Renderer::frame_fits(w, h, buf.len(), pitch));
    r.draw(&world, w, h, &mut buf, pitch);
    let cam = world.camera();
    for x in 0..w {
        let hit = cast_column(&world.map, &cam, w, x);
        let (s, e) = column_span(h, line_height(h, hit.dist_num, hit.dist_den));
        let c = wall_color(hit.tile, hit.side);
        for y in 0..h {
            let i = y as usize * pitch + 4 * x as usize;
            let want = if s <= y && y <= e { [c.r, c.g, c.b, c.a] } else { [0xAA; 4] };
            assert_eq!(&buf[i..i + 4], &want[..], "pixel {} {}", x, y);
        }
    }
    // padding bytes at the end of each row stay untouched
    for y in 0..h as usize {
        assert_eq!(&buf[y * pitch + 32..y * pitch + 36], &[0xAA; 4]);
    }
    // the centre column sees the blue wall 1.5 cells away: 6 / 1.5 = 4 rows
    let hit = cast_column(&world.map, &cam, w, 4);
    assert_eq!(line_height(h, hit.dist_num, hit.dist_den), 4);
    // rows 1..=5 are painted, row 0 is not
    assert_eq!(buf[16], 0xAA);
    assert_eq!(buf[pitch + 16 + 2], 255);
    assert_eq!(buf[2 * pitch + 16 + 2], 255);
}

#[test]
fn frame_shape_checks() {
    assert!(Renderer::frame_fits(4, 3, 48, 16));
    assert!(!Renderer::frame_fits(4, 3, 47, 16));
    assert!(!Renderer::frame_fits(4, 3, 100, 15));
    assert!(!Renderer::frame_fits(0, 3, 100, 16));
    assert!(!Renderer::frame_fits(4, 0, 100, 16));
}

#[test]
fn map_construction_errors() {
    assert_eq!(TileMap::from_columns(vec![]).err(), Some(MapError::Empty));
    assert_eq!(TileMap::from_columns(vec![vec![]]).err(), Some(MapError::Empty));
    assert_eq!(TileMap::from_columns(vec![vec![1; 1025]]).err(), Some(MapError::TooLarge));
    let mut ragged = room(4, 4, 1);
    ragged[2].push(1);
    assert_eq!(TileMap::from_columns(ragged).err(), Some(MapError::Ragged));
    let mut open = room(4, 4, 1);
    open[3][2] = 0;
    assert_eq!(TileMap::from_columns(open).err(), Some(MapError::OpenBorder));
    let m = TileMap::from_columns(room(4, 3, 5)).unwrap();
    assert_eq!((m.width, m.height), (4, 3));
}

#[test]
fn tile_lookup_is_bounds_checked() {
    let m = TileMap::new();
    assert_eq!(m.tile_at(0, 0), Some(8));
    assert_eq!(m.tile_at(22, 12), Some(0));
    assert_eq!(m.tile_at(23, 23), Some(5));
    assert_eq!(m.tile_at(-1, 3), None);
    assert_eq!(m.tile_at(3, 24), None);
    assert!(m.is_open(22, 12));
    assert!(!m.is_open(0, 5));
    assert!(!m.is_open(24, 5));
    assert!(!is_wall(0));
    assert!(is_wall(3));
}

#[test]
fn default_map_is_walled_all_round() {
    let m = TileMap::new();
    assert!(TileMap::from_columns(m.data.clone()).is_ok());
}

#[test]
fn quarter_turns_come_back_exactly() {
    let q = Turn { cos: 0, sin: ONE };
    let d = Vec2::new(-ONE, 0);
    let p = Vec2::new(0, START_PLANE);
    let (mut d2, mut p2) = (d, p);
    for _ in 0..4 {
        d2 = rotate(d2, q);
        p2 = rotate(p2, q);
    }
    assert_eq!(d2, d);
    assert_eq!(p2, p);
    assert_eq!(rotate(d, q), Vec2::new(0, -ONE));
}

#[test]
fn rotation_never_lengthens() {
    let len = |v: Vec2| (v.x as i128) * (v.x as i128) + (v.y as i128) * (v.y as i128);
    let mut d = Vec2::new(-ONE, 0);
    let mut p = Vec2::new(0, START_PLANE);
    let a = 0.013f64;
    let t = Turn { cos: (a.cos() * ONE as f64) as i64, sin: (a.sin() * ONE as f64) as i64 };
    assert!(t.is_valid());
    for _ in 0..500 {
        let (d2, p2) = (rotate(d, t), rotate(p, t));
        assert!(len(d2) <= len(d));
        assert!(len(p2) <= len(p));
        d = d2;
        p = p2;
    }
    assert!(!Turn { cos: ONE, sin: 1 }.is_valid());
    assert!(!Turn { cos: ONE + 1, sin: 0 }.is_valid());
    assert!(!Turn { cos: 0, sin: 0 }.is_valid());
    assert!(!Turn { cos: ONE - 3, sin: 0 }.is_valid());
    assert!(Turn { cos: ONE - 2, sin: 0 }.is_valid());
    assert!(Turn::identity().is_valid());
}

#[test]
fn start_view_centre_column() {
    let world = World::new();
    let cam = world.camera();
    let hit = cast_column(&world.map, &cam, 512, 256);
    assert_eq!((hit.map_x, hit.map_y), (17, 12));
    assert_eq!(hit.tile, 2);
    assert_eq!(hit.side, 0);
    assert_eq!(hit.dist_num, 4 * hit.dist_den);
    let lh = line_height(512, hit.dist_num, hit.dist_den);
    assert_eq!(lh, 128);
    assert_eq!(column_span(512, lh), (192, 320));
    let pitch = 2048usize;
    let mut buf = vec![7u8; pitch * 512];
    let mut r = Renderer::new();
    r.draw(&world, 512, 512, &mut buf, pitch);
    assert_eq!(r.texture_size, 64);
    for y in 0..512usize {
        let px = &buf[y * pitch + 1024..y * pitch + 1028];
        if (192..=320).contains(&y) {
            assert_eq!(px, &[0, 255, 0, 0]);
        } else {
            assert_eq!(px, &[7, 7, 7, 7]);
        }
    }
}

#[test]
fn default_map_tiles() {
    let m = TileMap::new();
    assert_eq!(m.tile_at(17, 12), Some(2));
    assert_eq!(m.tile_at(16, 0), Some(1));
    for x in 0..24 {
        for y in 0..24 {
            assert!(m.tile_at(x, y).unwrap() <= 8);
        }
    }
}
