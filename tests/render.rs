use voxel_caster::color::Color;
use voxel_caster::slab::{get_intersection, nearest, Intersection, Slab};
use voxel_caster::voxel::Voxel;
use voxel_caster::walk::AxisWalk;

fn order_key(f: f32) -> i32 {
    let b = (f + 0.0).to_bits() as i32;
    if b < 0 {
        b ^ 0x7fff_ffff
    } else {
        b
    }
}

fn from_key(k: i32) -> f32 {
    let b = if k < 0 { k ^ 0x7fff_ffff } else { k };
    f32::from_bits(b as u32)
}

fn fixed(t: f32) -> u64 {
    if t.is_finite() {
        (t * 65536.0) as u64
    } else {
        u64::MAX
    }
}

fn inverse(d: f32) -> f32 {
    if d != 0.0 {
        1.0 / d
    } else {
        f32::MAX
    }
}

struct Placed {
    lo: [f32; 3],
    hi: [f32; 3],
    grid: Voxel,
}

fn hit(v: &Placed, o: [f32; 3], d: [f32; 3]) -> Intersection {
    let mut s = [Slab { near: 0, far: 0 }; 3];
    for a in 0..3 {
        let i = inverse(d[a]);
        let (n, f) = if i < 0.0 { (v.hi[a], v.lo[a]) } else { (v.lo[a], v.hi[a]) };
        s[a] = Slab { near: order_key((n - o[a]) * i), far: order_key((f - o[a]) * i) };
    }
    get_intersection(o.map(order_key), v.lo.map(order_key), v.hi.map(order_key), s[0], s[1], s[2])
}

fn walk(v: &Placed, o: [f32; 3], d: [f32; 3], t: f32) -> Option<Color> {
    let axis = |a: usize| {
        let pos = o[a] + t * d[a] - v.lo[a];
        let cell = Voxel::clamp_cell(pos.floor() as i64, v.grid.size[a]);
        let (step, next) = if d[a] > 0.0 {
            (1, (cell as f32 + 1.0 - pos) / d[a])
        } else if d[a] < 0.0 {
            (-1, (pos - cell as f32) / -d[a])
        } else {
            (0, f32::INFINITY)
        };
        AxisWalk { cell, step, next: fixed(next), delta: fixed(1.0 / d[a].abs()) }
    };
    v.grid.walk_cells(axis(0), axis(1), axis(2))
}

fn pixel(vols: &[Placed], eye: [f32; 3], w: u32, h: u32, x: u32, y: u32, bg: Color) -> Color {
    let half = (45.0f32.to_radians() / 2.0).tan();
    let (vh, vw) = (half * 2.0, half * 2.0 * w as f32 / h as f32);
    let v = ((y as f32 + 0.5) / (h - 1) as f32) * 2.0 - 1.0;
    let u = ((x as f32 + 0.5) / (w - 1) as f32) * 2.0 - 1.0;
    let raw = [u * vw, -v * vh, -1.0f32];
    let l = (raw[0] * raw[0] + raw[1] * raw[1] + raw[2] * raw[2]).sqrt();
    let d = raw.map(|c| c / l);
    let hits: Vec<Intersection> = vols.iter().map(|p| hit(p, eye, d)).collect();
    match nearest(&hits, order_key(f32::MAX)) {
        Some((i, t)) => walk(&vols[i], eye, d, from_key(t)).unwrap_or(bg),
        None => bg,
    }
}

fn green_volume() -> Placed {
    let mut grid = Voxel::new([20, 10, 20], Color::from_byte_rgb(0, 255, 0));
    grid.fill_rect([0, 0, 0], [20, 10, 20], true);
    Placed { lo: [-10.0, -5.0, -10.0], hi: [10.0, 5.0, 10.0], grid }
}

#[test]
fn center_pixel_sees_green_volume() {
    let vols = [green_volume()];
    let bg = Color(0);
    let c = pixel(&vols, [0.0, 0.0, 40.0], 400, 300, 200, 150, bg);
    assert_eq!(c, Color::from_byte_rgb(0, 255, 0));
}

#[test]
fn corner_pixel_sees_background() {
    let vols = [green_volume()];
    let bg = Color(0b001_01_001);
    assert_eq!(pixel(&vols, [0.0, 0.0, 40.0], 400, 300, 0, 0, bg), bg);
    assert_eq!(pixel(&vols, [0.0, 0.0, 40.0], 400, 300, 399, 299, bg), bg);
}

#[test]
fn ray_from_inside_hits_its_own_cell() {
    let vols = [green_volume()];
    let c = pixel(&vols, [0.0, 0.0, 0.0], 400, 300, 200, 150, Color(0));
    assert_eq!(c, Color::from_byte_rgb(0, 255, 0));
}

#[test]
fn half_filled_cube_shows_floor_below_and_background_above() {
    let mut grid = Voxel::new([20, 20, 20], Color(24));
    grid.fill_rect([0, 0, 0], [20, 10, 20], true);
    let vols = [Placed { lo: [-10.0; 3], hi: [10.0; 3], grid }];
    let bg = Color(0);
    // Rows well below the middle meet the filled lower half; the top row misses.
    assert_eq!(pixel(&vols, [0.0, 0.0, 40.0], 400, 300, 200, 200, bg), Color(24));
    assert_eq!(pixel(&vols, [0.0, 0.0, 40.0], 400, 300, 200, 0, bg), bg);
}

#[test]
fn order_keys_round_trip_and_keep_order() {
    let xs = [f32::MIN, -3.5, -1.0, -0.0, 0.0, 1e-30, 1.0, 9.0, f32::MAX, f32::INFINITY];
    for w in xs.windows(2) {
        assert!(order_key(w[0]) <= order_key(w[1]));
    }
    for x in xs {
        assert_eq!(from_key(order_key(x)), x + 0.0);
    }
    assert_eq!(order_key(0.0), 0);
    assert!(order_key(-1.0) < 0);
}
