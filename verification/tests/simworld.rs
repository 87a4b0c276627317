use evosim::scalar::Scalar;
use evosim::simworld::{
    generate_world, init_generate_world, max_food, NoiseWrap, SimTile, SimTileType, SimWorld,
    WORLD_SIZE,
};
use noise::{NoiseFn, OpenSimplex};
use rand::rngs::ThreadRng;
use rand::Rng;
use std::f32::consts::PI;

/// Single-precision reals, with the operations of the machine.
#[derive(Debug, Clone, Copy, PartialEq, PartialOrd)]
struct Real(f32);

impl Scalar for Real {
    fn from_ratio(num: i32, den: i32) -> Self {
        Real(num as f32 / den as f32)
    }

    fn from_count(n: usize) -> Self {
        Real(n as f32)
    }

    fn floor_to_count(self) -> usize {
        self.0.floor() as usize
    }

    fn tau() -> Self {
        Real(2.0 * PI)
    }

    fn plus(self, rhs: Self) -> Self {
        Real(self.0 + rhs.0)
    }

    fn minus(self, rhs: Self) -> Self {
        Real(self.0 - rhs.0)
    }

    fn times(self, rhs: Self) -> Self {
        Real(self.0 * rhs.0)
    }

    fn over(self, rhs: Self) -> Self {
        Real(self.0 / rhs.0)
    }

    fn negated(self) -> Self {
        Real(-self.0)
    }

    fn exp(self) -> Self {
        Real(self.0.exp())
    }

    fn cos(self) -> Self {
        Real(self.0.cos())
    }

    fn sin(self) -> Self {
        Real(self.0.sin())
    }

    fn noise_at(noise: &OpenSimplex, x: Self, y: Self) -> Self {
        Real(noise.get([x.0 as f64, y.0 as f64]) as f32)
    }

    fn lt(self, rhs: Self) -> bool {
        self.0 < rhs.0
    }

    fn ge(self, rhs: Self) -> bool {
        self.0 >= rhs.0
    }

    fn sample_inclusive(rng: &mut ThreadRng, low: Self, high: Self) -> Self {
        Real(rng.gen_range(low.0..=high.0))
    }
}

fn raw(seed: u32, inv_scale: f32, x: usize, y: usize) -> f32 {
    OpenSimplex::new(seed).get([(x as f32 / inv_scale) as f64, (y as f32 / inv_scale) as f64])
        as f32
}

#[test]
fn the_world_is_twenty_five_tiles_wide_and_high() {
    assert_eq!(WORLD_SIZE, (25, 25));
    let world = SimWorld::<Real>::default();
    assert_eq!(world.size(), (25, 25));
    assert!(world.tile((24, 24)).is_some());
    assert!(world.tile((25, 24)).is_none());
}

#[test]
fn a_tile_holds_at_most_one_unit_of_food() {
    assert_eq!(max_food::<Real>(), Real(1.0));
}

#[test]
fn a_new_world_is_land_without_food() {
    let world = SimWorld::<Real>::new((4, 3));
    assert_eq!(world.size(), (4, 3));
    for y in 0..3 {
        for x in 0..4 {
            let tile = world.tile((x, y)).unwrap();
            assert_eq!(tile.tile_type, SimTileType::Land);
            assert_eq!(tile.food, Real(0.0));
            assert_eq!(tile.max_food, Real(0.0));
            assert_eq!(world.tile_entity((x, y)), Some(0));
        }
    }
    let tile = SimTile::<Real>::default();
    assert_eq!(tile.tile_type, SimTileType::Land);
    assert_eq!(tile.food, Real(0.0));
    assert_eq!(tile.max_food, Real(0.0));
    assert_eq!(SimTileType::default(), SimTileType::Land);
}

#[test]
fn an_empty_world_has_no_tile() {
    let mut world = SimWorld::<Real>::new((0, 5));
    assert!(world.tile((0, 0)).is_none());
    assert!(world.tile_mut((0, 0)).is_none());
    assert!(world.tile_entity((0, 0)).is_none());
    assert!(!world.set_tile_entity((0, 0), 1));
}

#[test]
fn positions_outside_the_world_have_no_tile() {
    let mut world = SimWorld::<Real>::new((4, 3));
    for pos in [(4, 0), (0, 3), (4, 3), (3, 3), (4, 2), (usize::MAX, 0), (0, usize::MAX)] {
        assert!(world.tile(pos).is_none());
        assert!(world.tile_mut(pos).is_none());
        assert!(world.tile_entity(pos).is_none());
        assert!(!world.set_tile_entity(pos, 7));
    }
    assert!(world.tile((3, 2)).is_some());
    assert!(world.tile_mut((3, 2)).is_some());
}

#[test]
fn tile_mut_changes_one_tile() {
    for size in [(4usize, 3usize), (3, 4), (5, 5), (1, 6), (6, 1)] {
        let mut world = SimWorld::<Real>::new(size);
        for y in 0..size.1 {
            for x in 0..size.0 {
                let tile = world.tile_mut((x, y)).unwrap();
                tile.food = Real((y * size.0 + x) as f32);
                tile.tile_type = SimTileType::Water;
            }
        }
        for y in 0..size.1 {
            for x in 0..size.0 {
                let tile = world.tile((x, y)).unwrap();
                assert_eq!(tile.food, Real((y * size.0 + x) as f32));
                assert_eq!(tile.tile_type, SimTileType::Water);
                assert_eq!(tile.max_food, Real(0.0));
            }
        }
    }
}

#[test]
fn tile_entities_are_kept_by_position() {
    let mut world = SimWorld::<Real>::new((3, 5));
    for y in 0..5 {
        for x in 0..3 {
            assert!(world.set_tile_entity((x, y), (100 * y + x) as u64));
        }
    }
    for y in 0..5 {
        for x in 0..3 {
            assert_eq!(world.tile_entity((x, y)), Some((100 * y + x) as u64));
            assert_eq!(world.tile((x, y)).unwrap().food, Real(0.0));
        }
    }
}

#[test]
fn a_noise_wrap_without_range_gives_the_field_at_its_scale() {
    let wrap = NoiseWrap::new(7, Real(10.0), None);
    let mut differing = false;
    for (x, y) in [(0, 0), (1, 0), (0, 1), (3, 4), (24, 24), (100, 7)] {
        let v = wrap.get(x, y);
        assert_eq!(v, Real(raw(7, 10.0, x, y)));
        differing = differing || v != wrap.get(0, 0);
    }
    assert!(differing);
}

#[test]
fn a_noise_wrap_depends_on_its_seed() {
    let one = NoiseWrap::new(1, Real(5.0), None);
    let other = NoiseWrap::new(2, Real(5.0), None);
    let mut differing = false;
    for y in 0..10 {
        for x in 0..10 {
            differing = differing || one.get(x, y) != other.get(x, y);
        }
    }
    assert!(differing);
}

#[test]
fn a_noise_wrap_rescales_into_its_range() {
    let unit = NoiseWrap::new(133780085, Real(5.0), Some((Real(0.0), Real(1.0))));
    let wide = NoiseWrap::new(133780085, Real(5.0), Some((Real(10.0), Real(30.0))));
    for y in 0..25 {
        for x in 0..25 {
            let v = raw(133780085, 5.0, x, y);
            assert_eq!(unit.get(x, y), Real(((v + 1.0) * 0.5) * (1.0 - 0.0) + 0.0));
            assert_eq!(wide.get(x, y), Real(((v + 1.0) * 0.5) * (30.0 - 10.0) + 10.0));
            assert!(0.0 <= unit.get(x, y).0 && unit.get(x, y).0 <= 1.0);
            assert!(10.0 <= wide.get(x, y).0 && wide.get(x, y).0 <= 30.0);
        }
    }
}

#[test]
fn a_noise_wrap_copies() {
    let wrap = NoiseWrap::new(3, Real(2.0), Some((Real(-1.0), Real(4.0))));
    let copy = wrap.clone();
    assert_eq!(wrap.get(5, 6), copy.get(5, 6));
}

#[test]
fn generation_makes_every_tile_of_the_two_fields() {
    let kind = NoiseWrap::new(11, Real(3.0), None);
    let food = NoiseWrap::new(12, Real(4.0), Some((Real(0.0), Real(1.0))));
    let mut world = SimWorld::<Real>::new((7, 4));
    assert!(world.set_tile_entity((2, 1), 99));
    generate_world(&mut world, &kind, &food);
    assert_eq!(world.size(), (7, 4));
    assert_eq!(world.tile_entity((2, 1)), Some(99));
    let (mut land, mut water) = (0, 0);
    for y in 0..4 {
        for x in 0..7 {
            let tile = world.tile((x, y)).unwrap();
            let expected = if raw(11, 3.0, x, y) < 0.0 {
                land += 1;
                SimTileType::Land
            } else {
                water += 1;
                SimTileType::Water
            };
            assert_eq!(tile.tile_type, expected);
            let capacity = ((raw(12, 4.0, x, y) + 1.0) * 0.5) * 1.0;
            assert_eq!(tile.max_food, Real(capacity));
            assert_eq!(tile.food, Real(capacity));
        }
    }
    assert!(land > 0 && water > 0);
}

#[test]
fn the_generated_world_keeps_the_tile_invariant() {
    let mut world = SimWorld::<Real>::default();
    init_generate_world(&mut world);
    let (w, h) = world.size();
    assert_eq!((w, h), (25, 25));
    for y in 0..h {
        for x in 0..w {
            let tile = world.tile((x, y)).unwrap();
            assert!(0.0 <= tile.food.0, "food at {:?}", (x, y));
            assert!(tile.food.0 <= tile.max_food.0, "food at {:?}", (x, y));
            assert!(0.0 <= tile.max_food.0 && tile.max_food.0 <= 1.0, "capacity at {:?}", (x, y));
            assert_eq!(tile.food, tile.max_food);
        }
    }
}

#[test]
fn the_world_is_generated_with_its_own_seeds_and_scales() {
    let mut world = SimWorld::<Real>::default();
    init_generate_world(&mut world);
    for (x, y) in [(0, 0), (1, 2), (7, 3), (24, 24), (12, 0)] {
        let tile = world.tile((x, y)).unwrap();
        let expected = if raw(0, 10.0, x, y) < 0.0 {
            SimTileType::Land
        } else {
            SimTileType::Water
        };
        assert_eq!(tile.tile_type, expected);
        assert_eq!(tile.max_food, Real((raw(133780085, 5.0, x, y) + 1.0) * 0.5));
    }
    let mut again = SimWorld::<Real>::default();
    init_generate_world(&mut again);
    for y in 0..25 {
        for x in 0..25 {
            assert_eq!(world.tile((x, y)).unwrap().max_food, again.tile((x, y)).unwrap().max_food);
        }
    }
}

#[test]
fn land_is_green_and_water_is_blue() {
    let mut tile = SimTile::<Real>::default();
    assert_eq!(tile.hue(), Real(136.0));
    assert_eq!(tile.sat(), Real(0.8));
    tile.tile_type = SimTileType::Water;
    assert_eq!(tile.hue(), Real(202.0));
    assert_eq!(tile.sat(), Real(0.8));
}

#[test]
fn a_tile_is_as_light_as_it_is_full() {
    let mut tile = SimTile::<Real>::default();
    for (food, light) in [
        (0.0, 0.0),
        (0.25, 0.25),
        (1.0, 1.0),
        (3.5, 1.0),
        (-2.0, 0.0),
        (f32::INFINITY, 1.0),
        (f32::NEG_INFINITY, 0.0),
        (f32::NAN, 0.0),
    ] {
        tile.food = Real(food);
        assert_eq!(tile.light(), Real(light), "food {}", food);
        assert_eq!(tile.light().0, (food / 1.0f32).max(0.0).min(1.0));
    }
}
