//! The tile world: its tiles, its bounds, and its generation from two noise
//! fields.

use crate::scalar::{deterministic, exact, open_simplex, seed_of, Scalar, ScalarSpec};
use noise::OpenSimplex;
use vstd::prelude::*;

verus! {

/// The width and height of the world in meter-wide tiles.
pub const WORLD_SIZE: (usize, usize) = (25, 25);

/// The most food that a tile can hold, as a scalar.
pub open spec fn max_food_spec<T: Scalar>() -> T {
    T::ratio(1, 1)
}

/// The most food that a tile can hold.
pub fn max_food<T: Scalar>() -> (r: T)
    ensures
        deterministic::<T>() ==> r == max_food_spec::<T>(),
{
    T::from_ratio(1, 1)
}

/// The types of tiles.
#[derive(Debug, Copy, Clone, Eq, PartialEq, Structural)]
pub enum SimTileType {
    /// A land tile.
    Land,
    /// A water tile.
    Water,
}

impl Default for SimTileType {
    fn default() -> (r: Self)
        ensures
            r == SimTileType::Land,
    {
        Self::Land
    }
}

/// A single tile in the simulation world.
#[derive(Debug, Copy, Clone)]
pub struct SimTile<T: Scalar> {
    /// The type of this tile.
    pub tile_type: SimTileType,
    /// The amount of food currently on the tile.
    pub food: T,
    /// The maximum amount of food this tile can have.
    pub max_food: T,
}

/// `value` where it lies between zero and one, zero where it is not at
/// least zero, one where it is at least zero and not below one.
pub open spec fn clamped<T: Scalar>(value: T) -> T {
    if !value.not_below(T::ratio(0, 1)) {
        T::ratio(0, 1)
    } else if value.below(T::ratio(1, 1)) {
        value
    } else {
        T::ratio(1, 1)
    }
}

impl<T: Scalar> SimTile<T> {
    /// The tile that a new world is filled with: land without food.
    pub open spec fn empty() -> SimTile<T> {
        SimTile { tile_type: SimTileType::Land, food: T::ratio(0, 1), max_food: T::ratio(0, 1) }
    }

    /// What [`SimTile::hue`] returns.
    pub open spec fn hue_spec(self) -> T {
        match self.tile_type {
            SimTileType::Land => T::ratio(136, 1),
            SimTileType::Water => T::ratio(202, 1),
        }
    }

    /// What [`SimTile::light`] returns.
    pub open spec fn light_spec(self) -> T {
        clamped(self.food.quotient(max_food_spec::<T>()))
    }

    /// The hue of this tile from 0 to 360: green for land, blue for water.
    pub fn hue(&self) -> (r: T)
        ensures
            deterministic::<T>() ==> r == self.hue_spec(),
    {
        match self.tile_type {
            SimTileType::Land => T::from_ratio(136, 1),
            SimTileType::Water => T::from_ratio(202, 1),
        }
    }

    /// The saturation of this tile from 0 to 1: four fifths.
    pub fn sat(&self) -> (r: T)
        ensures
            deterministic::<T>() ==> r == T::ratio(4, 5),
    {
        T::from_ratio(4, 5)
    }

    /// The lightness (color-wise) of this tile from 0 to 1: the share of
    /// the most food a tile can hold that is on it.
    pub fn light(&self) -> (r: T)
        ensures
            deterministic::<T>() ==> r == self.light_spec(),
    {
        let share = self.food.over(max_food());
        if !share.ge(T::from_ratio(0, 1)) {
            T::from_ratio(0, 1)
        } else if share.lt(T::from_ratio(1, 1)) {
            share
        } else {
            T::from_ratio(1, 1)
        }
    }
}

impl<T: Scalar> Default for SimTile<T> {
    fn default() -> (r: Self)
        ensures
            r.tile_type == SimTileType::Land,
            r.food == r.max_food,
            deterministic::<T>() ==> r == SimTile::<T>::empty(),
    {
        let none = T::from_ratio(0, 1);
        SimTile { tile_type: SimTileType::Land, food: none, max_food: none }
    }
}

/// A tile world as a mathematical value.
pub struct SimWorldView<T: Scalar> {
    /// The tiles, row by row.
    pub tiles: Seq<SimTile<T>>,
    /// For each tile, the identifier of whatever shows it on screen.
    pub tile_entities: Seq<u64>,
    /// The width and the height of the world.
    pub size: (usize, usize),
}

impl<T: Scalar> SimWorldView<T> {
    /// There is one tile, and one identifier, for each position.
    pub open spec fn wf(self) -> bool {
        &&& self.tiles.len() == self.size.0 * self.size.1
        &&& self.tile_entities.len() == self.size.0 * self.size.1
    }

    /// Whether the world is one of the given size in which every tile is
    /// land that holds as much food as it can hold, and the identifier kept
    /// for every tile is zero.
    pub open spec fn is_blank(self, size: (usize, usize)) -> bool {
        &&& self.wf()
        &&& self.size == size
        &&& forall|i: int|
            0 <= i < self.tiles.len() ==> (#[trigger] self.tiles[i]).tile_type
                == SimTileType::Land && self.tiles[i].food == self.tiles[i].max_food
        &&& forall|i: int| 0 <= i < self.tile_entities.len() ==> self.tile_entities[i] == 0
    }

    /// Whether every tile is land without food.
    pub open spec fn is_empty(self) -> bool {
        forall|i: int| 0 <= i < self.tiles.len() ==> #[trigger] self.tiles[i] == SimTile::<T>::empty()
    }

    /// Whether `pos`, as `(x, y)`, lies in the world.
    pub open spec fn in_bounds(self, pos: (usize, usize)) -> bool {
        pos.0 < self.size.0 && pos.1 < self.size.1
    }

    /// Where the tile at `pos` stands among the tiles.
    pub open spec fn index(self, pos: (usize, usize)) -> int {
        pos.1 * self.size.0 + pos.0
    }

    /// The tile at `pos`.
    pub open spec fn tile(self, pos: (usize, usize)) -> SimTile<T> {
        self.tiles[self.index(pos)]
    }

    /// The identifier kept for the tile at `pos`.
    pub open spec fn tile_entity(self, pos: (usize, usize)) -> u64 {
        self.tile_entities[self.index(pos)]
    }

    /// The world with `tile` at `pos`.
    pub open spec fn with_tile(self, pos: (usize, usize), tile: SimTile<T>) -> SimWorldView<T> {
        SimWorldView { tiles: self.tiles.update(self.index(pos), tile), ..self }
    }

    /// The world with the identifier `entity` kept for the tile at `pos`.
    pub open spec fn with_tile_entity(self, pos: (usize, usize), entity: u64) -> SimWorldView<T> {
        SimWorldView { tile_entities: self.tile_entities.update(self.index(pos), entity), ..self }
    }
}

/// Every position of a world has its own place among the tiles.
pub proof fn lemma_index_in_range(size: (usize, usize), pos: (usize, usize))
    requires
        pos.0 < size.0,
        pos.1 < size.1,
    ensures
        0 <= pos.1 * size.0 + pos.0 < size.0 * size.1,
{
    assert(pos.1 * size.0 + pos.0 < size.0 * size.1) by (nonlinear_arith)
        requires
            pos.0 < size.0,
            pos.1 < size.1,
    ;
    assert(0 <= pos.1 * size.0) by (nonlinear_arith);
}

/// Two positions of a world that share their place among the tiles are one
/// position.
pub proof fn lemma_index_injective(size: (usize, usize), a: (usize, usize), b: (usize, usize))
    requires
        a.0 < size.0,
        b.0 < size.0,
        a.1 * size.0 + a.0 == b.1 * size.0 + b.0,
    ensures
        a == b,
{
    assert(a.1 == b.1) by (nonlinear_arith)
        requires
            a.0 < size.0,
            b.0 < size.0,
            a.1 * size.0 + a.0 == b.1 * size.0 + b.0,
    ;
}

/// The evolution simulation tile world.
#[derive(Debug)]
pub struct SimWorld<T: Scalar> {
    tiles: Vec<SimTile<T>>,
    tile_entities: Vec<u64>,
    size: (usize, usize),
}

impl<T: Scalar> View for SimWorld<T> {
    type V = SimWorldView<T>;

    closed spec fn view(&self) -> SimWorldView<T> {
        SimWorldView { tiles: self.tiles@, tile_entities: self.tile_entities@, size: self.size }
    }
}

impl<T: Scalar> SimWorld<T> {
    #[verifier::type_invariant]
    spec fn well_formed(self) -> bool {
        self@.wf()
    }

    /// Instantiates an empty world: every tile is land without food, and
    /// the identifier kept for it is zero.
    pub fn new(size: (usize, usize)) -> (world: Self)
        requires
            size.0 * size.1 <= usize::MAX,
        ensures
            world@.is_blank(size),
            deterministic::<T>() ==> world@.is_empty(),
    {
        let s: usize = size.0 * size.1;
        let mut tiles: Vec<SimTile<T>> = Vec::new();
        let mut tile_entities: Vec<u64> = Vec::new();
        let mut i: usize = 0;
        while i < s
            invariant
                i <= s,
                tiles@.len() == i,
                tile_entities@.len() == i,
                forall|j: int|
                    0 <= j < i ==> (#[trigger] tiles@[j]).tile_type == SimTileType::Land
                        && tiles@[j].food == tiles@[j].max_food,
                deterministic::<T>() ==> forall|j: int|
                    0 <= j < i ==> #[trigger] tiles@[j] == SimTile::<T>::empty(),
                forall|j: int| 0 <= j < i ==> tile_entities@[j] == 0,
            decreases s - i,
        {
            tiles.push(SimTile::default());
            tile_entities.push(0);
            i = i + 1;
        }
        Self { tiles, tile_entities, size }
    }

    /// The width and height of this simulation world.
    pub fn size(&self) -> (size: (usize, usize))
        ensures
            size == self@.size,
            self@.wf(),
    {
        proof {
            use_type_invariant(self);
        }
        self.size
    }

    /// The tile at the given position, or `None` if out of world bounds.
    pub fn tile(&self, pos: (usize, usize)) -> (r: Option<SimTile<T>>)
        ensures
            r == if self@.in_bounds(pos) {
                Some(self@.tile(pos))
            } else {
                None
            },
    {
        if pos.0 < self.size.0 && pos.1 < self.size.1 {
            let i = self.index(pos);
            Some(self.tiles[i])
        } else {
            None
        }
    }

    /// A mutable reference to the tile at the given position, or `None` if
    /// out of world bounds. Nothing but that tile changes through it.
    pub fn tile_mut(&mut self, pos: (usize, usize)) -> (r: Option<&mut SimTile<T>>)
        ensures
            match r {
                Some(tile) => {
                    &&& old(self)@.in_bounds(pos)
                    &&& *tile == old(self)@.tile(pos)
                    &&& final(self)@ == old(self)@.with_tile(pos, *final(tile))
                },
                None => !old(self)@.in_bounds(pos) && final(self)@ == old(self)@,
            },
    {
        proof {
            use_type_invariant(&*self);
        }
        if pos.0 < self.size.0 && pos.1 < self.size.1 {
            let i = self.index(pos);
            Some(&mut self.tiles[i])
        } else {
            None
        }
    }

    /// The identifier kept for the tile at the given position, or `None` if
    /// out of bounds.
    pub fn tile_entity(&self, pos: (usize, usize)) -> (r: Option<u64>)
        ensures
            r == if self@.in_bounds(pos) {
                Some(self@.tile_entity(pos))
            } else {
                None
            },
    {
        if pos.0 < self.size.0 && pos.1 < self.size.1 {
            let i = self.index(pos);
            Some(self.tile_entities[i])
        } else {
            None
        }
    }

    /// Keeps the identifier `entity` for the tile at the given position,
    /// and says whether the position lies in the world.
    pub fn set_tile_entity(&mut self, pos: (usize, usize), entity: u64) -> (done: bool)
        ensures
            done == old(self)@.in_bounds(pos),
            final(self)@ == if done {
                old(self)@.with_tile_entity(pos, entity)
            } else {
                old(self)@
            },
    {
        proof {
            use_type_invariant(&*self);
        }
        if pos.0 < self.size.0 && pos.1 < self.size.1 {
            let i = self.index(pos);
            self.tile_entities[i] = entity;
            true
        } else {
            false
        }
    }

    /// The index in the tile vector of the tile at the given position.
    fn index(&self, pos: (usize, usize)) -> (i: usize)
        requires
            self@.in_bounds(pos),
        ensures
            i == self@.index(pos),
            i < self@.tiles.len(),
            i < self@.tile_entities.len(),
    {
        proof {
            use_type_invariant(self);
            lemma_index_in_range(self.size, pos);
            assert(0 <= pos.1 * self.size.0) by (nonlinear_arith);
            assert(self.tiles@.len() == self.tiles.len() <= usize::MAX);
        }
        pos.1 * self.size.0 + pos.0
    }
}

impl<T: Scalar> Default for SimWorld<T> {
    /// An empty world of the size that this simulation uses.
    fn default() -> (world: Self)
        ensures
            world@.is_blank(WORLD_SIZE),
            deterministic::<T>() ==> world@.is_empty(),
    {
        Self::new(WORLD_SIZE)
    }
}

/// A noise field, the scale at which it is read, and the range that its
/// values are brought into.
#[derive(Debug, Copy)]
pub struct NoiseWrap<T: Scalar> {
    noise: OpenSimplex,
    inv_scale: T,
    minmax: Option<(T, T)>,
}

impl<T: Scalar> Clone for NoiseWrap<T> {
    fn clone(&self) -> (copy: Self)
        ensures
            copy == *self,
    {
        *self
    }
}

/// A noise field with its scale and range as a mathematical value.
pub struct NoiseWrapView<T: Scalar> {
    /// The noise generator.
    pub noise: OpenSimplex,
    /// The number of tiles that make one unit of the noise field.
    pub inv_scale: T,
    /// The least and the greatest value that [`NoiseWrap::get`] gives, if
    /// the values of the field are rescaled.
    pub minmax: Option<(T, T)>,
}

/// `value`, which lies between -1 and 1, brought to the same place between
/// `min` and `max`; `value` itself without such a range.
pub open spec fn rescaled<T: Scalar>(value: T, minmax: Option<(T, T)>) -> T {
    match minmax {
        Some((min, max)) => value.sum(T::ratio(1, 1)).product(T::ratio(1, 2)).product(
            max.difference(min),
        ).sum(min),
        None => value,
    }
}

impl<T: Scalar> NoiseWrapView<T> {
    /// The value of the noise field for the tile at `(x, y)`.
    pub open spec fn raw(self, x: usize, y: usize) -> T {
        T::noise_value(
            self.noise,
            T::count(x).quotient(self.inv_scale),
            T::count(y).quotient(self.inv_scale),
        )
    }

    /// What [`NoiseWrap::get`] gives for the tile at `(x, y)`.
    pub open spec fn value(self, x: usize, y: usize) -> T {
        rescaled(self.raw(x, y), self.minmax)
    }
}

impl<T: Scalar> View for NoiseWrap<T> {
    type V = NoiseWrapView<T>;

    closed spec fn view(&self) -> NoiseWrapView<T> {
        NoiseWrapView { noise: self.noise, inv_scale: self.inv_scale, minmax: self.minmax }
    }
}

impl<T: Scalar> NoiseWrap<T> {
    /// A noise field with the given seed, read at one unit per `inv_scale`
    /// tiles, its values rescaled from -1 ..= 1 to `minmax` if that is given.
    pub fn new(seed: u32, inv_scale: T, minmax: Option<(T, T)>) -> (wrap: Self)
        ensures
            seed_of(wrap@.noise) == seed,
            wrap@.inv_scale == inv_scale,
            wrap@.minmax == minmax,
    {
        Self { noise: open_simplex(seed), inv_scale, minmax }
    }

    /// The value of the field for the tile at `(x, y)`.
    pub fn get(&self, x: usize, y: usize) -> (r: T)
        ensures
            deterministic::<T>() ==> r == self@.value(x, y),
    {
        let v = T::noise_at(
            &self.noise,
            T::from_count(x).over(self.inv_scale),
            T::from_count(y).over(self.inv_scale),
        );

        // Rescale from -1.0,1.0 to min,max
        match self.minmax {
            Some((min, max)) => v.plus(T::from_ratio(1, 1)).times(T::from_ratio(1, 2)).times(
                max.minus(min),
            ).plus(min),
            None => v,
        }
    }
}

/// The tile that generation makes of a value of the field of tile types and
/// a value of the field of food: land where the first is below zero, else
/// water; the second, scaled by the most food a tile can hold, as its
/// capacity; and as much food as it can hold.
pub open spec fn generated_tile<T: Scalar>(kind_noise: T, food_noise: T) -> SimTile<T> {
    let capacity = food_noise.product(max_food_spec::<T>());
    SimTile {
        tile_type: if kind_noise.below(T::ratio(0, 1)) {
            SimTileType::Land
        } else {
            SimTileType::Water
        },
        food: capacity,
        max_food: capacity,
    }
}

/// Whether `after` is the world `before` with other tiles, each of which
/// holds as much food as it can hold.
pub open spec fn is_refilled<T: Scalar>(before: SimWorldView<T>, after: SimWorldView<T>) -> bool {
    &&& after.wf()
    &&& after.size == before.size
    &&& after.tile_entities == before.tile_entities
    &&& forall|x: usize, y: usize|
        after.in_bounds((x, y)) ==> (#[trigger] after.tile((x, y))).food == after.tile(
            (x, y),
        ).max_food
}

/// Whether `after` is the world `before` with every tile generated from the
/// two noise fields.
pub open spec fn is_generated<T: Scalar>(
    before: SimWorldView<T>,
    after: SimWorldView<T>,
    noise_type: NoiseWrapView<T>,
    noise_max_food: NoiseWrapView<T>,
) -> bool {
    &&& after.wf()
    &&& after.size == before.size
    &&& after.tile_entities == before.tile_entities
    &&& forall|x: usize, y: usize|
        after.in_bounds((x, y)) ==> #[trigger] after.tile((x, y)) == generated_tile(
            noise_type.value(x, y),
            noise_max_food.value(x, y),
        )
}

/// Generates every tile of the world from the two noise fields.
pub fn generate_world<T: Scalar>(
    simworld: &mut SimWorld<T>,
    noise_type: &NoiseWrap<T>,
    noise_max_food: &NoiseWrap<T>,
)
    ensures
        is_refilled(old(simworld)@, final(simworld)@),
        deterministic::<T>() ==> is_generated(
            old(simworld)@,
            final(simworld)@,
            noise_type@,
            noise_max_food@,
        ),
{
    let size = simworld.size();
    let mut y: usize = 0;
    while y < size.1
        invariant
            simworld@.wf(),
            simworld@.size == size,
            size == old(simworld)@.size,
            simworld@.tile_entities == old(simworld)@.tile_entities,
            y <= size.1,
            forall|px: usize, py: usize|
                px < size.0 && py < y ==> (#[trigger] simworld@.tile((px, py))).food
                    == simworld@.tile((px, py)).max_food,
            deterministic::<T>() ==> forall|px: usize, py: usize|
                px < size.0 && py < y ==> #[trigger] simworld@.tile((px, py)) == generated_tile(
                    noise_type@.value(px, py),
                    noise_max_food@.value(px, py),
                ),
        decreases size.1 - y,
    {
        let mut x: usize = 0;
        while x < size.0
            invariant
                simworld@.wf(),
                simworld@.size == size,
                simworld@.tile_entities == old(simworld)@.tile_entities,
                y < size.1,
                x <= size.0,
                forall|px: usize, py: usize|
                    px < size.0 && (py < y || (py == y && px < x)) ==> (#[trigger] simworld@.tile(
                        (px, py),
                    )).food == simworld@.tile((px, py)).max_food,
                deterministic::<T>() ==> forall|px: usize, py: usize|
                    px < size.0 && (py < y || (py == y && px < x)) ==> #[trigger] simworld@.tile(
                        (px, py),
                    ) == generated_tile(noise_type@.value(px, py), noise_max_food@.value(px, py)),
            decreases size.0 - x,
        {
            let kind = noise_type.get(x, y);
            let capacity = noise_max_food.get(x, y).times(max_food());
            let ghost before = simworld@;
            match simworld.tile_mut((x, y)) {
                Some(tile) => {
                    tile.tile_type = if kind.lt(T::from_ratio(0, 1)) {
                        SimTileType::Land
                    } else {
                        SimTileType::Water
                    };
                    tile.max_food = capacity;
                    tile.food = tile.max_food;
                },
                None => {},
            }
            proof {
                lemma_index_in_range(size, (x, y));
                assert forall|px: usize, py: usize|
                    px < size.0 && (py < y || (py == y && px < x + 1)) implies (
                #[trigger] simworld@.tile((px, py))).food == simworld@.tile((px, py)).max_food by {
                    lemma_index_in_range(size, (px, py));
                    if px == x && py == y {
                    } else {
                        if before.index((px, py)) == before.index((x, y)) {
                            lemma_index_injective(size, (px, py), (x, y));
                        }
                        assert(simworld@.tile((px, py)) == before.tile((px, py)));
                    }
                }
                if deterministic::<T>() {
                    assert forall|px: usize, py: usize|
                        px < size.0 && (py < y || (py == y && px < x + 1)) implies #[trigger] simworld@.tile(
                        (px, py),
                    ) == generated_tile(
                        noise_type@.value(px, py),
                        noise_max_food@.value(px, py),
                    ) by {
                        lemma_index_in_range(size, (px, py));
                        if px == x && py == y {
                        } else {
                            if before.index((px, py)) == before.index((x, y)) {
                                lemma_index_injective(size, (px, py), (x, y));
                            }
                            assert(simworld@.tile((px, py)) == before.tile((px, py)));
                        }
                    }
                }
            }
            x = x + 1;
        }
        y = y + 1;
    }
}

/// Generates the world from the field of tile types and the field of food,
/// each made with the seed and read at the scale that this simulation uses.
pub fn init_generate_world<T: Scalar>(simworld: &mut SimWorld<T>)
    ensures
        is_refilled(old(simworld)@, final(simworld)@),
        deterministic::<T>() ==> exists|
            noise_type: NoiseWrapView<T>,
            noise_max_food: NoiseWrapView<T>,
        |
            {
                &&& seed_of(noise_type.noise) == 0
                &&& noise_type.inv_scale == T::ratio(10, 1)
                &&& noise_type.minmax is None
                &&& seed_of(noise_max_food.noise) == 133780085
                &&& noise_max_food.inv_scale == T::ratio(5, 1)
                &&& noise_max_food.minmax == Some((T::ratio(0, 1), T::ratio(1, 1)))
                &&& #[trigger] is_generated(
                    old(simworld)@,
                    final(simworld)@,
                    noise_type,
                    noise_max_food,
                )
            },
{
    let noise_type = NoiseWrap::new(0, T::from_ratio(10, 1), None);
    let noise_max_food = NoiseWrap::new(
        133780085,
        T::from_ratio(5, 1),
        Some((T::from_ratio(0, 1), T::from_ratio(1, 1))),
    );
    generate_world(simworld, &noise_type, &noise_max_food);
    proof {
        if deterministic::<T>() {
            assert(is_generated(old(simworld)@, simworld@, noise_type@, noise_max_food@));
        }
    }
}

/// In exact arithmetic, a value between -1 and 1 is rescaled to a value
/// between `min` and `max`.
pub proof fn lemma_rescaled_in_range<T: Scalar>(value: spec_fn(T) -> real, v: T, min: T, max: T)
    requires
        exact(value),
        -1real <= value(v) <= 1real,
        value(min) <= value(max),
    ensures
        value(min) <= value(rescaled(v, Some((min, max)))) <= value(max),
{
    assert(value(T::ratio(1, 1)) == 1 as real / 1 as real);
    assert(value(T::ratio(1, 2)) == 1 as real / 2 as real);
    let share = value(v.sum(T::ratio(1, 1)).product(T::ratio(1, 2)));
    let width = value(max.difference(min));
    assert(share == (value(v) + 1real) * (1 as real / 2 as real));
    assert(0real <= share <= 1real);
    assert(width == value(max) - value(min));
    assert(0real <= share * width <= width) by (nonlinear_arith)
        requires
            0real <= share <= 1real,
            0real <= width,
    ;
}

/// In exact arithmetic, the lightness of every tile lies between zero and
/// one.
pub proof fn lemma_light_in_range<T: Scalar>(value: spec_fn(T) -> real, tile: SimTile<T>)
    requires
        exact(value),
    ensures
        0real <= value(tile.light_spec()) <= 1real,
{
    assert(value(T::ratio(0, 1)) == 0 as real / 1 as real);
    assert(value(T::ratio(1, 1)) == 1 as real / 1 as real);
}

/// In exact arithmetic, a tile generated from a food value between zero and
/// one holds no less than no food, no more than its capacity, and has a
/// capacity between zero and the most food that a tile can hold.
pub proof fn lemma_generated_tile_food<T: Scalar>(
    value: spec_fn(T) -> real,
    kind_noise: T,
    food_noise: T,
)
    requires
        exact(value),
        0real <= value(food_noise) <= 1real,
    ensures
        ({
            let tile = generated_tile(kind_noise, food_noise);
            &&& 0real <= value(tile.food) <= value(tile.max_food)
            &&& 0real <= value(tile.max_food) <= value(max_food_spec::<T>())
        }),
{
    assert(value(T::ratio(1, 1)) == 1 as real / 1 as real);
    assert(value(food_noise.product(max_food_spec::<T>())) == value(food_noise) * 1real);
}

/// In exact arithmetic, after generation every tile for which the noise
/// field of food has a value between -1 and 1 holds no less than no food, no
/// more than its capacity, and has a capacity between zero and the most food
/// that a tile can hold.
pub proof fn lemma_generated_world_food<T: Scalar>(
    value: spec_fn(T) -> real,
    before: SimWorldView<T>,
    after: SimWorldView<T>,
    noise_type: NoiseWrapView<T>,
    noise_max_food: NoiseWrapView<T>,
    pos: (usize, usize),
)
    requires
        exact(value),
        is_generated(before, after, noise_type, noise_max_food),
        noise_max_food.minmax == Some((T::ratio(0, 1), T::ratio(1, 1))),
        after.in_bounds(pos),
        -1real <= value(noise_max_food.raw(pos.0, pos.1)) <= 1real,
    ensures
        0real <= value(after.tile(pos).food) <= value(after.tile(pos).max_food),
        0real <= value(after.tile(pos).max_food) <= value(max_food_spec::<T>()),
{
    assert(value(T::ratio(0, 1)) == 0 as real / 1 as real);
    assert(value(T::ratio(1, 1)) == 1 as real / 1 as real);
    lemma_rescaled_in_range(
        value,
        noise_max_food.raw(pos.0, pos.1),
        T::ratio(0, 1),
        T::ratio(1, 1),
    );
    lemma_generated_tile_food(
        value,
        noise_type.value(pos.0, pos.1),
        noise_max_food.value(pos.0, pos.1),
    );
    assert(after.tile((pos.0, pos.1)) == generated_tile(
        noise_type.value(pos.0, pos.1),
        noise_max_food.value(pos.0, pos.1),
    ));
}

} // verus!
