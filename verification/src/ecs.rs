//! Run control, the simulation clock, the agents' records and the per-frame
//! systems that act on them.

use crate::net::{
    deterministic_activation, lemma_sigmoid_deterministic, NNActivation, NN,
};
use crate::scalar::{deterministic, exact, Scalar, ScalarSpec};
use crate::simworld::WORLD_SIZE;
use vstd::prelude::*;

verus! {

/// The number of world frames between two evaluations of the neural networks.
pub const NETWORK_UPDATE_PERIOD: u32 = 60;

/// Whether the simulation is running.
#[derive(Debug, Copy, Clone, Eq, PartialEq, Hash, Structural)]
pub enum SimulationState {
    /// The simulation is not currently running.
    Stop,
    /// The simulation is running.
    Run,
}

/// The way the simulation behaves once it runs.
#[derive(Debug, Copy, Clone, Eq, PartialEq, Hash, Structural)]
pub enum SimulationMode {
    /// One tick is performed, then the state goes back to `Stop`.
    Single,
    /// The simulation runs until the state is changed to `Stop`.
    Auto,
}

/// Frame counters of the simulation.
#[derive(Debug, Copy, Clone, Eq, PartialEq, Structural)]
pub struct SimTime {
    /// The current world execution frame count.
    pub world_frame: u32,
    /// The current neural tick count.
    pub neural_frame: u32,
    /// The world frame count when the last neural network update was
    /// performed.
    pub last_neural_tick_frame: u32,
    /// Whether this frame is a neural update frame.
    pub is_neural_tick_frame: bool,
}

impl SimTime {
    /// The counters are consistent: the last neural update does not lie in
    /// the future, and there were never more neural updates than frames.
    pub open spec fn wf(self) -> bool {
        &&& self.last_neural_tick_frame <= self.world_frame
        &&& self.neural_frame <= self.world_frame
    }

    /// The counters before the first frame.
    pub open spec fn initial() -> SimTime {
        SimTime {
            world_frame: 0,
            neural_frame: 0,
            last_neural_tick_frame: 0,
            is_neural_tick_frame: false,
        }
    }

    /// The counters one frame later: the frame is a neural update frame when
    /// `NETWORK_UPDATE_PERIOD` frames have passed since the last one.
    pub open spec fn ticked(self) -> SimTime {
        let frame = (self.world_frame + 1) as u32;
        if frame - self.last_neural_tick_frame >= NETWORK_UPDATE_PERIOD {
            SimTime {
                world_frame: frame,
                neural_frame: (self.neural_frame + 1) as u32,
                last_neural_tick_frame: frame,
                is_neural_tick_frame: true,
            }
        } else {
            SimTime {
                world_frame: frame,
                neural_frame: self.neural_frame,
                last_neural_tick_frame: self.last_neural_tick_frame,
                is_neural_tick_frame: false,
            }
        }
    }

    /// The counters `n` frames later.
    pub open spec fn after(self, n: nat) -> SimTime
        decreases n,
    {
        if n == 0 {
            self
        } else {
            self.after((n - 1) as nat).ticked()
        }
    }
}

impl Default for SimTime {
    fn default() -> (time: SimTime)
        ensures
            time == SimTime::initial(),
    {
        SimTime {
            world_frame: 0,
            neural_frame: 0,
            last_neural_tick_frame: 0,
            is_neural_tick_frame: false,
        }
    }
}

/// Ticks the frame counters once.
pub fn update_simulation_time_system(sim_time: &mut SimTime)
    requires
        old(sim_time).wf(),
        old(sim_time).world_frame < u32::MAX,
    ensures
        *final(sim_time) == old(sim_time).ticked(),
        final(sim_time).wf(),
{
    // Increment the frame and determine how many frames have passed since the
    // last neural update
    let frame: u32 = sim_time.world_frame + 1;
    let delta: u32 = frame - sim_time.last_neural_tick_frame;
    sim_time.world_frame = frame;

    // Check if enough frames have passed to perform a neural update
    sim_time.is_neural_tick_frame = delta >= NETWORK_UPDATE_PERIOD;
    if sim_time.is_neural_tick_frame {
        sim_time.neural_frame = sim_time.neural_frame + 1;
        sim_time.last_neural_tick_frame = frame;
    }
}

/// Whether the neural networks are to be evaluated in this frame.
pub fn is_neural_update_frame_system(sim_time: &SimTime) -> (due: bool)
    ensures
        due == sim_time.is_neural_tick_frame,
{
    sim_time.is_neural_tick_frame
}

/// The counters of a clock that started at zero, `n` frames later: a neural
/// update falls on every frame that is a multiple of
/// `NETWORK_UPDATE_PERIOD`, and on no other.
pub proof fn lemma_cadence(n: nat)
    requires
        n <= u32::MAX,
    ensures
        SimTime::initial().after(n) == (SimTime {
            world_frame: n as u32,
            neural_frame: (n / (NETWORK_UPDATE_PERIOD as nat)) as u32,
            last_neural_tick_frame: (n - n % (NETWORK_UPDATE_PERIOD as nat)) as u32,
            is_neural_tick_frame: n > 0 && n % (NETWORK_UPDATE_PERIOD as nat) == 0,
        }),
        SimTime::initial().after(n).wf(),
    decreases n,
{
    if n > 0 {
        lemma_cadence((n - 1) as nat);
    }
}

/// After every tick of consistent counters, the frame is a neural update
/// frame exactly if the last neural update is that of the frame itself;
/// if it is none, fewer than `NETWORK_UPDATE_PERIOD` frames have passed since
/// the last one.
pub proof fn lemma_ticked_cadence(time: SimTime)
    requires
        time.wf(),
        time.world_frame < u32::MAX,
    ensures
        time.ticked().wf(),
        time.ticked().world_frame == time.world_frame + 1,
        time.ticked().is_neural_tick_frame <==> time.ticked().last_neural_tick_frame
            == time.ticked().world_frame,
        !time.ticked().is_neural_tick_frame ==> time.ticked().world_frame
            - time.ticked().last_neural_tick_frame < NETWORK_UPDATE_PERIOD,
{
}

/// The run control and the frame counters of one simulation.
#[derive(Debug, Copy, Clone)]
pub struct SimClock {
    state: SimulationState,
    mode: SimulationMode,
    time: SimTime,
}

/// A clock as a mathematical value.
pub struct SimClockView {
    /// Whether the simulation is running.
    pub state: SimulationState,
    /// Whether it stops by itself after one tick.
    pub mode: SimulationMode,
    /// The frame counters.
    pub time: SimTime,
}

impl SimClockView {
    /// The clock after the command `start`.
    pub open spec fn started(self) -> SimClockView {
        SimClockView { state: SimulationState::Run, ..self }
    }

    /// The clock after the command `stop`.
    pub open spec fn stopped(self) -> SimClockView {
        SimClockView { state: SimulationState::Stop, ..self }
    }

    /// The clock after the command `step`: it runs, for a single tick.
    pub open spec fn stepped(self) -> SimClockView {
        SimClockView { state: SimulationState::Run, mode: SimulationMode::Single, ..self }
    }

    /// Whether the next call of `advance_tick` performs a tick.
    pub open spec fn runs(self) -> bool {
        self.state == SimulationState::Run
    }

    /// The clock after one call of `advance_tick`: unchanged unless it runs;
    /// else one frame later, and stopped again in the mode `Single`.
    pub open spec fn advanced(self) -> SimClockView {
        if self.runs() {
            SimClockView {
                state: if self.mode == SimulationMode::Single {
                    SimulationState::Stop
                } else {
                    self.state
                },
                mode: self.mode,
                time: self.time.ticked(),
            }
        } else {
            self
        }
    }

    /// The clock after `n` calls of `advance_tick`.
    pub open spec fn advanced_by(self, n: nat) -> SimClockView
        decreases n,
    {
        if n == 0 {
            self
        } else {
            self.advanced_by((n - 1) as nat).advanced()
        }
    }
}

impl View for SimClock {
    type V = SimClockView;

    closed spec fn view(&self) -> SimClockView {
        SimClockView { state: self.state, mode: self.mode, time: self.time }
    }
}

impl Default for SimClock {
    /// A clock at frame zero that is stopped and, once started, performs a
    /// single tick.
    fn default() -> (clock: SimClock)
        ensures
            clock@ == (SimClockView {
                state: SimulationState::Stop,
                mode: SimulationMode::Single,
                time: SimTime::initial(),
            }),
    {
        SimClock::new(SimulationState::Stop, SimulationMode::Single)
    }
}

impl SimClock {
    #[verifier::type_invariant]
    spec fn well_formed(self) -> bool {
        self.time.wf()
    }

    /// A clock at frame zero in the given state and mode.
    pub fn new(state: SimulationState, mode: SimulationMode) -> (clock: SimClock)
        ensures
            clock@ == (SimClockView { state, mode, time: SimTime::initial() }),
    {
        SimClock { state, mode, time: SimTime::default() }
    }

    /// Whether the simulation is running.
    pub fn state(&self) -> (state: SimulationState)
        ensures
            state == self@.state,
    {
        self.state
    }

    /// The way the simulation behaves once it runs.
    pub fn mode(&self) -> (mode: SimulationMode)
        ensures
            mode == self@.mode,
    {
        self.mode
    }

    /// The frame counters, which are consistent.
    pub fn time(&self) -> (time: SimTime)
        ensures
            time == self@.time,
            time.wf(),
    {
        proof {
            use_type_invariant(self);
        }
        self.time
    }

    /// Selects the mode; the state stays.
    pub fn set_mode(&mut self, mode: SimulationMode)
        ensures
            final(self)@ == (SimClockView { mode, ..old(self)@ }),
    {
        proof {
            use_type_invariant(&*self);
        }
        self.mode = mode;
    }

    /// The command `start`: the simulation runs from the next tick on.
    pub fn start(&mut self)
        ensures
            final(self)@ == old(self)@.started(),
    {
        proof {
            use_type_invariant(&*self);
        }
        self.state = SimulationState::Run;
    }

    /// The command `stop`: the simulation performs no further tick.
    pub fn stop(&mut self)
        ensures
            final(self)@ == old(self)@.stopped(),
    {
        proof {
            use_type_invariant(&*self);
        }
        self.state = SimulationState::Stop;
    }

    /// The command `step`: the mode becomes `Single`, then the simulation
    /// runs, so that the next call of `advance_tick` performs one tick and
    /// stops it again.
    pub fn step(&mut self)
        ensures
            final(self)@ == old(self)@.stepped(),
    {
        proof {
            use_type_invariant(&*self);
        }
        self.mode = SimulationMode::Single;
        self.state = SimulationState::Run;
    }

    /// Advances the clock by one tick if the simulation is running, and says
    /// whether it did. In the mode `Single` the tick stops the simulation.
    pub fn advance_tick(&mut self) -> (ticked: bool)
        requires
            old(self)@.runs() ==> old(self)@.time.world_frame < u32::MAX,
        ensures
            ticked == old(self)@.runs(),
            final(self)@ == old(self)@.advanced(),
            final(self)@.time.wf(),
    {
        proof {
            use_type_invariant(&*self);
        }
        if self.state != SimulationState::Run {
            return false;
        }
        let mut time = self.time;
        update_simulation_time_system(&mut time);
        self.time = time;
        if self.mode == SimulationMode::Single {
            self.state = SimulationState::Stop;
        }
        true
    }
}

/// A `step` makes the calls of `advance_tick` that follow it perform exactly
/// one tick, however many they are, and leaves the simulation stopped.
pub proof fn lemma_step_runs_one_tick(clock: SimClockView, n: nat)
    requires
        n >= 1,
    ensures
        clock.stepped().advanced_by(n) == (SimClockView {
            state: SimulationState::Stop,
            mode: SimulationMode::Single,
            time: clock.time.ticked(),
        }),
    decreases n,
{
    if n > 1 {
        lemma_step_runs_one_tick(clock, (n - 1) as nat);
    } else {
        assert(clock.stepped().advanced_by(0) == clock.stepped());
    }
}

/// Two `step`s, each followed by calls of `advance_tick`, perform exactly two
/// ticks, however many calls follow each.
pub proof fn lemma_two_steps_run_two_ticks(clock: SimClockView, n: nat, m: nat)
    requires
        n >= 1,
        m >= 1,
    ensures
        clock.stepped().advanced_by(n).stepped().advanced_by(m) == (SimClockView {
            state: SimulationState::Stop,
            mode: SimulationMode::Single,
            time: clock.time.ticked().ticked(),
        }),
{
    lemma_step_runs_one_tick(clock, n);
    lemma_step_runs_one_tick(clock.stepped().advanced_by(n), m);
}

/// In the mode `Auto` a running clock keeps running: each of `n` calls of
/// `advance_tick` performs a tick.
pub proof fn lemma_auto_keeps_running(clock: SimClockView, n: nat)
    requires
        clock.runs(),
        clock.mode == SimulationMode::Auto,
    ensures
        clock.advanced_by(n) == (SimClockView { time: clock.time.after(n), ..clock }),
    decreases n,
{
    if n > 0 {
        lemma_auto_keeps_running(clock, (n - 1) as nat);
    }
}

/// A stopped clock does not move, however often `advance_tick` is called.
pub proof fn lemma_stopped_stays(clock: SimClockView, n: nat)
    requires
        !clock.runs(),
    ensures
        clock.advanced_by(n) == clock,
    decreases n,
{
    if n > 0 {
        lemma_stopped_stays(clock, (n - 1) as nat);
    }
}

/// The neural network of a simulation entity.
#[derive(Debug)]
pub struct SimEntityBrain<T: Scalar> {
    /// The neural network.
    pub network: NN<T>,
}

impl<T: Scalar> SimEntityBrain<T> {
    /// A brain with random weights: a network with two inputs, a hidden
    /// layer of three nodes and two outputs.
    pub fn random() -> (brain: Self)
        ensures
            brain.network@.wf(),
            brain.network@.sizes() == seq![2nat, 3nat, 2nat],
            deterministic::<T>() ==> brain.network@.drawn_from(T::ratio(-1i32, 2), T::ratio(1, 2)),
    {
        let sizes: [u32; 3] = [2, 3, 2];
        proof {
            assert(sizes@.map_values(|s: u32| s as nat) =~= seq![2nat, 3nat, 2nat]);
        }
        match NN::random(sizes.as_slice()) {
            Ok(network) => Self { network },
            Err(_) => vstd::pervasive::unreached(),
        }
    }
}

/// A point or a displacement in the plane of the simulation world.
#[derive(Debug, Copy, Clone)]
pub struct Vec2<T: Scalar> {
    /// The horizontal component.
    pub x: T,
    /// The vertical component.
    pub y: T,
}

/// The position and the heading in radians of an entity in the simulation
/// world.
#[derive(Debug, Copy, Clone)]
pub struct SimEntityPosRot<T: Scalar>(pub Vec2<T>, pub T);

/// The inputs for an entity's brain.
#[derive(Debug, Copy, Clone)]
pub struct SimEntityBrainInputs {}

/// The move and rotation speeds that the brain last asked for.
#[derive(Debug, Copy, Clone)]
pub struct SimEntityBrainOutputs<T: Scalar> {
    /// The share of this entity's max speed at which it wishes to travel.
    pub move_amt: T,
    /// The share of this entity's max rotation speed at which it wishes to
    /// rotate: one half is no turn.
    pub rot_amt: T,
}

/// The inherited traits of an entity in the simulation.
#[derive(Debug, Copy, Clone)]
pub struct SimEntityTraits<T: Scalar> {
    /// The maximum speed of this entity (in meters per second).
    pub max_move_speed: T,
    /// The maximum speed the entity can rotate (in radians per second).
    pub max_rot_speed: T,
}

/// A single simulation entity.
#[derive(Debug)]
pub struct SmittyBundle<T: Scalar> {
    /// The entity's brain.
    pub brain: SimEntityBrain<T>,
    /// The entity's position.
    pub pos: SimEntityPosRot<T>,
    /// The inputs to the entity's brain.
    pub inputs: SimEntityBrainInputs,
    /// The entity's desired movement & rotation velocities.
    pub outputs: SimEntityBrainOutputs<T>,
    /// The entity's traits.
    pub traits: SimEntityTraits<T>,
}

/// The maximum speed in meters per second at which an entity may move.
pub open spec fn smitty_max_move_speed_spec<T: Scalar>() -> T {
    T::ratio(4, 1)
}

/// The maximum speed in meters per second at which an entity may move.
pub fn smitty_max_move_speed<T: Scalar>() -> (r: T)
    ensures
        deterministic::<T>() ==> r == smitty_max_move_speed_spec::<T>(),
{
    T::from_ratio(4, 1)
}

/// The maximum radians per second by which an entity may rotate: four turns.
pub open spec fn smitty_max_rot_speed_spec<T: Scalar>() -> T {
    T::ratio(4, 1).product(T::full_turn())
}

/// The maximum radians per second by which an entity may rotate: four turns.
pub fn smitty_max_rot_speed<T: Scalar>() -> (r: T)
    ensures
        deterministic::<T>() ==> r == smitty_max_rot_speed_spec::<T>(),
{
    T::from_ratio(4, 1).times(T::tau())
}

/// Where the first entity starts: in the middle of the world, heading along
/// the x axis.
pub open spec fn sample_pos<T: Scalar>() -> SimEntityPosRot<T> {
    SimEntityPosRot(
        Vec2 {
            x: T::count(WORLD_SIZE.0).quotient(T::ratio(2, 1)),
            y: T::count(WORLD_SIZE.1).quotient(T::ratio(2, 1)),
        },
        T::ratio(0, 1),
    )
}

/// What the first entity asks for until its brain is asked: full speed and a
/// full turn to the left.
pub open spec fn sample_outputs<T: Scalar>() -> SimEntityBrainOutputs<T> {
    SimEntityBrainOutputs { move_amt: T::ratio(1, 1), rot_amt: T::ratio(1, 1) }
}

/// The traits of the first entity: a quarter of the speeds that an entity
/// may have.
pub open spec fn sample_traits<T: Scalar>() -> SimEntityTraits<T> {
    SimEntityTraits {
        max_move_speed: smitty_max_move_speed_spec::<T>().quotient(T::ratio(4, 1)),
        max_rot_speed: smitty_max_rot_speed_spec::<T>().quotient(T::ratio(4, 1)),
    }
}

/// The entity that the simulation starts with: a random brain in the middle
/// of the world.
pub fn sample_smitty<T: Scalar>() -> (smitty: SmittyBundle<T>)
    ensures
        smitty.brain.network@.wf(),
        smitty.brain.network@.sizes() == seq![2nat, 3nat, 2nat],
        deterministic::<T>() ==> {
            &&& smitty.brain.network@.drawn_from(T::ratio(-1i32, 2), T::ratio(1, 2))
            &&& smitty.pos == sample_pos::<T>()
            &&& smitty.outputs == sample_outputs::<T>()
            &&& smitty.traits == sample_traits::<T>()
        },
{
    SmittyBundle {
        brain: SimEntityBrain::random(),
        pos: SimEntityPosRot(
            Vec2 {
                x: T::from_count(WORLD_SIZE.0).over(T::from_ratio(2, 1)),
                y: T::from_count(WORLD_SIZE.1).over(T::from_ratio(2, 1)),
            },
            T::from_ratio(0, 1),
        ),
        inputs: SimEntityBrainInputs {  },
        outputs: SimEntityBrainOutputs { move_amt: T::from_ratio(1, 1), rot_amt: T::from_ratio(1, 1) },
        traits: SimEntityTraits {
            max_move_speed: smitty_max_move_speed::<T>().over(T::from_ratio(4, 1)),
            max_rot_speed: smitty_max_rot_speed::<T>().over(T::from_ratio(4, 1)),
        },
    }
}

/// `value` folded once into the range from zero to `extent`: raised by
/// `extent` when it is below zero, lowered by `extent` when it is not below
/// `extent`.
pub open spec fn wrapped<T: Scalar>(value: T, extent: T) -> T {
    if value.below(T::ratio(0, 1)) {
        value.sum(extent)
    } else if value.not_below(extent) {
        value.difference(extent)
    } else {
        value
    }
}

/// The signed steering request of a rotation output: `rot_amt * 2 - 1`.
pub open spec fn steering<T: Scalar>(rot_amt: T) -> T {
    rot_amt.product(T::ratio(2, 1)).difference(T::ratio(1, 1))
}

/// The heading after `dt` seconds of steering, folded into a full turn.
pub open spec fn turned<T: Scalar>(
    heading: T,
    request: SimEntityBrainOutputs<T>,
    traits: SimEntityTraits<T>,
    dt: T,
) -> T {
    wrapped(
        heading.sum(steering(request.rot_amt).product(traits.max_rot_speed).product(dt)),
        T::full_turn(),
    )
}

/// A coordinate after `dt` seconds of travel along an axis on which the
/// heading has the component `direction`, folded into `extent`.
pub open spec fn travelled<T: Scalar>(
    coordinate: T,
    direction: T,
    request: SimEntityBrainOutputs<T>,
    traits: SimEntityTraits<T>,
    dt: T,
    extent: T,
) -> T {
    wrapped(
        coordinate.sum(
            direction.product(request.move_amt).product(traits.max_move_speed).product(dt),
        ),
        extent,
    )
}

/// Position and heading after `dt` seconds: the entity first turns, then
/// travels forward along its new heading, in a world that wraps around at
/// `world_size`.
pub open spec fn moved<T: Scalar>(
    pos: SimEntityPosRot<T>,
    request: SimEntityBrainOutputs<T>,
    traits: SimEntityTraits<T>,
    dt: T,
    world_size: (usize, usize),
) -> SimEntityPosRot<T> {
    let heading = turned(pos.1, request, traits, dt);
    SimEntityPosRot(
        Vec2 {
            x: travelled(pos.0.x, heading.cosine(), request, traits, dt, T::count(world_size.0)),
            y: travelled(pos.0.y, heading.sine(), request, traits, dt, T::count(world_size.1)),
        },
        heading,
    )
}

/// Folds `value` once into the range from zero to `extent`.
pub fn wrap<T: Scalar>(value: T, extent: T) -> (r: T)
    ensures
        deterministic::<T>() ==> r == wrapped(value, extent),
{
    if value.lt(T::from_ratio(0, 1)) {
        value.plus(extent)
    } else if value.ge(extent) {
        value.minus(extent)
    } else {
        value
    }
}

/// Rotates and moves one entity by the amounts that its brain last asked
/// for, over `dt` seconds.
pub fn move_smitty<T: Scalar>(
    dt: T,
    world_size: (usize, usize),
    pos: &mut SimEntityPosRot<T>,
    request: &SimEntityBrainOutputs<T>,
    traits: &SimEntityTraits<T>,
)
    ensures
        deterministic::<T>() ==> *final(pos) == moved(*old(pos), *request, *traits, dt, world_size),
{
    // Get the new rotation
    let rot_req = request.rot_amt.times(T::from_ratio(2, 1)).minus(T::from_ratio(1, 1));
    let new_rot = wrap(pos.1.plus(rot_req.times(traits.max_rot_speed).times(dt)), T::tau());

    // Update the position based on the new rotation
    let dx = new_rot.cos().times(request.move_amt).times(traits.max_move_speed).times(dt);
    let dy = new_rot.sin().times(request.move_amt).times(traits.max_move_speed).times(dt);
    // Wrap the position
    let x = wrap(pos.0.x.plus(dx), T::from_count(world_size.0));
    let y = wrap(pos.0.y.plus(dy), T::from_count(world_size.1));
    pos.0 = Vec2 { x, y };
    // Update the rotation
    pos.1 = new_rot;
}

/// Whether a brain can be asked: whether its network takes two inputs and
/// gives at least two outputs.
pub open spec fn askable<T: Scalar>(brain: SimEntityBrain<T>) -> bool {
    brain.network@.num_inputs == 2 && brain.network@.layers.last().len() >= 2
}

/// What a brain asks for when it is fed one half on each of its two inputs
/// and evaluated with the sigmoid: its first output as the move amount and
/// its second as the rotation amount.
pub open spec fn brain_outputs<T: Scalar>(brain: SimEntityBrain<T>) -> SimEntityBrainOutputs<T> {
    let out = brain.network@.output(
        NNActivation::Sigmoid,
        seq![T::ratio(1, 2), T::ratio(1, 2)],
    );
    SimEntityBrainOutputs { move_amt: out[0], rot_amt: out[1] }
}

impl<T: Scalar> SmittyBundle<T> {
    /// Whether `after` is this entity but for its position and heading.
    pub open spec fn moves_to(self, after: SmittyBundle<T>) -> bool {
        after == (SmittyBundle { pos: after.pos, ..self })
    }

    /// Whether `after` is this entity but for the outputs of its brain.
    pub open spec fn thinks_to(self, after: SmittyBundle<T>) -> bool {
        after == (SmittyBundle { outputs: after.outputs, ..self })
    }

    /// The entity after `dt` seconds of motion in a world of `world_size`.
    pub open spec fn moved(self, dt: T, world_size: (usize, usize)) -> SmittyBundle<T> {
        SmittyBundle { pos: moved(self.pos, self.outputs, self.traits, dt, world_size), ..self }
    }

    /// The entity after a neural update: with the outputs of its brain, or
    /// as it was where its brain cannot be asked.
    pub open spec fn thought(self) -> SmittyBundle<T> {
        if askable(self.brain) {
            SmittyBundle { outputs: brain_outputs(self.brain), ..self }
        } else {
            self
        }
    }

    /// The entity after one frame of a running simulation: it thinks first
    /// if the frame is a neural update frame, and moves in any case.
    pub open spec fn framed(self, neural: bool, dt: T, world_size: (usize, usize)) -> SmittyBundle<
        T,
    > {
        if neural {
            self.thought().moved(dt, world_size)
        } else {
            self.moved(dt, world_size)
        }
    }
}

/// Rotates and moves every entity by the amounts that its brain last asked
/// for, over `dt` seconds.
pub fn move_smittys_system<T: Scalar>(
    dt: T,
    world_size: (usize, usize),
    smittys: &mut Vec<SmittyBundle<T>>,
)
    ensures
        final(smittys)@.len() == old(smittys)@.len(),
        forall|i: int|
            0 <= i < old(smittys)@.len() ==> old(smittys)@[i].moves_to(
                #[trigger] final(smittys)@[i],
            ),
        deterministic::<T>() ==> forall|i: int|
            0 <= i < old(smittys)@.len() ==> #[trigger] final(smittys)@[i] == old(smittys)@[i].moved(
                dt,
                world_size,
            ),
{
    let mut i: usize = 0;
    while i < smittys.len()
        invariant
            i <= smittys@.len(),
            smittys@.len() == old(smittys)@.len(),
            forall|j: int| 0 <= j < i ==> old(smittys)@[j].moves_to(#[trigger] smittys@[j]),
            deterministic::<T>() ==> forall|j: int|
                0 <= j < i ==> #[trigger] smittys@[j] == old(smittys)@[j].moved(dt, world_size),
            forall|j: int| i <= j < smittys@.len() ==> #[trigger] smittys@[j] == old(smittys)@[j],
        decreases smittys@.len() - i,
    {
        let smitty = &mut smittys[i];
        move_smitty(dt, world_size, &mut smitty.pos, &smitty.outputs, &smitty.traits);
        i = i + 1;
    }
}

/// Feeds the inputs forward through one brain and stores what it asks for,
/// and says whether the brain could be asked. Where it cannot, the outputs
/// stay as they were.
pub fn update_brain_outputs<T: Scalar>(
    brain: &SimEntityBrain<T>,
    inputs: &SimEntityBrainInputs,
    outputs: &mut SimEntityBrainOutputs<T>,
) -> (updated: bool)
    ensures
        updated == askable(*brain),
        !updated ==> *final(outputs) == *old(outputs),
        updated && deterministic::<T>() ==> *final(outputs) == brain_outputs(*brain),
{
    let half = T::from_ratio(1, 2);
    let mut feed: Vec<T> = Vec::new();
    feed.push(half);
    feed.push(half);
    proof {
        if deterministic::<T>() {
            assert(feed@ =~= seq![T::ratio(1, 2), T::ratio(1, 2)]);
            lemma_sigmoid_deterministic::<T>();
        }
    }
    // Feed-forward
    match brain.network.run(NNActivation::Sigmoid, feed.as_slice()) {
        Ok(output_results) => {
            if output_results.len() >= 2 {
                // Update the output
                outputs.move_amt = output_results[0];
                outputs.rot_amt = output_results[1];
                true
            } else {
                false
            }
        },
        Err(_) => false,
    }
}

/// Performs the network update of every entity, and says whether every
/// brain could be asked. An entity whose brain cannot be asked keeps its
/// outputs.
pub fn neural_network_update_system<T: Scalar>(smittys: &mut Vec<SmittyBundle<T>>) -> (all: bool)
    ensures
        final(smittys)@.len() == old(smittys)@.len(),
        all == forall|i: int|
            0 <= i < old(smittys)@.len() ==> askable((#[trigger] old(smittys)@[i]).brain),
        forall|i: int|
            0 <= i < old(smittys)@.len() ==> old(smittys)@[i].thinks_to(
                #[trigger] final(smittys)@[i],
            ),
        forall|i: int|
            0 <= i < old(smittys)@.len() && !askable(old(smittys)@[i].brain)
                ==> #[trigger] final(smittys)@[i] == old(smittys)@[i],
        deterministic::<T>() ==> forall|i: int|
            0 <= i < old(smittys)@.len() ==> #[trigger] final(smittys)@[i]
                == old(smittys)@[i].thought(),
{
    let mut all = true;
    let mut i: usize = 0;
    while i < smittys.len()
        invariant
            i <= smittys@.len(),
            smittys@.len() == old(smittys)@.len(),
            forall|j: int| 0 <= j < i ==> old(smittys)@[j].thinks_to(#[trigger] smittys@[j]),
            forall|j: int|
                0 <= j < i && !askable(old(smittys)@[j].brain) ==> #[trigger] smittys@[j] == old(
                    smittys,
                )@[j],
            deterministic::<T>() ==> forall|j: int|
                0 <= j < i ==> #[trigger] smittys@[j] == old(smittys)@[j].thought(),
            forall|j: int| i <= j < smittys@.len() ==> #[trigger] smittys@[j] == old(smittys)@[j],
            all == forall|j: int| 0 <= j < i ==> askable((#[trigger] old(smittys)@[j]).brain),
        decreases smittys@.len() - i,
    {
        let smitty = &mut smittys[i];
        let updated = update_brain_outputs(&smitty.brain, &smitty.inputs, &mut smitty.outputs);
        if !updated {
            all = false;
        }
        i = i + 1;
    }
    all
}

/// The entities after one call of `frame_update_system` on `clock`.
pub open spec fn frame_updated<T: Scalar>(
    clock: SimClockView,
    dt: T,
    world_size: (usize, usize),
    smittys: Seq<SmittyBundle<T>>,
) -> Seq<SmittyBundle<T>> {
    if clock.runs() {
        Seq::new(
            smittys.len(),
            |i: int| smittys[i].framed(clock.time.ticked().is_neural_tick_frame, dt, world_size),
        )
    } else {
        smittys
    }
}

/// Whether a call of `frame_update_system` on `clock` asks a brain that
/// cannot be asked.
pub open spec fn skips_a_brain<T: Scalar>(clock: SimClockView, smittys: Seq<SmittyBundle<T>>) -> bool {
    &&& clock.runs()
    &&& clock.time.ticked().is_neural_tick_frame
    &&& exists|i: int| 0 <= i < smittys.len() && !askable((#[trigger] smittys[i]).brain)
}

/// One frame of the simulation. Nothing happens unless the simulation is
/// running. Else the clock advances; if the frame is a neural update frame
/// every brain is asked; and every entity moves, over `dt` seconds, by what
/// its brain last asked for. In the mode `Single` the simulation is stopped
/// when the frame is done. The result is `false` if a brain was to be asked
/// and could not be: its entity then moves by what it asked for before.
pub fn frame_update_system<T: Scalar>(
    clock: &mut SimClock,
    dt: T,
    world_size: (usize, usize),
    smittys: &mut Vec<SmittyBundle<T>>,
) -> (complete: bool)
    requires
        old(clock)@.runs() ==> old(clock)@.time.world_frame < u32::MAX,
    ensures
        complete == !skips_a_brain(old(clock)@, old(smittys)@),
        final(clock)@ == old(clock)@.advanced(),
        final(smittys)@.len() == old(smittys)@.len(),
        !old(clock)@.runs() ==> final(smittys)@ == old(smittys)@,
        !old(clock)@.advanced().time.is_neural_tick_frame ==> forall|i: int|
            0 <= i < old(smittys)@.len() ==> old(smittys)@[i].moves_to(
                #[trigger] final(smittys)@[i],
            ),
        deterministic::<T>() ==> final(smittys)@ == frame_updated(
            old(clock)@,
            dt,
            world_size,
            old(smittys)@,
        ),
{
    let mut complete = true;
    if clock.advance_tick() {
        if is_neural_update_frame_system(&clock.time()) {
            complete = neural_network_update_system(smittys);
        }
        move_smittys_system(dt, world_size, smittys);
        proof {
            if deterministic::<T>() {
                assert(smittys@ =~= frame_updated(old(clock)@, dt, world_size, old(smittys)@));
            }
        }
    }
    complete
}

/// In exact arithmetic, folding once brings every value that lies less than
/// one extent outside the range from zero to `extent` into that range.
pub proof fn lemma_wrapped_in_range<T: Scalar>(value: spec_fn(T) -> real, v: T, extent: T)
    requires
        exact(value),
        -value(extent) <= value(v) < value(extent) + value(extent),
    ensures
        0real <= value(wrapped(v, extent)) < value(extent),
{
    assert(value(T::ratio(0, 1)) == 0 as real / 1 as real);
}

/// In exact arithmetic, the heading after a frame lies in the range from
/// zero to a full turn, provided that the heading before it did and that
/// the entity turns by at most a full turn in the frame.
pub proof fn lemma_heading_in_range<T: Scalar>(
    value: spec_fn(T) -> real,
    pos: SimEntityPosRot<T>,
    request: SimEntityBrainOutputs<T>,
    traits: SimEntityTraits<T>,
    dt: T,
    world_size: (usize, usize),
)
    requires
        exact(value),
        0real <= value(pos.1) < value(T::full_turn()),
        -value(T::full_turn()) <= value(
            steering(request.rot_amt).product(traits.max_rot_speed).product(dt),
        ) <= value(T::full_turn()),
    ensures
        0real <= value(moved(pos, request, traits, dt, world_size).1) < value(T::full_turn()),
{
    let turn = steering(request.rot_amt).product(traits.max_rot_speed).product(dt);
    lemma_wrapped_in_range(value, pos.1.sum(turn), T::full_turn());
}

/// In exact arithmetic, the position after a frame lies in the world,
/// provided that the position before it did and that the entity travels
/// by at most the width of the world along `x`, and by at most its height
/// along `y`, in the frame.
pub proof fn lemma_position_in_range<T: Scalar>(
    value: spec_fn(T) -> real,
    pos: SimEntityPosRot<T>,
    request: SimEntityBrainOutputs<T>,
    traits: SimEntityTraits<T>,
    dt: T,
    world_size: (usize, usize),
)
    requires
        exact(value),
        0real <= value(pos.0.x) < world_size.0 as real,
        0real <= value(pos.0.y) < world_size.1 as real,
        ({
            let heading = turned(pos.1, request, traits, dt);
            let dx = heading.cosine().product(request.move_amt).product(
                traits.max_move_speed,
            ).product(dt);
            let dy = heading.sine().product(request.move_amt).product(
                traits.max_move_speed,
            ).product(dt);
            &&& -(world_size.0 as real) <= value(dx) <= world_size.0 as real
            &&& -(world_size.1 as real) <= value(dy) <= world_size.1 as real
        }),
    ensures
        0real <= value(moved(pos, request, traits, dt, world_size).0.x) < world_size.0 as real,
        0real <= value(moved(pos, request, traits, dt, world_size).0.y) < world_size.1 as real,
{
    let heading = turned(pos.1, request, traits, dt);
    let dx = heading.cosine().product(request.move_amt).product(traits.max_move_speed).product(dt);
    let dy = heading.sine().product(request.move_amt).product(traits.max_move_speed).product(dt);
    assert(value(T::count(world_size.0)) == world_size.0 as real);
    assert(value(T::count(world_size.1)) == world_size.1 as real);
    lemma_wrapped_in_range(value, pos.0.x.sum(dx), T::count(world_size.0));
    lemma_wrapped_in_range(value, pos.0.y.sum(dy), T::count(world_size.1));
}

/// In exact arithmetic, the heading after a frame lies in the range from
/// zero to a full turn for every rotation amount between zero and one,
/// provided that the heading before it lay in that range and that the
/// entity cannot turn by more than a full turn in the frame.
pub proof fn lemma_heading_in_range_for_any_request<T: Scalar>(
    value: spec_fn(T) -> real,
    pos: SimEntityPosRot<T>,
    request: SimEntityBrainOutputs<T>,
    traits: SimEntityTraits<T>,
    dt: T,
    world_size: (usize, usize),
)
    requires
        exact(value),
        0real <= value(pos.1) < value(T::full_turn()),
        0real <= value(request.rot_amt) <= 1real,
        0real <= value(traits.max_rot_speed) * value(dt) <= value(T::full_turn()),
    ensures
        0real <= value(moved(pos, request, traits, dt, world_size).1) < value(T::full_turn()),
{
    assert(value(T::ratio(2, 1)) == 2 as real / 1 as real);
    assert(value(T::ratio(1, 1)) == 1 as real / 1 as real);
    let steer = value(steering(request.rot_amt));
    let reach = value(traits.max_rot_speed) * value(dt);
    assert(steer == value(request.rot_amt) * 2real - 1real);
    assert(value(steering(request.rot_amt).product(traits.max_rot_speed).product(dt)) == steer
        * value(traits.max_rot_speed) * value(dt));
    assert(-reach <= steer * value(traits.max_rot_speed) * value(dt) <= reach)
        by (nonlinear_arith)
        requires
            -1real <= steer <= 1real,
            0real <= reach,
            reach == value(traits.max_rot_speed) * value(dt),
    ;
    lemma_heading_in_range(value, pos, request, traits, dt, world_size);
}

/// In exact arithmetic, the position after a frame lies in the world for
/// every move amount between zero and one, provided that the position
/// before it lay in the world, that cosine and sine lie between -1 and 1,
/// and that the entity cannot travel further than the world is wide or high
/// in the frame.
pub proof fn lemma_position_in_range_for_any_request<T: Scalar>(
    value: spec_fn(T) -> real,
    pos: SimEntityPosRot<T>,
    request: SimEntityBrainOutputs<T>,
    traits: SimEntityTraits<T>,
    dt: T,
    world_size: (usize, usize),
)
    requires
        exact(value),
        forall|angle: T| -1real <= value(#[trigger] angle.cosine()) <= 1real,
        forall|angle: T| -1real <= value(#[trigger] angle.sine()) <= 1real,
        0real <= value(pos.0.x) < world_size.0 as real,
        0real <= value(pos.0.y) < world_size.1 as real,
        0real <= value(request.move_amt) <= 1real,
        0real <= value(traits.max_move_speed) * value(dt) <= world_size.0 as real,
        value(traits.max_move_speed) * value(dt) <= world_size.1 as real,
    ensures
        0real <= value(moved(pos, request, traits, dt, world_size).0.x) < world_size.0 as real,
        0real <= value(moved(pos, request, traits, dt, world_size).0.y) < world_size.1 as real,
{
    let heading = turned(pos.1, request, traits, dt);
    let reach = value(traits.max_move_speed) * value(dt);
    let amount = value(request.move_amt);
    let c = value(heading.cosine());
    let s = value(heading.sine());
    assert(value(
        heading.cosine().product(request.move_amt).product(traits.max_move_speed).product(dt),
    ) == c * amount * value(traits.max_move_speed) * value(dt));
    assert(value(
        heading.sine().product(request.move_amt).product(traits.max_move_speed).product(dt),
    ) == s * amount * value(traits.max_move_speed) * value(dt));
    assert(-reach <= c * amount * value(traits.max_move_speed) * value(dt) <= reach)
        by (nonlinear_arith)
        requires
            -1real <= c <= 1real,
            0real <= amount <= 1real,
            0real <= reach,
            reach == value(traits.max_move_speed) * value(dt),
    ;
    assert(-reach <= s * amount * value(traits.max_move_speed) * value(dt) <= reach)
        by (nonlinear_arith)
        requires
            -1real <= s <= 1real,
            0real <= amount <= 1real,
            0real <= reach,
            reach == value(traits.max_move_speed) * value(dt),
    ;
    lemma_position_in_range(value, pos, request, traits, dt, world_size);
}

} // verus!
