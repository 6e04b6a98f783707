//! The simulation: one field, a fixed population of agents, and the tick
//! that advances both.

use crate::diffusion::{diffused, lemma_diffused_wf};
use crate::fixed::UNIT;
use crate::geometry::{valid_side, MAX_REACH, MAX_SIDE};
use crate::grid::{empty_field, Field, Grid, BLUR_RADIUS, MAX_RADIUS};
use crate::particle::{
    advanced, chosen_turn, field_after, fresh_agent, is_tied, lemma_advanced_on, steer, Agent,
    Bearings, Particle, Turn, HEADING_DISTANCE, SENSE_ANGLE, SENSE_DISTANCE, TAU, TURN_ANGLE,
};
use crate::random::RandomSource;
use vstd::prelude::*;

verus! {

/// The parameters that a simulation gives to its agents and its field.
#[derive(Clone, Copy, Debug)]
pub struct Tuning {
    /// The distance that an agent covers per tick.
    pub step_distance: i64,
    /// The angle between the heading and each outer sensor.
    pub sense_angle: i64,
    /// The distance from an agent to its sensors.
    pub sense_distance: i64,
    /// The angle of one turn.
    pub turn_angle: i64,
    /// The radius of the box filter.
    pub blur_radius: i64,
}

impl Tuning {
    /// The radius is not negative and within its limit, the sensors are
    /// within reach, and one step goes no further than once round a grid of
    /// the given sides.
    pub open spec fn fits(self, width: int, height: int) -> bool {
        &&& 0 <= self.blur_radius <= MAX_RADIUS
        &&& -MAX_REACH <= self.sense_distance <= MAX_REACH
        &&& -width * UNIT <= self.step_distance <= width * UNIT
        &&& -height * UNIT <= self.step_distance <= height * UNIT
    }

    /// The default parameters.
    pub fn standard() -> (t: Tuning)
        ensures
            t == (Tuning {
                step_distance: HEADING_DISTANCE,
                sense_angle: SENSE_ANGLE,
                sense_distance: SENSE_DISTANCE,
                turn_angle: TURN_ANGLE,
                blur_radius: BLUR_RADIUS as i64,
            }),
    {
        Tuning {
            step_distance: HEADING_DISTANCE,
            sense_angle: SENSE_ANGLE,
            sense_distance: SENSE_DISTANCE,
            turn_angle: TURN_ANGLE,
            blur_radius: BLUR_RADIUS as i64,
        }
    }

    /// Whether the parameters fit a grid of the given sides.
    pub fn is_fit(&self, width: usize, height: usize) -> (r: bool)
        requires
            valid_side(width as int),
            valid_side(height as int),
        ensures
            r == self.fits(width as int, height as int),
    {
        let w: i64 = width as i64 * UNIT;
        let h: i64 = height as i64 * UNIT;
        0 <= self.blur_radius && self.blur_radius <= MAX_RADIUS as i64 && -MAX_REACH
            <= self.sense_distance && self.sense_distance <= MAX_REACH && -w <= self.step_distance
            && self.step_distance <= w && -h <= self.step_distance && self.step_distance <= h
    }
}

/// How a simulation places its agents.
pub enum InitPolicy {
    /// Each agent at a uniformly random position with a uniformly random
    /// heading, and a colour of full weight.
    Uniform,
    /// The agents as given, each with its own position, heading and colour.
    Placed(Vec<Particle>),
}

/// Why a simulation could not be made.
#[derive(Clone, Copy, Debug, PartialEq, Eq, Structural)]
pub enum SimError {
    /// A side of the grid is zero or too long, the radius is negative or too
    /// long, there is no agent, the number of agents placed is not the
    /// number asked for, an agent does not stand on the grid, or a distance
    /// is out of reach.
    InvalidConfiguration,
}

/// An agent with the parameters of motion of a tuning.
pub open spec fn tuned(a: Agent, t: Tuning) -> Agent {
    Agent {
        x: a.x,
        y: a.y,
        heading: a.heading,
        step_distance: t.step_distance as int,
        sense_angle: t.sense_angle as int,
        sense_distance: t.sense_distance as int,
        turn_angle: t.turn_angle as int,
        color: a.color,
    }
}

/// Whether a simulation can be made of these arguments.
pub open spec fn valid_configuration(
    width: int,
    height: int,
    agent_count: int,
    policy: InitPolicy,
    tuning: Tuning,
) -> bool {
    &&& valid_side(width)
    &&& valid_side(height)
    &&& agent_count > 0
    &&& tuning.fits(width, height)
    &&& policy matches InitPolicy::Placed(v) ==> {
        &&& v@.len() == agent_count
        &&& forall|i: int|
            0 <= i < v@.len() ==> (#[trigger] v@[i])@.wf() && v@[i]@.on(width, height)
    }
}

/// Whether the agents are what the policy and the tuning call for.
pub open spec fn populated(
    agents: Seq<Agent>,
    policy: InitPolicy,
    tuning: Tuning,
    width: int,
    height: int,
) -> bool {
    match policy {
        InitPolicy::Uniform => forall|i: int|
            0 <= i < agents.len() ==> {
                let a = #[trigger] agents[i];
                &&& a == tuned(fresh_agent(a.x, a.y, a.heading), tuning)
                &&& 0 <= a.x < width * UNIT
                &&& 0 <= a.y < height * UNIT
                &&& 0 <= a.heading < TAU
            },
        InitPolicy::Placed(v) => forall|i: int|
            0 <= i < agents.len() ==> #[trigger] agents[i] == tuned(v@[i]@, tuning),
    }
}

/// The mathematical content of a simulation.
pub struct World {
    pub field: Field,
    pub agents: Seq<Agent>,
}

impl World {
    /// The field is well formed, there is at least one agent, and every
    /// agent is well formed and stands on the field.
    pub open spec fn wf(self) -> bool {
        &&& self.field.wf()
        &&& self.agents.len() > 0
        &&& forall|i: int|
            0 <= i < self.agents.len() ==> (#[trigger] self.agents[i]).wf() && self.agents[i].on(
                self.field.width,
                self.field.height,
            )
    }
}

/// The field after the first `n` agents have deposited where they stand, one
/// after the other.
pub open spec fn deposits(f: Field, agents: Seq<Agent>, n: nat) -> Field
    decreases n,
{
    if n == 0 {
        f
    } else {
        field_after(deposits(f, agents, (n - 1) as nat), agents[n - 1])
    }
}

/// The turn that each agent takes on the field as it stands at the start of
/// the tick.
pub open spec fn chosen_turns(w: World, bearings: Seq<Bearings>, samples: Seq<i64>) -> Seq<Turn> {
    Seq::new(
        w.agents.len(),
        |i: int| chosen_turn(w.agents[i], w.field, bearings[i], samples[i] as int),
    )
}

/// The world after every agent has deposited where it stood, has taken its
/// turn and moved, and the field has decayed and diffused.
pub open spec fn acted(w: World, bearings: Seq<Bearings>, turns: Seq<Turn>) -> World {
    World {
        field: diffused(deposits(w.field, w.agents, w.agents.len())),
        agents: Seq::new(
            w.agents.len(),
            |i: int| advanced(w.agents[i], w.field.width, w.field.height, bearings[i], turns[i]),
        ),
    }
}

/// The world after one tick. Every agent senses the field of the start of
/// the tick: no agent sees the deposit of another from the same tick.
pub open spec fn ticked(w: World, bearings: Seq<Bearings>, samples: Seq<i64>) -> World {
    acted(w, bearings, chosen_turns(w, bearings, samples))
}

/// Whether there is one well-formed set of bearings for each agent.
pub open spec fn bearings_for(bearings: Seq<Bearings>, count: nat) -> bool {
    &&& bearings.len() == count
    &&& forall|i: int| 0 <= i < count ==> (#[trigger] bearings[i]).wf()
}

/// Deposits leave a well-formed field of the same shape.
pub proof fn lemma_deposits_wf(f: Field, agents: Seq<Agent>, n: nat)
    requires
        f.wf(),
        n <= agents.len(),
        forall|i: int| 0 <= i < agents.len() ==> (#[trigger] agents[i]).wf(),
    ensures
        deposits(f, agents, n).wf(),
        deposits(f, agents, n).width == f.width,
        deposits(f, agents, n).height == f.height,
        deposits(f, agents, n).radius == f.radius,
    decreases n,
{
    if n > 0 {
        lemma_deposits_wf(f, agents, (n - 1) as nat);
        let g = deposits(f, agents, (n - 1) as nat);
        let a = agents[n - 1];
        crate::grid::lemma_field_after_deposit_wf(g, a.x, a.y, a.color);
    }
}

/// A tick keeps the world well formed: every channel of every cell stays
/// between zero and one and every agent stays on the grid.
pub proof fn lemma_acted_wf(w: World, bearings: Seq<Bearings>, turns: Seq<Turn>)
    requires
        w.wf(),
        bearings_for(bearings, w.agents.len()),
    ensures
        acted(w, bearings, turns).wf(),
        acted(w, bearings, turns).field.width == w.field.width,
        acted(w, bearings, turns).field.height == w.field.height,
        acted(w, bearings, turns).field.radius == w.field.radius,
        acted(w, bearings, turns).agents.len() == w.agents.len(),
{
    lemma_deposits_wf(w.field, w.agents, w.agents.len());
    lemma_diffused_wf(deposits(w.field, w.agents, w.agents.len()));
    let after = acted(w, bearings, turns);
    assert forall|i: int| 0 <= i < after.agents.len() implies (#[trigger] after.agents[i]).wf()
        && after.agents[i].on(after.field.width, after.field.height) by {
        lemma_advanced_on(w.agents[i], w.field.width, w.field.height, bearings[i], turns[i]);
    }
}

/// The content of each particle of a buffer.
pub open spec fn agents_of(particles: Seq<Particle>) -> Seq<Agent> {
    Seq::new(particles.len(), |i: int| particles[i]@)
}

/// Whether every particle is well formed and stands on a grid of the given
/// sides.
pub fn all_fit(particles: &Vec<Particle>, width: usize, height: usize) -> (r: bool)
    requires
        valid_side(width as int),
        valid_side(height as int),
    ensures
        r == (forall|i: int|
            0 <= i < particles@.len() ==> (#[trigger] particles@[i])@.wf() && particles@[i]@.on(
                width as int,
                height as int,
            )),
{
    let mut fit: bool = true;
    for i in 0..particles.len()
        invariant
            valid_side(width as int),
            valid_side(height as int),
            fit == (forall|j: int|
                0 <= j < i ==> (#[trigger] particles@[j])@.wf() && particles@[j]@.on(
                    width as int,
                    height as int,
                )),
    {
        if !particles[i].fits(width, height) {
            fit = false;
        }
    }
    fit
}

/// With a single agent a tick is that agent's own rule followed by the
/// field's: the agent senses, turns, deposits where it stood and moves, and
/// then the field decays and diffuses.
pub proof fn lemma_single_agent_tick(w: World, bearings: Seq<Bearings>, samples: Seq<i64>)
    requires
        w.agents.len() == 1,
    ensures
        ticked(w, bearings, samples).field == diffused(field_after(w.field, w.agents[0])),
        ticked(w, bearings, samples).agents.len() == 1,
        ticked(w, bearings, samples).agents[0] == crate::particle::agent_after(
            w.agents[0],
            w.field,
            bearings[0],
            samples[0] as int,
        ),
{
    assert(deposits(w.field, w.agents, 1) == field_after(deposits(w.field, w.agents, 0), w.agents[0]));
}

/// The turn and the move of an agent in a tick depend on the field of the
/// start of the tick and on that agent alone, not on what any other agent
/// does in the same tick.
pub proof fn lemma_agents_independent(
    w: World,
    v: World,
    bearings: Seq<Bearings>,
    samples: Seq<i64>,
    i: int,
)
    requires
        w.field == v.field,
        0 <= i < w.agents.len(),
        w.agents.len() == v.agents.len(),
        w.agents[i] == v.agents[i],
    ensures
        ticked(w, bearings, samples).agents[i] == ticked(v, bearings, samples).agents[i],
{
}

/// A field and the agents that live on it.
pub struct Simulation {
    grid: Grid,
    particles: Vec<Particle>,
}

impl View for Simulation {
    type V = World;

    closed spec fn view(&self) -> World {
        World { field: self.grid@, agents: agents_of(self.particles@) }
    }
}

impl Simulation {
    /// The simulation's content is a well-formed world.
    pub open spec fn wf(&self) -> bool {
        self@.wf()
    }

    /// A simulation on an empty grid of the given sides, with `agent_count`
    /// agents placed by the policy and moving by the tuning.
    pub fn new(
        width: usize,
        height: usize,
        agent_count: usize,
        policy: InitPolicy,
        tuning: Tuning,
        rng: &mut RandomSource,
    ) -> (r: Result<Simulation, SimError>)
        ensures
            r is Ok <==> valid_configuration(
                width as int,
                height as int,
                agent_count as int,
                policy,
                tuning,
            ),
            r matches Ok(sim) ==> {
                &&& sim.wf()
                &&& sim@.field == empty_field(width as int, height as int, tuning.blur_radius as int)
                &&& sim@.agents.len() == agent_count
                &&& populated(sim@.agents, policy, tuning, width as int, height as int)
            },
    {
        if width == 0 || height == 0 || width > MAX_SIDE || height > MAX_SIDE || agent_count == 0 {
            return Err(SimError::InvalidConfiguration);
        }
        if !tuning.is_fit(width, height) {
            return Err(SimError::InvalidConfiguration);
        }
        let mut particles: Vec<Particle> = Vec::new();
        match &policy {
            InitPolicy::Uniform => {
                for i in 0..agent_count
                    invariant
                        valid_side(width as int),
                        valid_side(height as int),
                        tuning.fits(width as int, height as int),
                        particles@.len() == i,
                        forall|j: int|
                            0 <= j < i ==> {
                                let a = (#[trigger] particles@[j])@;
                                &&& a == tuned(fresh_agent(a.x, a.y, a.heading), tuning)
                                &&& 0 <= a.x < width * UNIT
                                &&& 0 <= a.y < height * UNIT
                                &&& 0 <= a.heading < TAU
                                &&& a.wf()
                                &&& a.on(width as int, height as int)
                            },
                {
                    let mut p = Particle::random(width, height, rng);
                    p.tune(
                        tuning.step_distance,
                        tuning.sense_angle,
                        tuning.sense_distance,
                        tuning.turn_angle,
                    );
                    proof {
                        crate::particle::lemma_on_within_reach(p@, width as int, height as int);
                    }
                    particles.push(p);
                }
            },
            InitPolicy::Placed(placed) => {
                if placed.len() != agent_count {
                    return Err(SimError::InvalidConfiguration);
                }
                if !all_fit(placed, width, height) {
                    return Err(SimError::InvalidConfiguration);
                }
                for i in 0..agent_count
                    invariant
                        valid_side(width as int),
                        valid_side(height as int),
                        tuning.fits(width as int, height as int),
                        placed@.len() == agent_count,
                        forall|j: int|
                            0 <= j < placed@.len() ==> (#[trigger] placed@[j])@.wf() && placed@[j]@.on(
                                width as int,
                                height as int,
                            ),
                        particles@.len() == i,
                        forall|j: int|
                            0 <= j < i ==> {
                                &&& (#[trigger] particles@[j])@ == tuned(placed@[j]@, tuning)
                                &&& particles@[j]@.wf()
                                &&& particles@[j]@.on(width as int, height as int)
                            },
                {
                    let mut p: Particle = placed[i];
                    p.tune(
                        tuning.step_distance,
                        tuning.sense_angle,
                        tuning.sense_distance,
                        tuning.turn_angle,
                    );
                    proof {
                        crate::particle::lemma_on_within_reach(p@, width as int, height as int);
                    }
                    particles.push(p);
                }
            },
        }
        let grid = Grid::with_radius(width, height, tuning.blur_radius as usize);
        Ok(Simulation { grid, particles })
    }

    /// A simulation of the given field and agents, if there is at least one
    /// agent and every agent is well formed and stands on the field.
    pub fn from_parts(grid: Grid, particles: Vec<Particle>) -> (r: Result<Simulation, SimError>)
        requires
            grid.wf(),
        ensures
            r is Ok <==> (World { field: grid@, agents: agents_of(particles@) }).wf(),
            r matches Ok(sim) ==> sim@ == (World { field: grid@, agents: agents_of(particles@) }),
    {
        let ghost want = World { field: grid@, agents: agents_of(particles@) };
        if particles.len() == 0 {
            return Err(SimError::InvalidConfiguration);
        }
        if !all_fit(&particles, grid.width(), grid.height()) {
            assert(!want.wf()) by {
                if want.wf() {
                    assert forall|i: int| 0 <= i < particles@.len() implies (
                    #[trigger] particles@[i])@.wf() && particles@[i]@.on(
                        grid@.width,
                        grid@.height,
                    ) by {
                        assert(want.agents[i].wf());
                    }
                }
            }
            return Err(SimError::InvalidConfiguration);
        }
        Ok(Simulation { grid, particles })
    }

    /// The field.
    pub fn grid(&self) -> (g: &Grid)
        ensures
            g@ == self@.field,
    {
        &self.grid
    }

    /// The agents, in their fixed order.
    pub fn particles(&self) -> (p: &Vec<Particle>)
        ensures
            agents_of(p@) == self@.agents,
    {
        &self.particles
    }

    /// The number of agents.
    pub fn population(&self) -> (n: usize)
        ensures
            n == self@.agents.len(),
    {
        self.particles.len()
    }

    /// The cells of the field, row by row, for a renderer to read.
    pub fn snapshot(&self) -> (cells: &Vec<crate::cell::Cell>)
        ensures
            cells@.len() == self@.field.cells.len(),
            forall|i: int| 0 <= i < cells@.len() ==> (#[trigger] cells@[i])@ == self@.field.cells[i],
    {
        self.grid.snapshot()
    }

    /// The turn of every agent on the field as it stands, with the given
    /// sample for each agent's tie.
    fn decide(&self, bearings: &Vec<Bearings>, samples: &Vec<i64>) -> (turns: Vec<Turn>)
        requires
            self.wf(),
            bearings_for(bearings@, self@.agents.len()),
            samples@.len() == self@.agents.len(),
        ensures
            turns@ == chosen_turns(self@, bearings@, samples@),
    {
        let n: usize = self.particles.len();
        let mut turns: Vec<Turn> = Vec::new();
        for i in 0..n
            invariant
                self.wf(),
                n == self@.agents.len(),
                n == self.particles@.len(),
                bearings_for(bearings@, self@.agents.len()),
                samples@.len() == n,
                turns@.len() == i,
                forall|j: int|
                    0 <= j < i ==> #[trigger] turns@[j] == chosen_turn(
                        self@.agents[j],
                        self@.field,
                        bearings@[j],
                        samples@[j] as int,
                    ),
        {
            assert(self@.agents[i as int] == self.particles@[i as int]@);
            let readings = self.particles[i].sense(&self.grid, &bearings[i]);
            turns.push(steer(&readings, samples[i]));
        }
        turns
    }

    /// The turn of every agent on the field as it stands. A sample is drawn
    /// for each agent whose left and right readings tie, and for no other.
    fn decide_drawing(&self, bearings: &Vec<Bearings>, rng: &mut RandomSource) -> (r: (
        Vec<Turn>,
        Ghost<Seq<i64>>,
    ))
        requires
            self.wf(),
            bearings_for(bearings@, self@.agents.len()),
        ensures
            r.1@.len() == self@.agents.len(),
            forall|i: int| 0 <= i < r.1@.len() ==> 0 <= #[trigger] r.1@[i] < UNIT,
            r.0@ == chosen_turns(self@, bearings@, r.1@),
    {
        let n: usize = self.particles.len();
        let mut turns: Vec<Turn> = Vec::new();
        let ghost mut samples: Seq<i64> = Seq::empty();
        for i in 0..n
            invariant
                self.wf(),
                n == self@.agents.len(),
                n == self.particles@.len(),
                bearings_for(bearings@, self@.agents.len()),
                samples.len() == i,
                turns@.len() == i,
                forall|j: int| 0 <= j < i ==> 0 <= #[trigger] samples[j] < UNIT,
                forall|j: int|
                    0 <= j < i ==> #[trigger] turns@[j] == chosen_turn(
                        self@.agents[j],
                        self@.field,
                        bearings@[j],
                        samples[j] as int,
                    ),
        {
            assert(self@.agents[i as int] == self.particles@[i as int]@);
            let readings = self.particles[i].sense(&self.grid, &bearings[i]);
            let sample: i64 = if is_tied(&readings) {
                rng.sample()
            } else {
                0
            };
            turns.push(steer(&readings, sample));
            proof {
                samples = samples.push(sample);
            }
        }
        (turns, Ghost(samples))
    }

    /// Carries out a tick whose turns have been decided: every agent in turn
    /// deposits where it stands, turns and moves; then the field decays and
    /// diffuses.
    pub fn act(&mut self, turns: &Vec<Turn>, bearings: &Vec<Bearings>)
        requires
            old(self).wf(),
            bearings_for(bearings@, old(self)@.agents.len()),
            turns@.len() == old(self)@.agents.len(),
        ensures
            final(self)@ == acted(old(self)@, bearings@, turns@),
            final(self).wf(),
    {
        let ghost before = self@;
        let n: usize = self.particles.len();
        let width: usize = self.grid.width();
        let height: usize = self.grid.height();
        for i in 0..n
            invariant
                before.wf(),
                before.agents.len() == n,
                bearings_for(bearings@, before.agents.len()),
                turns@.len() == n,
                self.particles@.len() == n,
                width == before.field.width,
                height == before.field.height,
                self.grid.wf(),
                self.grid@ == deposits(before.field, before.agents, i as nat),
                forall|j: int|
                    0 <= j < i ==> (#[trigger] self.particles@[j])@ == advanced(
                        before.agents[j],
                        before.field.width,
                        before.field.height,
                        bearings@[j],
                        turns@[j],
                    ),
                forall|j: int| i <= j < n ==> (#[trigger] self.particles@[j])@ == before.agents[j],
        {
            proof {
                lemma_deposits_wf(before.field, before.agents, i as nat);
            }
            let at: crate::geometry::Point = self.particles[i].position();
            let color: [i64; 3] = *self.particles[i].color();
            self.grid.deposit_at(at, &color);
            self.particles[i].advance(turns[i], &bearings[i], width, height);
        }
        proof {
            lemma_deposits_wf(before.field, before.agents, n as nat);
            lemma_acted_wf(before, bearings@, turns@);
        }
        self.grid.update();
        assert(self@.agents =~= acted(before, bearings@, turns@).agents);
    }

    /// One tick with a given sample for the tie of each agent: first every
    /// agent senses the field and decides its turn, then every agent in turn
    /// deposits, turns and moves, then the field decays and diffuses.
    pub fn step_with(&mut self, bearings: &Vec<Bearings>, samples: &Vec<i64>)
        requires
            old(self).wf(),
            bearings_for(bearings@, old(self)@.agents.len()),
            samples@.len() == old(self)@.agents.len(),
        ensures
            final(self)@ == ticked(old(self)@, bearings@, samples@),
            final(self).wf(),
    {
        let turns = self.decide(bearings, samples);
        self.act(&turns, bearings);
    }

    /// One tick, with the ties broken by samples drawn from `rng`.
    pub fn step(&mut self, bearings: &Vec<Bearings>, rng: &mut RandomSource)
        requires
            old(self).wf(),
            bearings_for(bearings@, old(self)@.agents.len()),
        ensures
            exists|samples: Seq<i64>|
                {
                    &&& samples.len() == old(self)@.agents.len()
                    &&& forall|i: int| 0 <= i < samples.len() ==> 0 <= #[trigger] samples[i] < UNIT
                    &&& final(self)@ == #[trigger] ticked(old(self)@, bearings@, samples)
                },
            final(self).wf(),
    {
        let (turns, Ghost(samples)) = self.decide_drawing(bearings, rng);
        self.act(&turns, bearings);
        assert(self@ == ticked(old(self)@, bearings@, samples));
    }
}

} // verus!
