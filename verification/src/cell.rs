//! One cell of the pheromone field.

use crate::fixed::{clamp, clamped, lemma_mapped_between, map_range, mapped, UNIT};
use crate::particle::Particle;
use vstd::prelude::*;

verus! {

/// The number of independent pheromone channels in a cell.
pub const CHANNELS: usize = 3;

/// The intensity that an agent of full weight adds to a channel per tick.
pub const DEPOSIT_AMOUNT: i64 = 310_000;

/// The intensity that every channel loses per tick.
pub const DECAY_AMOUNT: i64 = 65_000;

/// Whether a sequence holds one value between zero and one for each channel.
pub open spec fn valid_channels(c: Seq<int>) -> bool {
    &&& c.len() == CHANNELS
    &&& forall|i: int| 0 <= i < CHANNELS ==> 0 <= #[trigger] c[i] <= UNIT
}

/// A channel value after one tick of decay.
pub open spec fn decayed_value(v: int) -> int {
    clamped(v - DECAY_AMOUNT, 0, UNIT as int)
}

/// The channels of a cell after one tick of decay.
pub open spec fn decayed(c: Seq<int>) -> Seq<int> {
    Seq::new(CHANNELS as nat, |i: int| decayed_value(c[i]))
}

/// The intensity that an agent whose colour weighs `weight` on a channel adds
/// to that channel.
pub open spec fn deposit_of(weight: int) -> int {
    weight * DEPOSIT_AMOUNT / (UNIT as int)
}

/// A channel value after an agent of the given weight has deposited on it.
pub open spec fn deposited_value(v: int, weight: int) -> int {
    clamped(v + deposit_of(weight), 0, UNIT as int)
}

/// The channels of a cell after an agent of the given colour has deposited.
pub open spec fn deposited(c: Seq<int>, color: Seq<int>) -> Seq<int> {
    Seq::new(CHANNELS as nat, |i: int| deposited_value(c[i], color[i]))
}

/// The channels of a cell taken together, brought from their combined range
/// of zero to three back to the range of zero to one.
pub open spec fn concentration_of(c: Seq<int>) -> int {
    mapped(c[0] + c[1] + c[2], 0, 3 * UNIT, 0, UNIT as int)
}

/// The values of an array of channels as integers.
pub open spec fn levels(a: [i64; 3]) -> Seq<int> {
    Seq::new(CHANNELS as nat, |i: int| a[i] as int)
}

/// The pheromone held at one place of the field, one intensity per channel.
#[derive(Clone, Copy, Debug)]
pub struct Cell {
    intensity: [i64; 3],
}

impl View for Cell {
    type V = Seq<int>;

    closed spec fn view(&self) -> Seq<int> {
        levels(self.intensity)
    }
}

impl Cell {
    /// Every channel lies between zero and one.
    pub open spec fn wf(&self) -> bool {
        valid_channels(self@)
    }

    /// A cell without pheromone.
    pub fn empty() -> (c: Cell)
        ensures
            c@ == Seq::new(CHANNELS as nat, |i: int| 0int),
            c.wf(),
    {
        let c = Cell { intensity: [0, 0, 0] };
        c
    }

    /// A cell with the given intensities, if each lies between zero and one.
    pub fn from_channels(intensity: [i64; 3]) -> (r: Option<Cell>)
        ensures
            r is Some <==> valid_channels(levels(intensity)),
            r is Some ==> r->0@ == levels(intensity) && r->0.wf(),
    {
        let ghost want = levels(intensity);
        assert(want[0] == intensity[0] && want[1] == intensity[1] && want[2] == intensity[2]);
        if 0 <= intensity[0] && intensity[0] <= UNIT && 0 <= intensity[1] && intensity[1] <= UNIT
            && 0 <= intensity[2] && intensity[2] <= UNIT {
            let c = Cell { intensity };
            Some(c)
        } else {
            None
        }
    }

    /// Whether every channel lies between zero and one.
    pub fn is_valid(&self) -> (r: bool)
        ensures
            r == self.wf(),
    {
        assert(self@[0] == self.intensity[0] && self@[1] == self.intensity[1] && self@[2]
            == self.intensity[2]);
        0 <= self.intensity[0] && self.intensity[0] <= UNIT && 0 <= self.intensity[1]
            && self.intensity[1] <= UNIT && 0 <= self.intensity[2] && self.intensity[2] <= UNIT
    }

    /// The intensity of one channel.
    pub fn channel(&self, i: usize) -> (v: i64)
        requires
            i < CHANNELS,
        ensures
            v == self@[i as int],
    {
        self.intensity[i]
    }

    /// Overwrites the intensity of one channel.
    pub fn set_channel(&mut self, i: usize, v: i64)
        requires
            i < CHANNELS,
            old(self).wf(),
            0 <= v <= UNIT,
        ensures
            final(self)@ == old(self)@.update(i as int, v as int),
            final(self).wf(),
    {
        self.intensity[i] = v;
    }

    /// Lets every channel fade by the decay amount, not below zero.
    pub fn decay(&mut self)
        requires
            old(self).wf(),
        ensures
            final(self)@ == decayed(old(self)@),
            final(self).wf(),
    {
        for i in 0..3usize
            invariant
                self.wf(),
                old(self).wf(),
                forall|j: int| 0 <= j < i ==> self@[j] == decayed_value(old(self)@[j]),
                forall|j: int| i <= j < CHANNELS ==> self@[j] == old(self)@[j],
        {
            assert(self@[i as int] == self.intensity[i as int]);
            let v: i64 = clamp(self.intensity[i] - DECAY_AMOUNT, 0, UNIT);
            self.set_channel(i, v);
        }
    }

    /// Adds the deposit of an agent whose colour has the given weights, not
    /// above one.
    pub fn deposit_color(&mut self, color: &[i64; 3])
        requires
            old(self).wf(),
            valid_channels(levels(*color)),
        ensures
            final(self)@ == deposited(old(self)@, levels(*color)),
            final(self).wf(),
    {
        let ghost weights = levels(*color);
        for i in 0..3usize
            invariant
                self.wf(),
                old(self).wf(),
                weights == levels(*color),
                valid_channels(weights),
                forall|j: int| 0 <= j < i ==> self@[j] == deposited_value(old(self)@[j], weights[j]),
                forall|j: int| i <= j < CHANNELS ==> self@[j] == old(self)@[j],
        {
            let weight: i64 = color[i];
            assert(weight == weights[i as int]);
            assert(0 <= weight * DEPOSIT_AMOUNT <= 310_000_000_000) by (nonlinear_arith)
                requires
                    0 <= weight <= 1_000_000,
                    DEPOSIT_AMOUNT == 310_000,
            ;
            let deposit_amt: i64 = weight * DEPOSIT_AMOUNT / UNIT;
            assert(self@[i as int] == self.intensity[i as int]);
            let v: i64 = clamp(self.intensity[i] + deposit_amt, 0, UNIT);
            self.set_channel(i, v);
        }
    }

    /// Adds the deposit of an agent: on each channel the deposit amount
    /// weighted by the agent's colour, not above one.
    pub fn deposit(&mut self, particle: &Particle)
        requires
            old(self).wf(),
            particle.wf(),
        ensures
            final(self)@ == deposited(old(self)@, particle@.color),
            final(self).wf(),
    {
        self.deposit_color(particle.color());
    }

    /// The strength of the cell as one number between zero and one.
    pub fn concentration(&self) -> (r: i64)
        requires
            self.wf(),
        ensures
            r == concentration_of(self@),
            0 <= r <= UNIT,
    {
        assert(self@[0] == self.intensity[0] && self@[1] == self.intensity[1] && self@[2]
            == self.intensity[2]);
        let sum: i64 = self.intensity[0] + self.intensity[1] + self.intensity[2];
        proof {
            lemma_mapped_between(sum as int, 0, 3 * UNIT, 0, UNIT as int);
            assert(0 <= sum * UNIT <= 3_000_000_000_000) by (nonlinear_arith)
                requires
                    0 <= sum <= 3_000_000,
                    UNIT == 1_000_000,
            ;
        }
        map_range(sum, 0, 3 * UNIT, 0, UNIT)
    }
}

/// A channel value after `n` ticks of decay.
pub open spec fn decayed_times(v: int, n: nat) -> int
    decreases n,
{
    if n == 0 {
        v
    } else {
        decayed_value(decayed_times(v, (n - 1) as nat))
    }
}

/// A channel value after `n` deposits of an agent of the given weight.
pub open spec fn deposited_times(v: int, weight: int, n: nat) -> int
    decreases n,
{
    if n == 0 {
        v
    } else {
        deposited_value(deposited_times(v, weight, (n - 1) as nat), weight)
    }
}

/// Decay keeps a channel between zero and one, takes the decay amount off a
/// channel that holds at least that much, and empties any other.
pub proof fn lemma_decay_step(v: int)
    requires
        0 <= v <= UNIT,
    ensures
        0 <= decayed_value(v) <= UNIT,
        v >= DECAY_AMOUNT ==> decayed_value(v) == v - DECAY_AMOUNT,
        v <= DECAY_AMOUNT ==> decayed_value(v) == 0,
{
}

/// Decay is idempotent at the floor: an empty channel stays empty however
/// often it decays. In general `n` ticks take `n` decay amounts off a
/// channel, not below zero.
pub proof fn lemma_decay_repeated(v: int, n: nat)
    requires
        0 <= v <= UNIT,
    ensures
        decayed_times(0, n) == 0,
        decayed_times(v, n) == clamped(v - n * DECAY_AMOUNT, 0, UNIT as int),
    decreases n,
{
    if n > 0 {
        lemma_decay_repeated(v, (n - 1) as nat);
        assert(n * DECAY_AMOUNT == (n - 1) * DECAY_AMOUNT + DECAY_AMOUNT) by (nonlinear_arith);
        assert((n - 1) * DECAY_AMOUNT >= 0) by (nonlinear_arith)
            requires
                n >= 1,
        ;
    }
}

/// What one deposit adds is never negative and never more than the deposit
/// amount.
pub proof fn lemma_deposit_of_range(weight: int)
    requires
        0 <= weight <= UNIT,
    ensures
        0 <= deposit_of(weight) <= DEPOSIT_AMOUNT,
        deposit_of(UNIT as int) == DEPOSIT_AMOUNT,
        deposit_of(0) == 0,
{
    assert(0 <= weight * DEPOSIT_AMOUNT <= DEPOSIT_AMOUNT * UNIT) by (nonlinear_arith)
        requires
            0 <= weight <= UNIT,
    ;
}

/// A deposit keeps a channel between zero and one. Below the ceiling it
/// raises the channel by exactly the deposit of the agent's weight; at the
/// ceiling it changes nothing.
pub proof fn lemma_deposit_step(v: int, weight: int)
    requires
        0 <= v <= UNIT,
        0 <= weight <= UNIT,
    ensures
        0 <= deposited_value(v, weight) <= UNIT,
        v + deposit_of(weight) <= UNIT ==> deposited_value(v, weight) == v + deposit_of(weight),
        v + deposit_of(weight) <= UNIT && deposit_of(weight) > 0 ==> deposited_value(v, weight) > v,
        v + deposit_of(weight) >= UNIT ==> deposited_value(v, weight) == UNIT,
        v == UNIT ==> deposited_value(v, weight) == v,
{
    lemma_deposit_of_range(weight);
}

/// Deposits add up until the ceiling: `n` deposits raise a channel by `n`
/// times the deposit of the agent's weight, not above one, and once the
/// channel holds one every further deposit leaves it there.
pub proof fn lemma_deposit_repeated(v: int, weight: int, n: nat)
    requires
        0 <= v <= UNIT,
        0 <= weight <= UNIT,
    ensures
        deposited_times(v, weight, n) == clamped(v + n * deposit_of(weight), 0, UNIT as int),
        deposited_times(UNIT as int, weight, n) == UNIT,
    decreases n,
{
    lemma_deposit_of_range(weight);
    let amt = deposit_of(weight);
    if n > 0 {
        lemma_deposit_repeated(v, weight, (n - 1) as nat);
        assert(n * amt == (n - 1) * amt + amt) by (nonlinear_arith);
        assert((n - 1) * amt >= 0) by (nonlinear_arith)
            requires
                n >= 1,
                amt >= 0,
        ;
    }
}

} // verus!
