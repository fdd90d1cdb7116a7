use vstd::prelude::*;

verus! {

pub const DIE_FACE_COUNT: u64 = 6;

#[derive(Debug, Clone, Copy, PartialEq, Eq, Hash, Structural)]
pub struct DiceRoll {
    pub first_die: u8,
    pub second_die: u8,
}

impl DiceRoll {
    /// Both dice show a face from one to six.
    pub open spec fn valid(self) -> bool {
        1 <= self.first_die <= 6 && 1 <= self.second_die <= 6
    }

    pub fn total(&self) -> (total: u8)
        requires
            self.first_die + self.second_die <= u8::MAX,
        ensures
            total == self.first_die + self.second_die,
    {
        self.first_die + self.second_die
    }

    pub fn is_double(&self) -> (double: bool)
        ensures
            double == (self.first_die == self.second_die),
    {
        self.first_die == self.second_die
    }
}

pub const WYRAND_INCREMENT: u64 = 0xa076_1d47_8bd6_42f7;

pub const WYRAND_MIX: u64 = 0xe703_7ed1_a0b4_28db;

/// The state that follows `state` in the generator's sequence.
pub open spec fn wyrand_step(state: u64) -> u64 {
    ((state + WYRAND_INCREMENT) % 0x1_0000_0000_0000_0000) as u64
}

/// The output drawn from the state `state`: the full 128-bit product of the state and the state
/// mixed with a constant, folded to 64 bits by xoring its halves.
pub open spec fn wyrand_output(state: u64) -> u64 {
    let product = ((state as int) * ((state ^ WYRAND_MIX) as int)) as u128;
    ((product >> 64u128) ^ product) as u64
}

/// A value below `bound` scaled from the upper half of `bits`: the upper half times `bound`,
/// shifted down by 32 bits.
pub open spec fn scale_below(bits: u64, bound: u64) -> u64 {
    ((((bits >> 32u64) as int) * (bound as int)) as u64) >> 32u64
}

/// The dice rolled by a generator in the state `state`: one output, its high half for the
/// first die and its low half for the second.
pub open spec fn dice_drawn(state: u64) -> DiceRoll {
    let bits = wyrand_output(wyrand_step(state));
    DiceRoll {
        first_die: (scale_below(bits, DIE_FACE_COUNT) + 1) as u8,
        second_die: (scale_below(bits << 32u64, DIE_FACE_COUNT) + 1) as u8,
    }
}

/// The state and values left after the first `count` positions of `values` were shuffled,
/// starting from the generator state `state`.
pub open spec fn shuffle_spec<T>(state: u64, values: Seq<T>, count: nat) -> (u64, Seq<T>)
    decreases count,
{
    if count <= 1 || count > u32::MAX {
        (state, values)
    } else {
        let next_state = wyrand_step(state);
        let swap_index = scale_below(wyrand_output(next_state), count as u64) as int;
        let last = count - 1;
        shuffle_spec(
            next_state,
            values.update(last, values[swap_index]).update(swap_index, values[last]),
            last as nat,
        )
    }
}

pub proof fn lemma_scale_below(bits: u64, bound: u64)
    requires
        bound <= u32::MAX,
    ensures
        bound > 0 ==> scale_below(bits, bound) < bound,
        ((bits >> 32u64) as int) * (bound as int) <= u64::MAX,
{
    let high = bits >> 32u64;
    assert(high < 0x1_0000_0000) by (bit_vector)
        requires
            high == bits >> 32u64,
    ;
    assert(high * bound < 0x1_0000_0000 * 0x1_0000_0000) by (nonlinear_arith)
        requires
            high < 0x1_0000_0000,
            bound <= u32::MAX,
    ;
    let product = (high * bound) as u64;
    assert(product >> 32u64 == product / 0x1_0000_0000) by (bit_vector);
    if bound > 0 {
        assert((high * bound) / 0x1_0000_0000 < bound) by (nonlinear_arith)
            requires
                high < 0x1_0000_0000,
                bound > 0,
        ;
    }
}

#[derive(Debug, Clone, Copy, PartialEq, Eq, Hash)]
pub struct WyRand {
    state: u64,
}

impl WyRand {
    /// The generator's current state.
    pub closed spec fn state(self) -> u64 {
        self.state
    }

    /// The generator after one draw.
    pub closed spec fn drawn(self) -> WyRand {
        WyRand { state: wyrand_step(self.state) }
    }

    /// One draw steps the generator's state.
    pub proof fn lemma_drawn(self)
        ensures
            self.drawn().state() == wyrand_step(self.state()),
    {
    }

    /// The generator's current state, to record or compare.
    pub fn current_state(&self) -> (state: u64)
        ensures
            state == self.state(),
    {
        self.state
    }

    pub fn new(seed: u64) -> (rng: WyRand)
        ensures
            rng.state() == seed,
    {
        WyRand { state: seed }
    }

    pub fn generate_u64(&mut self) -> (value: u64)
        ensures
            final(self).state() == wyrand_step(old(self).state()),
            *final(self) == old(self).drawn(),
            value == wyrand_output(final(self).state()),
    {
        self.state = self.state.wrapping_add(WYRAND_INCREMENT);
        let state = self.state;
        let mixed = state ^ WYRAND_MIX;
        assert((state as int) * (mixed as int) <= u128::MAX) by (nonlinear_arith)
            requires
                state <= u64::MAX,
                mixed <= u64::MAX,
        ;
        let product = (state as u128) * (mixed as u128);
        ((product >> 64u32) ^ product) as u64
    }

    pub fn generate_below(&mut self, exclusive_upper_bound: u32) -> (value: u32)
        ensures
            final(self).state() == wyrand_step(old(self).state()),
            value == scale_below(wyrand_output(final(self).state()), exclusive_upper_bound as u64),
            exclusive_upper_bound > 0 ==> value < exclusive_upper_bound,
    {
        let bits = self.generate_u64();
        proof {
            lemma_scale_below(bits, exclusive_upper_bound as u64);
        }
        (((bits >> 32u64) * exclusive_upper_bound as u64) >> 32u64) as u32
    }

    pub fn roll_dice(&mut self) -> (dice_roll: DiceRoll)
        ensures
            final(self).state() == wyrand_step(old(self).state()),
            *final(self) == old(self).drawn(),
            dice_roll.valid(),
            dice_roll == dice_drawn(old(self).state()),
            dice_roll.first_die == scale_below(wyrand_output(final(self).state()), DIE_FACE_COUNT) + 1,
            dice_roll.second_die == scale_below(
                wyrand_output(final(self).state()) << 32u64,
                DIE_FACE_COUNT,
            ) + 1,
    {
        let random_bits = self.generate_u64();
        let low_bits = random_bits << 32u64;
        proof {
            lemma_scale_below(random_bits, DIE_FACE_COUNT);
            lemma_scale_below(low_bits, DIE_FACE_COUNT);
            assert(low_bits >> 32u64 == random_bits & 0xFFFF_FFFFu64) by (bit_vector)
                requires
                    low_bits == random_bits << 32u64,
            ;
        }
        let first_die = ((((random_bits >> 32u64) * DIE_FACE_COUNT) >> 32u64) as u8) + 1;
        let second_die = ((((random_bits & 0xFFFF_FFFF) * DIE_FACE_COUNT) >> 32u64) as u8) + 1;
        DiceRoll { first_die, second_die }
    }

    /// Shuffles `values` with the Fisher-Yates method, drawing one bounded value per position
    /// from the last position down to the second.
    pub fn shuffle<T: Copy, const N: usize>(&mut self, values: &mut [T; N])
        requires
            N <= u32::MAX,
        ensures
            (final(self).state(), final(values)@) == shuffle_spec(
                old(self).state(),
                old(values)@,
                N as nat,
            ),
    {
        let mut unshuffled_count: usize = N;
        while unshuffled_count > 1
            invariant
                unshuffled_count <= N <= u32::MAX,
                values@.len() == N,
                shuffle_spec(self.state(), values@, unshuffled_count as nat) == shuffle_spec(
                    old(self).state(),
                    old(values)@,
                    N as nat,
                ),
            decreases unshuffled_count,
        {
            let ghost before_state = self.state();
            let ghost before_values = values@;
            let swap_index = self.generate_below(unshuffled_count as u32) as usize;
            unshuffled_count = unshuffled_count - 1;
            let last_value = values[unshuffled_count];
            let swapped_value = values[swap_index];
            values[unshuffled_count] = swapped_value;
            values[swap_index] = last_value;
            assert(values@ == before_values.update(unshuffled_count as int, before_values[swap_index as int]).update(
                swap_index as int,
                before_values[unshuffled_count as int],
            ));
        }
    }
}

/// A shuffle rearranges the values: each position takes the value of a distinct position.
pub proof fn lemma_shuffle_permutes<T>(state: u64, values: Seq<T>, count: nat)
    requires
        count <= values.len(),
    ensures
        exists|source: Seq<int>| is_rearrangement(source, shuffle_spec(state, values, count).1, values),
    decreases count,
{
    let shuffled = shuffle_spec(state, values, count).1;
    if count <= 1 || count > u32::MAX {
        let source = Seq::new(values.len(), |i: int| i);
        assert(is_rearrangement(source, shuffled, values));
    } else {
        let next_state = wyrand_step(state);
        let swap_index = scale_below(wyrand_output(next_state), count as u64) as int;
        lemma_scale_below(wyrand_output(next_state), count as u64);
        let last = count - 1;
        let swapped = values.update(last, values[swap_index]).update(swap_index, values[last]);
        lemma_shuffle_permutes(next_state, swapped, last as nat);
        let inner = choose|source: Seq<int>| is_rearrangement(source, shuffled, swapped);
        let source = Seq::new(
            values.len(),
            |i: int|
                if inner[i] == last {
                    swap_index
                } else if inner[i] == swap_index {
                    last as int
                } else {
                    inner[i]
                },
        );
        assert forall|i: int| 0 <= i < values.len() implies #[trigger] shuffled[i] == values[source[i]] by {
            assert(shuffled[i] == swapped[inner[i]]);
        }
        assert forall|i: int, j: int| 0 <= i < j < values.len() implies #[trigger] source[i]
            != #[trigger] source[j] by {
            assert(inner[i] != inner[j]);
        }
        assert(is_rearrangement(source, shuffled, values));
    }
}

/// Position `i` of `shuffled` holds the value at position `source[i]` of `values`, and no two
/// positions take the same source.
pub open spec fn is_rearrangement<T>(source: Seq<int>, shuffled: Seq<T>, values: Seq<T>) -> bool {
    &&& shuffled.len() == values.len()
    &&& source.len() == values.len()
    &&& forall|i: int| 0 <= i < values.len() ==> 0 <= #[trigger] source[i] < values.len()
    &&& forall|i: int, j: int| 0 <= i < j < values.len() ==> #[trigger] source[i] != #[trigger] source[j]
    &&& forall|i: int| 0 <= i < values.len() ==> #[trigger] shuffled[i] == values[source[i]]
}

} // verus!
