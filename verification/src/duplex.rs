//! A transcript over the Baby Bear field: `p3_challenger`'s duplex sponge
//! with the Poseidon2 permutation of `p3_baby_bear`, of width 16 and rate 8.

use p3_baby_bear::default_babybear_poseidon2_16;
use p3_challenger::{CanObserve, CanSample};
use p3_field::PrimeField32;
use vstd::prelude::*;
use crate::baby_bear::{BabyBear, BABY_BEAR_PRIME};
use crate::field::Field;
use crate::config::TranscriptEvent;
use crate::list::List;

verus! {

type F = p3_baby_bear::BabyBear;

type Challenger = p3_challenger::DuplexChallenger<F, p3_baby_bear::Poseidon2BabyBear<16>, 16, 8>;

/// The number of elements of the sponge.
pub const WIDTH: usize = 16;

/// The number of elements that the sponge takes in or gives out at a time.
pub const RATE: usize = 8;

/// What a duplex sponge holds, every element as its residue.
pub struct Sponge {
    /// The state of the sponge.
    pub state: Seq<u32>,
    /// What was observed and not yet taken in.
    pub input: Seq<u32>,
    /// What was given out and not yet drawn.
    pub output: Seq<u32>,
}

/// One step of a history over lists of field elements as commitments.
pub type Event = TranscriptEvent<BabyBear, List<BabyBear>>;

/// The sponge after it has observed the element with residue `value`.
pub uninterp spec fn duplex_observe(
    state: Seq<u32>,
    input: Seq<u32>,
    output: Seq<u32>,
    value: u32,
) -> Sponge;

/// The sponge after a challenge was drawn from it, and the residue of the
/// challenge.
pub uninterp spec fn duplex_sample(state: Seq<u32>, input: Seq<u32>, output: Seq<u32>) -> (
    Sponge,
    u32,
);

/// Calls `DuplexChallenger::new`, which starts from a state of zeros and
/// empty buffers, and hands back the state.
#[verifier::external_body]
fn fresh_raw() -> (state: Vec<u32>)
    ensures
        state@ == Seq::new(WIDTH as nat, |i: int| 0u32),
{
    let ch = Challenger::new(default_babybear_poseidon2_16());
    ch.sponge_state.iter().map(F::as_canonical_u32).collect()
}

/// Calls `CanObserve::observe` on the `DuplexChallenger` that holds the
/// given state and buffers, and hands back what it holds afterwards.  The
/// state keeps its length, and a full input buffer is taken in at once.
#[verifier::external_body]
fn observe_raw(state: &Vec<u32>, input: &Vec<u32>, output: &Vec<u32>, value: u32) -> (after: (
    Vec<u32>,
    Vec<u32>,
    Vec<u32>,
))
    requires
        state@.len() == WIDTH,
        input@.len() < RATE,
    ensures
        (Sponge { state: after.0@, input: after.1@, output: after.2@ }) == duplex_observe(
            state@,
            input@,
            output@,
            value,
        ),
        after.0@.len() == WIDTH,
        after.1@.len() < RATE,
{
    let sponge_state: Vec<F> = state.iter().copied().map(F::new).collect();
    let mut ch = Challenger {
        sponge_state: sponge_state.try_into().unwrap(),
        input_buffer: input.iter().copied().map(F::new).collect(),
        output_buffer: output.iter().copied().map(F::new).collect(),
        permutation: default_babybear_poseidon2_16(),
    };
    ch.observe(F::new(value));
    let state = ch.sponge_state.iter().map(F::as_canonical_u32).collect();
    let input = ch.input_buffer.iter().map(F::as_canonical_u32).collect();
    (state, input, ch.output_buffer.iter().map(F::as_canonical_u32).collect())
}

/// Calls `CanSample::sample` for one field element on the
/// `DuplexChallenger` that holds the given state and buffers, and hands
/// back what it holds afterwards and the residue of the element.  The state
/// keeps its length, and nothing is left in the input buffer.
#[verifier::external_body]
fn sample_raw(state: &Vec<u32>, input: &Vec<u32>, output: &Vec<u32>) -> (after: (
    Vec<u32>,
    Vec<u32>,
    Vec<u32>,
    u32,
))
    requires
        state@.len() == WIDTH,
        input@.len() < RATE,
    ensures
        (Sponge { state: after.0@, input: after.1@, output: after.2@ }, after.3) == duplex_sample(
            state@,
            input@,
            output@,
        ),
        after.0@.len() == WIDTH,
        after.1@.len() < RATE,
        after.3 < BABY_BEAR_PRIME,
{
    let sponge_state: Vec<F> = state.iter().copied().map(F::new).collect();
    let mut ch = Challenger {
        sponge_state: sponge_state.try_into().unwrap(),
        input_buffer: input.iter().copied().map(F::new).collect(),
        output_buffer: output.iter().copied().map(F::new).collect(),
        permutation: default_babybear_poseidon2_16(),
    };
    let x: F = ch.sample();
    let state = ch.sponge_state.iter().map(F::as_canonical_u32).collect();
    let input = ch.input_buffer.iter().map(F::as_canonical_u32).collect();
    (state, input, ch.output_buffer.iter().map(F::as_canonical_u32).collect(), x.as_canonical_u32())
}

/// The sponge that has observed nothing.
pub open spec fn fresh_sponge() -> Sponge {
    Sponge { state: Seq::new(WIDTH as nat, |i: int| 0u32), input: Seq::empty(), output: Seq::empty() }
}

/// The sponge after it has observed every element of `values` in turn.
pub open spec fn observe_all(sponge: Sponge, values: Seq<BabyBear>) -> Sponge
    decreases values.len(),
{
    if values.len() == 0 {
        sponge
    } else {
        let before = observe_all(sponge, values.drop_last());
        duplex_observe(
            before.state,
            before.input,
            before.output,
            values.last().residue() as u32,
        )
    }
}

/// The sponge after one more event: a commitment is observed element by
/// element.
pub open spec fn sponge_step(sponge: Sponge, event: Event) -> Sponge {
    match event {
        TranscriptEvent::Commitment(c) => observe_all(sponge, c.view()),
        TranscriptEvent::Value(v) => duplex_observe(
            sponge.state,
            sponge.input,
            sponge.output,
            v.residue() as u32,
        ),
        TranscriptEvent::Sample => duplex_sample(sponge.state, sponge.input, sponge.output).0,
    }
}

/// The sponge of a transcript with the given history.
pub open spec fn replay(log: Seq<Event>) -> Sponge
    decreases log.len(),
{
    if log.len() == 0 {
        fresh_sponge()
    } else {
        sponge_step(replay(log.drop_last()), log.last())
    }
}

/// The challenge drawn by a transcript with the given history.
pub open spec fn drawn_after(log: Seq<Event>) -> BabyBear {
    let sponge = replay(log);
    BabyBear::from_residue(duplex_sample(sponge.state, sponge.input, sponge.output).1 as int)
}

/// A transcript.
pub struct DuplexTranscript {
    state: Vec<u32>,
    input: Vec<u32>,
    output: Vec<u32>,
    log: Ghost<Seq<Event>>,
}

impl DuplexTranscript {
    #[verifier::type_invariant]
    spec fn inv(&self) -> bool {
        &&& self.state@.len() == WIDTH
        &&& self.input@.len() < RATE
        &&& (Sponge { state: self.state@, input: self.input@, output: self.output@ }) == replay(
            self.log@,
        )
    }

    /// Everything that the transcript has observed and drawn, in order.
    pub closed spec fn history(&self) -> Seq<Event> {
        self.log@
    }

    /// A transcript that has observed nothing.
    pub fn new() -> (t: Self)
        ensures
            t.history() == Seq::<Event>::empty(),
    {
        DuplexTranscript {
            state: fresh_raw(),
            input: Vec::new(),
            output: Vec::new(),
            log: Ghost(Seq::empty()),
        }
    }

    /// Observes one field element.
    pub fn observe(&mut self, value: &BabyBear)
        ensures
            final(self).history() == old(self).history().push(TranscriptEvent::Value(*value)),
    {
        proof {
            use_type_invariant(&*self);
        }
        let after = observe_raw(&self.state, &self.input, &self.output, value.as_canonical_u32());
        let ghost log = self.log@.push(TranscriptEvent::Value(*value));
        proof {
            assert(log.drop_last() =~= self.log@);
        }
        *self = DuplexTranscript { state: after.0, input: after.1, output: after.2, log: Ghost(log) };
    }

    /// Observes a commitment, element by element.
    pub fn observe_commitment(&mut self, commitment: &List<BabyBear>)
        ensures
            final(self).history() == old(self).history().push(
                TranscriptEvent::Commitment(*commitment),
            ),
    {
        proof {
            use_type_invariant(&*self);
        }
        let values: Vec<BabyBear> = commitment.to_vec();
        let ghost start = replay(self.log@);
        let mut state: Vec<u32> = crate::util::copy_of(&self.state);
        let mut input: Vec<u32> = crate::util::copy_of(&self.input);
        let mut output: Vec<u32> = crate::util::copy_of(&self.output);
        let mut i: usize = 0;
        while i < values.len()
            invariant
                i <= values@.len(),
                state@.len() == WIDTH,
                input@.len() < RATE,
                (Sponge { state: state@, input: input@, output: output@ }) == observe_all(
                    start,
                    values@.take(i as int),
                ),
            decreases values@.len() - i,
        {
            let after = observe_raw(&state, &input, &output, values[i].as_canonical_u32());
            state = after.0;
            input = after.1;
            output = after.2;
            i += 1;
            assert(values@.take(i as int).drop_last() =~= values@.take(i - 1));
        }
        assert(values@.take(i as int) =~= values@);
        let ghost log = self.log@.push(TranscriptEvent::Commitment(*commitment));
        proof {
            assert(log.drop_last() =~= self.log@);
        }
        *self = DuplexTranscript { state, input, output, log: Ghost(log) };
    }

    /// Draws a challenge.
    pub fn sample(&mut self) -> (x: BabyBear)
        ensures
            x == drawn_after(old(self).history()),
            final(self).history() == old(self).history().push(TranscriptEvent::Sample),
    {
        proof {
            use_type_invariant(&*self);
        }
        let after = sample_raw(&self.state, &self.input, &self.output);
        let ghost log = self.log@.push(TranscriptEvent::Sample);
        proof {
            assert(log.drop_last() =~= self.log@);
        }
        *self = DuplexTranscript { state: after.0, input: after.1, output: after.2, log: Ghost(log) };
        let x: BabyBear = BabyBear::new(after.3);
        proof {
            BabyBear::lemma_from_residue(after.3 as int);
            BabyBear::lemma_residue_decides(x, BabyBear::from_residue(after.3 as int));
            vstd::arithmetic::div_mod::lemma_small_mod(after.3 as nat, BABY_BEAR_PRIME as nat);
        }
        x
    }
}

} // verus!
