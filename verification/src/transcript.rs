//! The order in which a run observes values and draws challenges.

use vstd::prelude::*;
use crate::config::{StarkConfig, TranscriptEvent};

verus! {

/// The events of observing each of `values` in turn.
pub open spec fn values_observed<V, C>(values: Seq<V>) -> Seq<TranscriptEvent<V, C>> {
    values.map_values(|v: V| TranscriptEvent::Value(v))
}

/// The events of observing each of `commits` in turn.
pub open spec fn commitments_observed<V, C>(commits: Seq<C>) -> Seq<TranscriptEvent<V, C>> {
    commits.map_values(|c: C| TranscriptEvent::Commitment(c))
}

/// The events of drawing `n` challenges.
pub open spec fn samples<V, C>(n: nat) -> Seq<TranscriptEvent<V, C>> {
    Seq::new(n, |i: int| TranscriptEvent::Sample)
}

/// The history once the main commitment and the public values are observed.
pub open spec fn log_after_main<V, C>(main_commit: C, public_values: Seq<V>) -> Seq<
    TranscriptEvent<V, C>,
> {
    seq![TranscriptEvent::Commitment(main_commit)] + values_observed(public_values)
}

/// The history once the auxiliary phase is over: where there is an auxiliary
/// commitment, `n` challenges are drawn and then it is observed.
pub open spec fn log_after_aux<V, C>(
    main_commit: C,
    public_values: Seq<V>,
    aux_commit: Option<C>,
    n: nat,
) -> Seq<TranscriptEvent<V, C>> {
    match aux_commit {
        Some(c) => log_after_main(main_commit, public_values) + samples(n).push(
            TranscriptEvent::Commitment(c),
        ),
        None => log_after_main(main_commit, public_values),
    }
}

/// The `n` challenges drawn one after the other by a transcript with history `log`.
pub open spec fn challenges_drawn<SC: StarkConfig>(
    config: &SC,
    log: Seq<TranscriptEvent<SC::Val, SC::Commitment>>,
    n: nat,
) -> Seq<SC::Challenge> {
    Seq::new(n, |i: int| config.sample_spec(log + samples(i as nat)))
}

/// Observes every value of `values`, in order.
pub fn observe_values<SC: StarkConfig>(config: &SC, ch: &mut SC::Challenger, values: &[SC::Val])
    ensures
        SC::transcript(final(ch)) == SC::transcript(old(ch)) + values_observed(values@),
{
    let ghost start = SC::transcript(ch);
    let mut i: usize = 0;
    assert(start + values_observed::<SC::Val, SC::Commitment>(values@.take(0)) =~= start);
    while i < values.len()
        invariant
            i <= values@.len(),
            SC::transcript(ch) == start + values_observed(values@.take(i as int)),
        decreases values@.len() - i,
    {
        config.observe_value(ch, &values[i]);
        i += 1;
        assert(start + values_observed::<SC::Val, SC::Commitment>(values@.take(i as int)) =~= (
        start + values_observed::<SC::Val, SC::Commitment>(values@.take(i - 1))).push(
            TranscriptEvent::Value(values@[i - 1]),
        ));
    }
    assert(values@.take(i as int) =~= values@);
}

/// Observes every commitment of `commits`, in order.
pub fn observe_commitments<SC: StarkConfig>(
    config: &SC,
    ch: &mut SC::Challenger,
    commits: &Vec<SC::Commitment>,
)
    ensures
        SC::transcript(final(ch)) == SC::transcript(old(ch)) + commitments_observed(commits@),
{
    let ghost start = SC::transcript(ch);
    let mut i: usize = 0;
    assert(start + commitments_observed::<SC::Val, SC::Commitment>(commits@.take(0)) =~= start);
    while i < commits.len()
        invariant
            i <= commits@.len(),
            SC::transcript(ch) == start + commitments_observed(commits@.take(i as int)),
        decreases commits@.len() - i,
    {
        config.observe_commitment(ch, &commits[i]);
        i += 1;
        assert(start + commitments_observed::<SC::Val, SC::Commitment>(commits@.take(i as int))
            =~= (start + commitments_observed::<SC::Val, SC::Commitment>(
            commits@.take(i - 1),
        )).push(TranscriptEvent::Commitment(commits@[i - 1])));
    }
    assert(commits@.take(i as int) =~= commits@);
}

/// Draws `n` challenges, in order.
pub fn sample_challenges<SC: StarkConfig>(config: &SC, ch: &mut SC::Challenger, n: usize) -> (drawn:
    Vec<SC::Challenge>)
    ensures
        drawn@ == challenges_drawn(config, SC::transcript(old(ch)), n as nat),
        SC::transcript(final(ch)) == SC::transcript(old(ch)) + samples(n as nat),
{
    let ghost start = SC::transcript(ch);
    let mut drawn: Vec<SC::Challenge> = Vec::new();
    let mut i: usize = 0;
    assert(start + samples::<SC::Val, SC::Commitment>(0) =~= start);
    assert(drawn@ =~= challenges_drawn(config, start, 0));
    while i < n
        invariant
            i <= n,
            SC::transcript(ch) == start + samples(i as nat),
            drawn@ == challenges_drawn(config, start, i as nat),
        decreases n - i,
    {
        let x: SC::Challenge = config.sample(ch);
        drawn.push(x);
        i += 1;
        assert(start + samples::<SC::Val, SC::Commitment>(i as nat) =~= (start + samples::<
            SC::Val,
            SC::Commitment,
        >((i - 1) as nat)).push(TranscriptEvent::Sample));
        assert(drawn@ =~= challenges_drawn(config, start, i as nat));
    }
    drawn
}

} // verus!
