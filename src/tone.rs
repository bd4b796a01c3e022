//! Sample counts and sine phases of tone segments.
use vstd::prelude::*;

verus! {

/// Microseconds in one second.
pub const MICROS_PER_SECOND: u64 = 1_000_000;

/// Number of samples that `micros` microseconds take at `sample_rate` Hz:
/// `floor(sample_rate * seconds)`.
pub open spec fn samples_in(sample_rate: nat, micros: nat) -> nat {
    sample_rate * micros / MICROS_PER_SECOND as nat
}

/// Computes `floor(sample_rate * micros / 1_000_000)`.
pub fn sample_count(sample_rate: usize, micros: u64) -> (n: usize)
    requires
        samples_in(sample_rate as nat, micros as nat) <= usize::MAX,
    ensures
        n == samples_in(sample_rate as nat, micros as nat),
{
    let sr = sample_rate as u128;
    let us = micros as u128;
    assert(sr * us <= 0xffff_ffff_ffff_ffffu128 * 0xffff_ffff_ffff_ffffu128) by (nonlinear_arith)
        requires
            sr <= 0xffff_ffff_ffff_ffffu128,
            us <= 0xffff_ffff_ffff_ffffu128,
    ;
    let product = sr * us;
    (product / (MICROS_PER_SECOND as u128)) as usize
}

/// A point within one sine cycle: the fraction `num / den` of a full turn.
#[derive(Clone, Copy, Debug, PartialEq, Eq, Structural)]
pub struct Phase {
    pub num: u128,
    pub den: u128,
}

/// The phase, reduced to one cycle, of `step * cycles / den` turns.
pub open spec fn phase_of(step: nat, cycles: nat, den: nat) -> Phase {
    Phase { num: ((step * cycles) % den) as u128, den: den as u128 }
}

/// Phase of sample `step` of a tone that turns `cycles / den` times per
/// sample, reduced to one cycle.
pub fn phase_at(step: usize, cycles: u128, den: u128) -> (r: Phase)
    requires
        den > 0,
        step * cycles <= u128::MAX,
    ensures
        r == phase_of(step as nat, cycles as nat, den as nat),
        r.num < r.den,
{
    let turns = (step as u128) * cycles;
    Phase { num: turns % den, den }
}

/// Phase of sample `i` of a single-frequency tone of `cycles` whole cycles
/// spread over `n` samples. The divisor is `n - 1`, so the first sample is at
/// phase zero and the tone is continuous with a following one; with fewer
/// than two samples there is no tone and `None` stands for a zero sample.
pub open spec fn single_phase(cycles: nat, n: nat, i: nat) -> Option<Phase> {
    if n <= 1 {
        None
    } else {
        Some(phase_of(i, cycles, (n - 1) as nat))
    }
}

pub fn single_tone_phase(cycles: u32, n: usize, i: usize) -> (r: Option<Phase>)
    requires
        i < n,
    ensures
        r == single_phase(cycles as nat, n as nat, i as nat),
{
    if n <= 1 {
        None
    } else {
        assert(i * cycles <= u128::MAX) by (nonlinear_arith)
            requires
                i <= usize::MAX, usize::MAX <= 0xffff_ffff_ffff_ffffu64,
                cycles <= 0xffff_ffffu32,
        ;
        Some(phase_at(i, cycles as u128, (n - 1) as u128))
    }
}

/// Phase of sample `i` of a `freq` Hz tone lasting `micros` over `n`
/// samples. The tone is laid out over `n + 1` samples and the last one is
/// dropped, so the divisor is `n`: the phase advances by
/// `freq * micros / (1_000_000 * n)` turns per sample.
pub open spec fn multi_phase(freq: nat, micros: nat, n: nat, i: nat) -> Phase {
    phase_of(i, freq * micros, MICROS_PER_SECOND as nat * n)
}

pub fn multi_tone_phase(freq: u32, micros: u64, n: usize, i: usize) -> (r: Phase)
    requires
        i < n,
        n * freq * micros <= u128::MAX,
    ensures
        r == multi_phase(freq as nat, micros as nat, n as nat, i as nat),
        r.num < r.den,
{
    let f = freq as u128;
    let us = micros as u128;
    assert(f * us <= 0xffff_ffffu128 * 0xffff_ffff_ffff_ffffu128) by (nonlinear_arith)
        requires
            f <= 0xffff_ffffu128,
            us <= 0xffff_ffff_ffff_ffffu128,
    ;
    assert(i * (f * us) <= n * f * us) by (nonlinear_arith)
        requires
            i < n,
    ;
    assert(1_000_000 * n <= 0xffff_ffff_ffff_ffffu128 * 1_000_000) by (nonlinear_arith)
        requires
            n <= usize::MAX, usize::MAX <= 0xffff_ffff_ffff_ffffu64,
    ;
    assert((f * us) as nat == freq as nat * micros as nat);
    phase_at(i, f * us, (MICROS_PER_SECOND as u128) * (n as u128))
}

/// Every tone starts at phase zero: the first sample of a single-frequency
/// tone is zero or at phase zero, and so is each frequency of a mixed tone.
pub proof fn lemma_tone_starts_at_zero(cycles: nat, freq: nat, micros: nat, n: nat)
    requires
        n > 0,
    ensures
        single_phase(cycles, n, 0) is None || single_phase(cycles, n, 0)->0.num == 0,
        multi_phase(freq, micros, n, 0).num == 0,
{
    assert(MICROS_PER_SECOND as nat * n > 0) by (nonlinear_arith)
        requires
            n > 0,
    ;
    assert(0 * cycles == 0);
    assert(0 * (freq * micros) == 0);
    if n > 1 {
        assert(0nat % ((n - 1) as nat) == 0);
    }
    assert(0nat % (MICROS_PER_SECOND as nat * n) == 0);
}

/// A tone of one or more frequencies (in Hz) mixed by averaging, lasting
/// `micros` microseconds.
#[derive(Clone, Debug)]
pub struct MultiSineWave {
    pub micros: u64,
    pub frequencies: Vec<u32>,
}

} // verus!
