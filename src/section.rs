//! The segments a warning is made of, and what each of their samples is.
use vstd::prelude::*;
use crate::afsk::{AfskBit, AfskByte, BIT_MICROS};
use crate::tone::{
    MICROS_PER_SECOND,
    multi_phase, multi_tone_phase, sample_count, samples_in, single_phase, single_tone_phase,
    MultiSineWave, Phase,
};

verus! {

/// One segment of the rendered warning.
#[derive(Clone, Debug)]
pub enum Section {
    /// Bytes sent bit by bit as mark and space tones.
    AfskBytes(Vec<AfskByte>),
    /// Silence lasting the given number of microseconds.
    Silence(u64),
    /// A mixed tone.
    Tone(MultiSineWave),
    /// The message audio, of the given number of samples, passed through unchanged.
    Audio(usize),
}

/// What one output sample is made from.
#[derive(Clone, Debug, PartialEq, Eq)]
pub enum SampleSource {
    /// A zero sample.
    Zero,
    /// The message audio sample at this index.
    Message(usize),
    /// The average of `sin(2π · phase)` over these phases.
    Mix(Vec<Phase>),
}

/// Samples in one bit period.
pub open spec fn bit_samples(sample_rate: nat) -> nat {
    samples_in(sample_rate, BIT_MICROS as nat)
}

impl Section {
    /// Number of samples the section renders to.
    pub open spec fn len_spec(self, sample_rate: nat) -> nat {
        match self {
            Section::AfskBytes(bytes) => bytes@.len() * 8 * bit_samples(sample_rate),
            Section::Silence(us) => samples_in(sample_rate, us as nat),
            Section::Tone(wave) => samples_in(sample_rate, wave.micros as nat),
            Section::Audio(n) => n as nat,
        }
    }

    /// The section's samples can be counted and their phases computed in
    /// machine integers.
    pub open spec fn renderable(self, sample_rate: nat) -> bool {
        &&& self.len_spec(sample_rate) <= usize::MAX
        &&& match self {
            Section::Tone(wave) => forall|k: int|
                0 <= k < wave.frequencies@.len() ==> samples_in(sample_rate, wave.micros as nat)
                    * (#[trigger] wave.frequencies@[k]) * wave.micros <= u128::MAX,
            _ => true,
        }
    }

    /// The bit that sample `i` of a byte section falls in.
    pub open spec fn bit_at(bytes: Seq<AfskByte>, sample_rate: nat, i: nat) -> AfskBit {
        let j = i / bit_samples(sample_rate);
        bytes[(j / 8) as int].bits@[(j % 8) as int]
    }

    /// `r` is what sample `i` of the section is made from. Each bit of a byte
    /// section is a single-frequency tone of its own; a mixed tone is the
    /// average of its frequencies.
    pub open spec fn sample_is(self, sample_rate: nat, i: nat, r: SampleSource) -> bool {
        match self {
            Section::Silence(_) => r == SampleSource::Zero,
            Section::Audio(_) => r == SampleSource::Message(i as usize),
            Section::Tone(wave) => if wave.frequencies@.len() == 0 {
                r == SampleSource::Zero
            } else {
                &&& r is Mix
                &&& r->Mix_0@ == wave.frequencies@.map_values(
                    |f: u32|
                        multi_phase(
                            f as nat,
                            wave.micros as nat,
                            samples_in(sample_rate, wave.micros as nat),
                            i,
                        ),
                )
            },
            Section::AfskBytes(bytes) => {
                let nb = bit_samples(sample_rate);
                match single_phase(Self::bit_at(bytes@, sample_rate, i).cycles_spec() as nat, nb, i % nb) {
                    None => r == SampleSource::Zero,
                    Some(p) => r is Mix && r->Mix_0@ == seq![p],
                }
            },
        }
    }

    /// Number of samples the section renders to.
    pub fn len(&self, sample_rate: usize) -> (n: usize)
        requires
            self.len_spec(sample_rate as nat) <= usize::MAX,
        ensures
            n == self.len_spec(sample_rate as nat),
    {
        match self {
            Section::AfskBytes(bytes) => {
                if bytes.len() == 0 {
                    let ghost nb = bit_samples(sample_rate as nat);
                    assert(bytes@.len() * 8 * nb == 0) by (nonlinear_arith)
                        requires
                            bytes@.len() == 0,
                    ;
                    0
                } else {
                    proof {
                        lemma_factor_le(bytes@.len() * 8, bit_samples(sample_rate as nat));
                    }
                    let nb = sample_count(sample_rate, BIT_MICROS);
                    if nb == 0 {
                        assert(bytes@.len() * 8 * nb == 0) by (nonlinear_arith)
                            requires
                                nb == 0,
                        ;
                        0
                    } else {
                        proof {
                            lemma_factor_le(nb as nat, bytes@.len() * 8);
                        }
                        assert(bytes@.len() * 8 * nb == nb * (bytes@.len() * 8)) by (nonlinear_arith);
                        bytes.len() * 8 * nb
                    }
                }
            },
            Section::Silence(us) => sample_count(sample_rate, *us),
            Section::Tone(wave) => sample_count(sample_rate, wave.micros),
            Section::Audio(n) => *n,
        }
    }

    /// Number of samples the section renders to, or `None` where that number
    /// does not fit in a `usize`.
    pub fn checked_len(&self, sample_rate: usize) -> (r: Option<usize>)
        ensures
            r is Some <==> self.len_spec(sample_rate as nat) <= usize::MAX,
            r is Some ==> r->0 == self.len_spec(sample_rate as nat),
    {
        let n: u128 = match self {
            Section::AfskBytes(bytes) => {
                let nb = scaled_count(sample_rate, BIT_MICROS);
                match ((bytes.len() as u128) * 8).checked_mul(nb) {
                    Some(t) => t,
                    None => {
                        return None;
                    },
                }
            },
            Section::Silence(us) => scaled_count(sample_rate, *us),
            Section::Tone(wave) => scaled_count(sample_rate, wave.micros),
            Section::Audio(n) => *n as u128,
        };
        if n <= usize::MAX as u128 {
            Some(n as usize)
        } else {
            None
        }
    }

    /// Whether the section's samples can be counted and their phases
    /// computed in machine integers.
    pub fn is_renderable(&self, sample_rate: usize) -> (r: bool)
        ensures
            r == self.renderable(sample_rate as nat),
    {
        if self.checked_len(sample_rate).is_none() {
            return false;
        }
        match self {
            Section::Tone(wave) => {
                let n = scaled_count(sample_rate, wave.micros);
                let mut k: usize = 0;
                while k < wave.frequencies.len()
                    invariant
                        k <= wave.frequencies@.len(),
                        n == samples_in(sample_rate as nat, wave.micros as nat),
                        *self == Section::Tone(*wave),
                        self.len_spec(sample_rate as nat) <= usize::MAX,
                        forall|m: int|
                            0 <= m < k ==> n * (#[trigger] wave.frequencies@[m]) * wave.micros
                                <= u128::MAX,
                    decreases wave.frequencies@.len() - k,
                {
                    let f = wave.frequencies[k];
                    match n.checked_mul(f as u128) {
                        Some(nf) => match nf.checked_mul(wave.micros as u128) {
                            Some(_) => {},
                            None => {
                                assert(n * wave.frequencies@[k as int] * wave.micros > u128::MAX);
                                return false;
                            },
                        },
                        None => {
                            if wave.micros == 0 {
                                assert(sample_rate as nat * 0 == 0);
                                assert(n == 0);
                                assert(n * f == 0);
                            }
                            assert(n * f * wave.micros > u128::MAX) by (nonlinear_arith)
                                requires
                                    n * f > u128::MAX,
                                    wave.micros >= 1,
                            ;
                            assert(n * wave.frequencies@[k as int] * wave.micros > u128::MAX);
                            return false;
                        },
                    }
                    k = k + 1;
                }
                true
            },
            _ => true,
        }
    }

    /// What sample `i` of the section is made from.
    pub fn sample(&self, sample_rate: usize, i: usize) -> (r: SampleSource)
        requires
            self.renderable(sample_rate as nat),
            i < self.len_spec(sample_rate as nat),
        ensures
            self.sample_is(sample_rate as nat, i as nat, r),
    {
        match self {
            Section::Silence(_) => SampleSource::Zero,
            Section::Audio(_) => SampleSource::Message(i),
            Section::Tone(wave) => {
                if wave.frequencies.len() == 0 {
                    SampleSource::Zero
                } else {
                    let n = sample_count(sample_rate, wave.micros);
                    let mut phases: Vec<Phase> = Vec::new();
                    let mut k: usize = 0;
                    while k < wave.frequencies.len()
                        invariant
                            k <= wave.frequencies@.len(),
                            i < n,
                            n == samples_in(sample_rate as nat, wave.micros as nat),
                            self.renderable(sample_rate as nat),
                            *self == Section::Tone(*wave),
                            phases@.len() == k,
                            forall|m: int|
                                0 <= m < k ==> phases@[m] == #[trigger] multi_phase(
                                    wave.frequencies@[m] as nat,
                                    wave.micros as nat,
                                    n as nat,
                                    i as nat,
                                ),
                        decreases wave.frequencies@.len() - k,
                    {
                        let f = wave.frequencies[k];
                        assert(n * wave.frequencies@[k as int] * wave.micros <= u128::MAX);
                        phases.push(multi_tone_phase(f, wave.micros, n, i));
                        k = k + 1;
                    }
                    assert(phases@ =~= wave.frequencies@.map_values(
                        |f: u32| multi_phase(f as nat, wave.micros as nat, n as nat, i as nat),
                    ));
                    let r = SampleSource::Mix(phases);
                    assert(self.sample_is(sample_rate as nat, i as nat, r));
                    r
                }
            },
            Section::AfskBytes(bytes) => {
                proof {
                    lemma_bit_index(i as nat, bytes@.len(), bit_samples(sample_rate as nat));
                    lemma_factor_le(bytes@.len() * 8, bit_samples(sample_rate as nat));
                }
                let nb = sample_count(sample_rate, BIT_MICROS);
                let j = i / nb;
                let bit = bytes[j / 8].bits[j % 8];
                match single_tone_phase(bit.cycles(), nb, i % nb) {
                    None => SampleSource::Zero,
                    Some(p) => {
                        let r = SampleSource::Mix(vec![p]);
                        assert(r->Mix_0@ == seq![p]);
                        r
                    },
                }
            },
        }
    }
}

/// `floor(sample_rate * micros / 1_000_000)`, which always fits in a `u128`.
fn scaled_count(sample_rate: usize, micros: u64) -> (n: u128)
    ensures
        n == samples_in(sample_rate as nat, micros as nat),
{
    let sr = sample_rate as u128;
    let us = micros as u128;
    assert(sr * us <= 0xffff_ffff_ffff_ffffu128 * 0xffff_ffff_ffff_ffffu128) by (nonlinear_arith)
        requires
            sr <= 0xffff_ffff_ffff_ffffu128,
            us <= 0xffff_ffff_ffff_ffffu128,
    ;
    sr * us / (MICROS_PER_SECOND as u128)
}

/// A positive factor of a product is no larger than the product.
proof fn lemma_factor_le(a: nat, b: nat)
    requires
        a > 0,
    ensures
        b <= a * b,
{
    assert(b <= a * b) by (nonlinear_arith)
        requires
            a > 0,
    ;
}

/// A sample index below `len * 8 * nb` falls in bit `i / nb`, which lies in
/// byte `i / nb / 8 < len`.
proof fn lemma_bit_index(i: nat, len: nat, nb: nat)
    requires
        i < len * 8 * nb,
    ensures
        nb > 0,
        len > 0,
        i / nb / 8 < len,
{
    if nb == 0 {
        assert(len * 8 * nb == 0) by (nonlinear_arith)
            requires
                nb == 0,
        ;
    }
    assert(i / nb < len * 8) by (nonlinear_arith)
        requires
            i < len * 8 * nb,
            nb > 0,
    ;
}

} // verus!
