//! The attention signal sent before a critical message.
use vstd::prelude::*;
use crate::tone::MultiSineWave;

verus! {

/// Shortest attention signal the protocol allows, in microseconds (8 s).
pub const MIN_ATTENTION_MICROS: u64 = 8_000_000;

/// Carrier of the single-tone attention signal, in Hz.
pub const SINGLE_TONE_HZ: u32 = 1050;

/// Lower carrier of the two-tone attention signal, in Hz.
pub const COMBINED_LOW_HZ: u32 = 853;

/// Upper carrier of the two-tone attention signal, in Hz.
pub const COMBINED_HIGH_HZ: u32 = 960;

/// Which attention tone is sent.
#[derive(Clone, Copy, Debug, PartialEq, Eq, Structural)]
pub enum ToneKind {
    /// One carrier; used by weather radio.
    Single,
    /// Two carriers mixed; used by broadcast radio and television.
    Combined,
}

/// The alert tone and how long it lasts, at least the protocol minimum.
#[derive(Clone, Copy, Debug)]
pub struct AttentionSignal {
    kind: ToneKind,
    micros: u64,
}

impl AttentionSignal {
    #[verifier::type_invariant]
    spec fn long_enough(self) -> bool {
        self.micros >= MIN_ATTENTION_MICROS
    }

    pub closed spec fn kind_spec(self) -> ToneKind {
        self.kind
    }

    pub closed spec fn micros_spec(self) -> u64 {
        self.micros
    }

    /// Carrier frequencies of the tone, in Hz.
    pub open spec fn frequencies_spec(self) -> Seq<u32> {
        match self.kind_spec() {
            ToneKind::Single => seq![SINGLE_TONE_HZ],
            ToneKind::Combined => seq![COMBINED_LOW_HZ, COMBINED_HIGH_HZ],
        }
    }

    /// A signal of the given kind lasting `micros`, unless that is under the
    /// protocol minimum.
    pub open spec fn made(r: Option<AttentionSignal>, kind: ToneKind, micros: u64) -> bool {
        &&& r is Some <==> micros >= MIN_ATTENTION_MICROS
        &&& r is Some ==> r->0.kind_spec() == kind && r->0.micros_spec() == micros
    }

    /// The single-tone signal, unless `micros` is under the protocol minimum.
    pub fn single(micros: u64) -> (r: Option<AttentionSignal>)
        ensures
            Self::made(r, ToneKind::Single, micros),
    {
        if micros < MIN_ATTENTION_MICROS {
            None
        } else {
            Some(AttentionSignal { kind: ToneKind::Single, micros })
        }
    }

    /// The two-tone signal, unless `micros` is under the protocol minimum.
    pub fn combined(micros: u64) -> (r: Option<AttentionSignal>)
        ensures
            Self::made(r, ToneKind::Combined, micros),
    {
        if micros < MIN_ATTENTION_MICROS {
            None
        } else {
            Some(AttentionSignal { kind: ToneKind::Combined, micros })
        }
    }

    pub fn kind(&self) -> (r: ToneKind)
        ensures
            r == self.kind_spec(),
    {
        self.kind
    }

    /// Duration in microseconds; never under the protocol minimum.
    pub fn micros(&self) -> (r: u64)
        ensures
            r == self.micros_spec(),
            r >= MIN_ATTENTION_MICROS,
    {
        proof {
            use_type_invariant(self);
        }
        self.micros
    }

    /// The tone to send: its duration and carrier frequencies.
    pub fn to_tone(&self) -> (r: MultiSineWave)
        ensures
            r.micros == self.micros_spec(),
            r.frequencies@ == self.frequencies_spec(),
    {
        match self.kind {
            ToneKind::Single => MultiSineWave { micros: self.micros, frequencies: vec![SINGLE_TONE_HZ] },
            ToneKind::Combined => MultiSineWave {
                micros: self.micros,
                frequencies: vec![COMBINED_LOW_HZ, COMBINED_HIGH_HZ],
            },
        }
    }
}

} // verus!
