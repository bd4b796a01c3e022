//! A whole warning: the order of its sections and its length in samples.
use vstd::prelude::*;
use crate::afsk::AfskByte;
use crate::attention::{AttentionSignal, ToneKind};
use crate::header::{eom_text, tail, Header};
use crate::section::{bit_samples, Section};
use crate::tone::samples_in;

verus! {

/// Duration of the attention signal of a warning, in microseconds (9 s).
pub const ATTENTION_MICROS: u64 = 9_000_000;

/// Silence between the repeated headers and markers and around the
/// attention signal and the message, in microseconds (1 s).
pub const GAP_MICROS: u64 = 1_000_000;

/// The parts of a warning, in the order they are sent.
#[derive(Clone, Copy, Debug, PartialEq, Eq, Structural)]
pub enum Part {
    Header,
    EndOfMessage,
    Gap,
    Attention,
    Message(usize),
}

/// The order of the parts of a warning. The header is sent three times, a
/// gap apart. The attention signal, between two gaps, is sent only for a
/// critical warning that has a message. A non-empty message follows a gap.
/// Then, after a gap, the end-of-message marker is sent three times, a gap
/// apart, and a last gap closes the warning.
pub open spec fn plan(message_len: Option<usize>, critical: bool) -> Seq<Part> {
    let headers = seq![Part::Header, Part::Gap, Part::Header, Part::Gap, Part::Header];
    let attention = if critical && message_len is Some {
        seq![Part::Gap, Part::Attention, Part::Gap]
    } else {
        Seq::empty()
    };
    let message = match message_len {
        Some(n) => if n > 0 {
            seq![Part::Gap, Part::Message(n)]
        } else {
            Seq::empty()
        },
        None => Seq::empty(),
    };
    let tail = seq![
        Part::Gap,
        Part::EndOfMessage,
        Part::Gap,
        Part::EndOfMessage,
        Part::Gap,
        Part::EndOfMessage,
        Part::Gap,
    ];
    headers + attention + message + tail
}

/// Section `s` is part `p` of the warning with this header and signal.
pub open spec fn is_part(s: Section, p: Part, header_text: Seq<u8>, signal: AttentionSignal) -> bool {
    match p {
        Part::Header => s is AfskBytes && s->AfskBytes_0@.len() == header_text.len() && forall|k: int|
            0 <= k < header_text.len() ==> #[trigger] s->AfskBytes_0@[k].encodes(header_text[k]),
        Part::EndOfMessage => s is AfskBytes && s->AfskBytes_0@.len() == eom_text().len() && forall|
            k: int,
        |
            0 <= k < eom_text().len() ==> #[trigger] s->AfskBytes_0@[k].encodes(eom_text()[k]),
        Part::Gap => s == Section::Silence(GAP_MICROS),
        Part::Attention => s is Tone && s->Tone_0.micros == signal.micros_spec()
            && s->Tone_0.frequencies@ == signal.frequencies_spec(),
        Part::Message(n) => s == Section::Audio(n),
    }
}

/// Samples that part `p` renders to.
pub open spec fn part_len(p: Part, header_len: nat, attention_micros: nat, sample_rate: nat) -> nat {
    match p {
        Part::Header => header_len * 8 * bit_samples(sample_rate),
        Part::EndOfMessage => eom_text().len() * 8 * bit_samples(sample_rate),
        Part::Gap => samples_in(sample_rate, GAP_MICROS as nat),
        Part::Attention => samples_in(sample_rate, attention_micros),
        Part::Message(n) => n as nat,
    }
}

/// Samples that a list of parts renders to.
pub open spec fn parts_len(ps: Seq<Part>, header_len: nat, attention_micros: nat, sample_rate: nat) -> nat
    decreases ps.len(),
{
    if ps.len() == 0 {
        0
    } else {
        parts_len(ps.drop_last(), header_len, attention_micros, sample_rate) + part_len(
            ps.last(),
            header_len,
            attention_micros,
            sample_rate,
        )
    }
}

/// Samples that a list of sections renders to.
pub open spec fn sections_len(ss: Seq<Section>, sample_rate: nat) -> nat
    decreases ss.len(),
{
    if ss.len() == 0 {
        0
    } else {
        sections_len(ss.drop_last(), sample_rate) + ss.last().len_spec(sample_rate)
    }
}

/// `ss` is the section list of a warning with this header text and
/// attention signal, for a message of `message_len` samples if any.
pub open spec fn is_plan(
    ss: Seq<Section>,
    header_text: Seq<u8>,
    signal: AttentionSignal,
    message_len: Option<usize>,
    critical: bool,
) -> bool {
    &&& ss.len() == plan(message_len, critical).len()
    &&& forall|k: int|
        0 <= k < ss.len() ==> #[trigger] is_part(ss[k], plan(message_len, critical)[k], header_text, signal)
}

/// The end-of-message marker as transmitted bytes.
fn eom_bytes() -> (r: Vec<AfskByte>)
    ensures
        r@.len() == eom_text().len(),
        forall|k: int| 0 <= k < eom_text().len() ==> #[trigger] r@[k].encodes(eom_text()[k]),
{
    let marker = tail();
    let mut r: Vec<AfskByte> = Vec::new();
    let mut i: usize = 0;
    while i < 20
        invariant
            i <= 20,
            r@.len() == i,
            forall|k: int| 0 <= k < 20 ==> #[trigger] marker@[k].encodes(eom_text()[k]),
            forall|k: int| 0 <= k < i ==> #[trigger] r@[k] == marker@[k],
        decreases 20 - i,
    {
        r.push(marker[i]);
        i = i + 1;
    }
    assert forall|k: int| 0 <= k < eom_text().len() implies #[trigger] r@[k].encodes(eom_text()[k]) by {
        assert(marker@[k].encodes(eom_text()[k]));
    }
    r
}

/// Length in samples of a warning, counted section by section: three
/// headers and three end-of-message markers of eight bits per byte, six
/// gaps, then two gaps and the attention signal if it is sent, and a gap and
/// the message if there is a non-empty one.
pub open spec fn warning_len(
    header_len: nat,
    attention_micros: nat,
    sample_rate: nat,
    message_len: Option<usize>,
    critical: bool,
) -> nat {
    let nb = bit_samples(sample_rate);
    let gap = samples_in(sample_rate, GAP_MICROS as nat);
    let attention = if critical && message_len is Some {
        2 * gap + samples_in(sample_rate, attention_micros)
    } else {
        0
    };
    let message = match message_len {
        Some(n) => if n > 0 {
            gap + n
        } else {
            0
        },
        None => 0,
    };
    (3 * (header_len * 8 * nb) + 3 * (20 * 8 * nb) + 6 * gap + attention + message) as nat
}

proof fn lemma_parts_len_concat(a: Seq<Part>, b: Seq<Part>, hl: nat, am: nat, sr: nat)
    ensures
        parts_len(a + b, hl, am, sr) == parts_len(a, hl, am, sr) + parts_len(b, hl, am, sr),
    decreases b.len(),
{
    if b.len() == 0 {
        assert(a + b =~= a);
    } else {
        lemma_parts_len_concat(a, b.drop_last(), hl, am, sr);
        assert((a + b).drop_last() =~= a + b.drop_last());
    }
}

proof fn lemma_sections_parts(ss: Seq<Section>, ps: Seq<Part>, text: Seq<u8>, signal: AttentionSignal, sr: nat)
    requires
        ss.len() == ps.len(),
        forall|k: int| 0 <= k < ss.len() ==> #[trigger] is_part(ss[k], ps[k], text, signal),
    ensures
        sections_len(ss, sr) == parts_len(ps, text.len(), signal.micros_spec() as nat, sr),
    decreases ss.len(),
{
    if ss.len() > 0 {
        let k = ss.len() - 1;
        assert(is_part(ss[k], ps[k], text, signal));
        assert forall|j: int| 0 <= j < ss.drop_last().len() implies #[trigger] is_part(
            ss.drop_last()[j],
            ps.drop_last()[j],
            text,
            signal,
        ) by {
            assert(is_part(ss[j], ps[j], text, signal));
        }
        lemma_sections_parts(ss.drop_last(), ps.drop_last(), text, signal, sr);
    }
}

/// No drift from concatenation: every section list of a warning renders to
/// exactly as many samples as its sections take when counted one by one.
pub proof fn lemma_warning_len(
    ss: Seq<Section>,
    header_text: Seq<u8>,
    signal: AttentionSignal,
    sample_rate: nat,
    message_len: Option<usize>,
    critical: bool,
)
    requires
        is_plan(ss, header_text, signal, message_len, critical),
    ensures
        sections_len(ss, sample_rate) == warning_len(
            header_text.len(),
            signal.micros_spec() as nat,
            sample_rate,
            message_len,
            critical,
        ),
{
    let hl = header_text.len();
    let am = signal.micros_spec() as nat;
    let sr = sample_rate;
    lemma_sections_parts(ss, plan(message_len, critical), header_text, signal, sr);
    let headers = seq![Part::Header, Part::Gap, Part::Header, Part::Gap, Part::Header];
    let attention = if critical && message_len is Some {
        seq![Part::Gap, Part::Attention, Part::Gap]
    } else {
        Seq::empty()
    };
    let message = match message_len {
        Some(n) => if n > 0 {
            seq![Part::Gap, Part::Message(n)]
        } else {
            Seq::empty()
        },
        None => Seq::empty(),
    };
    let tail = seq![
        Part::Gap,
        Part::EndOfMessage,
        Part::Gap,
        Part::EndOfMessage,
        Part::Gap,
        Part::EndOfMessage,
        Part::Gap,
    ];
    let whole = headers + attention + message + tail;
    assert(plan(message_len, critical) =~= whole);
    lemma_parts_len_concat(headers + attention + message, tail, hl, am, sr);
    lemma_parts_len_concat(headers + attention, message, hl, am, sr);
    lemma_parts_len_concat(headers, attention, hl, am, sr);
    let h = part_len(Part::Header, hl, am, sr);
    let g = part_len(Part::Gap, hl, am, sr);
    let e = part_len(Part::EndOfMessage, hl, am, sr);
    assert(eom_text().len() == 20);
    assert(parts_len(Seq::empty(), hl, am, sr) == 0);
    assert(headers =~= seq![Part::Header, Part::Gap, Part::Header, Part::Gap].push(Part::Header));
    assert(seq![Part::Header, Part::Gap, Part::Header, Part::Gap] =~= seq![Part::Header, Part::Gap, Part::Header].push(Part::Gap));
    assert(seq![Part::Header, Part::Gap, Part::Header] =~= seq![Part::Header, Part::Gap].push(Part::Header));
    assert(seq![Part::Header, Part::Gap] =~= seq![Part::Header].push(Part::Gap));
    assert(seq![Part::Header] =~= Seq::<Part>::empty().push(Part::Header));
    assert(tail =~= seq![Part::Gap, Part::EndOfMessage, Part::Gap, Part::EndOfMessage, Part::Gap, Part::EndOfMessage].push(Part::Gap));
    assert(seq![Part::Gap, Part::EndOfMessage, Part::Gap, Part::EndOfMessage, Part::Gap, Part::EndOfMessage] =~= seq![Part::Gap, Part::EndOfMessage, Part::Gap, Part::EndOfMessage, Part::Gap].push(Part::EndOfMessage));
    assert(seq![Part::Gap, Part::EndOfMessage, Part::Gap, Part::EndOfMessage, Part::Gap] =~= seq![Part::Gap, Part::EndOfMessage, Part::Gap, Part::EndOfMessage].push(Part::Gap));
    assert(seq![Part::Gap, Part::EndOfMessage, Part::Gap, Part::EndOfMessage] =~= seq![Part::Gap, Part::EndOfMessage, Part::Gap].push(Part::EndOfMessage));
    assert(seq![Part::Gap, Part::EndOfMessage, Part::Gap] =~= seq![Part::Gap, Part::EndOfMessage].push(Part::Gap));
    assert(seq![Part::Gap, Part::EndOfMessage] =~= seq![Part::Gap].push(Part::EndOfMessage));
    assert(seq![Part::Gap] =~= Seq::<Part>::empty().push(Part::Gap));
    lemma_parts_len_push(Seq::empty(), Part::Header, hl, am, sr);
    lemma_parts_len_push(seq![Part::Header], Part::Gap, hl, am, sr);
    lemma_parts_len_push(seq![Part::Header, Part::Gap], Part::Header, hl, am, sr);
    lemma_parts_len_push(seq![Part::Header, Part::Gap, Part::Header], Part::Gap, hl, am, sr);
    lemma_parts_len_push(seq![Part::Header, Part::Gap, Part::Header, Part::Gap], Part::Header, hl, am, sr);
    assert(parts_len(headers, hl, am, sr) == 3 * h + 2 * g);
    lemma_parts_len_push(Seq::empty(), Part::Gap, hl, am, sr);
    lemma_parts_len_push(seq![Part::Gap], Part::EndOfMessage, hl, am, sr);
    lemma_parts_len_push(seq![Part::Gap, Part::EndOfMessage], Part::Gap, hl, am, sr);
    lemma_parts_len_push(seq![Part::Gap, Part::EndOfMessage, Part::Gap], Part::EndOfMessage, hl, am, sr);
    lemma_parts_len_push(
        seq![Part::Gap, Part::EndOfMessage, Part::Gap, Part::EndOfMessage],
        Part::Gap,
        hl,
        am,
        sr,
    );
    lemma_parts_len_push(
        seq![Part::Gap, Part::EndOfMessage, Part::Gap, Part::EndOfMessage, Part::Gap],
        Part::EndOfMessage,
        hl,
        am,
        sr,
    );
    lemma_parts_len_push(
        seq![Part::Gap, Part::EndOfMessage, Part::Gap, Part::EndOfMessage, Part::Gap, Part::EndOfMessage],
        Part::Gap,
        hl,
        am,
        sr,
    );
    assert(parts_len(tail, hl, am, sr) == 3 * e + 4 * g);
    let a = parts_len(attention, hl, am, sr);
    let m = parts_len(message, hl, am, sr);
    assert(parts_len(whole, hl, am, sr) == 3 * h + 3 * e + 6 * g + a + m);
    if critical && message_len is Some {
        lemma_parts_len_push(Seq::empty(), Part::Gap, hl, am, sr);
        lemma_parts_len_push(seq![Part::Gap], Part::Attention, hl, am, sr);
        lemma_parts_len_push(seq![Part::Gap, Part::Attention], Part::Gap, hl, am, sr);
        assert(attention =~= seq![Part::Gap, Part::Attention].push(Part::Gap));
        assert(seq![Part::Gap, Part::Attention] =~= seq![Part::Gap].push(Part::Attention));
        assert(parts_len(attention, hl, am, sr) == 2 * g + samples_in(sr, am));
    } else {
        assert(parts_len(attention, hl, am, sr) == 0);
    }
    match message_len {
        Some(n) => if n > 0 {
            lemma_parts_len_push(Seq::empty(), Part::Gap, hl, am, sr);
            lemma_parts_len_push(seq![Part::Gap], Part::Message(n), hl, am, sr);
            assert(message =~= seq![Part::Gap].push(Part::Message(n)));
            assert(parts_len(message, hl, am, sr) == g + n);
        } else {
            assert(parts_len(message, hl, am, sr) == 0);
        },
        None => {
            assert(parts_len(message, hl, am, sr) == 0);
        },
    }
}

proof fn lemma_parts_len_push(ps: Seq<Part>, p: Part, hl: nat, am: nat, sr: nat)
    ensures
        parts_len(ps.push(p), hl, am, sr) == parts_len(ps, hl, am, sr) + part_len(p, hl, am, sr),
{
    assert(ps.push(p).drop_last() =~= ps);
}

/// Adds up the lengths of `ss`, in samples.
pub fn total_len(ss: &Vec<Section>, sample_rate: usize) -> (n: usize)
    requires
        sections_len(ss@, sample_rate as nat) <= usize::MAX,
    ensures
        n == sections_len(ss@, sample_rate as nat),
{
    let mut n: usize = 0;
    let mut i: usize = 0;
    while i < ss.len()
        invariant
            i <= ss@.len(),
            n == sections_len(ss@.subrange(0, i as int), sample_rate as nat),
            sections_len(ss@, sample_rate as nat) <= usize::MAX,
        decreases ss@.len() - i,
    {
        proof {
            lemma_prefix_len_le(ss@, (i + 1) as nat, sample_rate as nat);
            assert(ss@.subrange(0, i + 1).drop_last() =~= ss@.subrange(0, i as int));
        }
        n = n + ss[i].len(sample_rate);
        i = i + 1;
    }
    assert(ss@.subrange(0, i as int) =~= ss@);
    n
}

/// Adds up the lengths of `ss`, in samples, or `None` where the sum does
/// not fit in a `usize`.
pub fn checked_total_len(ss: &Vec<Section>, sample_rate: usize) -> (r: Option<usize>)
    ensures
        r is Some <==> sections_len(ss@, sample_rate as nat) <= usize::MAX,
        r is Some ==> r->0 == sections_len(ss@, sample_rate as nat),
{
    let mut n: usize = 0;
    let mut i: usize = 0;
    while i < ss.len()
        invariant
            i <= ss@.len(),
            n == sections_len(ss@.subrange(0, i as int), sample_rate as nat),
        decreases ss@.len() - i,
    {
        proof {
            lemma_prefix_len_le(ss@, (i + 1) as nat, sample_rate as nat);
            assert(ss@.subrange(0, i + 1).drop_last() =~= ss@.subrange(0, i as int));
        }
        match ss[i].checked_len(sample_rate) {
            Some(l) => match n.checked_add(l) {
                Some(t) => {
                    n = t;
                },
                None => {
                    return None;
                },
            },
            None => {
                return None;
            },
        }
        i = i + 1;
    }
    assert(ss@.subrange(0, i as int) =~= ss@);
    Some(n)
}

/// A prefix renders to no more samples than the whole list.
proof fn lemma_prefix_len_le(ss: Seq<Section>, i: nat, sr: nat)
    requires
        i <= ss.len(),
    ensures
        sections_len(ss.subrange(0, i as int), sr) <= sections_len(ss, sr),
    decreases ss.len(),
{
    if i < ss.len() {
        lemma_prefix_len_le(ss.drop_last(), i, sr);
        assert(ss.drop_last().subrange(0, i as int) =~= ss.subrange(0, i as int));
    } else {
        assert(ss.subrange(0, i as int) =~= ss);
    }
}

/// A warning: its header and the attention signal it may carry.
#[derive(Debug)]
pub struct EasWarning {
    header: Header,
    attention_signal: AttentionSignal,
}

impl EasWarning {
    pub closed spec fn header_text(self) -> Seq<u8> {
        self.header.text()
    }

    pub closed spec fn signal(self) -> AttentionSignal {
        self.attention_signal
    }

    /// A warning with a nine-second attention signal: the two-tone one where
    /// `attsig_combined` holds, else the single tone.
    pub fn new(header: Header, attsig_combined: bool) -> (r: Self)
        ensures
            r.header_text() == header.text(),
            r.signal().micros_spec() == ATTENTION_MICROS,
            r.signal().kind_spec() == (if attsig_combined {
                ToneKind::Combined
            } else {
                ToneKind::Single
            }),
    {
        let signal = if attsig_combined {
            AttentionSignal::combined(ATTENTION_MICROS)
        } else {
            AttentionSignal::single(ATTENTION_MICROS)
        };
        EasWarning { header, attention_signal: signal.unwrap() }
    }

    /// The sections of the warning in the order they are sent, for a
    /// message of `message_len` samples if there is one; `critical` asks for
    /// the attention signal before the message.
    pub fn sections(&self, message_len: Option<usize>, critical: bool) -> (r: Vec<Section>)
        ensures
            is_plan(r@, self.header_text(), self.signal(), message_len, critical),
    {
        let ghost text = self.header_text();
        let ghost signal = self.signal();
        let mut r: Vec<Section> = Vec::new();
        let ghost mut parts: Seq<Part> = Seq::empty();
        r.push(Section::AfskBytes(self.header.render()));
        proof { parts = parts.push(Part::Header); }
        r.push(Section::Silence(GAP_MICROS));
        proof { parts = parts.push(Part::Gap); }
        r.push(Section::AfskBytes(self.header.render()));
        proof { parts = parts.push(Part::Header); }
        r.push(Section::Silence(GAP_MICROS));
        proof { parts = parts.push(Part::Gap); }
        r.push(Section::AfskBytes(self.header.render()));
        proof { parts = parts.push(Part::Header); }
        assert(r@.len() == parts.len() && forall|k: int|
            0 <= k < r@.len() ==> #[trigger] is_part(r@[k], parts[k], text, signal));
        if critical && message_len.is_some() {
            r.push(Section::Silence(GAP_MICROS));
            proof { parts = parts.push(Part::Gap); }
            r.push(Section::Tone(self.attention_signal.to_tone()));
            proof { parts = parts.push(Part::Attention); }
            r.push(Section::Silence(GAP_MICROS));
            proof { parts = parts.push(Part::Gap); }
        }
        assert(r@.len() == parts.len() && forall|k: int|
            0 <= k < r@.len() ==> #[trigger] is_part(r@[k], parts[k], text, signal));
        match message_len {
            Some(n) => {
                if n > 0 {
                    r.push(Section::Silence(GAP_MICROS));
                    proof { parts = parts.push(Part::Gap); }
                    r.push(Section::Audio(n));
                    proof { parts = parts.push(Part::Message(n)); }
                }
            },
            None => {},
        }
        assert(r@.len() == parts.len() && forall|k: int|
            0 <= k < r@.len() ==> #[trigger] is_part(r@[k], parts[k], text, signal));
        r.push(Section::Silence(GAP_MICROS));
        proof { parts = parts.push(Part::Gap); }
        r.push(Section::AfskBytes(eom_bytes()));
        proof { parts = parts.push(Part::EndOfMessage); }
        r.push(Section::Silence(GAP_MICROS));
        proof { parts = parts.push(Part::Gap); }
        r.push(Section::AfskBytes(eom_bytes()));
        proof { parts = parts.push(Part::EndOfMessage); }
        r.push(Section::Silence(GAP_MICROS));
        proof { parts = parts.push(Part::Gap); }
        r.push(Section::AfskBytes(eom_bytes()));
        proof { parts = parts.push(Part::EndOfMessage); }
        r.push(Section::Silence(GAP_MICROS));
        proof { parts = parts.push(Part::Gap); }
        assert(parts =~= plan(message_len, critical));
        r
    }
}

} // verus!
