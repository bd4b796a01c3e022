use same_eas::afsk::{AfskBit, AfskByte};
use same_eas::attention::{AttentionSignal, ToneKind};
use same_eas::header::{preamble, tail, Header, HeaderError, IssueTime, OriginatorCode};
use same_eas::section::{SampleSource, Section};
use same_eas::tone::{multi_tone_phase, sample_count, single_tone_phase, MultiSineWave, Phase};
use same_eas::warning::{total_len, EasWarning};

fn byte_of(b: &AfskByte) -> u8 {
    let mut v = 0u8;
    for k in 0..8 {
        if b.bits[k] == AfskBit::Mark {
            v |= 1 << k;
        }
    }
    v
}

fn sample_value(src: &SampleSource, message: &[f32]) -> f32 {
    match src {
        SampleSource::Zero => 0.0,
        SampleSource::Message(i) => message[*i],
        SampleSource::Mix(phases) => {
            let sum: f64 = phases
                .iter()
                .map(|p| (2.0 * std::f64::consts::PI * p.num as f64 / p.den as f64).sin())
                .sum();
            (sum / phases.len() as f64) as f32
        }
    }
}

fn render(sections: &[Section], sample_rate: usize, message: &[f32]) -> Vec<f32> {
    let mut out = Vec::new();
    for s in sections {
        for i in 0..s.len(sample_rate) {
            out.push(sample_value(&s.sample(sample_rate, i), message));
        }
    }
    out
}

fn time() -> IssueTime {
    IssueTime::new(2024, 3, 1, 14, 5).unwrap()
}

fn header_with(codes: Vec<[u8; 6]>, callsign: [u8; 8]) -> Result<Header, HeaderError> {
    Header::new(OriginatorCode::Civ, *b"RWT", codes, *b"0015", time(), callsign)
}

#[test]
fn simple_sine() {
    // One cycle over fifty samples: the divisor is 49, so sample 0 is at
    // phase zero and sample 49 closes the cycle.
    let n = 50;
    let phases: Vec<Option<Phase>> = (0..n).map(|i| single_tone_phase(1, n, i)).collect();
    assert_eq!(phases[0], Some(Phase { num: 0, den: 49 }));
    assert_eq!(phases[10], Some(Phase { num: 10, den: 49 }));
    assert_eq!(phases[49], Some(Phase { num: 0, den: 49 }));
    let section = Section::Tone(MultiSineWave { micros: 1_000_000, frequencies: vec![1] });
    assert_eq!(section.len(50), 50);
    let samples = render(&[section], 50, &[]);
    assert_eq!(samples.len(), 50);
    assert_eq!(samples[0], 0.0);
    assert!(samples.iter().all(|s| (-1.0..=1.0).contains(s)));
}

#[test]
fn e2e() {
    let sample_rate = 44_100;
    let tone = Section::Tone(MultiSineWave { micros: 5_000_000, frequencies: vec![440] });
    let message = render(&[tone], sample_rate, &[]);
    assert_eq!(message.len(), 220_500);

    let header = Header::new(
        OriginatorCode::Civ,
        *b"IFW",
        vec![*b"082620"],
        *b"0015",
        time(),
        *b"EC/GC/CA",
    )
    .unwrap();
    let header_len = header.to_bytes().len();
    assert_eq!(header_len, 58);
    let warning = EasWarning::new(header, true);
    let sections = warning.sections(Some(message.len()), true);
    let samples = render(&sections, sample_rate, &message);

    let nb = 84;
    let gap = 44_100;
    let expected = 3 * header_len * 8 * nb + 3 * 20 * 8 * nb + 6 * gap + (2 * gap + 9 * 44_100) + (gap + 220_500);
    assert_eq!(total_len(&sections, sample_rate), expected);
    assert_eq!(samples.len(), expected);
    let by_section: usize = sections.iter().map(|s| s.len(sample_rate)).sum();
    assert_eq!(by_section, expected);
    assert!(samples.iter().all(|s| (-1.0..=1.0).contains(s)));
}

#[test]
fn warning_without_message_has_no_attention_tone() {
    let warning = EasWarning::new(header_with(vec![*b"048100"], *b"WDAF/FM ").unwrap(), false);
    let sections = warning.sections(None, true);
    assert_eq!(sections.len(), 12);
    assert!(!sections.iter().any(|s| matches!(s, Section::Tone(_) | Section::Audio(_))));
    let sections = warning.sections(Some(0), true);
    assert_eq!(sections.len(), 15);
    assert!(sections.iter().any(|s| matches!(s, Section::Tone(_))));
    assert!(!sections.iter().any(|s| matches!(s, Section::Audio(_))));
    let sections = warning.sections(Some(10), false);
    assert_eq!(sections.len(), 14);
    assert!(!sections.iter().any(|s| matches!(s, Section::Tone(_))));
    match &sections[6] {
        Section::Audio(n) => assert_eq!(*n, 10),
        other => panic!("expected the message, got {:?}", other),
    }
}

#[test]
fn single_tone_attention_signal_in_warning() {
    let warning = EasWarning::new(header_with(vec![], *b"WDAF/FM ").unwrap(), false);
    let sections = warning.sections(Some(1), true);
    match &sections[6] {
        Section::Tone(wave) => {
            assert_eq!(wave.micros, 9_000_000);
            assert_eq!(wave.frequencies, vec![1050]);
        }
        other => panic!("expected the attention tone, got {:?}", other),
    }
}

#[test]
fn header_location_code_limit() {
    assert!(header_with(vec![*b"048100"; 31], *b"WDAF/FM ").is_ok());
    assert_eq!(
        header_with(vec![*b"048100"; 32], *b"WDAF/FM ").unwrap_err(),
        HeaderError::TooManyLocationCodes
    );
}

#[test]
fn attention_signal_minimum() {
    assert!(AttentionSignal::single(7_900_000).is_none());
    assert!(AttentionSignal::combined(7_999_999).is_none());
    let single = AttentionSignal::single(8_000_000).unwrap();
    assert_eq!(single.kind(), ToneKind::Single);
    assert_eq!(single.micros(), 8_000_000);
    assert_eq!(single.to_tone().frequencies, vec![1050]);
    let combined = AttentionSignal::combined(8_000_000).unwrap();
    assert_eq!(combined.kind(), ToneKind::Combined);
    assert_eq!(combined.to_tone().frequencies, vec![853, 960]);
    assert_eq!(combined.to_tone().micros, 8_000_000);
}

#[test]
fn byte_a_modulates_lsb_first() {
    let byte = AfskByte::from_byte(0x41);
    let expected = [1, 0, 0, 0, 0, 0, 1, 0];
    for k in 0..8 {
        let bit = byte.bits[k];
        assert_eq!(bit == AfskBit::Mark, expected[k] == 1);
        assert_eq!(bit.cycles(), if expected[k] == 1 { 4 } else { 3 });
    }
    let sample_rate = 44_100;
    let nb = sample_count(sample_rate, 1920);
    assert_eq!(nb, 84);
    let section = Section::AfskBytes(vec![byte]);
    assert_eq!(section.len(sample_rate), 8 * 84);
    for k in 0..8 {
        // the second sample of each bit segment advances by cycles / 83 turns
        let cycles = if expected[k] == 1 { 4 } else { 3 };
        assert_eq!(section.sample(sample_rate, k * 84), SampleSource::Mix(vec![Phase { num: 0, den: 83 }]));
        assert_eq!(
            section.sample(sample_rate, k * 84 + 1),
            SampleSource::Mix(vec![Phase { num: cycles, den: 83 }])
        );
    }
}

#[test]
fn header_render_matches_protocol_text() {
    let header = header_with(vec![*b"048100"], *b"WDAF/FM ").unwrap();
    let mut expected = vec![0xABu8; 16];
    expected.extend_from_slice(b"ZCZC-CIV-RWT-048100+0015-0611405-WDAF/FM -");
    assert_eq!(header.to_bytes(), expected);
    let rendered = header.render();
    assert_eq!(rendered.len(), expected.len());
    assert!(rendered.iter().zip(&expected).all(|(b, e)| byte_of(b) == *e));
}

#[test]
fn callsign_dash_is_escaped() {
    let header = header_with(vec![], *b"AB-C/FM-").unwrap();
    let bytes = header.to_bytes();
    assert!(bytes.ends_with(b"-AB\\C/FM\\-"));
    assert_eq!(bytes.iter().filter(|&&b| b == b'\\').count(), 2);
}

#[test]
fn header_with_several_locations() {
    let header = Header::new(
        OriginatorCode::Eas,
        *b"RMT",
        vec![*b"000000", *b"048100"],
        *b"0100",
        IssueTime::new(2023, 12, 31, 0, 0).unwrap(),
        *b"KXYZ/FM/",
    )
    .unwrap();
    let mut expected = vec![0xABu8; 16];
    expected.extend_from_slice(b"ZCZC-EAS-RMT-000000-048100+0100-3650000-KXYZ/FM/-");
    assert_eq!(header.to_bytes(), expected);
}

#[test]
fn originator_letters() {
    assert_eq!(&OriginatorCode::Pep.letters(), b"PEP");
    assert_eq!(&OriginatorCode::Civ.letters(), b"CIV");
    assert_eq!(&OriginatorCode::Wxr.letters(), b"WXR");
    assert_eq!(&OriginatorCode::Eas.letters(), b"EAS");
    assert_eq!(&OriginatorCode::Ean.letters(), b"EAN");
    let bytes = OriginatorCode::Wxr.to_afsk_bytes();
    assert_eq!([byte_of(&bytes[0]), byte_of(&bytes[1]), byte_of(&bytes[2])], *b"WXR");
}

#[test]
fn preamble_and_end_of_message_marker() {
    assert!(preamble().iter().all(|b| byte_of(b) == 0xAB));
    let marker: Vec<u8> = tail().iter().map(byte_of).collect();
    let mut expected = vec![0xABu8; 16];
    expected.extend_from_slice(b"NNNN");
    assert_eq!(marker, expected);
}

#[test]
fn issue_time_formats_day_of_year() {
    assert_eq!(IssueTime::new(2024, 12, 31, 23, 59).unwrap().render(), b"3662359".to_vec());
    assert_eq!(IssueTime::new(2023, 1, 9, 7, 3).unwrap().render(), b"0090703".to_vec());
    assert!(IssueTime::new(2024, 2, 29, 0, 0).is_some());
    assert!(IssueTime::new(2023, 2, 29, 0, 0).is_none());
    assert!(IssueTime::new(2023, 13, 1, 0, 0).is_none());
    assert!(IssueTime::new(2023, 4, 31, 0, 0).is_none());
    assert!(IssueTime::new(2023, 4, 30, 24, 0).is_none());
    assert!(IssueTime::new(2023, 4, 30, 23, 60).is_none());
}

#[test]
fn sample_counts_are_floored() {
    assert_eq!(sample_count(44_100, 1_000_000), 44_100);
    assert_eq!(sample_count(48_000, 1920), 92);
    assert_eq!(sample_count(8_000, 1920), 15);
    assert_eq!(sample_count(44_100, 0), 0);
    assert_eq!(Section::Silence(500_000).len(44_100), 22_050);
    assert_eq!(Section::Audio(7).len(44_100), 7);
    assert_eq!(Section::AfskBytes(vec![]).len(44_100), 0);
}

#[test]
fn degenerate_tones_render_zeros() {
    assert_eq!(single_tone_phase(4, 1, 0), None);
    // at 500 Hz a bit period holds no sample at all
    let section = Section::AfskBytes(vec![AfskByte::from_byte(0xFF)]);
    assert_eq!(section.len(500), 0);
    // at 1000 Hz it holds one, which is zero
    assert_eq!(section.len(1000), 8);
    assert_eq!(section.sample(1000, 3), SampleSource::Zero);
    let silent = Section::Tone(MultiSineWave { micros: 1_000_000, frequencies: vec![] });
    assert_eq!(silent.sample(10, 2), SampleSource::Zero);
}

#[test]
fn mixed_tone_phases() {
    // 853 Hz over 8 s at 8000 Hz: n = 64000, a step of 853 * 8 / 64000 turns
    let p = multi_tone_phase(853, 8_000_000, 64_000, 1);
    assert_eq!(p, Phase { num: 853 * 8_000_000, den: 64_000_000_000 });
    assert_eq!(multi_tone_phase(960, 8_000_000, 64_000, 0).num, 0);
    let q = multi_tone_phase(1000, 1_000_000, 8_000, 8);
    assert_eq!(q.num, 0);
    let tone = AttentionSignal::combined(8_000_000).unwrap().to_tone();
    let section = Section::Tone(tone);
    assert_eq!(section.len(8_000), 64_000);
    assert_eq!(
        section.sample(8_000, 1),
        SampleSource::Mix(vec![
            Phase { num: 853 * 8_000_000, den: 64_000_000_000 },
            Phase { num: 960 * 8_000_000, den: 64_000_000_000 },
        ])
    );
    assert_eq!(section.sample(8_000, 0), SampleSource::Mix(vec![Phase { num: 0, den: 64_000_000_000 }; 2]));
}
