//! The SAME header: its fields and the ASCII text it is sent as.
use vstd::prelude::*;
use crate::afsk::{encode_bytes, AfskByte};

verus! {

/// The byte that the preamble repeats.
pub const PREAMBLE_BYTE: u8 = 0xAB;

/// Number of preamble bytes before each header and end-of-message marker.
pub const PREAMBLE_LEN: usize = 16;

/// Most location codes one header may carry.
pub const MAX_LOCATION_CODES: usize = 31;

/// The field delimiter, `-`.
pub const DASH: u8 = 0x2D;

/// Sent in a callsign in place of the field delimiter: `\\`.
pub const BACKSLASH: u8 = 0x5C;

/// Separates the location codes from the purge time: `+`.
pub const PLUS: u8 = 0x2B;

/// The letter of the end-of-message marker, `N`.
pub const EOM_LETTER: u8 = 0x4E;

/// The preamble: sixteen `0xAB` bytes.
pub open spec fn preamble_text() -> Seq<u8> {
    Seq::new(PREAMBLE_LEN as nat, |_k: int| PREAMBLE_BYTE)
}

/// The end-of-message marker: the preamble followed by `NNNN`.
pub open spec fn eom_text() -> Seq<u8> {
    preamble_text() + seq![EOM_LETTER, EOM_LETTER, EOM_LETTER, EOM_LETTER]
}

/// The preamble, as transmitted bytes.
pub fn preamble() -> (r: [AfskByte; 16])
    ensures
        forall|k: int| 0 <= k < 16 ==> #[trigger] r@[k].encodes(preamble_text()[k]),
{
    let p = AfskByte::from_byte(PREAMBLE_BYTE);
    let r = [p, p, p, p, p, p, p, p, p, p, p, p, p, p, p, p];
    assert(r@ =~= seq![p, p, p, p, p, p, p, p, p, p, p, p, p, p, p, p]);
    r
}

/// The end-of-message marker, as transmitted bytes.
pub fn tail() -> (r: [AfskByte; 20])
    ensures
        forall|k: int| 0 <= k < 20 ==> #[trigger] r@[k].encodes(eom_text()[k]),
{
    let p = AfskByte::from_byte(PREAMBLE_BYTE);
    let n = AfskByte::from_byte(EOM_LETTER);
    let r = [p, p, p, p, p, p, p, p, p, p, p, p, p, p, p, p, n, n, n, n];
    assert(r@ =~= seq![p, p, p, p, p, p, p, p, p, p, p, p, p, p, p, p, n, n, n, n]);
    r
}

/// Who originated a warning.
#[derive(Clone, Copy, Debug, PartialEq, Eq, Structural)]
pub enum OriginatorCode {
    /// National Public Warning System (formerly Primary Entry Point System):
    /// national officials such as the President or Prime Minister.
    Pep,
    /// Civil authorities: state or provincial governments, municipal police or fire.
    Civ,
    /// National Weather Service or Environment Canada.
    Wxr,
    /// An EAS participant: broadcasters, usually for test messages.
    Eas,
    /// Emergency Action Notification Network; no longer used since 2010, `Pep`
    /// replaces it.
    Ean,
}

impl OriginatorCode {
    /// The three ASCII letters of the code.
    pub open spec fn text(self) -> Seq<u8> {
        match self {
            OriginatorCode::Pep => seq![0x50u8, 0x45u8, 0x50u8],
            OriginatorCode::Civ => seq![0x43u8, 0x49u8, 0x56u8],
            OriginatorCode::Wxr => seq![0x57u8, 0x58u8, 0x52u8],
            OriginatorCode::Eas => seq![0x45u8, 0x41u8, 0x53u8],
            OriginatorCode::Ean => seq![0x45u8, 0x41u8, 0x4Eu8],
        }
    }

    /// The three ASCII letters of the code: `PEP`, `CIV`, `WXR`, `EAS` or `EAN`.
    pub fn letters(self) -> (r: [u8; 3])
        ensures
            r@ == self.text(),
    {
        let r = match self {
            OriginatorCode::Pep => [0x50u8, 0x45u8, 0x50u8],
            OriginatorCode::Civ => [0x43u8, 0x49u8, 0x56u8],
            OriginatorCode::Wxr => [0x57u8, 0x58u8, 0x52u8],
            OriginatorCode::Eas => [0x45u8, 0x41u8, 0x53u8],
            OriginatorCode::Ean => [0x45u8, 0x41u8, 0x4Eu8],
        };
        assert(r@ =~= self.text());
        r
    }

    /// The code's letters as transmitted bytes.
    pub fn to_afsk_bytes(self) -> (r: [AfskByte; 3])
        ensures
            forall|k: int| 0 <= k < 3 ==> #[trigger] r@[k].encodes(self.text()[k]),
    {
        let l = self.letters();
        let r = [AfskByte::from_byte(l[0]), AfskByte::from_byte(l[1]), AfskByte::from_byte(l[2])];
        assert(r@ =~= seq![r[0], r[1], r[2]]);
        r
    }
}

/// Earliest year chrono's dates reach.
pub const MIN_YEAR: i32 = -262143;

/// Latest year chrono's dates reach.
pub const MAX_YEAR: i32 = 262142;

pub open spec fn is_leap_year(year: int) -> bool {
    (year % 4 == 0 && year % 100 != 0) || year % 400 == 0
}

/// Days in `month` (1 to 12) of `year`.
pub open spec fn days_in_month(year: int, month: int) -> int {
    if month == 2 {
        if is_leap_year(year) {
            29
        } else {
            28
        }
    } else if month == 4 || month == 6 || month == 9 || month == 11 {
        30
    } else {
        31
    }
}

/// A day of the proleptic Gregorian calendar within chrono's range of years.
pub open spec fn valid_date(year: i32, month: u32, day: u32) -> bool {
    &&& MIN_YEAR <= year <= MAX_YEAR
    &&& 1 <= month <= 12
    &&& 1 <= day <= days_in_month(year as int, month as int)
}

/// Days in the months of `year` before `month`.
pub open spec fn days_before_month(year: int, month: int) -> int
    decreases month,
{
    if month <= 1 {
        0
    } else {
        days_before_month(year, month - 1) + days_in_month(year, month - 1)
    }
}

/// The day's number within its year, counting from 1.
pub open spec fn day_of_year(year: i32, month: u32, day: u32) -> int {
    days_before_month(year as int, month as int) + day
}

/// The ASCII digit of `d` (0 to 9).
pub open spec fn digit(d: int) -> u8 {
    (0x30 + d) as u8
}

/// Day of year in three digits, then hour and minute in two digits each,
/// all zero-padded.
pub open spec fn stamp_text(ordinal: int, hour: int, minute: int) -> Seq<u8> {
    seq![
        digit(ordinal / 100),
        digit(ordinal / 10 % 10),
        digit(ordinal % 10),
        digit(hour / 10),
        digit(hour % 10),
        digit(minute / 10),
        digit(minute % 10),
    ]
}

/// Relies on chrono's `NaiveDate::from_ymd_opt`, which gives a date exactly
/// for the days of the proleptic Gregorian calendar within its year range.
#[verifier::external_body]
fn date_exists(year: i32, month: u32, day: u32) -> (r: bool)
    ensures
        r == valid_date(year, month, day),
{
    chrono::NaiveDate::from_ymd_opt(year, month, day).is_some()
}

/// Relies on chrono's `format("%j%H%M")` of a date and time: the day of the
/// year, the hour and the minute as zero-padded decimal numbers of three, two
/// and two digits.
#[verifier::external_body]
fn format_stamp(year: i32, month: u32, day: u32, hour: u32, minute: u32) -> (r: Vec<u8>)
    requires
        valid_date(year, month, day),
        hour < 24,
        minute < 60,
    ensures
        r@ == stamp_text(day_of_year(year, month, day), hour as int, minute as int),
{
    let date = chrono::NaiveDate::from_ymd_opt(year, month, day).unwrap();
    let time = date.and_hms_opt(hour, minute, 0).unwrap();
    time.format("%j%H%M").to_string().into_bytes()
}

/// The moment a warning was issued, to the minute (UTC).
#[derive(Clone, Copy, Debug, PartialEq, Eq, Structural)]
pub struct IssueTime {
    year: i32,
    month: u32,
    day: u32,
    hour: u32,
    minute: u32,
}

impl IssueTime {
    /// The date exists and the time of day is within one day.
    #[verifier::type_invariant]
    spec fn valid(self) -> bool {
        valid_date(self.year, self.month, self.day) && self.hour < 24 && self.minute < 60
    }

    /// The issue time as it is sent: `DDDHHMM`.
    pub closed spec fn text(self) -> Seq<u8> {
        stamp_text(
            day_of_year(self.year, self.month, self.day),
            self.hour as int,
            self.minute as int,
        )
    }

    /// The given minute of the given day, if that day exists and the hour and
    /// minute lie within a day.
    pub fn new(year: i32, month: u32, day: u32, hour: u32, minute: u32) -> (r: Option<IssueTime>)
        ensures
            r is Some <==> (valid_date(year, month, day) && hour < 24 && minute < 60),
            r is Some ==> r->0.text() == stamp_text(
                day_of_year(year, month, day),
                hour as int,
                minute as int,
            ),
    {
        if hour < 24 && minute < 60 && date_exists(year, month, day) {
            Some(IssueTime { year, month, day, hour, minute })
        } else {
            None
        }
    }

    /// The issue time as it is sent: `DDDHHMM`.
    pub fn render(&self) -> (r: Vec<u8>)
        ensures
            r@ == self.text(),
    {
        proof {
            use_type_invariant(self);
        }
        format_stamp(self.year, self.month, self.day, self.hour, self.minute)
    }
}

/// `ZCZC`, the start-of-header code, followed by the field delimiter.
pub open spec fn start_text() -> Seq<u8> {
    seq![0x5Au8, 0x43u8, 0x5Au8, 0x43u8, DASH]
}

/// Each location code preceded by the field delimiter, in order.
pub open spec fn locations_text(codes: Seq<Seq<u8>>) -> Seq<u8>
    decreases codes.len(),
{
    if codes.len() == 0 {
        Seq::empty()
    } else {
        locations_text(codes.drop_last()) + seq![DASH] + codes.last()
    }
}

/// The callsign with each field delimiter replaced by a backslash.
pub open spec fn callsign_text(callsign: Seq<u8>) -> Seq<u8> {
    callsign.map_values(|b: u8| if b == DASH { BACKSLASH } else { b })
}

/// The full header as sent:
/// `<preamble>ZCZC-ORG-EEE(-LLLLLL)*+TTTT-DDDHHMM-CALLSIGN-`.
pub open spec fn header_text(
    originator: OriginatorCode,
    event: Seq<u8>,
    locations: Seq<Seq<u8>>,
    purge: Seq<u8>,
    stamp: Seq<u8>,
    callsign: Seq<u8>,
) -> Seq<u8> {
    preamble_text() + start_text() + originator.text() + seq![DASH] + event + locations_text(
        locations,
    ) + seq![PLUS] + purge + seq![DASH] + stamp + seq![DASH] + callsign_text(callsign) + seq![
        DASH,
    ]
}

/// The views of the location codes.
pub open spec fn code_views(codes: Seq<[u8; 6]>) -> Seq<Seq<u8>> {
    codes.map_values(|c: [u8; 6]| c@)
}

/// Appends the bytes of `a` to `out`.
fn append_array<const N: usize>(out: &mut Vec<u8>, a: &[u8; N])
    ensures
        final(out)@ == old(out)@ + a@,
{
    let mut i: usize = 0;
    while i < N
        invariant
            i <= N,
            a@.len() == N,
            out@ == old(out)@ + a@.subrange(0, i as int),
        decreases N - i,
    {
        out.push(a[i]);
        i = i + 1;
        assert(a@.subrange(0, i as int) =~= a@.subrange(0, i - 1) + seq![a@[i - 1]]);
    }
    assert(a@.subrange(0, N as int) =~= a@);
}

/// Why a header could not be made.
#[derive(Clone, Copy, Debug, PartialEq, Eq, Structural)]
pub enum HeaderError {
    /// More than 31 location codes were given.
    TooManyLocationCodes,
}

/// The fields of a SAME header. Fixed-width fields are byte arrays.
#[derive(Debug)]
pub struct Header {
    originator_code: OriginatorCode,
    event_code: [u8; 3],
    /// In Canada, Canadian Location Codes; in the US, `PSSCCC` codes. At most 31.
    location_codes: Vec<[u8; 6]>,
    purge_time: [u8; 4],
    time_of_issue: IssueTime,
    /// Eight characters; a shorter callsign such as `WDAF/FM` is padded with
    /// spaces or slashes (`WDAF/FM ` or `WDAF/FM/`).
    callsign: [u8; 8],
}

impl Header {
    #[verifier::type_invariant]
    spec fn wf(self) -> bool {
        self.location_codes@.len() <= MAX_LOCATION_CODES
    }

    /// The header text as sent, preamble included.
    pub closed spec fn text(self) -> Seq<u8> {
        header_text(
            self.originator_code,
            self.event_code@,
            code_views(self.location_codes@),
            self.purge_time@,
            self.time_of_issue.text(),
            self.callsign@,
        )
    }

    /// Number of location codes.
    pub closed spec fn location_count(self) -> nat {
        self.location_codes@.len()
    }

    /// A header with the given fields, unless there are more than 31
    /// location codes.
    pub fn new(
        originator_code: OriginatorCode,
        event_code: [u8; 3],
        location_codes: Vec<[u8; 6]>,
        purge_time: [u8; 4],
        time_of_issue: IssueTime,
        callsign: [u8; 8],
    ) -> (r: Result<Header, HeaderError>)
        ensures
            r is Ok <==> location_codes@.len() <= MAX_LOCATION_CODES,
            r is Err ==> r->Err_0 == HeaderError::TooManyLocationCodes,
            r is Ok ==> r->Ok_0.location_count() == location_codes@.len(),
            r is Ok ==> r->Ok_0.text() == header_text(
                originator_code,
                event_code@,
                code_views(location_codes@),
                purge_time@,
                time_of_issue.text(),
                callsign@,
            ),
    {
        if location_codes.len() <= MAX_LOCATION_CODES {
            Ok(Header {
                originator_code,
                event_code,
                location_codes,
                purge_time,
                time_of_issue,
                callsign,
            })
        } else {
            Err(HeaderError::TooManyLocationCodes)
        }
    }

    /// The header text as sent, preamble included.
    pub fn to_bytes(&self) -> (r: Vec<u8>)
        ensures
            r@ == self.text(),
    {
        let mut out: Vec<u8> = Vec::new();
        let mut k: usize = 0;
        while k < PREAMBLE_LEN
            invariant
                k <= PREAMBLE_LEN,
                out@ == preamble_text().subrange(0, k as int),
            decreases PREAMBLE_LEN - k,
        {
            out.push(PREAMBLE_BYTE);
            k = k + 1;
            assert(out@ =~= preamble_text().subrange(0, k as int));
        }
        assert(out@ =~= preamble_text());
        append_array(&mut out, &[0x5Au8, 0x43u8, 0x5Au8, 0x43u8, DASH]);
        append_array(&mut out, &self.originator_code.letters());
        out.push(DASH);
        append_array(&mut out, &self.event_code);
        let ghost prefix = out@;
        let mut i: usize = 0;
        while i < self.location_codes.len()
            invariant
                i <= self.location_codes@.len(),
                out@ == prefix + locations_text(code_views(self.location_codes@.subrange(0, i as int))),
            decreases self.location_codes@.len() - i,
        {
            let ghost before = out@;
            out.push(DASH);
            append_array(&mut out, &self.location_codes[i]);
            i = i + 1;
            proof {
                let done = code_views(self.location_codes@.subrange(0, i as int));
                assert(done.drop_last() =~= code_views(self.location_codes@.subrange(0, i - 1)));
                assert(done.last() == self.location_codes@[i - 1]@);
                assert(out@ =~= prefix + locations_text(done));
            }
        }
        assert(self.location_codes@.subrange(0, i as int) =~= self.location_codes@);
        out.push(PLUS);
        append_array(&mut out, &self.purge_time);
        out.push(DASH);
        let stamp = self.time_of_issue.render();
        let mut s: usize = 0;
        let ghost before_stamp = out@;
        while s < stamp.len()
            invariant
                s <= stamp@.len(),
                out@ == before_stamp + stamp@.subrange(0, s as int),
            decreases stamp@.len() - s,
        {
            out.push(stamp[s]);
            s = s + 1;
            assert(out@ =~= before_stamp + stamp@.subrange(0, s as int));
        }
        assert(stamp@.subrange(0, s as int) =~= stamp@);
        out.push(DASH);
        let mut c: usize = 0;
        let ghost before_callsign = out@;
        while c < 8
            invariant
                c <= 8,
                out@ == before_callsign + callsign_text(self.callsign@.subrange(0, c as int)),
            decreases 8 - c,
        {
            let b = self.callsign[c];
            out.push(if b == DASH { BACKSLASH } else { b });
            c = c + 1;
            assert(out@ =~= before_callsign + callsign_text(self.callsign@.subrange(0, c as int)));
        }
        assert(self.callsign@.subrange(0, 8) =~= self.callsign@);
        out.push(DASH);
        assert(out@ =~= self.text());
        out
    }

    /// The header as transmitted bytes.
    pub fn render(&self) -> (r: Vec<AfskByte>)
        ensures
            r@.len() == self.text().len(),
            forall|k: int| 0 <= k < r@.len() ==> #[trigger] r@[k].encodes(self.text()[k]),
    {
        encode_bytes(&self.to_bytes())
    }
}

/// The callsign field is sent right before the closing delimiter, with every
/// `-` in it replaced by `\\`.
pub proof fn lemma_callsign_escaped(
    originator: OriginatorCode,
    event: Seq<u8>,
    locations: Seq<Seq<u8>>,
    purge: Seq<u8>,
    stamp: Seq<u8>,
    callsign: Seq<u8>,
)
    requires
        callsign.len() == 8,
    ensures
        ({
            let text = header_text(originator, event, locations, purge, stamp, callsign);
            &&& text.last() == DASH
            &&& forall|k: int|
                0 <= k < 8 ==> #[trigger] text[text.len() - 9 + k] == (if callsign[k] == DASH {
                    BACKSLASH
                } else {
                    callsign[k]
                })
        }),
{
    let text = header_text(originator, event, locations, purge, stamp, callsign);
    let front = preamble_text() + start_text() + originator.text() + seq![DASH] + event
        + locations_text(locations) + seq![PLUS] + purge + seq![DASH] + stamp + seq![DASH];
    assert(text =~= front + callsign_text(callsign) + seq![DASH]);
    assert forall|k: int| 0 <= k < 8 implies #[trigger] text[text.len() - 9 + k] == (if callsign[k]
        == DASH {
        BACKSLASH
    } else {
        callsign[k]
    }) by {
        assert(text[front.len() + k] == callsign_text(callsign)[k]);
    }
}

/// The issue time is sent as seven bytes.
pub proof fn lemma_issue_text_len(t: IssueTime)
    ensures
        t.text().len() == 7,
{
}

} // verus!
