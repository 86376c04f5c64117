//! The calendar event codec: a packed event holds start and end times, a
//! flag byte naming which optional parts follow, then the alarm block,
//! the repeat block, the exception list, the description, note and
//! location strings, and trailing typed blobs.

use vstd::prelude::*;

use crate::blob::unpack_blob;
use crate::blob::Blob;
use crate::blob::MAX_BLOBS;
use crate::bytes::be16;
use crate::bytes::first_nul;
use crate::bytes::get_buf_string;
use crate::bytes::lemma_first_nul;

verus! {

/// Flag bit: an alarm block follows the fixed header.
pub const ALARM_FLAG: u8 = 64;

/// Flag bit: a repeat block follows.
pub const REPEAT_FLAG: u8 = 32;

/// Flag bit: a note string follows.
pub const NOTE_FLAG: u8 = 16;

/// Flag bit: an exception list follows.
pub const EXCEPT_FLAG: u8 = 8;

/// Flag bit: a description string follows.
pub const DESC_FLAG: u8 = 4;

/// Flag bit: a location string follows.
pub const LOC_FLAG: u8 = 2;

/// The revisions of the packed calendar format this codec knows.
#[derive(Debug, PartialEq, Eq, Structural)]
pub enum CalendarType {
    CalendarV1,
    Unknown,
}

impl Default for CalendarType {
    /// The one revision in use.
    fn default() -> (r: CalendarType)
        ensures
            r == CalendarType::CalendarV1,
    {
        CalendarType::CalendarV1
    }
}

/// How an event repeats.
#[derive(Debug, PartialEq, Eq, Structural, Clone, Copy)]
pub enum CalendarRepeatType {
    CalendarRepeatNone,
    CalendarRepeatDaily,
    CalendarRepeatWeekly,
    CalendarRepeatMonthlyByDay,
    CalendarRepeatMonthlyByDate,
    CalendarRepeatYearly,
}

/// Which weekday instance of the month a monthly-by-day event falls on.
#[derive(Debug, PartialEq, Eq, Structural, Clone, Copy)]
pub enum CalendarDayOfMonthType {
    Calendar1stSun,
    Calendar1stMon,
    Calendar1stTue,
    Calendar1stWen,
    Calendar1stThu,
    Calendar1stFri,
    Calendar1stSat,
    Calendar2ndSun,
    Calendar2ndMon,
    Calendar2ndTue,
    Calendar2ndWen,
    Calendar2ndThu,
    Calendar2ndFri,
    Calendar2ndSat,
    Calendar3rdSun,
    Calendar3rdMon,
    Calendar3rdTue,
    Calendar3rdWen,
    Calendar3rdThu,
    Calendar3rdFri,
    Calendar3rdSat,
    Calendar4thSun,
    Calendar4thMon,
    Calendar4thTue,
    Calendar4thWen,
    Calendar4thThu,
    Calendar4thFri,
    Calendar4thSat,
    CalendarLastSun,
    CalendarLastMon,
    CalendarLastTue,
    CalendarLastWen,
    CalendarLastThu,
    CalendarLastFri,
    CalendarLastSat,
}

/// The unit an alarm's advance counts in.
#[derive(Debug, PartialEq, Eq, Structural, Clone, Copy)]
pub enum CalendarAdvanceTypes {
    CalendarAdvMinutes,
    CalendarAdvHours,
    CalendarAdvDays,
}

/// One calendar event, unpacked: the untimed-event flag, the alarm block,
/// the repeat block, the exception count, the three strings, and up to
/// ten trailing blobs.
#[derive(Debug, PartialEq)]
pub struct CalendarEvent {
    pub event: i32,
    pub alarm: i32,
    pub advance: u8,
    pub advance_units: u8,
    pub repeat_type: CalendarRepeatType,
    pub repeat_forever: i32,
    pub repeat_frequency: u8,
    pub repeat_day: CalendarDayOfMonthType,
    pub repeat_days: Vec<u8>,
    pub repeat_week_start: u8,
    pub exceptions: u16,
    pub description: String,
    pub note: String,
    pub location: String,
    pub blob: Vec<Blob>,
}

impl CalendarEvent {
    /// Seven repeat-day slots and ten blob slots.
    pub open spec fn wf(&self) -> bool {
        self.repeat_days@.len() == 7 && self.blob@.len() == 10
    }
}

impl Default for CalendarEvent {
    /// An empty, non-repeating event.
    fn default() -> (r: CalendarEvent)
        ensures
            r.wf(),
    {
        let mut repeat_days: Vec<u8> = Vec::new();
        let mut i: usize = 0;
        while i < 7
            invariant
                i <= 7,
                repeat_days@.len() == i,
            decreases 7 - i,
        {
            repeat_days.push(0);
            i = i + 1;
        }
        let mut blob: Vec<Blob> = Vec::new();
        let mut k: usize = 0;
        while k < 10
            invariant
                k <= 10,
                blob@.len() == k,
            decreases 10 - k,
        {
            blob.push(Blob::default());
            k = k + 1;
        }
        CalendarEvent {
            event: 0,
            alarm: 0,
            advance: 0,
            advance_units: 0,
            repeat_type: CalendarRepeatType::CalendarRepeatNone,
            repeat_forever: 0,
            repeat_frequency: 0,
            repeat_day: CalendarDayOfMonthType::Calendar1stSun,
            repeat_days,
            repeat_week_start: 0,
            exceptions: 0,
            description: String::new(),
            note: String::new(),
            location: String::new(),
            blob,
        }
    }
}

/// The calendar application-info block: the first day of the week and an
/// opaque internal area.
#[derive(Clone, Debug, Default, PartialEq)]
pub struct CalendarAppInfo {
    pub start_of_week: i32,
    pub internal: Vec<u8>,
}

/// The ordinal of a repeat kind as packed on the wire.
pub open spec fn repeat_type_index(t: CalendarRepeatType) -> int {
    match t {
        CalendarRepeatType::CalendarRepeatNone => 0,
        CalendarRepeatType::CalendarRepeatDaily => 1,
        CalendarRepeatType::CalendarRepeatWeekly => 2,
        CalendarRepeatType::CalendarRepeatMonthlyByDay => 3,
        CalendarRepeatType::CalendarRepeatMonthlyByDate => 4,
        CalendarRepeatType::CalendarRepeatYearly => 5,
    }
}

/// Reads a repeat kind back from its wire ordinal.
pub fn calendar_repeat_type_from_u8(x: u8) -> (r: Option<CalendarRepeatType>)
    ensures
        r is Some <==> x <= 5,
        r matches Some(t) ==> repeat_type_index(t) == x,
{
    match x {
        0 => Some(CalendarRepeatType::CalendarRepeatNone),
        1 => Some(CalendarRepeatType::CalendarRepeatDaily),
        2 => Some(CalendarRepeatType::CalendarRepeatWeekly),
        3 => Some(CalendarRepeatType::CalendarRepeatMonthlyByDay),
        4 => Some(CalendarRepeatType::CalendarRepeatMonthlyByDate),
        5 => Some(CalendarRepeatType::CalendarRepeatYearly),
        _ => None,
    }
}

/// The ordinal of a day-of-month kind as packed on the wire.
pub open spec fn day_of_month_index(t: CalendarDayOfMonthType) -> int {
    match t {
        CalendarDayOfMonthType::Calendar1stSun => 0,
        CalendarDayOfMonthType::Calendar1stMon => 1,
        CalendarDayOfMonthType::Calendar1stTue => 2,
        CalendarDayOfMonthType::Calendar1stWen => 3,
        CalendarDayOfMonthType::Calendar1stThu => 4,
        CalendarDayOfMonthType::Calendar1stFri => 5,
        CalendarDayOfMonthType::Calendar1stSat => 6,
        CalendarDayOfMonthType::Calendar2ndSun => 7,
        CalendarDayOfMonthType::Calendar2ndMon => 8,
        CalendarDayOfMonthType::Calendar2ndTue => 9,
        CalendarDayOfMonthType::Calendar2ndWen => 10,
        CalendarDayOfMonthType::Calendar2ndThu => 11,
        CalendarDayOfMonthType::Calendar2ndFri => 12,
        CalendarDayOfMonthType::Calendar2ndSat => 13,
        CalendarDayOfMonthType::Calendar3rdSun => 14,
        CalendarDayOfMonthType::Calendar3rdMon => 15,
        CalendarDayOfMonthType::Calendar3rdTue => 16,
        CalendarDayOfMonthType::Calendar3rdWen => 17,
        CalendarDayOfMonthType::Calendar3rdThu => 18,
        CalendarDayOfMonthType::Calendar3rdFri => 19,
        CalendarDayOfMonthType::Calendar3rdSat => 20,
        CalendarDayOfMonthType::Calendar4thSun => 21,
        CalendarDayOfMonthType::Calendar4thMon => 22,
        CalendarDayOfMonthType::Calendar4thTue => 23,
        CalendarDayOfMonthType::Calendar4thWen => 24,
        CalendarDayOfMonthType::Calendar4thThu => 25,
        CalendarDayOfMonthType::Calendar4thFri => 26,
        CalendarDayOfMonthType::Calendar4thSat => 27,
        CalendarDayOfMonthType::CalendarLastSun => 28,
        CalendarDayOfMonthType::CalendarLastMon => 29,
        CalendarDayOfMonthType::CalendarLastTue => 30,
        CalendarDayOfMonthType::CalendarLastWen => 31,
        CalendarDayOfMonthType::CalendarLastThu => 32,
        CalendarDayOfMonthType::CalendarLastFri => 33,
        CalendarDayOfMonthType::CalendarLastSat => 34,
    }
}

/// Reads a day-of-month kind back from its wire ordinal.
pub fn calendar_day_of_month_from_u8(x: u8) -> (r: Option<CalendarDayOfMonthType>)
    ensures
        r is Some <==> x <= 34,
        r matches Some(t) ==> day_of_month_index(t) == x,
{
    match x {
        0 => Some(CalendarDayOfMonthType::Calendar1stSun),
        1 => Some(CalendarDayOfMonthType::Calendar1stMon),
        2 => Some(CalendarDayOfMonthType::Calendar1stTue),
        3 => Some(CalendarDayOfMonthType::Calendar1stWen),
        4 => Some(CalendarDayOfMonthType::Calendar1stThu),
        5 => Some(CalendarDayOfMonthType::Calendar1stFri),
        6 => Some(CalendarDayOfMonthType::Calendar1stSat),
        7 => Some(CalendarDayOfMonthType::Calendar2ndSun),
        8 => Some(CalendarDayOfMonthType::Calendar2ndMon),
        9 => Some(CalendarDayOfMonthType::Calendar2ndTue),
        10 => Some(CalendarDayOfMonthType::Calendar2ndWen),
        11 => Some(CalendarDayOfMonthType::Calendar2ndThu),
        12 => Some(CalendarDayOfMonthType::Calendar2ndFri),
        13 => Some(CalendarDayOfMonthType::Calendar2ndSat),
        14 => Some(CalendarDayOfMonthType::Calendar3rdSun),
        15 => Some(CalendarDayOfMonthType::Calendar3rdMon),
        16 => Some(CalendarDayOfMonthType::Calendar3rdTue),
        17 => Some(CalendarDayOfMonthType::Calendar3rdWen),
        18 => Some(CalendarDayOfMonthType::Calendar3rdThu),
        19 => Some(CalendarDayOfMonthType::Calendar3rdFri),
        20 => Some(CalendarDayOfMonthType::Calendar3rdSat),
        21 => Some(CalendarDayOfMonthType::Calendar4thSun),
        22 => Some(CalendarDayOfMonthType::Calendar4thMon),
        23 => Some(CalendarDayOfMonthType::Calendar4thTue),
        24 => Some(CalendarDayOfMonthType::Calendar4thWen),
        25 => Some(CalendarDayOfMonthType::Calendar4thThu),
        26 => Some(CalendarDayOfMonthType::Calendar4thFri),
        27 => Some(CalendarDayOfMonthType::Calendar4thSat),
        28 => Some(CalendarDayOfMonthType::CalendarLastSun),
        29 => Some(CalendarDayOfMonthType::CalendarLastMon),
        30 => Some(CalendarDayOfMonthType::CalendarLastTue),
        31 => Some(CalendarDayOfMonthType::CalendarLastWen),
        32 => Some(CalendarDayOfMonthType::CalendarLastThu),
        33 => Some(CalendarDayOfMonthType::CalendarLastFri),
        34 => Some(CalendarDayOfMonthType::CalendarLastSat),
        _ => None,
    }
}

/// Whether every bit of `flag` is set in the event's flag byte.
pub open spec fn cal_flag(s: Seq<u8>, flag: u8) -> bool {
    (s[6] & flag) == flag
}

/// Where the optional parts past the alarm block begin.
pub open spec fn cal_after_alarm(s: Seq<u8>) -> int {
    if cal_flag(s, ALARM_FLAG) {
        10
    } else {
        8
    }
}

/// Where the optional parts past the repeat block begin.
pub open spec fn cal_after_repeat(s: Seq<u8>) -> int {
    if cal_flag(s, REPEAT_FLAG) {
        cal_after_alarm(s) + 6
    } else {
        cal_after_alarm(s)
    }
}

/// Where the optional parts past the exception list begin.
pub open spec fn cal_after_except(s: Seq<u8>) -> int {
    if cal_flag(s, EXCEPT_FLAG) {
        cal_after_repeat(s) + 2 + 2 * be16(s[cal_after_repeat(s)], s[cal_after_repeat(s) + 1])
    } else {
        cal_after_repeat(s)
    }
}

/// Where the bytes past the description string begin.
pub open spec fn cal_after_desc(s: Seq<u8>) -> int {
    if cal_flag(s, DESC_FLAG) {
        first_nul(s, cal_after_except(s)) + 1
    } else {
        cal_after_except(s)
    }
}

/// Where the bytes past the note string begin.
pub open spec fn cal_after_note(s: Seq<u8>) -> int {
    if cal_flag(s, NOTE_FLAG) {
        first_nul(s, cal_after_desc(s)) + 1
    } else {
        cal_after_desc(s)
    }
}

/// Where the bytes past the location string begin.
pub open spec fn cal_after_loc(s: Seq<u8>) -> int {
    if cal_flag(s, LOC_FLAG) {
        first_nul(s, cal_after_note(s)) + 1
    } else {
        cal_after_note(s)
    }
}

/// Every unpacked field of the event holds what its part of the record
/// says: the untimed flag, the alarm block, the repeat block, the
/// exception count and the three strings.
pub open spec fn calendar_fields_match(a: CalendarEvent, s: Seq<u8>) -> bool {
    &&& a.event == (if be16(s[0], s[1]) == 0xffff {
        1i32
    } else {
        0i32
    })
    &&& a.alarm == (if cal_flag(s, ALARM_FLAG) {
        1i32
    } else {
        0i32
    })
    &&& a.advance == (if cal_flag(s, ALARM_FLAG) {
        s[8]
    } else {
        0u8
    })
    &&& a.advance_units == (if cal_flag(s, ALARM_FLAG) {
        s[9]
    } else {
        0u8
    })
    &&& (cal_flag(s, REPEAT_FLAG) ==> {
        let p2 = cal_after_alarm(s);
        &&& repeat_type_index(a.repeat_type) == s[p2]
        &&& a.repeat_forever == (if be16(s[p2], s[p2 + 1]) == 0xffff {
            1i32
        } else {
            0i32
        })
        &&& a.repeat_frequency == s[p2 + 2]
        &&& a.repeat_week_start == s[p2 + 4]
        &&& (s[p2] == 2 ==> forall|i: int|
            0 <= i < 7 ==> a.repeat_days@[i] == (s[p2 + 3] & (1u8 << (i as u8))))
        &&& (s[p2] == 3 ==> day_of_month_index(a.repeat_day) == s[p2 + 3])
    })
    &&& (!cal_flag(s, REPEAT_FLAG) ==> a.repeat_type == CalendarRepeatType::CalendarRepeatNone
        && a.repeat_forever == 1 && a.repeat_frequency == 0 && a.repeat_week_start == 0 && forall|
        i: int,
    |
        0 <= i < 7 ==> a.repeat_days@[i] == 0)
    &&& a.exceptions == (if cal_flag(s, EXCEPT_FLAG) {
        be16(s[cal_after_repeat(s)], s[cal_after_repeat(s) + 1])
    } else {
        0u16
    })
    &&& (cal_flag(s, DESC_FLAG) ==> vstd::utf8::encode_utf8(a.description@) == s.subrange(
        cal_after_except(s),
        first_nul(s, cal_after_except(s)),
    ))
    &&& (!cal_flag(s, DESC_FLAG) ==> a.description@.len() == 0)
    &&& (cal_flag(s, NOTE_FLAG) ==> vstd::utf8::encode_utf8(a.note@) == s.subrange(
        cal_after_desc(s),
        first_nul(s, cal_after_desc(s)),
    ))
    &&& (!cal_flag(s, NOTE_FLAG) ==> a.note@.len() == 0)
    &&& (cal_flag(s, LOC_FLAG) ==> vstd::utf8::encode_utf8(a.location@) == s.subrange(
        cal_after_note(s),
        first_nul(s, cal_after_note(s)),
    ))
    &&& (!cal_flag(s, LOC_FLAG) ==> a.location@.len() == 0)
}

/// Unpacks a calendar event.  Fails (-1) on an unknown revision, a record
/// shorter than its fixed header, or any malformed optional part: a bad
/// repeat or day ordinal, a truncated block, an unterminated or non-UTF-8
/// string, too many blobs, a malformed blob, or stray trailing bytes.
/// On success every field holds what its part of the record says.
#[verifier::rlimit(30)]
pub fn unpack_calendar_event(a: &mut CalendarEvent, buf: &Vec<u8>, cal_type: CalendarType) -> (r:
    i32)
    requires
        old(a).wf(),
    ensures
        final(a).wf(),
        cal_type != CalendarType::CalendarV1 ==> r == -1 && *final(a) == *old(a),
        cal_type == CalendarType::CalendarV1 && buf@.len() < 8 ==> r == -1 && *final(a) == *old(a),
        r == 0 ==> cal_type == CalendarType::CalendarV1 && buf@.len() >= 8
            && calendar_fields_match(*final(a), buf@),
{
    if !matches!(cal_type, CalendarType::CalendarV1) {
        return -1;
    }
    let n: usize = buf.len();
    if n < 8 {
        return -1;
    }
    if get_short_at(buf, 0) == 0xffff {
        a.event = 1;
    } else {
        a.event = 0;
    }
    let iflags: u8 = buf[6];
    let mut p2: usize = 8;
    if (iflags & ALARM_FLAG) == ALARM_FLAG {
        if n < 10 {
            return -1;
        }
        a.alarm = 1;
        a.advance = buf[8];
        a.advance_units = buf[9];
        p2 = 10;
    } else {
        a.alarm = 0;
        a.advance = 0;
        a.advance_units = 0;
    }
    proof {
        assert(p2 == cal_after_alarm(buf@));
    }
    if (iflags & REPEAT_FLAG) == REPEAT_FLAG {
        if n - p2 < 6 {
            return -1;
        }
        if !read_repeat_block(a, buf, p2) {
            return -1;
        }
        p2 = p2 + 6;
    } else {
        a.repeat_type = CalendarRepeatType::CalendarRepeatNone;
        a.repeat_forever = 1;
        a.repeat_frequency = 0;
        a.repeat_day = CalendarDayOfMonthType::Calendar1stSun;
        let mut zero_days: Vec<u8> = Vec::new();
        let mut zi: usize = 0;
        while zi < 7
            invariant
                zi <= 7,
                zero_days@.len() == zi,
                forall|j: int| 0 <= j < zi ==> zero_days@[j] == 0,
            decreases 7 - zi,
        {
            zero_days.push(0);
            zi = zi + 1;
        }
        a.repeat_days = zero_days;
        a.repeat_week_start = 0;
    }
    proof {
        assert(p2 == cal_after_repeat(buf@));
    }
    if (iflags & EXCEPT_FLAG) == EXCEPT_FLAG {
        if n - p2 < 2 {
            return -1;
        }
        let exc: u16 = get_short_at(buf, p2);
        a.exceptions = exc;
        let skip: usize = 2 + 2 * (exc as usize);
        if n - p2 < skip {
            return -1;
        }
        p2 = p2 + skip;
    } else {
        a.exceptions = 0;
    }
    proof {
        assert(p2 == cal_after_except(buf@));
    }
    match read_opt_string(buf, p2, (iflags & DESC_FLAG) == DESC_FLAG) {
        Some((st, next)) => {
            a.description = st;
            p2 = next;
        },
        None => {
            return -1;
        },
    }
    proof {
        assert(p2 == cal_after_desc(buf@));
    }
    match read_opt_string(buf, p2, (iflags & NOTE_FLAG) == NOTE_FLAG) {
        Some((st, next)) => {
            a.note = st;
            p2 = next;
        },
        None => {
            return -1;
        },
    }
    proof {
        assert(p2 == cal_after_note(buf@));
    }
    match read_opt_string(buf, p2, (iflags & LOC_FLAG) == LOC_FLAG) {
        Some((st, next)) => {
            a.location = st;
            p2 = next;
        },
        None => {
            return -1;
        },
    }
    proof {
        assert(p2 == cal_after_loc(buf@));
    }
    // Reset the blob slots, then read any trailing blobs.
    match read_calendar_blobs(buf, p2) {
        Some(blobs) => {
            a.blob = blobs;
        },
        None => {
            return -1;
        },
    }
    0
}

/// Reads the blobs trailing a calendar event from `start` on: up to ten,
/// each whole and well-typed, with no stray bytes after the last.
fn read_calendar_blobs(buf: &Vec<u8>, start: usize) -> (r: Option<Vec<Blob>>)
    requires
        start <= buf@.len(),
    ensures
        r matches Some(blobs) ==> blobs@.len() == 10,
{
    let n: usize = buf.len();
    let mut blobs: Vec<Blob> = Vec::new();
    let mut bi: usize = 0;
    while bi < 10
        invariant
            bi <= 10,
            blobs@.len() == bi,
        decreases 10 - bi,
    {
        blobs.push(Blob::default());
        bi = bi + 1;
    }
    let mut p2: usize = start;
    if p2 >= n {
        return Some(blobs);
    }
    let mut blob_count: usize = 0;
    while n - p2 > 6
        invariant
            p2 <= n,
            n == buf@.len(),
            blob_count <= 10,
            blobs@.len() == 10,
        decreases n - p2,
    {
        if blob_count >= MAX_BLOBS {
            return None;
        }
        let blen: usize = get_short_at(buf, p2 + 4) as usize;
        if n - p2 < 6 + blen {
            return None;
        }
        let mut one = Blob::default();
        let consumed = unpack_blob(&mut one, buf, p2);
        if consumed == 0 {
            return None;
        }
        blobs.set(blob_count, one);
        p2 = p2 + consumed;
        blob_count = blob_count + 1;
    }
    if p2 < n {
        return None;
    }
    Some(blobs)
}

/// Reads the six-byte repeat block at `p2` into the event's repeat
/// fields; fails on a repeat or day-of-month ordinal off the wire format.
fn read_repeat_block(a: &mut CalendarEvent, buf: &Vec<u8>, p2: usize) -> (ok: bool)
    requires
        old(a).wf(),
        p2 + 6 <= buf@.len(),
    ensures
        final(a).wf(),
        final(a).event == old(a).event && final(a).alarm == old(a).alarm && final(a).advance == old(
            a,
        ).advance && final(a).advance_units == old(a).advance_units && final(a).exceptions == old(
            a,
        ).exceptions && final(a).description == old(a).description && final(a).note == old(a).note
            && final(a).location == old(a).location && final(a).blob == old(a).blob,
        ok ==> {
            &&& repeat_type_index(final(a).repeat_type) == buf@[p2 as int]
            &&& final(a).repeat_forever == (if be16(buf@[p2 as int], buf@[p2 + 1]) == 0xffff {
                1i32
            } else {
                0i32
            })
            &&& final(a).repeat_frequency == buf@[p2 + 2]
            &&& final(a).repeat_week_start == buf@[p2 + 4]
            &&& (buf@[p2 as int] == 2 ==> forall|i: int|
                0 <= i < 7 ==> final(a).repeat_days@[i] == (buf@[p2 + 3] & (1u8 << (i as u8))))
            &&& (buf@[p2 as int] == 3 ==> day_of_month_index(final(a).repeat_day) == buf@[p2 + 3])
        },
{
    let n: usize = buf.len();
    let rt = match calendar_repeat_type_from_u8(buf[p2]) {
        Some(rt) => rt,
        None => {
            return false;
        },
    };
    a.repeat_type = rt;
    let d: u16 = get_short_at(buf, p2);
    if d == 0xffff {
        a.repeat_forever = 1;
    } else {
        a.repeat_forever = 0;
    }
    a.repeat_frequency = buf[p2 + 2];
    let on: u8 = buf[p2 + 3];
    a.repeat_day = CalendarDayOfMonthType::Calendar1stSun;
    let mut zero_days: Vec<u8> = Vec::new();
    let mut zi: usize = 0;
    while zi < 7
        invariant
            zi <= 7,
            zero_days@.len() == zi,
            forall|j: int| 0 <= j < zi ==> zero_days@[j] == 0,
        decreases 7 - zi,
    {
        zero_days.push(0);
        zi = zi + 1;
    }
    a.repeat_days = zero_days;
    if matches!(rt, CalendarRepeatType::CalendarRepeatMonthlyByDay) {
        match calendar_day_of_month_from_u8(on) {
            Some(day) => {
                a.repeat_day = day;
            },
            None => {
                return false;
            },
        }
    } else if matches!(rt, CalendarRepeatType::CalendarRepeatWeekly) {
        let mut days: Vec<u8> = Vec::new();
        let mut di: usize = 0;
        while di < 7
            invariant
                di <= 7,
                days@.len() == di,
                forall|j: int| 0 <= j < di ==> days@[j] == (on & (1u8 << (j as u8))),
            decreases 7 - di,
        {
            days.push(on & (1u8 << (di as u8)));
            di = di + 1;
        }
        a.repeat_days = days;
    }
    a.repeat_week_start = buf[p2 + 4];
    true
}

/// Reads one optional zero-terminated string: the empty string and the
/// unmoved offset when its flag is clear; otherwise the decoded text and
/// the offset past its terminator, or `None` when the record has run out,
/// no terminator follows, or the bytes are not UTF-8.
fn read_opt_string(buf: &Vec<u8>, p2: usize, present: bool) -> (r: Option<(String, usize)>)
    requires
        p2 <= buf@.len(),
    ensures
        r matches Some(p) ==> p.1 <= buf@.len(),
        !present ==> (r matches Some(p) && p.0@.len() == 0 && p.1 == p2),
        present ==> (r matches Some(p) ==> first_nul(buf@, p2 as int) >= 0
            && vstd::utf8::encode_utf8(p.0@) == buf@.subrange(
            p2 as int,
            first_nul(buf@, p2 as int),
        ) && p.1 == first_nul(buf@, p2 as int) + 1),
{
    if !present {
        return Some((String::new(), p2));
    }
    let n: usize = buf.len();
    if p2 >= n {
        return None;
    }
    proof {
        lemma_first_nul(buf@, p2 as int);
    }
    match get_buf_string(buf, p2) {
        Some((st, end)) => {
            proof {
                lemma_first_nul(buf@, p2 as int);
            }
            Some((st, end + 1))
        },
        None => None,
    }
}

/// Reads a 16-bit big-endian value at an offset of a buffer.
fn get_short_at(buf: &Vec<u8>, offset: usize) -> (r: u16)
    requires
        offset + 2 <= buf@.len(),
    ensures
        r == be16(buf@[offset as int], buf@[offset + 1]),
{
    let _len: usize = buf.len();
    ((buf[offset] as u16) << 8) | (buf[offset + 1] as u16)
}

} // verus!
