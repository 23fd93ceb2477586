//! The TZif decoder: a mathematical description of the wire format, the
//! executable parser proved against it, and the laws the decode obeys.
//!
//! A body at position `pos` of a byte sequence is laid out as: a 44-byte
//! header (magic, version, 15 reserved bytes, six big-endian u32 counts),
//! then `timecnt` transition times (4 bytes each in v1 mode, 8 in modern
//! mode), `timecnt` transition type indices, `typecnt` six-byte local time
//! type records, `charcnt` designation bytes, `leapcnt` leap second records,
//! `isstdcnt` standard/wall bytes, and `isutcnt` UT/local bytes.

use vstd::prelude::*;

use crate::bytes::{
    read_i32, read_i64, read_u32, spec_i32_at, spec_i64_at, spec_u32_at,
};
use crate::types::{
    std_flag_of, ut_flag_of, FormatFault, IsStd, IsUT, LocalTimeTypeRecord, ParseError,
    TimeZoneInfo, TzData,
};

verus! {

/// The six header counts, read as big-endian u32 at their fixed offsets.
pub open spec fn spec_isutcnt(s: Seq<u8>, pos: int) -> int {
    spec_u32_at(s, pos + 20) as int
}

pub open spec fn spec_isstdcnt(s: Seq<u8>, pos: int) -> int {
    spec_u32_at(s, pos + 24) as int
}

pub open spec fn spec_leapcnt(s: Seq<u8>, pos: int) -> int {
    spec_u32_at(s, pos + 28) as int
}

pub open spec fn spec_timecnt(s: Seq<u8>, pos: int) -> int {
    spec_u32_at(s, pos + 32) as int
}

pub open spec fn spec_typecnt(s: Seq<u8>, pos: int) -> int {
    spec_u32_at(s, pos + 36) as int
}

pub open spec fn spec_charcnt(s: Seq<u8>, pos: int) -> int {
    spec_u32_at(s, pos + 40) as int
}

/// The four magic bytes spell `"TZif"`.
pub open spec fn spec_magic_ok(s: Seq<u8>, pos: int) -> bool {
    s[pos] == 0x54u8 && s[pos + 1] == 0x5au8 && s[pos + 2] == 0x69u8 && s[pos + 3] == 0x66u8
}

/// The version byte is one of the three recognized encodings.
pub open spec fn spec_version_ok(v: u8) -> bool {
    v == 0 || v == 0x32 || v == 0x33
}

/// The format version a recognized version byte denotes: 0 is version 1,
/// ASCII '2' is 2, ASCII '3' is 3.
pub open spec fn spec_version_of(v: u8) -> u8 {
    if v == 0 {
        1
    } else if v == 0x32 {
        2
    } else {
        3
    }
}

/// Width in bytes of a stored time value: 4 in v1 mode, 8 in modern mode.
pub open spec fn time_size(v1: bool) -> int {
    if v1 {
        4
    } else {
        8
    }
}

/// A stored time value: a sign-extended 32-bit integer in v1 mode, a 64-bit
/// integer in modern mode.
pub open spec fn spec_time_at(s: Seq<u8>, p: int, v1: bool) -> i64 {
    if v1 {
        spec_i32_at(s, p) as i64
    } else {
        spec_i64_at(s, p)
    }
}

/// Start of the transition time block.
pub open spec fn off_times(pos: int) -> int {
    pos + 44
}

/// Start of the transition type index block.
pub open spec fn off_types(s: Seq<u8>, pos: int, v1: bool) -> int {
    off_times(pos) + spec_timecnt(s, pos) * time_size(v1)
}

/// Start of the local time type record block.
pub open spec fn off_ltt(s: Seq<u8>, pos: int, v1: bool) -> int {
    off_types(s, pos, v1) + spec_timecnt(s, pos)
}

/// Start of the designation blob.
pub open spec fn off_desig(s: Seq<u8>, pos: int, v1: bool) -> int {
    off_ltt(s, pos, v1) + 6 * spec_typecnt(s, pos)
}

/// Start of the leap second record block.
pub open spec fn off_leap(s: Seq<u8>, pos: int, v1: bool) -> int {
    off_desig(s, pos, v1) + spec_charcnt(s, pos)
}

/// Start of the standard/wall indicator block.
pub open spec fn off_std(s: Seq<u8>, pos: int, v1: bool) -> int {
    off_leap(s, pos, v1) + spec_leapcnt(s, pos) * (time_size(v1) + 4)
}

/// Start of the UT/local indicator block.
pub open spec fn off_ut(s: Seq<u8>, pos: int, v1: bool) -> int {
    off_std(s, pos, v1) + spec_isstdcnt(s, pos)
}

/// One past the last byte of the body.
pub open spec fn off_end(s: Seq<u8>, pos: int, v1: bool) -> int {
    off_ut(s, pos, v1) + spec_isutcnt(s, pos)
}

/// The decoded transition time sequence.
pub open spec fn spec_times(s: Seq<u8>, pos: int, v1: bool) -> Seq<i64> {
    Seq::new(
        spec_timecnt(s, pos) as nat,
        |i: int| spec_time_at(s, off_times(pos) + i * time_size(v1), v1),
    )
}

/// The decoded transition type index sequence.
pub open spec fn spec_types(s: Seq<u8>, pos: int, v1: bool) -> Seq<u8> {
    s.subrange(off_types(s, pos, v1), off_ltt(s, pos, v1))
}

/// One decoded local time type record at byte position `p`.
pub open spec fn spec_ltt_at(s: Seq<u8>, p: int) -> LocalTimeTypeRecord {
    LocalTimeTypeRecord {
        ut_off_secs: spec_i32_at(s, p),
        is_dst: s[p + 4] == 1,
        desig_idx: s[p + 5],
    }
}

/// The decoded local time type records.
pub open spec fn spec_ltts(s: Seq<u8>, pos: int, v1: bool) -> Seq<LocalTimeTypeRecord> {
    Seq::new(spec_typecnt(s, pos) as nat, |i: int| spec_ltt_at(s, off_ltt(s, pos, v1) + 6 * i))
}

/// The designation blob, copied verbatim.
pub open spec fn spec_desigs(s: Seq<u8>, pos: int, v1: bool) -> Seq<u8> {
    s.subrange(off_desig(s, pos, v1), off_leap(s, pos, v1))
}

/// One decoded leap second record at byte position `p`.
pub open spec fn spec_leap_at(s: Seq<u8>, p: int, v1: bool) -> (i64, i32) {
    (spec_time_at(s, p, v1), spec_i32_at(s, p + time_size(v1)))
}

/// The decoded leap second records.
pub open spec fn spec_leaps(s: Seq<u8>, pos: int, v1: bool) -> Seq<(i64, i32)> {
    Seq::new(
        spec_leapcnt(s, pos) as nat,
        |i: int| spec_leap_at(s, off_leap(s, pos, v1) + i * (time_size(v1) + 4), v1),
    )
}

/// The decoded standard/wall indicators (byte 1 is Standard, 0 is Wall).
pub open spec fn spec_stds(s: Seq<u8>, pos: int, v1: bool) -> Seq<IsStd> {
    Seq::new(
        spec_isstdcnt(s, pos) as nat,
        |i: int|
            if s[off_std(s, pos, v1) + i] == 1 {
                IsStd::Standard
            } else {
                IsStd::Wall
            },
    )
}

/// The decoded UT/local indicators (byte 1 is UT, 0 is Local).
pub open spec fn spec_uts(s: Seq<u8>, pos: int, v1: bool) -> Seq<IsUT> {
    Seq::new(
        spec_isutcnt(s, pos) as nat,
        |i: int|
            if s[off_ut(s, pos, v1) + i] == 1 {
                IsUT::UT
            } else {
                IsUT::Local
            },
    )
}

/// The database a well-formed body at `pos` decodes to.
pub open spec fn spec_decoded(s: Seq<u8>, pos: int, v1: bool) -> TzData {
    TzData {
        version: spec_version_of(s[pos + 4]),
        transition_times: spec_times(s, pos, v1),
        transition_types: spec_types(s, pos, v1),
        local_time_types: spec_ltts(s, pos, v1),
        time_zone_designations: spec_desigs(s, pos, v1),
        leap_second_records: spec_leaps(s, pos, v1),
        is_std: spec_stds(s, pos, v1),
        is_ut: spec_uts(s, pos, v1),
    }
}

/// Local time type record `i` is fully present and its DST flag byte is
/// neither 0 nor 1.
pub open spec fn dst_flag_bad_at(s: Seq<u8>, pos: int, v1: bool, i: int) -> bool {
    off_ltt(s, pos, v1) + 6 * i + 6 <= s.len() && s[off_ltt(s, pos, v1) + 6 * i + 4] != 0
        && s[off_ltt(s, pos, v1) + 6 * i + 4] != 1
}

/// Some fully present local time type record has a DST flag byte that is
/// neither 0 nor 1. Records cut off by the end of the sequence do not count:
/// the decoder reports the end of input instead.
pub open spec fn dst_flag_fault(s: Seq<u8>, pos: int, v1: bool) -> bool {
    exists|i: int| 0 <= i < spec_typecnt(s, pos) && #[trigger] dst_flag_bad_at(s, pos, v1, i)
}

/// Standard/wall indicator byte `i` is neither 0 nor 1.
pub open spec fn std_byte_bad_at(s: Seq<u8>, pos: int, v1: bool, i: int) -> bool {
    s[off_std(s, pos, v1) + i] != 0 && s[off_std(s, pos, v1) + i] != 1
}

/// Some standard/wall indicator byte is neither 0 nor 1.
pub open spec fn std_byte_fault(s: Seq<u8>, pos: int, v1: bool) -> bool {
    exists|i: int| 0 <= i < spec_isstdcnt(s, pos) && #[trigger] std_byte_bad_at(s, pos, v1, i)
}

/// UT/local indicator byte `i` is neither 0 nor 1.
pub open spec fn ut_byte_bad_at(s: Seq<u8>, pos: int, v1: bool, i: int) -> bool {
    s[off_ut(s, pos, v1) + i] != 0 && s[off_ut(s, pos, v1) + i] != 1
}

/// Some UT/local indicator byte is neither 0 nor 1.
pub open spec fn ut_byte_fault(s: Seq<u8>, pos: int, v1: bool) -> bool {
    exists|i: int| 0 <= i < spec_isutcnt(s, pos) && #[trigger] ut_byte_bad_at(s, pos, v1, i)
}

/// Type index `i` pairs a wall-clock indicator with a UT indicator, with the
/// absent-table defaults applied.
pub open spec fn wall_ut_bad_at(s: Seq<u8>, pos: int, v1: bool, i: int) -> bool {
    std_flag_of(spec_decoded(s, pos, v1), i) == IsStd::Wall && ut_flag_of(
        spec_decoded(s, pos, v1),
        i,
    ) == IsUT::UT
}

/// Some type index, up to the longer of the two indicator tables, pairs a
/// wall-clock indicator with a UT indicator.
pub open spec fn wall_ut_fault(s: Seq<u8>, pos: int, v1: bool) -> bool {
    exists|i: int|
        0 <= i && (i < spec_isstdcnt(s, pos) || i < spec_isutcnt(s, pos)) && #[trigger] wall_ut_bad_at(
            s,
            pos,
            v1,
            i,
        )
}

/// Some transition type index is not a valid index into the local time types.
pub open spec fn type_range_fault(s: Seq<u8>, pos: int, v1: bool) -> bool {
    exists|i: int|
        0 <= i < spec_timecnt(s, pos) && #[trigger] spec_types(s, pos, v1)[i] as int
            >= spec_typecnt(s, pos)
}

/// What decoding one body at `pos` of `s` yields: the database, or the first
/// failure in the order the stream is read.
pub open spec fn spec_decode(s: Seq<u8>, pos: int, v1: bool) -> Result<TzData, ParseError>
    recommends
        0 <= pos,
{
    if s.len() < pos + 44 {
        Err(ParseError::UnexpectedEof)
    } else if !spec_magic_ok(s, pos) {
        Err(ParseError::InvalidFormat(FormatFault::BadMagic))
    } else if spec_isstdcnt(s, pos) != 0 && spec_isstdcnt(s, pos) != spec_typecnt(s, pos) {
        Err(ParseError::InvalidFormat(FormatFault::BadStdCount))
    } else if spec_isutcnt(s, pos) != 0 && spec_isutcnt(s, pos) != spec_typecnt(s, pos) {
        Err(ParseError::InvalidFormat(FormatFault::BadUtCount))
    } else if !spec_version_ok(s[pos + 4]) {
        Err(ParseError::InvalidFormat(FormatFault::BadVersion))
    } else if s.len() < off_ltt(s, pos, v1) {
        Err(ParseError::UnexpectedEof)
    } else if dst_flag_fault(s, pos, v1) {
        Err(ParseError::InvalidFormat(FormatFault::BadDstFlag))
    } else if s.len() < off_ut(s, pos, v1) {
        Err(ParseError::UnexpectedEof)
    } else if std_byte_fault(s, pos, v1) {
        Err(ParseError::InvalidFormat(FormatFault::BadStdWallByte))
    } else if s.len() < off_end(s, pos, v1) {
        Err(ParseError::UnexpectedEof)
    } else if ut_byte_fault(s, pos, v1) {
        Err(ParseError::InvalidFormat(FormatFault::BadUtLocalByte))
    } else if wall_ut_fault(s, pos, v1) {
        Err(ParseError::InvalidFormat(FormatFault::WallAndUt))
    } else if type_range_fault(s, pos, v1) {
        Err(ParseError::InvalidFormat(FormatFault::TypeIndexOutOfRange))
    } else {
        Ok(spec_decoded(s, pos, v1))
    }
}

/// What `parse` yields on the whole stream: the mandatory v1-mode decode,
/// upgraded by a second, modern-mode decode where the version asks for one
/// and that decode succeeds; a failed second decode falls back to the first.
pub open spec fn spec_parse(s: Seq<u8>) -> Result<TzData, ParseError> {
    match spec_decode(s, 0, true) {
        Err(e) => Err(e),
        Ok(first) => if first.version == 1 {
            Ok(first)
        } else {
            match spec_decode(s, off_end(s, 0, true), false) {
                Ok(second) => Ok(second),
                Err(_) => Ok(first),
            }
        },
    }
}

/// The fixed 44-byte preamble of a body, with its counts decoded.
#[derive(Debug, Clone, Copy)]
pub struct Header {
    pub magic: [u8; 4],
    pub ver: u8,
    pub isutcnt: u32,
    pub isstdcnt: u32,
    pub leapcnt: u32,
    pub timecnt: u32,
    pub typecnt: u32,
    pub charcnt: u32,
}

impl Header {
    /// Decode the preamble from its raw 44 bytes, field by field: the magic
    /// bytes and version byte verbatim, each count as big-endian u32.
    pub fn from_array(bytes: [u8; 44]) -> (h: Header)
        ensures
            h.magic@ =~= bytes@.subrange(0, 4),
            h.ver == bytes@[4],
            h.isutcnt == spec_u32_at(bytes@, 20),
            h.isstdcnt == spec_u32_at(bytes@, 24),
            h.leapcnt == spec_u32_at(bytes@, 28),
            h.timecnt == spec_u32_at(bytes@, 32),
            h.typecnt == spec_u32_at(bytes@, 36),
            h.charcnt == spec_u32_at(bytes@, 40),
    {
        Header {
            magic: [bytes[0], bytes[1], bytes[2], bytes[3]],
            ver: bytes[4],
            isutcnt: be_u32_of(bytes[20], bytes[21], bytes[22], bytes[23]),
            isstdcnt: be_u32_of(bytes[24], bytes[25], bytes[26], bytes[27]),
            leapcnt: be_u32_of(bytes[28], bytes[29], bytes[30], bytes[31]),
            timecnt: be_u32_of(bytes[32], bytes[33], bytes[34], bytes[35]),
            typecnt: be_u32_of(bytes[36], bytes[37], bytes[38], bytes[39]),
            charcnt: be_u32_of(bytes[40], bytes[41], bytes[42], bytes[43]),
        }
    }
}

fn be_u32_of(b0: u8, b1: u8, b2: u8, b3: u8) -> (r: u32)
    ensures
        r as int == (b0 as int) * 0x1000000 + (b1 as int) * 0x10000 + (b2 as int) * 0x100
            + (b3 as int),
{
    (b0 as u32) * 0x1000000 + (b1 as u32) * 0x10000 + (b2 as u32) * 0x100 + (b3 as u32)
}


/// One stored time value at `pos`: 4 bytes sign-extended in v1 mode, 8 bytes
/// in modern mode.
fn read_time(bytes: &Vec<u8>, pos: usize, v1: bool) -> (r: i64)
    requires
        pos + time_size(v1) <= bytes@.len(),
    ensures
        r == spec_time_at(bytes@, pos as int, v1),
{
    if v1 {
        read_i32(bytes, pos) as i64
    } else {
        read_i64(bytes, pos)
    }
}

/// `n` stored time values, one after another, starting at `pos`.
#[verifier::loop_isolation(false)]
fn read_times(bytes: &Vec<u8>, pos: usize, n: usize, v1: bool) -> (r: Vec<i64>)
    requires
        pos + n * time_size(v1) <= bytes@.len(),
    ensures
        r@.len() == n,
        forall|j: int|
            0 <= j < n ==> r@[j] == spec_time_at(bytes@, pos + j * time_size(v1), v1),
{
    // Observing the length tells the verifier it fits in usize.
    let _len = bytes.len();
    let tsize: usize = if v1 {
        4
    } else {
        8
    };
    let mut out: Vec<i64> = Vec::new();
    let mut i: usize = 0;
    let mut p: usize = pos;
    while i < n
        invariant
            i <= n,
            p as int == pos + i * time_size(v1),
            out@.len() == i,
            forall|j: int|
                0 <= j < i ==> out@[j] == spec_time_at(bytes@, pos + j * time_size(v1), v1),
        decreases n - i,
    {
        proof {
            assert((i + 1) * time_size(v1) == i * time_size(v1) + time_size(v1))
                by (nonlinear_arith);
            assert((i + 1) * time_size(v1) <= n * time_size(v1)) by (nonlinear_arith)
                requires
                    i < n,
                    time_size(v1) > 0,
            ;
        }
        let t = read_time(bytes, p, v1);
        out.push(t);
        p = p + tsize;
        i = i + 1;
    }
    out
}

/// `n` raw bytes starting at `pos`, copied verbatim.
#[verifier::loop_isolation(false)]
fn read_raw(bytes: &Vec<u8>, pos: usize, n: usize) -> (r: Vec<u8>)
    requires
        pos + n <= bytes@.len(),
    ensures
        r@ == bytes@.subrange(pos as int, pos + n),
{
    let _len = bytes.len();
    let mut out: Vec<u8> = Vec::new();
    let mut i: usize = 0;
    while i < n
        invariant
            i <= n,
            out@.len() == i,
            forall|j: int| 0 <= j < i ==> out@[j] == bytes@[pos + j],
        decreases n - i,
    {
        let b = bytes[pos + i];
        out.push(b);
        i = i + 1;
    }
    proof {
        assert(out@ =~= bytes@.subrange(pos as int, pos + n));
    }
    out
}

/// Local time type record `j` of a block at `base` is fully present and its
/// DST flag byte is neither 0 nor 1.
pub open spec fn ltt_flag_bad(s: Seq<u8>, base: int, j: int) -> bool {
    base + 6 * j + 6 <= s.len() && s[base + 6 * j + 4] != 0 && s[base + 6 * j + 4] != 1
}

/// `n` six-byte local time type records starting at `pos`, read one at a
/// time: a record cut off by the end of input is an `UnexpectedEof`, but a
/// fully present record with a DST flag byte other than 0 or 1 is reported
/// as `BadDstFlag` even when a later record is cut off.
#[verifier::loop_isolation(false)]
fn read_ltts(bytes: &Vec<u8>, pos: usize, n: usize) -> (r: Result<
    Vec<LocalTimeTypeRecord>,
    ParseError,
>)
    requires
        pos <= bytes@.len(),
    ensures
        (match r {
            Ok(v) => pos + 6 * n <= bytes@.len() && v@.len() == n && (forall|j: int|
                0 <= j < n ==> v@[j] == spec_ltt_at(bytes@, pos + 6 * j)) && (forall|j: int|
                0 <= j < n ==> !ltt_flag_bad(bytes@, pos as int, j)),
            Err(e) => (e == ParseError::UnexpectedEof ==> bytes@.len() < pos + 6 * n && (
            forall|j: int| 0 <= j < n ==> !ltt_flag_bad(bytes@, pos as int, j))) && (e
                != ParseError::UnexpectedEof ==> e == ParseError::InvalidFormat(
                FormatFault::BadDstFlag,
            ) && (exists|j: int| 0 <= j < n && #[trigger] ltt_flag_bad(bytes@, pos as int, j))),
        }),
{
    let len = bytes.len();
    let mut out: Vec<LocalTimeTypeRecord> = Vec::new();
    let mut i: usize = 0;
    let mut p: usize = pos;
    while i < n
        invariant
            i <= n,
            p as int == pos + 6 * i,
            p <= len,
            out@.len() == i,
            forall|j: int| 0 <= j < i ==> out@[j] == spec_ltt_at(bytes@, pos + 6 * j),
            forall|j: int| 0 <= j < i ==> !ltt_flag_bad(bytes@, pos as int, j),
        decreases n - i,
    {
        if len - p < 6 {
            proof {
                assert forall|j: int| 0 <= j < n implies !ltt_flag_bad(bytes@, pos as int, j) by {
                    if j >= i as int {
                        assert(pos + 6 * j + 6 > bytes@.len());
                    }
                }
            }
            return Err(ParseError::UnexpectedEof);
        }
        let off = read_i32(bytes, p);
        let dst = bytes[p + 4];
        if dst != 0 && dst != 1 {
            proof {
                assert(ltt_flag_bad(bytes@, pos as int, i as int));
            }
            return Err(ParseError::InvalidFormat(FormatFault::BadDstFlag));
        }
        let didx = bytes[p + 5];
        out.push(LocalTimeTypeRecord { ut_off_secs: off, is_dst: dst == 1, desig_idx: didx });
        p = p + 6;
        i = i + 1;
    }
    Ok(out)
}

/// Indicator byte `j` of a block at `base` is a valid boolean encoding.
pub open spec fn bool_byte_ok(s: Seq<u8>, base: int, j: int) -> bool {
    s[base + j] == 0 || s[base + j] == 1
}

/// `n` standard/wall indicator bytes starting at `pos` (1 is Standard, 0 is
/// Wall); any other byte value is rejected.
#[verifier::loop_isolation(false)]
fn read_std_flags(bytes: &Vec<u8>, pos: usize, n: usize) -> (r: Option<Vec<IsStd>>)
    requires
        pos + n <= bytes@.len(),
    ensures
        (match r {
            Some(v) => v@.len() == n && (forall|j: int|
                0 <= j < n ==> v@[j] == (if bytes@[pos + j] == 1 {
                    IsStd::Standard
                } else {
                    IsStd::Wall
                })) && (forall|j: int| 0 <= j < n ==> #[trigger] bool_byte_ok(
                bytes@,
                pos as int,
                j,
            )),
            None => exists|j: int| 0 <= j < n && !(#[trigger] bool_byte_ok(bytes@, pos as int, j)),
        }),
{
    let _len = bytes.len();
    let mut out: Vec<IsStd> = Vec::new();
    let mut i: usize = 0;
    while i < n
        invariant
            i <= n,
            out@.len() == i,
            forall|j: int|
                0 <= j < i ==> out@[j] == (if bytes@[pos + j] == 1 {
                    IsStd::Standard
                } else {
                    IsStd::Wall
                }),
            forall|j: int| 0 <= j < i ==> #[trigger] bool_byte_ok(bytes@, pos as int, j),
        decreases n - i,
    {
        let b = bytes[pos + i];
        if b == 0 {
            out.push(IsStd::Wall);
        } else if b == 1 {
            out.push(IsStd::Standard);
        } else {
            proof {
                assert(!bool_byte_ok(bytes@, pos as int, i as int));
            }
            return None;
        }
        i = i + 1;
    }
    Some(out)
}

/// `n` UT/local indicator bytes starting at `pos` (1 is UT, 0 is Local); any
/// other byte value is rejected.
#[verifier::loop_isolation(false)]
fn read_ut_flags(bytes: &Vec<u8>, pos: usize, n: usize) -> (r: Option<Vec<IsUT>>)
    requires
        pos + n <= bytes@.len(),
    ensures
        (match r {
            Some(v) => v@.len() == n && (forall|j: int|
                0 <= j < n ==> v@[j] == (if bytes@[pos + j] == 1 {
                    IsUT::UT
                } else {
                    IsUT::Local
                })) && (forall|j: int| 0 <= j < n ==> #[trigger] bool_byte_ok(
                bytes@,
                pos as int,
                j,
            )),
            None => exists|j: int| 0 <= j < n && !(#[trigger] bool_byte_ok(bytes@, pos as int, j)),
        }),
{
    let _len = bytes.len();
    let mut out: Vec<IsUT> = Vec::new();
    let mut i: usize = 0;
    while i < n
        invariant
            i <= n,
            out@.len() == i,
            forall|j: int|
                0 <= j < i ==> out@[j] == (if bytes@[pos + j] == 1 {
                    IsUT::UT
                } else {
                    IsUT::Local
                }),
            forall|j: int| 0 <= j < i ==> #[trigger] bool_byte_ok(bytes@, pos as int, j),
        decreases n - i,
    {
        let b = bytes[pos + i];
        if b == 0 {
            out.push(IsUT::Local);
        } else if b == 1 {
            out.push(IsUT::UT);
        } else {
            proof {
                assert(!bool_byte_ok(bytes@, pos as int, i as int));
            }
            return None;
        }
        i = i + 1;
    }
    Some(out)
}

/// `n` leap second records starting at `pos`: a stored time value followed by
/// a 32-bit correction.
#[verifier::loop_isolation(false)]
fn read_leaps(bytes: &Vec<u8>, pos: usize, n: usize, v1: bool) -> (r: Vec<(i64, i32)>)
    requires
        pos + n * (time_size(v1) + 4) <= bytes@.len(),
    ensures
        r@.len() == n,
        forall|j: int|
            0 <= j < n ==> r@[j] == spec_leap_at(bytes@, pos + j * (time_size(v1) + 4), v1),
{
    let _len = bytes.len();
    let tsize: usize = if v1 {
        4
    } else {
        8
    };
    let mut out: Vec<(i64, i32)> = Vec::new();
    let mut i: usize = 0;
    let mut p: usize = pos;
    while i < n
        invariant
            i <= n,
            p as int == pos + i * (time_size(v1) + 4),
            out@.len() == i,
            forall|j: int|
                0 <= j < i ==> out@[j] == spec_leap_at(bytes@, pos + j * (time_size(v1) + 4), v1),
        decreases n - i,
    {
        proof {
            assert((i + 1) * (time_size(v1) + 4) == i * (time_size(v1) + 4) + time_size(v1) + 4)
                by (nonlinear_arith);
            assert((i + 1) * (time_size(v1) + 4) <= n * (time_size(v1) + 4)) by (nonlinear_arith)
                requires
                    i < n,
                    time_size(v1) + 4 > 0,
            ;
        }
        let t = read_time(bytes, p, v1);
        let c = read_i32(bytes, p + tsize);
        out.push((t, c));
        p = p + tsize + 4;
        i = i + 1;
    }
    out
}

/// Index `i` pairs a wall-clock indicator with a UT indicator in the given
/// tables, with the absent-table defaults Wall and Local applied.
pub open spec fn pair_wall_ut(stds: Seq<IsStd>, uts: Seq<IsUT>, i: int) -> bool {
    (if 0 <= i < stds.len() {
        stds[i]
    } else {
        IsStd::Wall
    }) == IsStd::Wall && (if 0 <= i < uts.len() {
        uts[i]
    } else {
        IsUT::Local
    }) == IsUT::UT
}

/// Whether any index up to the longer of the two indicator tables pairs a
/// wall-clock indicator with a UT indicator.
#[verifier::loop_isolation(false)]
fn find_wall_ut(stds: &Vec<IsStd>, uts: &Vec<IsUT>) -> (r: bool)
    ensures
        r <==> exists|i: int|
            0 <= i && (i < stds@.len() || i < uts@.len()) && #[trigger] pair_wall_ut(
                stds@,
                uts@,
                i,
            ),
{
    let n_std = stds.len();
    let n_ut = uts.len();
    let n_max = if n_std > n_ut {
        n_std
    } else {
        n_ut
    };
    let mut i: usize = 0;
    while i < n_max
        invariant
            i <= n_max,
            forall|j: int| 0 <= j < i ==> !pair_wall_ut(stds@, uts@, j),
        decreases n_max - i,
    {
        let sflag = if i < n_std {
            stds[i]
        } else {
            IsStd::Wall
        };
        let uflag = if i < n_ut {
            uts[i]
        } else {
            IsUT::Local
        };
        let bad = match (sflag, uflag) {
            (IsStd::Wall, IsUT::UT) => true,
            _ => false,
        };
        if bad {
            proof {
                assert(pair_wall_ut(stds@, uts@, i as int));
            }
            return true;
        }
        i = i + 1;
    }
    false
}

/// Whether any byte of `types` is not strictly below `bound`.
#[verifier::loop_isolation(false)]
fn find_bad_type_index(types: &Vec<u8>, bound: usize) -> (r: bool)
    ensures
        r <==> exists|j: int| 0 <= j < types@.len() && (#[trigger] types@[j] as int) >= bound,
{
    let n = types.len();
    let mut i: usize = 0;
    while i < n
        invariant
            i <= n,
            forall|j: int| 0 <= j < i ==> (#[trigger] types@[j] as int) < bound,
        decreases n - i,
    {
        if types[i] as usize >= bound {
            return true;
        }
        i = i + 1;
    }
    false
}

impl TimeZoneInfo {
    /// Decode one body of the stream, starting at `start`, in the time-value
    /// width selected by `v1`. Returns the database together with the
    /// position one past the body, or the first failure in stream order.
    #[verifier::loop_isolation(false)]
    #[verifier::spinoff_prover]
    #[verifier::rlimit(100)]
    fn parse_internal(bytes: &Vec<u8>, start: usize, v1: bool) -> (r: Result<
        (TimeZoneInfo, usize),
        ParseError,
    >)
        requires
            start <= bytes@.len(),
        ensures
            (match r {
                Ok(p) => spec_decode(bytes@, start as int, v1) == Ok::<TzData, ParseError>(p.0@)
                    && p.1 == off_end(bytes@, start as int, v1) && start <= p.1 <= bytes@.len(),
                Err(e) => spec_decode(bytes@, start as int, v1) == Err::<TzData, ParseError>(e),
            }),
    {
        let ghost s = bytes@;
        let ghost p0 = start as int;
        let len = bytes.len();
        if len - start < 44 {
            return Err(ParseError::UnexpectedEof);
        }
        let isutcnt = read_u32(bytes, start + 20);
        let isstdcnt = read_u32(bytes, start + 24);
        let leapcnt = read_u32(bytes, start + 28);
        let timecnt = read_u32(bytes, start + 32);
        let typecnt = read_u32(bytes, start + 36);
        let charcnt = read_u32(bytes, start + 40);

        if !(bytes[start] == 0x54 && bytes[start + 1] == 0x5a && bytes[start + 2] == 0x69
            && bytes[start + 3] == 0x66) {
            return Err(ParseError::InvalidFormat(FormatFault::BadMagic));
        }
        if isstdcnt != 0 && isstdcnt != typecnt {
            return Err(ParseError::InvalidFormat(FormatFault::BadStdCount));
        }
        if isutcnt != 0 && isutcnt != typecnt {
            return Err(ParseError::InvalidFormat(FormatFault::BadUtCount));
        }
        let ver = bytes[start + 4];
        let version: u8 = if ver == 0 {
            1
        } else if ver == 0x32 {
            2
        } else if ver == 0x33 {
            3
        } else {
            return Err(ParseError::InvalidFormat(FormatFault::BadVersion));
        };

        let tsize: usize = if v1 {
            4
        } else {
            8
        };
        proof {
            assert(spec_timecnt(s, p0) * time_size(v1) >= 0) by (nonlinear_arith)
                requires
                    spec_timecnt(s, p0) >= 0,
                    time_size(v1) > 0,
            ;
            assert(spec_leapcnt(s, p0) * (time_size(v1) + 4) >= 0) by (nonlinear_arith)
                requires
                    spec_leapcnt(s, p0) >= 0,
                    time_size(v1) + 4 > 0,
            ;
        }
        let mut pos: usize = start + 44;

        // Transition times, then their type indices.
        proof {
            assert((timecnt as int) * (tsize as int) <= 0x100000000 * 8) by (nonlinear_arith)
                requires
                    0 <= (timecnt as int) && (timecnt as int) < 0x100000000,
                    0 <= (tsize as int) && tsize <= 8,
            ;
        }
        if (timecnt as u64) * (tsize as u64) + (timecnt as u64) > ((len - pos) as u64) {
            proof {
                assert(s.len() < off_ltt(s, p0, v1));
            }
            return Err(ParseError::UnexpectedEof);
        }
        assert(off_ltt(s, p0, v1) <= s.len());
        let n_time = timecnt as usize;
        let times = read_times(bytes, pos, n_time, v1);
        proof {
            assert(times@ =~= spec_times(s, p0, v1));
        }
        pos = pos + n_time * tsize;
        proof {
            assert(pos as int == off_types(s, p0, v1));
        }
        let types_v = read_raw(bytes, pos, n_time);
        proof {
            assert(types_v@ =~= spec_types(s, p0, v1));
        }
        pos = pos + n_time;
        proof {
            assert(pos as int == off_ltt(s, p0, v1));
        }

        // Local time type records.
        let n_type = typecnt as usize;
        let ltts = match read_ltts(bytes, pos, n_type) {
            Ok(v) => v,
            Err(e) => {
                proof {
                    if e == ParseError::UnexpectedEof {
                        assert forall|k: int|
                            0 <= k < spec_typecnt(s, p0) implies !dst_flag_bad_at(
                            s,
                            p0,
                            v1,
                            k,
                        ) by {
                            assert(!ltt_flag_bad(s, pos as int, k));
                        }
                        assert(s.len() < off_ut(s, p0, v1));
                    } else {
                        let j = choose|j: int|
                            0 <= j < n_type && #[trigger] ltt_flag_bad(s, pos as int, j);
                        assert(dst_flag_bad_at(s, p0, v1, j));
                    }
                }
                return Err(e);
            },
        };
        proof {
            assert(!dst_flag_fault(s, p0, v1)) by {
                assert forall|k: int|
                    0 <= k < spec_typecnt(s, p0) implies !dst_flag_bad_at(s, p0, v1, k) by {
                    assert(!ltt_flag_bad(s, pos as int, k));
                }
            }
            assert(ltts@ =~= spec_ltts(s, p0, v1));
        }
        pos = pos + 6 * n_type;
        proof {
            assert(pos as int == off_desig(s, p0, v1));
        }

        // Designation blob.
        if (charcnt as u64) > ((len - pos) as u64) {
            proof {
                assert(s.len() < off_ut(s, p0, v1));
            }
            return Err(ParseError::UnexpectedEof);
        }
        let n_char = charcnt as usize;
        let desig = read_raw(bytes, pos, n_char);
        proof {
            assert(desig@ =~= spec_desigs(s, p0, v1));
        }
        pos = pos + n_char;
        proof {
            assert(pos as int == off_leap(s, p0, v1));
        }

        // Leap second records.
        proof {
            assert((leapcnt as int) * ((tsize as int) + 4) <= 0x100000000 * 12)
                by (nonlinear_arith)
                requires
                    0 <= (leapcnt as int) && (leapcnt as int) < 0x100000000,
                    0 <= (tsize as int) + 4 && (tsize as int) + 4 <= 12,
            ;
        }
        if (leapcnt as u64) * ((tsize as u64) + 4) > ((len - pos) as u64) {
            proof {
                assert(s.len() < off_ut(s, p0, v1));
            }
            return Err(ParseError::UnexpectedEof);
        }
        let n_leap = leapcnt as usize;
        let leaps = read_leaps(bytes, pos, n_leap, v1);
        proof {
            assert(leaps@ =~= spec_leaps(s, p0, v1));
        }
        pos = pos + n_leap * (tsize + 4);
        proof {
            assert(pos as int == off_std(s, p0, v1));
        }

        // Standard/wall indicators: the whole block must be present before
        // its bytes are validated.
        if (isstdcnt as u64) > ((len - pos) as u64) {
            proof {
                assert(s.len() < off_ut(s, p0, v1));
            }
            return Err(ParseError::UnexpectedEof);
        }
        let n_std = isstdcnt as usize;
        let stds_v = match read_std_flags(bytes, pos, n_std) {
            Some(v) => v,
            None => {
                proof {
                    let j = choose|j: int|
                        0 <= j < n_std && !(#[trigger] bool_byte_ok(s, pos as int, j));
                    assert(std_byte_bad_at(s, p0, v1, j));
                }
                return Err(ParseError::InvalidFormat(FormatFault::BadStdWallByte));
            },
        };
        proof {
            assert(!std_byte_fault(s, p0, v1)) by {
                assert forall|k: int|
                    0 <= k < spec_isstdcnt(s, p0) implies !std_byte_bad_at(s, p0, v1, k) by {
                    assert(bool_byte_ok(s, pos as int, k));
                }
            }
            assert(stds_v@ =~= spec_stds(s, p0, v1));
        }
        pos = pos + n_std;
        proof {
            assert(pos as int == off_ut(s, p0, v1));
        }

        // UT/local indicators, likewise.
        if (isutcnt as u64) > ((len - pos) as u64) {
            proof {
                assert(s.len() < off_end(s, p0, v1));
            }
            return Err(ParseError::UnexpectedEof);
        }
        let n_ut = isutcnt as usize;
        let uts_v = match read_ut_flags(bytes, pos, n_ut) {
            Some(v) => v,
            None => {
                proof {
                    let j = choose|j: int|
                        0 <= j < n_ut && !(#[trigger] bool_byte_ok(s, pos as int, j));
                    assert(ut_byte_bad_at(s, p0, v1, j));
                }
                return Err(ParseError::InvalidFormat(FormatFault::BadUtLocalByte));
            },
        };
        proof {
            assert(!ut_byte_fault(s, p0, v1)) by {
                assert forall|k: int|
                    0 <= k < spec_isutcnt(s, p0) implies !ut_byte_bad_at(s, p0, v1, k) by {
                    assert(bool_byte_ok(s, pos as int, k));
                }
            }
            assert(uts_v@ =~= spec_uts(s, p0, v1));
        }
        pos = pos + n_ut;
        proof {
            assert(pos as int == off_end(s, p0, v1));
        }

        // A wall-clock indicator may not be paired with a UT indicator;
        // absent tables default to Wall and Local.
        let ghost decoded = spec_decoded(s, p0, v1);
        if find_wall_ut(&stds_v, &uts_v) {
            proof {
                let i = choose|i: int|
                    0 <= i && (i < stds_v@.len() || i < uts_v@.len()) && #[trigger] pair_wall_ut(
                        stds_v@,
                        uts_v@,
                        i,
                    );
                assert(wall_ut_bad_at(s, p0, v1, i));
            }
            return Err(ParseError::InvalidFormat(FormatFault::WallAndUt));
        }
        proof {
            assert(!wall_ut_fault(s, p0, v1)) by {
                assert forall|i: int|
                    0 <= i && (i < spec_isstdcnt(s, p0) || i < spec_isutcnt(
                        s,
                        p0,
                    )) implies !wall_ut_bad_at(s, p0, v1, i) by {
                    assert(!pair_wall_ut(stds_v@, uts_v@, i));
                }
            }
        }

        // Every transition type index must point at a local time type.
        if find_bad_type_index(&types_v, n_type) {
            proof {
                let j = choose|j: int|
                    0 <= j < types_v@.len() && (#[trigger] types_v@[j] as int) >= n_type;
                assert(spec_types(s, p0, v1)[j] as int >= spec_typecnt(s, p0));
            }
            return Err(ParseError::InvalidFormat(FormatFault::TypeIndexOutOfRange));
        }
        proof {
            assert(!type_range_fault(s, p0, v1)) by {
                assert forall|j: int|
                    0 <= j < spec_timecnt(s, p0) implies (spec_types(s, p0, v1)[j] as int)
                    < spec_typecnt(s, p0) by {
                    assert((types_v@[j] as int) < n_type);
                }
            }
        }

        let tz = TimeZoneInfo {
            version,
            transition_times: times,
            transition_types: types_v,
            local_time_types: ltts,
            time_zone_designations: desig,
            leap_second_records: leaps,
            is_std: stds_v,
            is_ut: uts_v,
        };
        proof {
            assert(tz@ =~= spec_decoded(s, p0, v1));
        }
        Ok((tz, pos))
    }

    /// Decode a TZif stream held in `bytes`.
    ///
    /// The v1-mode body at the start of the stream is decoded
    /// unconditionally; its failure is the caller's failure. For a version-2
    /// or -3 stream a second, modern-mode body is then attempted right after
    /// the first, and replaces it on success; if that attempt fails in any
    /// way, the first result stands.
    pub fn parse(bytes: &Vec<u8>) -> (r: Result<TimeZoneInfo, ParseError>)
        ensures
            (match r {
                Ok(tz) => spec_parse(bytes@) == Ok::<TzData, ParseError>(tz@) && tz@.wf(),
                Err(e) => spec_parse(bytes@) == Err::<TzData, ParseError>(e),
            }),
    {
        match Self::parse_internal(bytes, 0, true) {
            Err(e) => Err(e),
            Ok((first, end)) => {
                proof {
                    lemma_decode_wf(bytes@, 0, true);
                }
                if first.version == 1 {
                    Ok(first)
                } else {
                    match Self::parse_internal(bytes, end, false) {
                        Ok((second, _)) => {
                            proof {
                                lemma_decode_wf(bytes@, end as int, false);
                            }
                            Ok(second)
                        },
                        Err(_) => Ok(first),
                    }
                }
            },
        }
    }
}

/// Both multiplied block widths are nonnegative, so the block offsets are
/// nondecreasing in layout order.
proof fn lemma_offsets_ordered(s: Seq<u8>, pos: int, v1: bool)
    ensures
        pos <= off_times(pos) <= off_types(s, pos, v1) <= off_ltt(s, pos, v1) <= off_desig(
            s,
            pos,
            v1,
        ) <= off_leap(s, pos, v1) <= off_std(s, pos, v1) <= off_ut(s, pos, v1) <= off_end(
            s,
            pos,
            v1,
        ),
{
    assert(spec_timecnt(s, pos) * time_size(v1) >= 0) by (nonlinear_arith)
        requires
            spec_timecnt(s, pos) >= 0,
            time_size(v1) > 0,
    ;
    assert(spec_leapcnt(s, pos) * (time_size(v1) + 4) >= 0) by (nonlinear_arith)
        requires
            spec_leapcnt(s, pos) >= 0,
            time_size(v1) + 4 > 0,
    ;
}

/// Decoding reproduces the header's six counts as the lengths of the six
/// decoded sequences: re-deriving the counts from a successful decode gives
/// back exactly the values stored in the header bytes.
pub proof fn lemma_decode_counts(s: Seq<u8>, pos: int, v1: bool)
    requires
        0 <= pos,
        spec_decode(s, pos, v1) is Ok,
    ensures
        spec_decode(s, pos, v1)->Ok_0.transition_times.len() == spec_timecnt(s, pos),
        spec_decode(s, pos, v1)->Ok_0.transition_types.len() == spec_timecnt(s, pos),
        spec_decode(s, pos, v1)->Ok_0.local_time_types.len() == spec_typecnt(s, pos),
        spec_decode(s, pos, v1)->Ok_0.time_zone_designations.len() == spec_charcnt(s, pos),
        spec_decode(s, pos, v1)->Ok_0.leap_second_records.len() == spec_leapcnt(s, pos),
        spec_decode(s, pos, v1)->Ok_0.is_std.len() == spec_isstdcnt(s, pos),
        spec_decode(s, pos, v1)->Ok_0.is_ut.len() == spec_isutcnt(s, pos),
{
    lemma_offsets_ordered(s, pos, v1);
}

/// A header whose `isstdcnt` is neither 0 nor `typecnt` is always rejected
/// as invalid, whatever the rest of the stream holds.
pub proof fn lemma_bad_std_count_rejected(s: Seq<u8>, pos: int, v1: bool)
    requires
        0 <= pos,
        pos + 44 <= s.len(),
        spec_magic_ok(s, pos),
        spec_isstdcnt(s, pos) != 0,
        spec_isstdcnt(s, pos) != spec_typecnt(s, pos),
    ensures
        spec_decode(s, pos, v1) == Err::<TzData, ParseError>(
            ParseError::InvalidFormat(FormatFault::BadStdCount),
        ),
{
}

/// A header whose `isutcnt` is neither 0 nor `typecnt` is always rejected as
/// invalid, whatever the rest of the stream holds.
pub proof fn lemma_bad_ut_count_rejected(s: Seq<u8>, pos: int, v1: bool)
    requires
        0 <= pos,
        pos + 44 <= s.len(),
        spec_magic_ok(s, pos),
        spec_isstdcnt(s, pos) == 0 || spec_isstdcnt(s, pos) == spec_typecnt(s, pos),
        spec_isutcnt(s, pos) != 0,
        spec_isutcnt(s, pos) != spec_typecnt(s, pos),
    ensures
        spec_decode(s, pos, v1) == Err::<TzData, ParseError>(
            ParseError::InvalidFormat(FormatFault::BadUtCount),
        ),
{
}

/// A complete body with a transition type index out of range, and no earlier
/// fault, is always rejected as invalid rather than decoded.
pub proof fn lemma_type_range_rejected(s: Seq<u8>, pos: int, v1: bool)
    requires
        0 <= pos,
        spec_magic_ok(s, pos),
        spec_isstdcnt(s, pos) == 0 || spec_isstdcnt(s, pos) == spec_typecnt(s, pos),
        spec_isutcnt(s, pos) == 0 || spec_isutcnt(s, pos) == spec_typecnt(s, pos),
        spec_version_ok(s[pos + 4]),
        off_end(s, pos, v1) <= s.len(),
        !dst_flag_fault(s, pos, v1),
        !std_byte_fault(s, pos, v1),
        !ut_byte_fault(s, pos, v1),
        !wall_ut_fault(s, pos, v1),
        type_range_fault(s, pos, v1),
    ensures
        spec_decode(s, pos, v1) == Err::<TzData, ParseError>(
            ParseError::InvalidFormat(FormatFault::TypeIndexOutOfRange),
        ),
{
    lemma_offsets_ordered(s, pos, v1);
}

/// A complete body in which some type pairs a wall-clock indicator with a UT
/// indicator, and with no earlier fault, is always rejected as invalid.
pub proof fn lemma_wall_ut_rejected(s: Seq<u8>, pos: int, v1: bool)
    requires
        0 <= pos,
        spec_magic_ok(s, pos),
        spec_isstdcnt(s, pos) == 0 || spec_isstdcnt(s, pos) == spec_typecnt(s, pos),
        spec_isutcnt(s, pos) == 0 || spec_isutcnt(s, pos) == spec_typecnt(s, pos),
        spec_version_ok(s[pos + 4]),
        off_end(s, pos, v1) <= s.len(),
        !dst_flag_fault(s, pos, v1),
        !std_byte_fault(s, pos, v1),
        !ut_byte_fault(s, pos, v1),
        wall_ut_fault(s, pos, v1),
    ensures
        spec_decode(s, pos, v1) == Err::<TzData, ParseError>(
            ParseError::InvalidFormat(FormatFault::WallAndUt),
        ),
{
    lemma_offsets_ordered(s, pos, v1);
}

/// A body that decodes successfully is read from its own bytes alone:
/// appending anything after it changes neither the outcome nor the decoded
/// database.
#[verifier::rlimit(100)]
#[verifier::spinoff_prover]
pub proof fn lemma_decode_ignores_trailing(s: Seq<u8>, extra: Seq<u8>, pos: int, v1: bool)
    requires
        0 <= pos,
        spec_decode(s, pos, v1) is Ok,
    ensures
        spec_decode(s + extra, pos, v1) == spec_decode(s, pos, v1),
{
    let t = s + extra;
    lemma_offsets_ordered(s, pos, v1);
    assert(s.len() >= off_end(s, pos, v1));
    assert forall|k: int| 0 <= k < s.len() implies t[k] == s[k] by {}
    assert(spec_isutcnt(t, pos) == spec_isutcnt(s, pos));
    assert(spec_isstdcnt(t, pos) == spec_isstdcnt(s, pos));
    assert(spec_leapcnt(t, pos) == spec_leapcnt(s, pos));
    assert(spec_timecnt(t, pos) == spec_timecnt(s, pos));
    assert(spec_typecnt(t, pos) == spec_typecnt(s, pos));
    assert(spec_charcnt(t, pos) == spec_charcnt(s, pos));
    assert(off_end(t, pos, v1) == off_end(s, pos, v1));
    assert(spec_magic_ok(t, pos) == spec_magic_ok(s, pos));
    assert(t[pos + 4] == s[pos + 4]);

    assert(spec_times(t, pos, v1) =~= spec_times(s, pos, v1)) by {
        assert forall|i: int|
            0 <= i < spec_timecnt(s, pos) implies #[trigger] spec_times(t, pos, v1)[i]
            == spec_times(s, pos, v1)[i] by {
            assert(i * time_size(v1) >= 0 && i * time_size(v1) + time_size(v1) <= spec_timecnt(
                s,
                pos,
            ) * time_size(v1)) by (nonlinear_arith)
                requires
                    0 <= i < spec_timecnt(s, pos),
                    time_size(v1) > 0,
            ;
        }
    }
    assert(spec_types(t, pos, v1) =~= spec_types(s, pos, v1));
    assert(spec_ltts(t, pos, v1) =~= spec_ltts(s, pos, v1));
    assert(spec_desigs(t, pos, v1) =~= spec_desigs(s, pos, v1));
    assert(spec_leaps(t, pos, v1) =~= spec_leaps(s, pos, v1)) by {
        assert forall|i: int|
            0 <= i < spec_leapcnt(s, pos) implies #[trigger] spec_leaps(t, pos, v1)[i]
            == spec_leaps(s, pos, v1)[i] by {
            assert(i * (time_size(v1) + 4) >= 0 && i * (time_size(v1) + 4) + time_size(v1) + 4
                <= spec_leapcnt(s, pos) * (time_size(v1) + 4)) by (nonlinear_arith)
                requires
                    0 <= i < spec_leapcnt(s, pos),
                    time_size(v1) + 4 > 0,
            ;
        }
    }
    assert(spec_stds(t, pos, v1) =~= spec_stds(s, pos, v1));
    assert(spec_uts(t, pos, v1) =~= spec_uts(s, pos, v1));
    assert(spec_decoded(t, pos, v1) =~= spec_decoded(s, pos, v1));

    assert(!dst_flag_fault(t, pos, v1)) by {
        assert forall|i: int|
            0 <= i < spec_typecnt(t, pos) implies !dst_flag_bad_at(t, pos, v1, i) by {
            assert(!dst_flag_bad_at(s, pos, v1, i));
            assert(off_ltt(s, pos, v1) + 6 * i + 6 <= s.len());
            assert(t[off_ltt(s, pos, v1) + 6 * i + 4] == s[off_ltt(s, pos, v1) + 6 * i + 4]);
        }
    }
    assert(!std_byte_fault(t, pos, v1)) by {
        assert forall|i: int|
            0 <= i < spec_isstdcnt(t, pos) implies !std_byte_bad_at(t, pos, v1, i) by {
            assert(!std_byte_bad_at(s, pos, v1, i));
            assert(t[off_std(s, pos, v1) + i] == s[off_std(s, pos, v1) + i]);
        }
    }
    assert(!ut_byte_fault(t, pos, v1)) by {
        assert forall|i: int|
            0 <= i < spec_isutcnt(t, pos) implies !ut_byte_bad_at(t, pos, v1, i) by {
            assert(!ut_byte_bad_at(s, pos, v1, i));
            assert(t[off_ut(s, pos, v1) + i] == s[off_ut(s, pos, v1) + i]);
        }
    }
    assert(!wall_ut_fault(t, pos, v1)) by {
        assert forall|i: int|
            0 <= i && (i < spec_isstdcnt(t, pos) || i < spec_isutcnt(t, pos)) implies !wall_ut_bad_at(
            t,
            pos,
            v1,
            i,
        ) by {
            assert(!wall_ut_bad_at(s, pos, v1, i));
        }
    }
    assert(!type_range_fault(t, pos, v1)) by {
        assert forall|i: int|
            0 <= i < spec_timecnt(t, pos) implies !(spec_types(t, pos, v1)[i] as int
            >= spec_typecnt(t, pos)) by {
            assert(!(spec_types(s, pos, v1)[i] as int >= spec_typecnt(s, pos)));
        }
    }
    assert(spec_decode(t, pos, v1) == Ok::<TzData, ParseError>(spec_decoded(t, pos, v1)));
}

/// Trailing bytes after a complete version-1 stream are ignored: the parse
/// of the extended stream equals the parse of the unextended one, and no
/// second body is consulted.
pub proof fn lemma_parse_v1_ignores_trailing(s: Seq<u8>, extra: Seq<u8>)
    requires
        spec_decode(s, 0, true) is Ok,
        spec_decode(s, 0, true)->Ok_0.version == 1,
    ensures
        spec_parse(s) == spec_decode(s, 0, true),
        spec_parse(s + extra) == spec_parse(s),
{
    lemma_decode_ignores_trailing(s, extra, 0, true);
}

/// When the first body of a version-2 or -3 stream decodes but the second,
/// modern-mode body fails — cut short, corrupted, or absent — the parse
/// falls back to the first body's database instead of failing.
pub proof fn lemma_parse_second_block_fallback(s: Seq<u8>)
    requires
        spec_decode(s, 0, true) is Ok,
        spec_decode(s, 0, true)->Ok_0.version != 1,
        spec_decode(s, off_end(s, 0, true), false) is Err,
    ensures
        spec_parse(s) == Ok::<TzData, ParseError>(spec_decode(s, 0, true)->Ok_0),
{
}

/// A database a body decode succeeds on satisfies the structural invariants:
/// the two index sequences have equal length, each indicator table is empty
/// or one entry per type, every transition type index is in range, and no
/// type pairs a wall-clock indicator with a UT indicator.
pub proof fn lemma_decode_wf(s: Seq<u8>, pos: int, v1: bool)
    requires
        0 <= pos,
        spec_decode(s, pos, v1) is Ok,
    ensures
        spec_decode(s, pos, v1)->Ok_0.wf(),
{
    let d = spec_decode(s, pos, v1)->Ok_0;
    assert(d == spec_decoded(s, pos, v1));
    assert forall|i: int|
        0 <= i < d.transition_types.len() implies (d.transition_types[i] as int)
        < d.local_time_types.len() by {
        assert(!type_range_fault(s, pos, v1));
        assert(!(spec_types(s, pos, v1)[i] as int >= spec_typecnt(s, pos)));
    }
    assert forall|i: int|
        0 <= i < d.local_time_types.len() implies !(std_flag_of(d, i) == IsStd::Wall && ut_flag_of(
        d,
        i,
    ) == IsUT::UT) by {
        if i < spec_isstdcnt(s, pos) || i < spec_isutcnt(s, pos) {
            assert(!wall_ut_fault(s, pos, v1));
            assert(!wall_ut_bad_at(s, pos, v1, i));
        } else {
            assert(ut_flag_of(d, i) == IsUT::Local);
        }
    }
}

} // verus!
