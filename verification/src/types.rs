//! The timezone database data model, its mathematical view, and the tagged
//! time representation with its UTC conversion.

use vstd::prelude::*;

verus! {

/// Standard/wall indicator attached to a local time type.
#[derive(Debug, PartialEq, Eq, Clone, Copy, Structural)]
pub enum IsStd {
    Standard,
    Wall,
}

/// UT/local indicator attached to a local time type.
#[derive(Debug, PartialEq, Eq, Clone, Copy, Structural)]
pub enum IsUT {
    UT,
    Local,
}

/// One local-time-type record as stored in the file: a UTC offset in seconds,
/// a DST flag, and an index into the designation blob.
#[derive(Debug, PartialEq, Eq, Clone, Copy, Structural)]
pub struct LocalTimeTypeRecord {
    pub ut_off_secs: i32,
    pub is_dst: bool,
    pub desig_idx: u8,
}

/// The format violation behind an `InvalidFormat` rejection.
#[derive(Debug, PartialEq, Eq, Clone, Copy, Structural)]
pub enum FormatFault {
    /// The four magic bytes are not `"TZif"`.
    BadMagic,
    /// The version byte is none of 0, `'2'`, `'3'`.
    BadVersion,
    /// `isstdcnt` is neither 0 nor `typecnt`.
    BadStdCount,
    /// `isutcnt` is neither 0 nor `typecnt`.
    BadUtCount,
    /// A local-time-type DST flag byte is neither 0 nor 1.
    BadDstFlag,
    /// A standard/wall indicator byte is neither 0 nor 1.
    BadStdWallByte,
    /// A UT/local indicator byte is neither 0 nor 1.
    BadUtLocalByte,
    /// Some type pairs a wall-clock indicator with a UT indicator.
    WallAndUt,
    /// Some transition type index is not below `typecnt`.
    TypeIndexOutOfRange,
}

/// Why a decode failed: the stream ended early, or the bytes violate the format.
#[derive(Debug, PartialEq, Eq, Clone, Copy, Structural)]
pub enum ParseError {
    UnexpectedEof,
    InvalidFormat(FormatFault),
}

/// The decoded timezone database. Built once by `parse`, read-only afterward.
#[derive(Debug)]
pub struct TimeZoneInfo {
    pub version: u8,
    pub transition_times: Vec<i64>,
    pub transition_types: Vec<u8>,
    pub local_time_types: Vec<LocalTimeTypeRecord>,
    pub time_zone_designations: Vec<u8>,
    pub leap_second_records: Vec<(i64, i32)>,
    pub is_std: Vec<IsStd>,
    pub is_ut: Vec<IsUT>,
}

/// The mathematical content of a [`TimeZoneInfo`].
#[verifier::ext_equal]
pub ghost struct TzData {
    pub version: u8,
    pub transition_times: Seq<i64>,
    pub transition_types: Seq<u8>,
    pub local_time_types: Seq<LocalTimeTypeRecord>,
    pub time_zone_designations: Seq<u8>,
    pub leap_second_records: Seq<(i64, i32)>,
    pub is_std: Seq<IsStd>,
    pub is_ut: Seq<IsUT>,
}

impl View for TimeZoneInfo {
    type V = TzData;

    open spec fn view(&self) -> TzData {
        TzData {
            version: self.version,
            transition_times: self.transition_times@,
            transition_types: self.transition_types@,
            local_time_types: self.local_time_types@,
            time_zone_designations: self.time_zone_designations@,
            leap_second_records: self.leap_second_records@,
            is_std: self.is_std@,
            is_ut: self.is_ut@,
        }
    }
}

/// The standard/wall indicator in force for type `i`: the stored one, or Wall
/// where the indicator table is absent.
pub open spec fn std_flag_of(d: TzData, i: int) -> IsStd {
    if 0 <= i < d.is_std.len() {
        d.is_std[i]
    } else {
        IsStd::Wall
    }
}

/// The UT/local indicator in force for type `i`: the stored one, or Local
/// where the indicator table is absent.
pub open spec fn ut_flag_of(d: TzData, i: int) -> IsUT {
    if 0 <= i < d.is_ut.len() {
        d.is_ut[i]
    } else {
        IsUT::Local
    }
}

impl TzData {
    /// Structural invariants every database returned by `parse` satisfies.
    pub open spec fn wf(self) -> bool {
        &&& self.transition_types.len() == self.transition_times.len()
        &&& self.is_std.len() == 0 || self.is_std.len() == self.local_time_types.len()
        &&& self.is_ut.len() == 0 || self.is_ut.len() == self.local_time_types.len()
        &&& forall|i: int|
            0 <= i < self.transition_types.len() ==> (self.transition_types[i] as int)
                < self.local_time_types.len()
        &&& forall|i: int|
            0 <= i < self.local_time_types.len() ==> !(std_flag_of(self, i) == IsStd::Wall
                && ut_flag_of(self, i) == IsUT::UT)
    }
}

impl TimeZoneInfo {
    /// Structural invariants of the database, stated over its view.
    pub open spec fn wf(&self) -> bool {
        self@.wf()
    }
}

/// A local time type resolved for one transition: its designation bytes
/// (copied out of the blob, NUL-free), offset, and DST flag.
#[derive(Debug)]
pub struct LocalTimeType {
    pub desig: Vec<u8>,
    pub ut_offset_secs: i32,
    pub is_dst: bool,
}

/// Mathematical content of a [`LocalTimeType`].
#[verifier::ext_equal]
pub ghost struct LocalTimeTypeView {
    pub desig: Seq<u8>,
    pub ut_offset_secs: i32,
    pub is_dst: bool,
}

impl View for LocalTimeType {
    type V = LocalTimeTypeView;

    open spec fn view(&self) -> LocalTimeTypeView {
        LocalTimeTypeView {
            desig: self.desig@,
            ut_offset_secs: self.ut_offset_secs,
            is_dst: self.is_dst,
        }
    }
}

/// A raw transition instant tagged with how it is to be interpreted.
#[derive(Debug, PartialEq, Eq, Clone, Copy, Structural)]
pub enum Time {
    LocalWall(i64),
    LocalStandard(i64),
    UT(i64),
}

/// One resolved transition: the tagged instant and the rule in force after it.
#[derive(Debug)]
pub struct TimeTransition {
    pub at_time: Time,
    pub local: LocalTimeType,
}

/// Mathematical content of a [`TimeTransition`].
#[verifier::ext_equal]
pub ghost struct TimeTransitionView {
    pub at_time: Time,
    pub local: LocalTimeTypeView,
}

impl View for TimeTransition {
    type V = TimeTransitionView;

    open spec fn view(&self) -> TimeTransitionView {
        TimeTransitionView { at_time: self.at_time, local: self.local@ }
    }
}

impl Time {
    /// The UTC instant this tagged time denotes under the given offset and DST
    /// flag, as an unbounded integer: `t` itself for UT, `t + offset` for local
    /// standard time, and `t + offset` plus a flat hour for wall-clock time
    /// under DST.
    pub open spec fn spec_to_ut(self, offset: i32, is_dst: bool) -> int {
        match self {
            Time::UT(t) => t as int,
            Time::LocalStandard(t) => t + offset,
            Time::LocalWall(t) => t + offset + if is_dst {
                3600int
            } else {
                0int
            },
        }
    }

    /// Resolve this tagged instant to UTC seconds using the paired rule.
    pub fn to_ut(&self, local: &LocalTimeType) -> (r: i64)
        requires
            (self matches Time::LocalStandard(t) ==> i64::MIN <= t + local.ut_offset_secs
                <= i64::MAX),
            (self matches Time::LocalWall(t) ==> i64::MIN <= t + local.ut_offset_secs <= i64::MAX
                && i64::MIN <= self.spec_to_ut(local.ut_offset_secs, local.is_dst) <= i64::MAX),
        ensures
            r == self.spec_to_ut(local.ut_offset_secs, local.is_dst),
    {
        match self {
            Time::UT(t) => *t,
            Time::LocalStandard(t) => *t + (local.ut_offset_secs as i64),
            Time::LocalWall(t) => *t + (local.ut_offset_secs as i64) + if local.is_dst {
                3600
            } else {
                0
            },
        }
    }
}

} // verus!
