//! Decoder for the Time Zone Information Format (TZif, RFC 8536).
//!
//! `parse` turns a raw TZif byte stream into a [`TimeZoneInfo`] database;
//! `iter_transitions` walks its transitions, and [`Time::to_ut`] resolves a
//! tagged transition instant to UTC seconds.

pub mod bytes;
pub mod decode;
pub mod types;
pub mod walk;

pub use decode::Header;
pub use types::{
    FormatFault, IsStd, IsUT, LocalTimeType, LocalTimeTypeRecord, LocalTimeTypeView, ParseError,
    Time, TimeTransition, TimeTransitionView, TimeZoneInfo, TzData,
};
pub use walk::TransitionIterator;
