//! Walking a decoded database: designation lookup and the transition
//! iterator that resolves each raw instant to a tagged [`Time`].

use vstd::prelude::*;

use crate::types::{
    std_flag_of, ut_flag_of, IsStd, IsUT, LocalTimeType, LocalTimeTypeView, Time, TimeTransition,
    TimeTransitionView, TimeZoneInfo, TzData,
};

verus! {

/// The position of the first NUL byte of `blob` at or after `j`, or the end
/// of the blob if there is none.
pub open spec fn spec_nul_end(blob: Seq<u8>, j: int) -> int
    recommends
        0 <= j,
    decreases blob.len() - j,
{
    if j < 0 || j >= blob.len() {
        blob.len() as int
    } else if blob[j] == 0 {
        j
    } else {
        spec_nul_end(blob, j + 1)
    }
}

/// The designation starting at index `j` of the blob: the bytes from `j` up
/// to (and excluding) the next NUL byte, or up to the end of the blob if no
/// NUL follows. An index at or past the end of the blob yields the empty
/// designation.
pub open spec fn spec_desig_at(blob: Seq<u8>, j: int) -> Seq<u8> {
    if 0 <= j <= blob.len() {
        blob.subrange(j, spec_nul_end(blob, j))
    } else {
        Seq::empty()
    }
}

/// The bytes a designation lookup returns are exactly those between the
/// start index and the next NUL: the cut-off point is in range, no byte
/// before it is NUL, and it is either the end of the blob or a NUL byte.
pub proof fn lemma_nul_end(blob: Seq<u8>, j: int)
    requires
        0 <= j <= blob.len(),
    ensures
        j <= spec_nul_end(blob, j) <= blob.len(),
        forall|k: int| j <= k < spec_nul_end(blob, j) ==> blob[k] != 0,
        spec_nul_end(blob, j) < blob.len() ==> blob[spec_nul_end(blob, j)] == 0,
    decreases blob.len() - j,
{
    if j < blob.len() && blob[j] != 0 {
        lemma_nul_end(blob, j + 1);
    }
}

/// A scan that stopped at `k` — every byte from `j` up to `k` non-NUL, and
/// `k` itself the end of the blob or a NUL — stopped exactly at the NUL cut
/// point.
proof fn lemma_nul_end_reach(blob: Seq<u8>, j: int, k: int)
    requires
        0 <= j <= k <= blob.len(),
        forall|m: int| j <= m < k ==> blob[m] != 0,
        k == blob.len() || blob[k] == 0,
    ensures
        spec_nul_end(blob, j) == k,
    decreases k - j,
{
    if j < k {
        lemma_nul_end_reach(blob, j + 1, k);
    }
}

/// The resolved form of local time type `i` of the database: its designation
/// bytes looked up in the blob, with its offset and DST flag.
pub open spec fn spec_local_type(d: TzData, i: int) -> LocalTimeTypeView {
    LocalTimeTypeView {
        desig: spec_desig_at(d.time_zone_designations, d.local_time_types[i].desig_idx as int),
        ut_offset_secs: d.local_time_types[i].ut_off_secs,
        is_dst: d.local_time_types[i].is_dst,
    }
}

/// The tagged time a transition instant carries, selected by the pair of
/// indicators of its type: (Standard, UT) is already universal time,
/// (Standard, Local) is a local standard reading, (Wall, Local) a wall-clock
/// reading. The (Wall, UT) pairing is rejected at parse time and never
/// reaches this selection; its value here is immaterial.
pub open spec fn spec_time_tag(std: IsStd, ut: IsUT, t: i64) -> Time {
    match (std, ut) {
        (IsStd::Standard, IsUT::UT) => Time::UT(t),
        (IsStd::Standard, IsUT::Local) => Time::LocalStandard(t),
        (IsStd::Wall, IsUT::Local) => Time::LocalWall(t),
        (IsStd::Wall, IsUT::UT) => Time::LocalWall(t),
    }
}

/// Transition `i` of the database, fully resolved.
pub open spec fn spec_transition(d: TzData, i: int) -> TimeTransitionView {
    TimeTransitionView {
        at_time: spec_time_tag(
            std_flag_of(d, d.transition_types[i] as int),
            ut_flag_of(d, d.transition_types[i] as int),
            d.transition_times[i],
        ),
        local: spec_local_type(d, d.transition_types[i] as int),
    }
}

impl TimeZoneInfo {
    /// Resolve local time type `idx`: copy its designation out of the blob,
    /// from the type's stored index up to the next NUL byte or the end of
    /// the blob, and pair it with the type's offset and DST flag.
    #[verifier::loop_isolation(false)]
    pub fn local_time_type(&self, idx: usize) -> (r: LocalTimeType)
        requires
            idx < self@.local_time_types.len(),
        ensures
            r@ == spec_local_type(self@, idx as int),
    {
        let typ = self.local_time_types[idx];
        let blob_len = self.time_zone_designations.len();
        let dstart = typ.desig_idx as usize;
        let mut desig: Vec<u8> = Vec::new();
        if dstart >= blob_len {
            proof {
                assert(spec_desig_at(self@.time_zone_designations, dstart as int) =~= desig@);
            }
        } else {
            let mut k = dstart;
            while k < blob_len && self.time_zone_designations[k] != 0
                invariant
                    dstart <= k <= blob_len,
                    desig@ == self@.time_zone_designations.subrange(dstart as int, k as int),
                    forall|m: int| dstart <= m < k ==> self@.time_zone_designations[m] != 0,
                decreases blob_len - k,
            {
                let b = self.time_zone_designations[k];
                desig.push(b);
                proof {
                    assert(desig@ =~= self@.time_zone_designations.subrange(
                        dstart as int,
                        k + 1,
                    ));
                }
                k = k + 1;
            }
            proof {
                lemma_nul_end_reach(self@.time_zone_designations, dstart as int, k as int);
            }
        }
        LocalTimeType { desig, ut_offset_secs: typ.ut_off_secs, is_dst: typ.is_dst }
    }

    /// Begin a fresh traversal of the database's transitions.
    pub fn iter_transitions(&self) -> (it: TransitionIterator<'_>)
        ensures
            it.db() == self@,
            it.pos() == 0,
    {
        TransitionIterator { tzif: self, idx: 0 }
    }
}

/// A forward-only, restartable walk over the transitions of one database,
/// holding a read-only reference to it.
pub struct TransitionIterator<'a> {
    tzif: &'a TimeZoneInfo,
    idx: usize,
}

impl<'a> TransitionIterator<'a> {
    /// The database being walked.
    pub closed spec fn db(&self) -> TzData {
        self.tzif@
    }

    /// The index of the next transition to yield.
    pub closed spec fn pos(&self) -> int {
        self.idx as int
    }

    /// Yield the next transition, or `None` once every stored transition has
    /// been produced. The yielded pair is transition `pos()` of the
    /// database, resolved per `spec_transition`.
    pub fn next(&mut self) -> (r: Option<TimeTransition>)
        requires
            old(self).db().wf(),
        ensures
            final(self).db() == old(self).db(),
            old(self).pos() >= old(self).db().transition_times.len() ==> r is None
                && final(self).pos() == old(self).pos(),
            old(self).pos() < old(self).db().transition_times.len() ==> final(self).pos()
                == old(self).pos() + 1 && (r matches Some(t) && t@ == spec_transition(
                old(self).db(),
                old(self).pos(),
            )),
    {
        if self.idx >= self.tzif.transition_times.len() {
            return None;
        }
        let at_ts = self.tzif.transition_times[self.idx];
        let typ_idx = self.tzif.transition_types[self.idx] as usize;
        let local = self.tzif.local_time_type(typ_idx);
        let sflag = if typ_idx < self.tzif.is_std.len() {
            self.tzif.is_std[typ_idx]
        } else {
            IsStd::Wall
        };
        let uflag = if typ_idx < self.tzif.is_ut.len() {
            self.tzif.is_ut[typ_idx]
        } else {
            IsUT::Local
        };
        proof {
            assert(sflag == std_flag_of(self.db(), typ_idx as int));
            assert(uflag == ut_flag_of(self.db(), typ_idx as int));
        }
        let at_time = match (sflag, uflag) {
            (IsStd::Standard, IsUT::UT) => Time::UT(at_ts),
            (IsStd::Standard, IsUT::Local) => Time::LocalStandard(at_ts),
            (IsStd::Wall, IsUT::Local) => Time::LocalWall(at_ts),
            (IsStd::Wall, IsUT::UT) => {
                proof {
                    assert(false);
                }
                Time::LocalWall(at_ts)
            },
        };
        self.idx = self.idx + 1;
        Some(TimeTransition { at_time, local })
    }
}

} // verus!
