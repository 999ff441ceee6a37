use vstd::prelude::*;

use crate::clock::utc_now_millis;
use crate::payloads::{NpsCreatePayload, ObjectIdBytes};
use crate::segment::{segment_from_name, Segment};

verus! {

/// A stored answer. Timestamps are milliseconds since the Unix epoch.
#[derive(Debug, Clone, PartialEq, Eq)]
pub struct NpsEntry {
    pub id: Option<ObjectIdBytes>,
    pub user: ObjectIdBytes,
    pub segment: Segment,
    pub score: i32,
    pub comment: Option<String>,
    pub dismissed: Option<bool>,
    pub created_at_ms: i64,
    pub updated_at_ms: i64,
}

impl NpsEntry {
    /// `self` is the entry made from a new answer: no id yet, not dismissed,
    /// the segment read from its name.
    pub open spec fn made_from(self, payload: NpsCreatePayload) -> bool {
        &&& self.id is None
        &&& self.user == payload.user
        &&& self.segment == segment_from_name(payload.segment@)
        &&& self.score == payload.score
        &&& self.comment == payload.comment
        &&& self.dismissed is None
        &&& self.created_at_ms == self.updated_at_ms
    }

    /// The entry for a new answer, created and updated at `now_ms`.
    pub fn from_payload_at(entry: NpsCreatePayload, now_ms: i64) -> (r: NpsEntry)
        ensures
            r.made_from(entry),
            r.created_at_ms == now_ms,
    {
        let segment = Segment::from_name(entry.segment.as_str());
        NpsEntry {
            id: None,
            user: entry.user,
            segment,
            score: entry.score,
            comment: entry.comment,
            dismissed: None,
            created_at_ms: now_ms,
            updated_at_ms: now_ms,
        }
    }

    /// The entry for a new answer, created and updated now.
    pub fn from(entry: NpsCreatePayload) -> (r: NpsEntry)
        ensures
            r.made_from(entry),
    {
        let now_ms = utc_now_millis();
        NpsEntry::from_payload_at(entry, now_ms)
    }
}

} // verus!
