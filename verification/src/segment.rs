use vstd::prelude::*;

use crate::text::str_equals;

verus! {

/// The customer segment that an NPS entry belongs to.
#[derive(Debug, Clone, Copy, PartialEq, Eq, Structural)]
pub enum Segment {
    User,
    Studio,
    Professional,
}

/// The segment that a segment name stands for; any other text falls back to `User`.
pub open spec fn segment_from_name(name: Seq<char>) -> Segment {
    if name == "User"@ {
        Segment::User
    } else if name == "Studio"@ {
        Segment::Studio
    } else if name == "Professional"@ {
        Segment::Professional
    } else {
        Segment::User
    }
}

/// The exact segment names that the API accepts.
pub open spec fn is_segment_name(name: Seq<char>) -> bool {
    name == "User"@ || name == "Studio"@ || name == "Professional"@
}

impl Segment {
    /// The canonical name of the segment, as stored and as accepted by the API.
    pub open spec fn spec_name(self) -> Seq<char> {
        match self {
            Segment::User => "User"@,
            Segment::Studio => "Studio"@,
            Segment::Professional => "Professional"@,
        }
    }

    /// Reads a segment name; unknown names fall back to `User`.
    pub fn from_name(segment: &str) -> (r: Segment)
        ensures
            r == segment_from_name(segment@),
    {
        if str_equals(segment, "User") {
            Segment::User
        } else if str_equals(segment, "Studio") {
            Segment::Studio
        } else if str_equals(segment, "Professional") {
            Segment::Professional
        } else {
            Segment::User
        }
    }

    /// The canonical name of the segment.
    pub fn as_str(&self) -> (r: &'static str)
        ensures
            r@ == self.spec_name(),
    {
        match self {
            Segment::User => "User",
            Segment::Studio => "Studio",
            Segment::Professional => "Professional",
        }
    }
}

impl From<String> for Segment {
    fn from(segment: String) -> (r: Segment) {
        Segment::from_name(segment.as_str())
    }
}

impl vstd::std_specs::convert::FromSpecImpl<String> for Segment {
    open spec fn obeys_from_spec() -> bool {
        true
    }

    open spec fn from_spec(v: String) -> Segment {
        segment_from_name(v@)
    }
}

impl Default for Segment {
    fn default() -> (r: Segment)
        ensures
            r == Segment::User,
    {
        Segment::User
    }
}

/// Reading the name of a segment gives that segment back.
pub proof fn lemma_segment_name_round_trip(s: Segment)
    ensures
        segment_from_name(s.spec_name()) == s,
        is_segment_name(s.spec_name()),
{
    lemma_segment_names_distinct();
}

/// The three names differ from one another.
proof fn lemma_segment_names_distinct()
    ensures
        "User"@ != "Studio"@,
        "User"@ != "Professional"@,
        "Studio"@ != "Professional"@,
{
    reveal_strlit("User");
    reveal_strlit("Studio");
    reveal_strlit("Professional");
    assert("User"@[0] != "Studio"@[0]);
    assert("User"@[0] != "Professional"@[0]);
    assert("Studio"@[0] != "Professional"@[0]);
}

/// A text is one of the accepted names exactly when reading it and naming the
/// result gives the same text back.
pub proof fn lemma_segment_name_exact(name: Seq<char>)
    ensures
        is_segment_name(name) <==> segment_from_name(name).spec_name() == name,
{
    lemma_segment_names_distinct();
}

} // verus!
