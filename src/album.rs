//! The kind of content of an album, disc or track.
use vstd::prelude::*;

verus! {

#[derive(Clone, Debug)]
pub enum TrackType {
    Normal,
    Instrumental,
    Absolute,
    Drama,
    Radio,
    /// A kind with no name of its own, kept as written.
    Other(String),
}

/// How each kind is written.
pub open spec fn track_type_name(t: TrackType) -> Seq<char> {
    match t {
        TrackType::Normal => "normal"@,
        TrackType::Instrumental => "instrumental"@,
        TrackType::Absolute => "absolute"@,
        TrackType::Drama => "drama"@,
        TrackType::Radio => "radio"@,
        TrackType::Other(s) => s@,
    }
}

fn same(a: &str, b: &str) -> (r: bool)
    ensures
        r == (a@ == b@),
{
    a.to_owned() == b.to_owned()
}

impl TrackType {
    pub fn as_str(&self) -> (r: &str)
        ensures
            r@ == track_type_name(*self),
    {
        match self {
            TrackType::Normal => "normal",
            TrackType::Instrumental => "instrumental",
            TrackType::Absolute => "absolute",
            TrackType::Drama => "drama",
            TrackType::Radio => "radio",
            TrackType::Other(s) => s.as_str(),
        }
    }

    /// Reads a kind from how it is written; any text that names no kind of
    /// its own is kept as `Other`.
    pub fn parse(s: String) -> (r: TrackType)
        ensures
            track_type_name(r) == s@,
            r is Other ==> s@ != "normal"@ && s@ != "instrumental"@ && s@ != "absolute"@ && s@
                != "drama"@ && s@ != "radio"@,
    {
        if same(s.as_str(), "normal") {
            TrackType::Normal
        } else if same(s.as_str(), "instrumental") {
            TrackType::Instrumental
        } else if same(s.as_str(), "absolute") {
            TrackType::Absolute
        } else if same(s.as_str(), "drama") {
            TrackType::Drama
        } else if same(s.as_str(), "radio") {
            TrackType::Radio
        } else {
            TrackType::Other(s)
        }
    }
}

} // verus!
