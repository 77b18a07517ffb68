//! The nested schema of a track file: a root of tracks, each a list of
//! segments, each a list of points.

use crate::gpx_track::Scalar;
use crate::timestamp::Timestamp;
use vstd::prelude::*;
use vstd::string::*;

verus! {

/// A point as a file holds it: latitude and longitude always, elevation and
/// time where the file gives them.
#[derive(Clone, Copy, Debug, PartialEq, Eq)]
pub struct TrackPoint {
    pub lat: Scalar,
    pub lon: Scalar,
    pub elevation: Option<Scalar>,
    pub time: Option<Timestamp>,
}

/// One segment of a file: its points in order.
///
/// The view of a segment is the sequence of its points.
#[derive(Clone, Debug, PartialEq, Eq)]
pub struct TrackPt {
    pub points: Vec<TrackPoint>,
}

/// One track of a file: its segments in order.
///
/// The view of a track is the sequence of the views of its segments.
#[derive(Clone, Debug, PartialEq, Eq)]
pub struct TrackSegment {
    pub segments: Vec<TrackPt>,
}

/// The root of a file: its tracks in order.
///
/// The view of a root is the sequence of the views of its tracks.
#[derive(Clone, Debug, PartialEq, Eq)]
pub struct RawGpxTrack {
    pub track: Vec<TrackSegment>,
}

impl View for TrackPt {
    type V = Seq<TrackPoint>;

    open spec fn view(&self) -> Seq<TrackPoint> {
        self.points@
    }
}

impl View for TrackSegment {
    type V = Seq<Seq<TrackPoint>>;

    open spec fn view(&self) -> Seq<Seq<TrackPoint>> {
        Seq::new(self.segments@.len(), |i: int| self.segments@[i]@)
    }
}

impl View for RawGpxTrack {
    type V = Seq<Seq<Seq<TrackPoint>>>;

    open spec fn view(&self) -> Seq<Seq<Seq<TrackPoint>>> {
        Seq::new(self.track@.len(), |i: int| self.track@[i]@)
    }
}

/// The text of a whole track file: the declaration of the XML version and of
/// the text encoding on a line of its own, and behind it the written-out
/// root element `xml`.
pub fn with_declaration(xml: &str) -> (text: String)
    ensures
        text@ == "<?xml version=\"1.0\" encoding=\"UTF-8\"?>\n"@ + xml@,
{
    String::from_str("<?xml version=\"1.0\" encoding=\"UTF-8\"?>\n").concat(xml)
}

} // verus!
