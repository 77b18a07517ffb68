//! The mapping between the nested schema of a file and the flat track, in
//! both directions.
//!
//! From file to track the nesting is dropped: the points of all segments of
//! all tracks follow each other in file order. From track to file all points
//! go into one segment of one track. The borders between tracks and segments
//! are lost on the way; the points, their order and their values are not.

use crate::gpx_track::{GpxPoint, GpxTrack, Scalar, ZERO_BITS};
use crate::raw_gpx::{RawGpxTrack, TrackPoint, TrackPt, TrackSegment};
use vstd::prelude::*;

verus! {

/// The track point that stands for a point of a file: latitude, longitude and
/// time as they are, and an elevation of zero where the file gives none.
pub open spec fn to_gpx_point(point: TrackPoint) -> GpxPoint {
    GpxPoint {
        latitude: point.lat,
        longitude: point.lon,
        elevation: match point.elevation {
            Some(elevation) => elevation,
            None => Scalar { bits: ZERO_BITS },
        },
        time: point.time,
    }
}

/// The point of a file that stands for a track point: all four values as they
/// are, the elevation given.
pub open spec fn to_track_point(point: GpxPoint) -> TrackPoint {
    TrackPoint {
        lat: point.latitude,
        lon: point.longitude,
        elevation: Some(point.elevation),
        time: point.time,
    }
}

/// The track points of one segment, in order.
pub open spec fn segment_points(segment: Seq<TrackPoint>) -> Seq<GpxPoint> {
    segment.map_values(|point: TrackPoint| to_gpx_point(point))
}

/// The track points of all segments of one track of a file, in order.
pub open spec fn track_points(track: Seq<Seq<TrackPoint>>) -> Seq<GpxPoint>
    decreases track.len(),
{
    if track.len() == 0 {
        Seq::empty()
    } else {
        track_points(track.drop_last()) + segment_points(track.last())
    }
}

/// The track points of all tracks of a file, in order.
pub open spec fn all_points(raw: Seq<Seq<Seq<TrackPoint>>>) -> Seq<GpxPoint>
    decreases raw.len(),
{
    if raw.len() == 0 {
        Seq::empty()
    } else {
        all_points(raw.drop_last()) + track_points(raw.last())
    }
}

/// The file that holds the given points in one segment of one track.
pub open spec fn single_segment(points: Seq<GpxPoint>) -> Seq<Seq<Seq<TrackPoint>>> {
    seq![seq![points.map_values(|point: GpxPoint| to_track_point(point))]]
}

/// Flattens a file into a track: the points of all segments of all tracks in
/// file order, each with an elevation of zero where the file gives none.
pub fn map_raw_gpx_to_gpx(raw_gpx: RawGpxTrack) -> (gpx: GpxTrack)
    ensures
        gpx@ == all_points(raw_gpx@),
{
    let mut segments: Vec<GpxPoint> = Vec::new();
    let mut t: usize = 0;
    while t < raw_gpx.track.len()
        invariant
            0 <= t <= raw_gpx.track@.len(),
            segments@ == all_points(raw_gpx@.take(t as int)),
        decreases raw_gpx.track@.len() - t,
    {
        let track = &raw_gpx.track[t];
        let ghost done_tracks = segments@;
        let mut s: usize = 0;
        while s < track.segments.len()
            invariant
                0 <= s <= track.segments@.len(),
                segments@ == done_tracks + track_points(track@.take(s as int)),
            decreases track.segments@.len() - s,
        {
            let segment = &track.segments[s];
            let ghost done_segments = segments@;
            let mut p: usize = 0;
            while p < segment.points.len()
                invariant
                    0 <= p <= segment.points@.len(),
                    segments@ == done_segments + segment_points(segment@.take(p as int)),
                decreases segment.points@.len() - p,
            {
                let point = segment.points[p];
                let elevation = match point.elevation {
                    Some(elevation) => elevation,
                    None => Scalar { bits: ZERO_BITS },
                };
                segments.push(
                    GpxPoint {
                        latitude: point.lat,
                        longitude: point.lon,
                        elevation,
                        time: point.time,
                    },
                );
                p = p + 1;
            }
            assert(track@.take(s + 1).drop_last() == track@.take(s as int));
            s = s + 1;
        }
        assert(track@.take(s as int) == track@);
        assert(raw_gpx@.take(t + 1).drop_last() == raw_gpx@.take(t as int));
        t = t + 1;
    }
    assert(raw_gpx@.take(t as int) == raw_gpx@);
    GpxTrack::new(segments)
}

/// Puts a track into a file of exactly one track with exactly one segment,
/// which holds all points in order. Every point gets its elevation written.
pub fn map_gpx_to_raw_gpx(gpx: GpxTrack) -> (raw_gpx: RawGpxTrack)
    ensures
        raw_gpx@ == single_segment(gpx@),
{
    let mut track_pt = TrackPt { points: Vec::new() };
    let mut p: usize = 0;
    while p < gpx.segments.len()
        invariant
            0 <= p <= gpx.segments@.len(),
            track_pt.points@ == gpx@.take(p as int).map_values(
                |point: GpxPoint| to_track_point(point),
            ),
        decreases gpx.segments@.len() - p,
    {
        let point = gpx.segments[p];
        track_pt.points.push(
            TrackPoint {
                lat: point.latitude,
                lon: point.longitude,
                elevation: Some(point.elevation),
                time: point.time,
            },
        );
        p = p + 1;
    }
    let mut track_segment = TrackSegment { segments: Vec::new() };
    track_segment.segments.push(track_pt);
    let mut raw_gpx = RawGpxTrack { track: Vec::new() };
    raw_gpx.track.push(track_segment);
    assert(raw_gpx@ =~~= single_segment(gpx@));
    raw_gpx
}

/// A track point that is written to a file and read back is the same point.
pub proof fn lemma_point_survives_file(point: GpxPoint)
    ensures
        to_gpx_point(to_track_point(point)) == point,
{
}

/// A track that is put into a file and flattened again is the same track:
/// the same points with the same values in the same order.
pub proof fn lemma_track_survives_file(points: Seq<GpxPoint>)
    ensures
        all_points(single_segment(points)) == points,
{
    let file = single_segment(points);
    assert(all_points(file.drop_last()) =~= Seq::empty());
    assert(track_points(file.last().drop_last()) =~= Seq::empty());
}

/// Flattening a file, writing the track out and flattening again gives the
/// points of the first flattening, however the file was divided into tracks
/// and segments.
pub proof fn lemma_reload_gives_same_points(raw: Seq<Seq<Seq<TrackPoint>>>)
    ensures
        all_points(single_segment(all_points(raw))) == all_points(raw),
{
    lemma_track_survives_file(all_points(raw));
}

/// A file of one track with one segment, in which every point has its
/// elevation written, is given back as it is when it is flattened and written
/// out again.
pub proof fn lemma_flat_file_survives_track(raw: Seq<Seq<Seq<TrackPoint>>>)
    requires
        raw.len() == 1,
        raw[0].len() == 1,
        forall|i: int| 0 <= i < raw[0][0].len() ==> (#[trigger] raw[0][0][i]).elevation is Some,
    ensures
        single_segment(all_points(raw)) == raw,
{
    assert(all_points(raw.drop_last()) =~= Seq::empty());
    assert(track_points(raw.last().drop_last()) =~= Seq::empty());
    assert(single_segment(all_points(raw)) =~~= raw);
}

} // verus!
