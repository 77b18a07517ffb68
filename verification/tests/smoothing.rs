use chrono::{TimeZone, Utc};
use smooth_gpx::gpx_track::{GpxPoint, GpxTrack, Scalar};
use smooth_gpx::timestamp::Timestamp;

fn scalar(value: f32) -> Scalar {
    Scalar {
        bits: value.to_bits(),
    }
}

fn value(scalar: Scalar) -> f32 {
    f32::from_bits(scalar.bits)
}

/// The number at the fraction `step / (count + 1)` of the way from `start` to
/// `end`, in single precision.
fn blend(start: Scalar, end: Scalar, step: i32, count: i32) -> Scalar {
    let fraction = step as f32 / (count + 1) as f32;
    scalar(value(start) + fraction * (value(end) - value(start)))
}

fn utc(year: i32, month: u32, day: u32, hour: u32, min: u32, sec: u32) -> Timestamp {
    let time = Utc
        .with_ymd_and_hms(year, month, day, hour, min, sec)
        .unwrap();
    Timestamp::new(time.timestamp(), time.timestamp_subsec_nanos()).unwrap()
}

fn at(seconds: i64, nanos: u32) -> Option<Timestamp> {
    Some(Timestamp::new(seconds, nanos).unwrap())
}

fn point(latitude: f32, longitude: f32, elevation: f32, time: Option<Timestamp>) -> GpxPoint {
    GpxPoint {
        latitude: scalar(latitude),
        longitude: scalar(longitude),
        elevation: scalar(elevation),
        time,
    }
}

#[test]
fn test_smooth_gpx_track() {
    let mut new_segments = Vec::new();

    new_segments.push(GpxPoint {
        latitude: scalar(0.0),
        longitude: scalar(0.0),
        elevation: scalar(0.0),
        time: Some(utc(2023, 1, 1, 0, 0, 0)),
    });

    new_segments.push(GpxPoint {
        latitude: scalar(2.0),
        longitude: scalar(2.0),
        elevation: scalar(0.0),
        time: Some(utc(2023, 1, 1, 6, 0, 0)),
    });

    let mut track = GpxTrack::new(new_segments);

    track.smooth_gpx_track(1, blend);
    assert_eq!(track.segments.len(), 3);
    assert_eq!(value(track.segments[1].latitude), 1.0);
    assert_eq!(value(track.segments[1].longitude), 1.0);
    assert_eq!(value(track.segments[1].elevation), 0.0);
}

#[test]
fn middle_point_lies_halfway_in_place_and_time() {
    let start = point(0.0, 0.0, 10.0, Some(utc(2023, 1, 1, 0, 0, 0)));
    let end = point(2.0, 2.0, 30.0, Some(utc(2023, 1, 1, 6, 0, 0)));
    let mut track = GpxTrack::new(vec![start, end]);

    track.smooth_gpx_track(1, blend);

    assert_eq!(
        track.segments,
        vec![
            start,
            point(1.0, 1.0, 20.0, Some(utc(2023, 1, 1, 3, 0, 0))),
            end
        ]
    );
}

#[test]
fn fewer_than_one_point_to_insert_changes_nothing() {
    let recorded = vec![
        point(1.0, 2.0, 3.0, at(0, 0)),
        point(4.0, 5.0, 6.0, at(60, 0)),
        point(7.0, 8.0, 9.0, None),
    ];
    for number_to_insert in [0, -1, -5, i32::MIN] {
        let mut track = GpxTrack::new(recorded.clone());
        track.smooth_gpx_track(number_to_insert, blend);
        assert_eq!(track.segments, recorded);
    }
}

#[test]
fn empty_track_stays_empty() {
    for number_to_insert in [-1, 0, 1, 3] {
        let mut track = GpxTrack::new(Vec::new());
        track.smooth_gpx_track(number_to_insert, blend);
        assert_eq!(track.segments, Vec::new());
    }
}

#[test]
fn single_point_is_kept_once() {
    for time in [at(1_700_000_000, 0), None] {
        for number_to_insert in [1, 2, 7, 1000] {
            let only = point(48.8566, 2.3522, 35.0, time);
            let mut track = GpxTrack::new(vec![only]);
            track.smooth_gpx_track(number_to_insert, blend);
            assert_eq!(track.segments, vec![only]);
        }
    }
}

#[test]
fn pair_without_time_at_its_end_gets_nothing() {
    let a = point(0.0, 0.0, 0.0, at(0, 0));
    let b = point(3.0, 3.0, 3.0, at(30, 0));
    let c = point(6.0, 6.0, 6.0, None);
    let mut track = GpxTrack::new(vec![a, b, c]);

    track.smooth_gpx_track(2, blend);

    assert_eq!(
        track.segments,
        vec![
            a,
            point(1.0, 1.0, 1.0, at(10, 0)),
            point(2.0, 2.0, 2.0, at(20, 0)),
            b,
            c
        ]
    );
}

#[test]
fn pair_without_time_at_its_start_gets_nothing() {
    let a = point(0.0, 0.0, 0.0, None);
    let b = point(3.0, 3.0, 3.0, at(30, 0));
    let c = point(6.0, 6.0, 6.0, at(60, 0));
    let mut track = GpxTrack::new(vec![a, b, c]);

    track.smooth_gpx_track(2, blend);

    assert_eq!(
        track.segments,
        vec![
            a,
            b,
            point(4.0, 4.0, 4.0, at(40, 0)),
            point(5.0, 5.0, 5.0, at(50, 0)),
            c
        ]
    );
}

#[test]
fn point_without_time_between_timed_ones_stops_both_pairs() {
    let a = point(0.0, 0.0, 0.0, at(0, 0));
    let b = point(3.0, 3.0, 3.0, None);
    let c = point(6.0, 6.0, 6.0, at(60, 0));
    let mut track = GpxTrack::new(vec![a, b, c]);

    track.smooth_gpx_track(4, blend);

    assert_eq!(track.segments, vec![a, b, c]);
}

#[test]
fn track_without_any_time_is_kept_as_it_is() {
    let recorded = vec![
        point(0.0, 0.0, 0.0, None),
        point(3.0, 3.0, 3.0, None),
        point(6.0, 6.0, 6.0, None),
    ];
    let mut track = GpxTrack::new(recorded.clone());

    track.smooth_gpx_track(3, blend);

    assert_eq!(track.segments, recorded);
}

#[test]
fn inserted_points_come_in_the_order_of_their_steps() {
    let start = point(0.0, 10.0, 100.0, at(1000, 0));
    let end = point(4.0, 50.0, 500.0, at(1400, 0));
    let mut track = GpxTrack::new(vec![start, end]);

    track.smooth_gpx_track(3, blend);

    assert_eq!(
        track.segments,
        vec![
            start,
            point(1.0, 20.0, 200.0, at(1100, 0)),
            point(2.0, 30.0, 300.0, at(1200, 0)),
            point(3.0, 40.0, 400.0, at(1300, 0)),
            end
        ]
    );
}

#[test]
fn every_pair_is_taken_from_the_recorded_points() {
    let a = point(0.0, 0.0, 0.0, at(0, 0));
    let b = point(2.0, 20.0, 200.0, at(100, 0));
    let c = point(10.0, 0.0, 100.0, at(300, 0));
    let mut track = GpxTrack::new(vec![a, b, c]);

    track.smooth_gpx_track(1, blend);

    assert_eq!(
        track.segments,
        vec![
            a,
            point(1.0, 10.0, 100.0, at(50, 0)),
            b,
            point(6.0, 10.0, 150.0, at(200, 0)),
            c
        ]
    );
}

#[test]
fn inserted_times_are_cut_to_whole_seconds() {
    let start = point(0.0, 0.0, 0.0, at(0, 0));
    let end = point(0.0, 0.0, 0.0, at(10, 0));
    let mut track = GpxTrack::new(vec![start, end]);

    track.smooth_gpx_track(2, blend);

    let times: Vec<_> = track.segments.iter().map(|point| point.time).collect();
    assert_eq!(times, vec![at(0, 0), at(3, 0), at(6, 0), at(10, 0)]);
}

#[test]
fn earlier_end_moves_inserted_times_back() {
    let start = point(0.0, 0.0, 0.0, at(10, 0));
    let end = point(0.0, 0.0, 0.0, at(0, 0));
    let mut track = GpxTrack::new(vec![start, end]);

    track.smooth_gpx_track(2, blend);

    let times: Vec<_> = track.segments.iter().map(|point| point.time).collect();
    assert_eq!(times, vec![at(10, 0), at(7, 0), at(4, 0), at(0, 0)]);
}

#[test]
fn inserted_times_keep_the_nanoseconds_of_the_start() {
    let start = point(0.0, 0.0, 0.0, at(100, 250_000_000));
    let end = point(0.0, 0.0, 0.0, at(110, 750_000_000));
    let mut track = GpxTrack::new(vec![start, end]);

    track.smooth_gpx_track(1, blend);

    assert_eq!(track.segments[1].time, at(105, 250_000_000));
}

#[test]
fn part_of_a_second_does_not_count_toward_the_interval() {
    // 10.5 s back in time are 10 whole seconds back.
    let start = point(0.0, 0.0, 0.0, at(10, 500_000_000));
    let end = point(0.0, 0.0, 0.0, at(0, 0));
    let mut track = GpxTrack::new(vec![start, end]);

    track.smooth_gpx_track(1, blend);

    assert_eq!(track.segments[1].time, at(5, 500_000_000));
}

#[test]
fn interval_below_one_second_repeats_the_time_of_the_start() {
    let start = point(0.0, 0.0, 0.0, at(5, 100));
    let end = point(8.0, 8.0, 8.0, at(5, 900_000_000));
    let mut track = GpxTrack::new(vec![start, end]);

    track.smooth_gpx_track(3, blend);

    assert_eq!(
        track.segments,
        vec![
            start,
            point(2.0, 2.0, 2.0, at(5, 100)),
            point(4.0, 4.0, 4.0, at(5, 100)),
            point(6.0, 6.0, 6.0, at(5, 100)),
            end
        ]
    );
}

#[test]
fn coincident_points_get_coincident_points_inserted() {
    let twice = point(51.5074, -0.1278, 11.0, at(1_600_000_000, 0));
    let mut track = GpxTrack::new(vec![twice, twice]);

    track.smooth_gpx_track(2, blend);

    assert_eq!(track.segments, vec![twice, twice, twice, twice]);
}

#[test]
fn values_outside_the_usual_ranges_are_not_clamped() {
    let start = point(80.0, 170.0, -500.0, at(0, 0));
    let end = point(120.0, 210.0, -1500.0, at(2, 0));
    let mut track = GpxTrack::new(vec![start, end]);

    track.smooth_gpx_track(1, blend);

    assert_eq!(track.segments[1], point(100.0, 190.0, -1000.0, at(1, 0)));
}

#[test]
fn blend_is_asked_with_both_ends_the_step_and_the_count() {
    let start = GpxPoint {
        latitude: Scalar { bits: 1 },
        longitude: Scalar { bits: 3 },
        elevation: Scalar { bits: 5 },
        time: at(0, 0),
    };
    let end = GpxPoint {
        latitude: Scalar { bits: 2 },
        longitude: Scalar { bits: 4 },
        elevation: Scalar { bits: 6 },
        time: at(9, 0),
    };
    let mut track = GpxTrack::new(vec![start, end]);

    track.smooth_gpx_track(2, |start: Scalar, end: Scalar, step: i32, count: i32| Scalar {
        bits: start.bits + 10 * end.bits + 100 * step as u32 + 1000 * count as u32,
    });

    assert_eq!(
        track.segments,
        vec![
            start,
            GpxPoint {
                latitude: Scalar { bits: 2121 },
                longitude: Scalar { bits: 2143 },
                elevation: Scalar { bits: 2165 },
                time: at(3, 0),
            },
            GpxPoint {
                latitude: Scalar { bits: 2221 },
                longitude: Scalar { bits: 2243 },
                elevation: Scalar { bits: 2265 },
                time: at(6, 0),
            },
            end
        ]
    );
}

#[test]
fn track_of_timed_points_grows_by_the_count_for_each_pair() {
    let recorded: Vec<GpxPoint> = (0..5)
        .map(|index| point(index as f32, 0.0, 0.0, at(60 * index, 0)))
        .collect();
    let mut track = GpxTrack::new(recorded.clone());

    track.smooth_gpx_track(9, blend);

    assert_eq!(track.segments.len(), 4 * 10 + 1);
    for (index, recorded_point) in recorded.iter().enumerate() {
        assert_eq!(track.segments[10 * index], *recorded_point);
    }
    assert_eq!(track.segments[17].time, at(60 + 42, 0));
}
