//! The track model: an ordered sequence of points, and the insertion of evenly
//! spaced points between consecutive ones.

use crate::timestamp::{instant_at_step, lemma_instant_fixes_timestamp, Timestamp};
use vstd::prelude::*;

verus! {

/// The bit pattern of positive zero.
pub const ZERO_BITS: u32 = 0;

/// A single-precision number of a track point (degrees or metres), carried as
/// the bit pattern of its IEEE 754 binary32 encoding.
///
/// This crate stores and moves such numbers and never computes on them. Where
/// a new number has to be made from two given ones, the caller supplies the
/// function that makes it.
#[derive(Clone, Copy, Debug, PartialEq, Eq)]
pub struct Scalar {
    pub bits: u32,
}

/// One recorded or inserted sample of a track. None of the fields is checked
/// against a range.
#[derive(Clone, Copy, Debug, PartialEq, Eq)]
pub struct GpxPoint {
    /// Decimal degrees.
    pub latitude: Scalar,
    /// Decimal degrees.
    pub longitude: Scalar,
    /// Metres.
    pub elevation: Scalar,
    /// Absent for a point that was recorded without a time.
    pub time: Option<Timestamp>,
}

/// One continuous path: its points in the order in which they were recorded.
/// A track may be empty or hold a single point.
///
/// The view of a track is the sequence of its points.
#[derive(Clone, Debug, PartialEq, Eq)]
pub struct GpxTrack {
    pub segments: Vec<GpxPoint>,
}

impl View for GpxTrack {
    type V = Seq<GpxPoint>;

    open spec fn view(&self) -> Seq<GpxPoint> {
        self.segments@
    }
}

/// Whether the point at `pair` and the one after it both carry a time.
pub open spec fn both_timed(points: Seq<GpxPoint>, pair: int) -> bool {
    points[pair].time is Some && points[pair + 1].time is Some
}

/// The number of points that the pair starting at `pair` gives to the
/// smoothed track: its start, and with it `count` inserted points when both
/// ends carry a time.
pub open spec fn pair_width(points: Seq<GpxPoint>, count: int, pair: int) -> int {
    if both_timed(points, pair) {
        count + 1
    } else {
        1
    }
}

/// The place that the recorded point `index` takes in the smoothed track: the
/// widths of all pairs before it, added up.
pub open spec fn position(points: Seq<GpxPoint>, count: int, index: int) -> int
    decreases index,
{
    if index <= 0 {
        0
    } else {
        position(points, count, index - 1) + pair_width(points, count, index - 1)
    }
}

/// The place in the smoothed track of inserted point `step` of the pair that
/// starts at `pair`.
pub open spec fn inserted_position(
    points: Seq<GpxPoint>,
    count: int,
    pair: int,
    step: int,
) -> int {
    position(points, count, pair) + step
}

/// Whether `point` is inserted point `step` of `count` between `start` and
/// `end`, which both carry a time: each of its three numbers is one that
/// `blend` gives for the two numbers of the ends, and its time is the time of
/// `start` moved by `total * step / (count + 1)` whole seconds, where `total`
/// is the whole seconds from `start` to `end`.
pub open spec fn is_inserted<B: Fn(Scalar, Scalar, i32, i32) -> Scalar>(
    blend: B,
    start: GpxPoint,
    end: GpxPoint,
    step: int,
    count: int,
    point: GpxPoint,
) -> bool {
    &&& call_ensures(
        blend,
        (start.latitude, end.latitude, step as i32, count as i32),
        point.latitude,
    )
    &&& call_ensures(
        blend,
        (start.longitude, end.longitude, step as i32, count as i32),
        point.longitude,
    )
    &&& call_ensures(
        blend,
        (start.elevation, end.elevation, step as i32, count as i32),
        point.elevation,
    )
    &&& point.time is Some
    &&& point.time.unwrap().is_valid()
    &&& point.time.unwrap()@ == instant_at_step(
        start.time.unwrap()@,
        end.time.unwrap()@,
        step,
        count,
    )
}

/// Whether `smoothed` holds what the first `pairs` pairs of `recorded` give:
/// each start point at its place, and behind the start of each pair whose
/// ends both carry a time the `count` points inserted for it.
pub open spec fn holds_pairs<B: Fn(Scalar, Scalar, i32, i32) -> Scalar>(
    recorded: Seq<GpxPoint>,
    count: int,
    blend: B,
    smoothed: Seq<GpxPoint>,
    pairs: int,
) -> bool {
    &&& position(recorded, count, pairs) <= smoothed.len()
    &&& forall|index: int|
        0 <= index < pairs ==> smoothed[#[trigger] position(recorded, count, index)]
            == recorded[index]
    &&& forall|pair: int, step: int|
        0 <= pair < pairs && both_timed(recorded, pair) && 1 <= step <= count ==> is_inserted(
            blend,
            recorded[pair],
            recorded[pair + 1],
            step,
            count,
            smoothed[#[trigger] inserted_position(recorded, count, pair, step)],
        )
}

/// Whether `smoothed` is the track `recorded`, which is not empty, with
/// `count >= 1` points inserted into each pair of consecutive points that
/// both carry a time.
///
/// Every recorded point is kept, unchanged and in order. Between two
/// consecutive ones that both carry a time lie exactly `count` inserted
/// points, in the order of their steps; between two of which one has no time
/// lies nothing. The last recorded point ends the track.
pub open spec fn is_smoothing<B: Fn(Scalar, Scalar, i32, i32) -> Scalar>(
    recorded: Seq<GpxPoint>,
    count: int,
    blend: B,
    smoothed: Seq<GpxPoint>,
) -> bool {
    let last = recorded.len() - 1;
    &&& smoothed.len() == position(recorded, count, last) + 1
    &&& smoothed[position(recorded, count, last)] == recorded[last]
    &&& holds_pairs(recorded, count, blend, smoothed, last)
}

/// Whether `smoothed` is what smoothing makes of the track `recorded` when
/// `number_to_insert` points are asked for: the track itself when it is empty
/// or fewer than one point is asked for, else its smoothing.
pub open spec fn smooths_to<B: Fn(Scalar, Scalar, i32, i32) -> Scalar>(
    recorded: Seq<GpxPoint>,
    number_to_insert: int,
    blend: B,
    smoothed: Seq<GpxPoint>,
) -> bool {
    if recorded.len() == 0 || number_to_insert < 1 {
        smoothed == recorded
    } else {
        is_smoothing(recorded, number_to_insert, blend, smoothed)
    }
}

impl GpxTrack {
    /// The track of the given points.
    pub fn new(segments: Vec<GpxPoint>) -> (track: GpxTrack)
        ensures
            track@ == segments@,
    {
        GpxTrack { segments }
    }

    /// Inserts `number_to_insert` points into each pair of consecutive points
    /// that both carry a time, in place.
    ///
    /// An empty track, and any track when `number_to_insert < 1`, is left as
    /// it is. Otherwise every recorded point is kept in its order, and a pair
    /// of which one point has no time gets nothing inserted.
    ///
    /// The three numbers of inserted point `step` are made by
    /// `blend(start, end, step, number_to_insert)` from the two latitudes, the
    /// two longitudes and the two elevations of the pair; `blend` is meant to
    /// give the number at the fraction `step / (number_to_insert + 1)` of the
    /// way from `start` to `end`. The time of the inserted point is that of
    /// the start moved by whole seconds, as [`Timestamp::at_step`] gives it.
    pub fn smooth_gpx_track<B: Fn(Scalar, Scalar, i32, i32) -> Scalar>(
        &mut self,
        number_to_insert: i32,
        blend: B,
    )
        requires
            forall|start: Scalar, end: Scalar, step: i32|
                1 <= step <= number_to_insert ==> call_requires(
                    blend,
                    (start, end, step, number_to_insert),
                ),
        ensures
            smooths_to(old(self)@, number_to_insert as int, blend, final(self)@),
            old(self)@.len() == 0 || number_to_insert < 1 ==> final(self)@ == old(self)@,
            old(self)@.len() == 1 ==> final(self)@ == old(self)@,
            old(self)@.len() > 0 ==> final(self)@.len() > 0 && final(self)@.last() == old(
                self,
            )@.last(),
    {
        if self.segments.len() == 0 || number_to_insert < 1 {
            return ;
        }
        let ghost recorded = self.segments@;
        let ghost count = number_to_insert as int;
        let last = self.segments.len() - 1;
        let mut new_segments: Vec<GpxPoint> = Vec::new();
        let mut pair: usize = 0;
        while pair < last
            invariant
                self.segments@ == recorded,
                count == number_to_insert,
                count >= 1,
                last == recorded.len() - 1,
                0 <= pair <= last,
                new_segments@.len() == position(recorded, count, pair as int),
                holds_pairs(recorded, count, blend, new_segments@, pair as int),
                forall|start: Scalar, end: Scalar, step: i32|
                    1 <= step <= number_to_insert ==> call_requires(
                        blend,
                        (start, end, step, number_to_insert),
                    ),
            decreases last - pair,
        {
            let ghost before = new_segments@;
            let ghost base = position(recorded, count, pair as int);
            let start = self.segments[pair];
            let end = self.segments[pair + 1];
            new_segments.push(start);
            match (start.time, end.time) {
                (Some(start_time), Some(end_time)) => {
                    let mut step: i32 = 0;
                    while step < number_to_insert
                        invariant
                            count == number_to_insert,
                            0 <= step <= number_to_insert,
                            0 <= pair < recorded.len() - 1,
                            start == recorded[pair as int],
                            end == recorded[pair + 1],
                            start.time == Some(start_time),
                            end.time == Some(end_time),
                            base == position(recorded, count, pair as int),
                            base == before.len(),
                            new_segments@.len() == base + 1 + step,
                            forall|i: int| 0 <= i < base ==> new_segments@[i] == before[i],
                            new_segments@[base] == start,
                            forall|done: int|
                                1 <= done <= step ==> is_inserted(
                                    blend,
                                    start,
                                    end,
                                    done,
                                    count,
                                    new_segments@[#[trigger] inserted_position(
                                        recorded,
                                        count,
                                        pair as int,
                                        done,
                                    )],
                                ),
                            forall|start: Scalar, end: Scalar, step: i32|
                                1 <= step <= number_to_insert ==> call_requires(
                                    blend,
                                    (start, end, step, number_to_insert),
                                ),
                        decreases number_to_insert - step,
                    {
                        step = step + 1;
                        let point = GpxPoint {
                            latitude: blend(start.latitude, end.latitude, step, number_to_insert),
                            longitude: blend(
                                start.longitude,
                                end.longitude,
                                step,
                                number_to_insert,
                            ),
                            elevation: blend(
                                start.elevation,
                                end.elevation,
                                step,
                                number_to_insert,
                            ),
                            time: Some(start_time.at_step(&end_time, step, number_to_insert)),
                        };
                        new_segments.push(point);
                    }
                },
                _ => {},
            }
            proof {
                lemma_position_ordered(recorded, count, pair as int, pair + 1);
                lemma_holds_pairs_extends(
                    recorded,
                    count,
                    blend,
                    before,
                    new_segments@,
                    pair as int,
                );
            }
            pair = pair + 1;
        }
        proof {
            lemma_holds_pairs_extends(
                recorded,
                count,
                blend,
                new_segments@,
                new_segments@.push(self.segments@[last as int]),
                last as int,
            );
        }
        new_segments.push(self.segments[last]);
        self.segments = new_segments;
    }
}

/// No recorded point is placed before the start of the smoothed track.
pub proof fn lemma_position_nonnegative(points: Seq<GpxPoint>, count: int, index: int)
    requires
        count >= 0,
    ensures
        0 <= position(points, count, index),
    decreases index,
{
    if index > 0 {
        lemma_position_nonnegative(points, count, index - 1);
    }
}

/// Recorded points keep their order: a later one is placed behind an earlier
/// one and behind all that the pair of the earlier one gives.
pub proof fn lemma_position_ordered(points: Seq<GpxPoint>, count: int, earlier: int, later: int)
    requires
        count >= 0,
        0 <= earlier < later,
    ensures
        0 <= position(points, count, earlier),
        position(points, count, earlier) + pair_width(points, count, earlier) <= position(
            points,
            count,
            later,
        ),
    decreases later,
{
    lemma_position_nonnegative(points, count, earlier);
    if earlier + 1 < later {
        lemma_position_ordered(points, count, earlier, later - 1);
    }
}

/// The place of a recorded point and the place of the next one lie apart by
/// what the pair between them gives.
pub proof fn lemma_position_step(points: Seq<GpxPoint>, count: int, pair: int)
    requires
        0 <= pair,
    ensures
        position(points, count, pair + 1) == position(points, count, pair) + pair_width(
            points,
            count,
            pair,
        ),
{
}

/// Every place of the smoothed track is taken by exactly what the smoothing
/// names: a place up to that of the last recorded point is the place of a
/// recorded point, or that of an inserted point of a pair whose ends both
/// carry a time.
pub proof fn lemma_every_place_is_named(points: Seq<GpxPoint>, count: int, place: int)
    requires
        count >= 0,
        points.len() >= 1,
        0 <= place <= position(points, count, points.len() - 1),
    ensures
        (exists|index: int|
            0 <= index < points.len() && place == #[trigger] position(points, count, index)) || (
        exists|pair: int, step: int|
            0 <= pair < points.len() - 1 && both_timed(points, pair) && 1 <= step <= count && place
                == #[trigger] inserted_position(points, count, pair, step)),
{
    let last = points.len() - 1;
    if place == position(points, count, last) {
        assert(0 <= last < points.len() && place == position(points, count, last));
    } else {
        let pair = lemma_enclosing_pair(points, count, last, place);
        if place == position(points, count, pair) {
            assert(0 <= pair < points.len() && place == position(points, count, pair));
        } else {
            let step = place - position(points, count, pair);
            assert(0 <= pair < points.len() - 1 && both_timed(points, pair) && 1 <= step <= count
                && place == inserted_position(points, count, pair, step));
        }
    }
}

/// A place before that of recorded point `upto` lies within what one of the
/// pairs before `upto` gives.
proof fn lemma_enclosing_pair(points: Seq<GpxPoint>, count: int, upto: int, place: int) -> (pair:
    int)
    requires
        count >= 0,
        0 <= upto,
        0 <= place < position(points, count, upto),
    ensures
        0 <= pair < upto,
        position(points, count, pair) <= place < position(points, count, pair) + pair_width(
            points,
            count,
            pair,
        ),
    decreases upto,
{
    if place >= position(points, count, upto - 1) {
        upto - 1
    } else {
        lemma_enclosing_pair(points, count, upto - 1, place)
    }
}

/// Smoothing leaves nothing open but what `blend` leaves open: where `blend`
/// gives one number only for each question, a track has one smoothing only.
pub proof fn lemma_smoothing_is_fixed<B: Fn(Scalar, Scalar, i32, i32) -> Scalar>(
    recorded: Seq<GpxPoint>,
    number_to_insert: int,
    blend: B,
    one: Seq<GpxPoint>,
    other: Seq<GpxPoint>,
)
    requires
        smooths_to(recorded, number_to_insert, blend, one),
        smooths_to(recorded, number_to_insert, blend, other),
        forall|start: Scalar, end: Scalar, step: i32, count: i32, a: Scalar, b: Scalar|
            call_ensures(blend, (start, end, step, count), a) && call_ensures(
                blend,
                (start, end, step, count),
                b,
            ) ==> a == b,
    ensures
        one == other,
{
    if recorded.len() > 0 && number_to_insert >= 1 {
        let count = number_to_insert;
        let last = recorded.len() - 1;
        assert forall|place: int| 0 <= place < one.len() implies one[place] == other[place] by {
            lemma_every_place_is_named(recorded, count, place);
            if exists|index: int|
                0 <= index < recorded.len() && place == #[trigger] position(
                    recorded,
                    count,
                    index,
                ) {
                let index = choose|index: int|
                    0 <= index < recorded.len() && place == #[trigger] position(
                        recorded,
                        count,
                        index,
                    );
                assert(one[position(recorded, count, index)] == recorded[index]);
                assert(other[position(recorded, count, index)] == recorded[index]);
            } else {
                let (pair, step) = choose|pair: int, step: int|
                    0 <= pair < recorded.len() - 1 && both_timed(recorded, pair) && 1 <= step
                        <= count && place == #[trigger] inserted_position(
                        recorded,
                        count,
                        pair,
                        step,
                    );
                let p = one[inserted_position(recorded, count, pair, step)];
                let q = other[inserted_position(recorded, count, pair, step)];
                assert(is_inserted(blend, recorded[pair], recorded[pair + 1], step, count, p));
                assert(is_inserted(blend, recorded[pair], recorded[pair + 1], step, count, q));
                lemma_instant_fixes_timestamp(p.time.unwrap(), q.time.unwrap());
                assert(p.time == q.time);
                assert(p == q);
            }
        }
        assert(one =~= other);
    }
}

/// Smoothing a track of a single point gives that track again, whatever the
/// number of points to insert.
pub proof fn lemma_single_point_unchanged<B: Fn(Scalar, Scalar, i32, i32) -> Scalar>(
    recorded: Seq<GpxPoint>,
    number_to_insert: int,
    blend: B,
    smoothed: Seq<GpxPoint>,
)
    requires
        recorded.len() == 1,
        smooths_to(recorded, number_to_insert, blend, smoothed),
    ensures
        smoothed == recorded,
{
}

/// The last recorded point ends the smoothed track, whether or not the pair
/// that it closes got points inserted.
pub proof fn lemma_last_point_ends_track<B: Fn(Scalar, Scalar, i32, i32) -> Scalar>(
    recorded: Seq<GpxPoint>,
    number_to_insert: int,
    blend: B,
    smoothed: Seq<GpxPoint>,
)
    requires
        recorded.len() >= 1,
        smooths_to(recorded, number_to_insert, blend, smoothed),
    ensures
        smoothed.len() >= 1,
        smoothed.last() == recorded.last(),
{
    if number_to_insert >= 1 {
        lemma_position_nonnegative(recorded, number_to_insert, recorded.len() - 1);
    }
}

/// A pair of which one point carries no time gives its start point and
/// nothing else: the start is kept as it is, and the point recorded next
/// follows it directly.
pub proof fn lemma_pair_without_time<B: Fn(Scalar, Scalar, i32, i32) -> Scalar>(
    recorded: Seq<GpxPoint>,
    number_to_insert: int,
    blend: B,
    smoothed: Seq<GpxPoint>,
    pair: int,
)
    requires
        number_to_insert >= 1,
        0 <= pair < recorded.len() - 1,
        !both_timed(recorded, pair),
        smooths_to(recorded, number_to_insert, blend, smoothed),
    ensures
        0 <= position(recorded, number_to_insert, pair),
        position(recorded, number_to_insert, pair) + 1 < smoothed.len(),
        smoothed[position(recorded, number_to_insert, pair)] == recorded[pair],
        smoothed[position(recorded, number_to_insert, pair) + 1] == recorded[pair + 1],
{
    let last = recorded.len() - 1;
    lemma_position_step(recorded, number_to_insert, pair);
    lemma_position_nonnegative(recorded, number_to_insert, pair);
    if pair + 1 < last {
        lemma_position_ordered(recorded, number_to_insert, pair + 1, last);
    }
}

/// A pair whose ends both carry a time gives its start point and behind it
/// the inserted points in the order of their steps; the point recorded next
/// follows the last of them.
pub proof fn lemma_pair_with_times<B: Fn(Scalar, Scalar, i32, i32) -> Scalar>(
    recorded: Seq<GpxPoint>,
    number_to_insert: int,
    blend: B,
    smoothed: Seq<GpxPoint>,
    pair: int,
)
    requires
        number_to_insert >= 1,
        0 <= pair < recorded.len() - 1,
        both_timed(recorded, pair),
        smooths_to(recorded, number_to_insert, blend, smoothed),
    ensures
        0 <= position(recorded, number_to_insert, pair),
        position(recorded, number_to_insert, pair) + number_to_insert + 1 < smoothed.len(),
        smoothed[position(recorded, number_to_insert, pair)] == recorded[pair],
        forall|step: int|
            1 <= step <= number_to_insert ==> is_inserted(
                blend,
                recorded[pair],
                recorded[pair + 1],
                step,
                number_to_insert,
                #[trigger] smoothed[position(recorded, number_to_insert, pair) + step],
            ),
        smoothed[position(recorded, number_to_insert, pair) + number_to_insert + 1] == recorded[pair
            + 1],
{
    let last = recorded.len() - 1;
    let base = position(recorded, number_to_insert, pair);
    lemma_position_step(recorded, number_to_insert, pair);
    lemma_position_nonnegative(recorded, number_to_insert, pair);
    if pair + 1 < last {
        lemma_position_ordered(recorded, number_to_insert, pair + 1, last);
    }
    assert forall|step: int| 1 <= step <= number_to_insert implies is_inserted(
        blend,
        recorded[pair],
        recorded[pair + 1],
        step,
        number_to_insert,
        #[trigger] smoothed[base + step],
    ) by {
        assert(base + step == inserted_position(recorded, number_to_insert, pair, step));
    }
}

/// In a track whose points all carry a time every pair gets its points: the
/// smoothed track holds `number_to_insert + 1` points for each pair and one
/// for the last point.
pub proof fn lemma_length_when_all_timed<B: Fn(Scalar, Scalar, i32, i32) -> Scalar>(
    recorded: Seq<GpxPoint>,
    number_to_insert: int,
    blend: B,
    smoothed: Seq<GpxPoint>,
)
    requires
        number_to_insert >= 1,
        recorded.len() >= 1,
        forall|index: int| 0 <= index < recorded.len() ==> (#[trigger] recorded[index]).time is Some,
        smooths_to(recorded, number_to_insert, blend, smoothed),
    ensures
        smoothed.len() == (recorded.len() - 1) * (number_to_insert + 1) + 1,
{
    lemma_position_when_all_timed(recorded, number_to_insert, recorded.len() - 1);
}

/// In a track whose points all carry a time, recorded point `index` takes
/// place `index * (count + 1)`.
proof fn lemma_position_when_all_timed(points: Seq<GpxPoint>, count: int, index: int)
    requires
        0 <= index < points.len(),
        forall|i: int| 0 <= i < points.len() ==> (#[trigger] points[i]).time is Some,
    ensures
        position(points, count, index) == index * (count + 1),
    decreases index,
{
    if index > 0 {
        lemma_position_when_all_timed(points, count, index - 1);
        assert((index - 1) * (count + 1) + (count + 1) == index * (count + 1))
            by (nonlinear_arith);
    } else {
        assert(index * (count + 1) == 0) by (nonlinear_arith)
            requires
                index == 0,
        ;
    }
}

/// What holds of the first pairs of a smoothed track still holds when points
/// are added behind them.
proof fn lemma_holds_pairs_extends<B: Fn(Scalar, Scalar, i32, i32) -> Scalar>(
    recorded: Seq<GpxPoint>,
    count: int,
    blend: B,
    shorter: Seq<GpxPoint>,
    longer: Seq<GpxPoint>,
    pairs: int,
)
    requires
        count >= 0,
        0 <= pairs,
        holds_pairs(recorded, count, blend, shorter, pairs),
        shorter.len() <= longer.len(),
        forall|i: int| 0 <= i < position(recorded, count, pairs) ==> longer[i] == shorter[i],
    ensures
        holds_pairs(recorded, count, blend, longer, pairs),
{
    assert forall|index: int| 0 <= index < pairs implies longer[#[trigger] position(
        recorded,
        count,
        index,
    )] == recorded[index] by {
        lemma_position_ordered(recorded, count, index, pairs);
    }
    assert forall|pair: int, step: int|
        0 <= pair < pairs && both_timed(recorded, pair) && 1 <= step <= count implies is_inserted(
        blend,
        recorded[pair],
        recorded[pair + 1],
        step,
        count,
        longer[#[trigger] inserted_position(recorded, count, pair, step)],
    ) by {
        lemma_position_ordered(recorded, count, pair, pairs);
    }
}

} // verus!
