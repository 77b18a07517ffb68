//! The service that loads a track, smooths it and saves it.

use crate::gpx_filepath_port::{GPXFilepathPort, ReadError};
use crate::gpx_track::{smooths_to, GpxTrack, Scalar};
use std::path::Path;
use vstd::prelude::*;

verus! {

/// What the service makes of what its adapter has loaded: an error is handed
/// on as it is, and a track is smoothed as [`GpxTrack::smooth_gpx_track`]
/// does.
pub fn smooth_loaded<B: Fn(Scalar, Scalar, i32, i32) -> Scalar>(
    loaded: Result<GpxTrack, ReadError>,
    number_to_insert: i32,
    blend: B,
) -> (smoothed: Result<GpxTrack, ReadError>)
    requires
        forall|start: Scalar, end: Scalar, step: i32|
            1 <= step <= number_to_insert ==> call_requires(
                blend,
                (start, end, step, number_to_insert),
            ),
    ensures
        match loaded {
            Err(error) => smoothed == Err::<GpxTrack, ReadError>(error),
            Ok(track) => smoothed is Ok && smooths_to(
                track@,
                number_to_insert as int,
                blend,
                smoothed.unwrap()@,
            ),
        },
{
    match loaded {
        Err(error) => Err(error),
        Ok(mut track) => {
            track.smooth_gpx_track(number_to_insert, blend);
            Ok(track)
        },
    }
}

/// Smooths track files through the file adapter that it is given when it is
/// made.
pub struct SmoothGpxTrack<F: GPXFilepathPort> {
    filepath_adapter: F,
}

impl<F: GPXFilepathPort> SmoothGpxTrack<F> {
    /// The adapter through which the service loads and saves.
    pub closed spec fn adapter(&self) -> F {
        self.filepath_adapter
    }

    /// The service that loads and saves through `filepath_adapter`.
    pub fn new(filepath_adapter: F) -> (service: SmoothGpxTrack<F>)
        ensures
            service.adapter() == filepath_adapter,
    {
        SmoothGpxTrack { filepath_adapter }
    }

    /// Loads the track at `data`, inserts `number_to_insert` points into each
    /// pair of its points as [`GpxTrack::smooth_gpx_track`] does, and saves
    /// the outcome at `output`.
    ///
    /// When the adapter cannot load the track, its error is handed back and
    /// nothing is saved. Otherwise the adapter has loaded a track and has
    /// then saved what smoothing makes of that track.
    pub fn execute<B: Fn(Scalar, Scalar, i32, i32) -> Scalar>(
        &self,
        data: &Path,
        output: &Path,
        number_to_insert: i32,
        blend: B,
    ) -> (outcome: Result<(), ReadError>)
        requires
            forall|start: Scalar, end: Scalar, step: i32|
                1 <= step <= number_to_insert ==> call_requires(
                    blend,
                    (start, end, step, number_to_insert),
                ),
        ensures
            match outcome {
                Err(error) => call_ensures(F::load, (&self.adapter(), data), Err(error)),
                Ok(_) => exists|loaded: GpxTrack, saved: GpxTrack|
                    call_ensures(F::load, (&self.adapter(), data), Ok(loaded)) && smooths_to(
                        loaded@,
                        number_to_insert as int,
                        blend,
                        saved@,
                    ) && call_ensures(F::save, (&self.adapter(), output, &saved), ()),
            },
    {
        let gpx_track = self.filepath_adapter.load(data);
        match smooth_loaded(gpx_track, number_to_insert, blend) {
            Err(error) => Err(error),
            Ok(loaded_track) => {
                self.filepath_adapter.save(output, &loaded_track);
                Ok(())
            },
        }
    }
}

} // verus!
