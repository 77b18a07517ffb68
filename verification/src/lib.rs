//! Densifies recorded GPS tracks: between every two consecutive points of a
//! track that both carry a time, a chosen number of evenly spaced points is
//! inserted.
//!
//! The crate keeps the track model, the insertion algorithm and the mapping
//! between the nested file schema and the flat track. Reading and writing
//! files, and arithmetic on the single-precision values of a point, are left
//! to the caller: files through [`gpx_filepath_port::GPXFilepathPort`],
//! arithmetic through the blend function handed to
//! [`gpx_track::GpxTrack::smooth_gpx_track`].

pub mod application;
pub mod gpx_filepath_port;
pub mod gpx_mappers;
pub mod gpx_track;
pub mod raw_gpx;
pub mod timestamp;

use crate::application::SmoothGpxTrack;
use crate::gpx_filepath_port::{GPXFilepathPort, ReadError};
use crate::gpx_track::{smooths_to, GpxTrack, Scalar};
use std::path::Path;
use vstd::prelude::*;

verus! {

/// Smooths the track file at `filepath` into the file at `output`: loads the
/// track through `filepath_adapter`, inserts `number_to_insert` points into
/// each pair of its points as [`GpxTrack::smooth_gpx_track`] does, with
/// `blend` making the numbers of the inserted points, and saves the outcome
/// through the same adapter.
///
/// When the adapter cannot load the track, its error is handed back and
/// nothing is saved.
pub fn smooth_gpx_track<F: GPXFilepathPort, B: Fn(Scalar, Scalar, i32, i32) -> Scalar>(
    filepath_adapter: F,
    filepath: &Path,
    output: &Path,
    number_to_insert: i32,
    blend: B,
) -> (outcome: Result<(), ReadError>)
    requires
        forall|start: Scalar, end: Scalar, step: i32|
            1 <= step <= number_to_insert ==> call_requires(
                blend,
                (start, end, step, number_to_insert),
            ),
    ensures
        match outcome {
            Err(error) => call_ensures(F::load, (&filepath_adapter, filepath), Err(error)),
            Ok(_) => exists|loaded: GpxTrack, saved: GpxTrack|
                call_ensures(F::load, (&filepath_adapter, filepath), Ok(loaded)) && smooths_to(
                    loaded@,
                    number_to_insert as int,
                    blend,
                    saved@,
                ) && call_ensures(F::save, (&filepath_adapter, output, &saved), ()),
        },
{
    let app = SmoothGpxTrack::new(filepath_adapter);
    app.execute(filepath, output, number_to_insert, blend)
}

} // verus!
