//! The boundary to the file system: what loads a track from a path and saves
//! one to a path, and how loading can fail.

use crate::gpx_track::GpxTrack;
use std::path::Path;
use vstd::prelude::*;
use vstd::string::*;

verus! {

/// `std::io::Error`, the error that the standard library reports for a failed
/// read. Declared so that [`ReadError::Io`] can carry one; nothing is claimed
/// of what it holds.
#[verifier::external_type_specification]
#[verifier::external_body]
pub struct ExIoError(std::io::Error);

/// `std::path::Path`, a location in the file system. Declared so that paths
/// can be handed through to an adapter; nothing is claimed of what one holds.
#[verifier::external_type_specification]
#[verifier::external_body]
pub struct ExPath(std::path::Path);

/// Why a track could not be loaded.
#[derive(Debug)]
pub enum ReadError {
    /// The file could not be read.
    Io(std::io::Error),
    /// The file was read and is no well-formed track file; the text says why.
    Parse(String),
}

impl ReadError {
    /// The error in words: `IO error: ` or `Parse error: `, and behind it the
    /// cause. For a failed read the cause is the text that the operating
    /// system's error displays.
    pub fn message(&self) -> (text: String)
        ensures
            match self {
                ReadError::Io(error) => exists|cause: String|
                    to_string_from_display_ensures(error, cause) && text@ == "IO error: "@
                        + cause@,
                ReadError::Parse(reason) => text@ == "Parse error: "@ + reason@,
            },
    {
        match self {
            ReadError::Io(error) => {
                let cause = error.to_string();
                String::from_str("IO error: ").concat(cause.as_str())
            },
            ReadError::Parse(reason) => String::from_str("Parse error: ").concat(reason.as_str()),
        }
    }
}

/// Loads tracks from files and saves tracks to files.
///
/// Nothing is promised of an implementation: what `load` hands back depends on
/// what is stored at the path.
pub trait GPXFilepathPort {
    /// The track stored at `file_path`, or why it could not be loaded.
    fn load(&self, file_path: &Path) -> Result<GpxTrack, ReadError>;

    /// Stores `gpx_track` at `file_path`.
    fn save(&self, file_path: &Path, gpx_track: &GpxTrack);
}

} // verus!
