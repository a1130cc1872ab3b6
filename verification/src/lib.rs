//! Planning and supervising the trimming of video files with an outside
//! transcoder.
//!
//! For one file the work runs through these modules: `calc_duration` reads
//! the length of the source from the duration probe; `detect_frame` finds a
//! cut point in the log of a frame comparison; `batch` chooses the trim
//! expressions; `window` resolves them to the boundaries of the clip;
//! `command` builds the transcoder's arguments; `monitor` follows the
//! transcoder's diagnostic stream. Nothing here starts a process or touches
//! a file: every function takes and returns plain values.
//!
//! Times are whole microseconds (`seconds`), texts are sequences of
//! characters (`text`).

pub mod batch;
pub mod calc_duration;
pub mod command;
pub mod detect_frame;
pub mod error;
pub mod helpers;
pub mod make_screenshot;
pub mod monitor;
pub mod seconds;
pub mod text;
pub mod window;
