//! The viewer: the video stream, the client-side cursor, guest input and presentation.
pub mod arrivals;
pub mod cli;
pub mod compose;
pub mod decoder;
pub mod headless;
pub mod input;
pub mod stream;
pub mod window;
