//! Records geometric drawing operations (points, segments, rays) and replays
//! them onto typed canvases one step at a time.

pub mod canvas;
pub mod events;
pub mod halt;
pub mod output;

pub use canvas::{Points, Segs};
pub use output::Output;
