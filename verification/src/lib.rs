//! The decisions of the "Built with Bevy" splashscreen: the timeline of the
//! animation, the state of a running splash, render readiness, the clocks
//! of fades and keyframes, and the recolouring of the bundled SVG sources.

mod text;
pub mod color;
pub mod recolor;
pub mod timeline;
pub mod clock;
pub mod readiness;
pub mod splash;
pub mod options;
pub mod scene;
