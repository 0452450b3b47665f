use vstd::prelude::*;
use crate::color::Rgb8;
use crate::timeline::Timing;

verus! {

/// Customization options for the splashscreen, with colours in 8-bit sRGB
/// and durations in nanoseconds.
#[derive(Clone, Copy, PartialEq, Eq, Debug)]
pub struct SplashOptions {
    /// The background of the splash.
    pub background_color: Rgb8,
    /// The order of the splash's own 2D camera among the cameras.
    pub splash_camera_order: isize,
    /// Colours of the birds, front to back.
    pub bird_colors: [Rgb8; 3],
    /// Colour of the "BEVY" text.
    pub bevy_text_color: Rgb8,
    /// Colour of the "built" text.
    pub built_text_color: Rgb8,
    /// Colour of the "with" text.
    pub with_text_color: Rgb8,
    /// How long each fade takes.
    pub fade_duration: u64,
    /// How long each keyframe takes.
    pub keyframe_duration: u64,
    /// How long the full splash holds before it starts fading.
    pub hold_duration: u64,
}

pub open spec fn rgb(r: u8, g: u8, b: u8) -> Rgb8 {
    Rgb8 { r, g, b }
}

impl Default for SplashOptions {
    /// Background #232326, camera order 9999, birds #ececec, #b2b2b2 and
    /// #787878, "BEVY" #ececec, "built" and "with" #78787f, fades of 0.6 s,
    /// keyframes of 0.7 s and a hold of 1.1 s.
    fn default() -> (o: SplashOptions)
        ensures
            o.background_color == rgb(0x23, 0x23, 0x26),
            o.splash_camera_order == 9999,
            o.bird_colors@ == seq![rgb(0xec, 0xec, 0xec), rgb(0xb2, 0xb2, 0xb2), rgb(0x78, 0x78, 0x78)],
            o.bevy_text_color == rgb(0xec, 0xec, 0xec),
            o.built_text_color == rgb(0x78, 0x78, 0x7f),
            o.with_text_color == rgb(0x78, 0x78, 0x7f),
            o.fade_duration == 600_000_000,
            o.keyframe_duration == 700_000_000,
            o.hold_duration == 1_100_000_000,
    {
        let o = SplashOptions {
            background_color: Rgb8 { r: 0x23, g: 0x23, b: 0x26 },
            splash_camera_order: 9999,
            bird_colors: [
                Rgb8 { r: 0xec, g: 0xec, b: 0xec },
                Rgb8 { r: 0xb2, g: 0xb2, b: 0xb2 },
                Rgb8 { r: 0x78, g: 0x78, b: 0x78 },
            ],
            bevy_text_color: Rgb8 { r: 0xec, g: 0xec, b: 0xec },
            built_text_color: Rgb8 { r: 0x78, g: 0x78, b: 0x7f },
            with_text_color: Rgb8 { r: 0x78, g: 0x78, b: 0x7f },
            fade_duration: 600_000_000,
            keyframe_duration: 700_000_000,
            hold_duration: 1_100_000_000,
        };
        assert(o.bird_colors@ =~= seq![rgb(0xec, 0xec, 0xec), rgb(0xb2, 0xb2, 0xb2), rgb(0x78, 0x78, 0x78)]);
        o
    }
}

impl SplashOptions {
    /// The phase lengths of the animation.
    pub fn timing(&self) -> (t: Timing)
        ensures
            t == (Timing {
                fade: self.fade_duration,
                keyframe: self.keyframe_duration,
                hold: self.hold_duration,
            }),
    {
        Timing { fade: self.fade_duration, keyframe: self.keyframe_duration, hold: self.hold_duration }
    }
}

} // verus!
