use vstd::prelude::*;
use crate::color::Rgb8;
use crate::options::SplashOptions;
use crate::recolor::{bake_svg_fill, lemma_lone_placeholder, rect_prefix, rect_suffix, recolored, rect_svg};
use crate::color::color_hex_spec;
use crate::timeline::{has_step, lemma_timeline_parts, Part, Step, Timing};

verus! {

/// The fill of the bird body in the bundled bird SVG.
pub const BIRD_SOURCE_FILL: &'static str = "#ececec";
/// The fill of the bird outline in the bundled bird SVG, the background colour.
pub const BIRD_SOURCE_BG_FILL: &'static str = "#232326";
/// The fill of the bundled "BEVY" SVG.
pub const BEVY_TEXT_SOURCE_FILL: &'static str = "#ececec";
/// The fill of the bundled "built" SVG.
pub const BUILT_TEXT_SOURCE_FILL: &'static str = "#78787f";
/// The fill of the bundled "with" SVG.
pub const WITH_TEXT_SOURCE_FILL: &'static str = "#78787f";

/// The easing of a keyframe animation.
#[derive(Clone, Copy, PartialEq, Eq, Structural, Debug)]
pub enum Ease {
    CubicOut,
    BackInOut,
}

/// How a part is set up when a splash begins.
#[derive(Clone, Copy, PartialEq, Eq, Structural, Debug)]
pub struct PartSetup {
    /// The part fades in, from transparent to opaque.
    pub fades: bool,
    /// The part moves along a keyframe, with this easing.
    pub keyframe_ease: Option<Ease>,
    /// The part is removed directly when the splash ends; the cutoff is not,
    /// it goes with the front bird, its parent.
    pub despawned_with_splash: bool,
    /// The part hangs under the front bird.
    pub child_of_front_bird: bool,
}

/// The setup of each part.
pub open spec fn part_setup_spec(part: Part) -> PartSetup {
    match part {
        Part::BirdFront => PartSetup {
            fades: true,
            keyframe_ease: Some(Ease::BackInOut),
            despawned_with_splash: true,
            child_of_front_bird: false,
        },
        Part::BirdMiddle | Part::BirdBack => PartSetup {
            fades: false,
            keyframe_ease: Some(Ease::BackInOut),
            despawned_with_splash: true,
            child_of_front_bird: false,
        },
        Part::Built | Part::With | Part::BevyText | Part::Overlay => PartSetup {
            fades: true,
            keyframe_ease: None,
            despawned_with_splash: true,
            child_of_front_bird: false,
        },
        Part::Cutoff => PartSetup {
            fades: false,
            keyframe_ease: Some(Ease::CubicOut),
            despawned_with_splash: false,
            child_of_front_bird: true,
        },
    }
}

/// How the part is set up when a splash begins.
pub fn part_setup(part: Part) -> (s: PartSetup)
    ensures
        s == part_setup_spec(part),
{
    match part {
        Part::BirdFront => PartSetup {
            fades: true,
            keyframe_ease: Some(Ease::BackInOut),
            despawned_with_splash: true,
            child_of_front_bird: false,
        },
        Part::BirdMiddle | Part::BirdBack => PartSetup {
            fades: false,
            keyframe_ease: Some(Ease::BackInOut),
            despawned_with_splash: true,
            child_of_front_bird: false,
        },
        Part::Built | Part::With | Part::BevyText | Part::Overlay => PartSetup {
            fades: true,
            keyframe_ease: None,
            despawned_with_splash: true,
            child_of_front_bird: false,
        },
        Part::Cutoff => PartSetup {
            fades: false,
            keyframe_ease: Some(Ease::CubicOut),
            despawned_with_splash: false,
            child_of_front_bird: true,
        },
    }
}

/// The entity name of each part.
pub open spec fn part_name_spec(part: Part) -> Seq<char> {
    match part {
        Part::BirdFront => "Birb 0 (front)"@,
        Part::BirdMiddle => "Birb 1 (middle)"@,
        Part::BirdBack => "Birb 2 (back)"@,
        Part::Built => "'Built' text"@,
        Part::With => "'With' text"@,
        Part::BevyText => "Bevy text"@,
        Part::Cutoff => "Tail/wing cutoff"@,
        Part::Overlay => "Fade-out overlay"@,
    }
}

/// The entity name of the part.
pub fn part_name(part: Part) -> (name: &'static str)
    ensures
        name@ == part_name_spec(part),
{
    match part {
        Part::BirdFront => "Birb 0 (front)",
        Part::BirdMiddle => "Birb 1 (middle)",
        Part::BirdBack => "Birb 2 (back)",
        Part::Built => "'Built' text",
        Part::With => "'With' text",
        Part::BevyText => "Bevy text",
        Part::Cutoff => "Tail/wing cutoff",
        Part::Overlay => "Fade-out overlay",
    }
}

/// The bundled SVG sources, with their placeholder colours.
pub struct SvgSources {
    pub bird: String,
    pub built: String,
    pub with: String,
    pub bevy_text: String,
}

/// The placeholder colours of a part's source and the colours that replace
/// them, in the order in which they are applied.
pub open spec fn part_fills_spec(part: Part, o: SplashOptions) -> Seq<(&'static str, Rgb8)> {
    match part {
        Part::BirdFront => seq![(BIRD_SOURCE_FILL, o.bird_colors@[0]), (BIRD_SOURCE_BG_FILL, o.background_color)],
        Part::BirdMiddle => seq![(BIRD_SOURCE_FILL, o.bird_colors@[1]), (BIRD_SOURCE_BG_FILL, o.background_color)],
        Part::BirdBack => seq![(BIRD_SOURCE_FILL, o.bird_colors@[2]), (BIRD_SOURCE_BG_FILL, o.background_color)],
        Part::Built => seq![(BUILT_TEXT_SOURCE_FILL, o.built_text_color)],
        Part::With => seq![(WITH_TEXT_SOURCE_FILL, o.with_text_color)],
        Part::BevyText => seq![(BEVY_TEXT_SOURCE_FILL, o.bevy_text_color)],
        Part::Cutoff | Part::Overlay => Seq::empty(),
    }
}

/// The placeholder colours of a part's source and their replacements.
pub fn part_fills(part: Part, options: &SplashOptions) -> (fills: Vec<(&'static str, Rgb8)>)
    ensures
        fills@ == part_fills_spec(part, *options),
{
    let fills = match part {
        Part::BirdFront => vec![(BIRD_SOURCE_FILL, options.bird_colors[0]), (BIRD_SOURCE_BG_FILL, options.background_color)],
        Part::BirdMiddle => vec![(BIRD_SOURCE_FILL, options.bird_colors[1]), (BIRD_SOURCE_BG_FILL, options.background_color)],
        Part::BirdBack => vec![(BIRD_SOURCE_FILL, options.bird_colors[2]), (BIRD_SOURCE_BG_FILL, options.background_color)],
        Part::Built => vec![(BUILT_TEXT_SOURCE_FILL, options.built_text_color)],
        Part::With => vec![(WITH_TEXT_SOURCE_FILL, options.with_text_color)],
        Part::BevyText => vec![(BEVY_TEXT_SOURCE_FILL, options.bevy_text_color)],
        Part::Cutoff | Part::Overlay => Vec::new(),
    };
    assert(fills@ =~= part_fills_spec(part, *options));
    fills
}

/// The SVG text of a part: the bundled source recoloured with the options,
/// or, for the cutoff and the overlay, a square of the background colour.
pub open spec fn part_svg_spec(part: Part, o: SplashOptions, sources: SvgSources) -> Seq<char> {
    match part {
        Part::BirdFront | Part::BirdMiddle | Part::BirdBack => recolored(sources.bird@, part_fills_spec(part, o)),
        Part::Built => recolored(sources.built@, part_fills_spec(part, o)),
        Part::With => recolored(sources.with@, part_fills_spec(part, o)),
        Part::BevyText => recolored(sources.bevy_text@, part_fills_spec(part, o)),
        Part::Cutoff | Part::Overlay => rect_prefix() + color_hex_spec(o.background_color) + rect_suffix(),
    }
}

/// The SVG text of a part, ready to be parsed.
pub fn part_svg(part: Part, options: &SplashOptions, sources: &SvgSources) -> (svg: String)
    ensures
        svg@ == part_svg_spec(part, *options, *sources),
{
    let fills = part_fills(part, options);
    match part {
        Part::BirdFront | Part::BirdMiddle | Part::BirdBack => bake_svg_fill(sources.bird.as_str(), fills.as_slice()),
        Part::Built => bake_svg_fill(sources.built.as_str(), fills.as_slice()),
        Part::With => bake_svg_fill(sources.with.as_str(), fills.as_slice()),
        Part::BevyText => bake_svg_fill(sources.bevy_text.as_str(), fills.as_slice()),
        Part::Cutoff | Part::Overlay => rect_svg(options.background_color),
    }
}

/// The setup of the parts fits the timeline: a part is set up to fade in
/// exactly when the timeline fades it in, and is otherwise shown by the
/// timeline; a part is set up with a keyframe exactly when the timeline
/// moves it. So no step finds its part unprepared, and no part is left
/// hidden.
pub proof fn lemma_setup_fits_timeline(t: Timing, p: Part)
    ensures
        part_setup_spec(p).fades <==> has_step(t, Step::Fade(p)),
        !part_setup_spec(p).fades <==> has_step(t, Step::Show(p)),
        part_setup_spec(p).keyframe_ease is Some <==> has_step(t, Step::Keyframe(p)),
{
    lemma_timeline_parts(t, p);
}

/// Every part goes when the splash ends: removed with the splash, or hung
/// under the front bird, which is removed with the splash.
pub proof fn lemma_every_part_goes(p: Part)
    ensures
        part_setup_spec(p).despawned_with_splash || part_setup_spec(p).child_of_front_bird,
        part_setup_spec(Part::BirdFront).despawned_with_splash,
{
}

/// The bird of index `i`, front to back.
pub open spec fn bird(i: int) -> Part {
    if i == 0 {
        Part::BirdFront
    } else if i == 1 {
        Part::BirdMiddle
    } else {
        Part::BirdBack
    }
}

/// Each bird is the bird source recoloured with its own colour from the
/// options, front to back, over the background colour.
pub proof fn lemma_bird_svg(i: int, o: SplashOptions, sources: SvgSources)
    requires
        0 <= i < 3,
    ensures
        part_svg_spec(bird(i), o, sources) == recolored(
            sources.bird@,
            seq![(BIRD_SOURCE_FILL, o.bird_colors@[i]), (BIRD_SOURCE_BG_FILL, o.background_color)],
        ),
{
}

/// Where the bird source is just its body placeholder, bird `i` comes out
/// in exactly its own colour from the options.
pub proof fn lemma_bird_body_colour(i: int, o: SplashOptions, sources: SvgSources)
    requires
        0 <= i < 3,
        sources.bird@ == BIRD_SOURCE_FILL@,
    ensures
        part_svg_spec(bird(i), o, sources) == color_hex_spec(o.bird_colors@[i]),
{
    reveal_strlit("#ececec");
    reveal_strlit("#232326");
    let later = seq![(BIRD_SOURCE_BG_FILL, o.background_color)];
    assert(later[0].0@.len() > 0);
    lemma_lone_placeholder((BIRD_SOURCE_FILL, o.bird_colors@[i]), later);
    assert(seq![(BIRD_SOURCE_FILL, o.bird_colors@[i])] + later =~= seq![
        (BIRD_SOURCE_FILL, o.bird_colors@[i]),
        (BIRD_SOURCE_BG_FILL, o.background_color),
    ]);
}

/// Where a text source is just its placeholder, the text comes out in
/// exactly its own colour from the options.
pub proof fn lemma_text_colours(o: SplashOptions, sources: SvgSources)
    ensures
        sources.built@ == BUILT_TEXT_SOURCE_FILL@ ==> part_svg_spec(Part::Built, o, sources)
            == color_hex_spec(o.built_text_color),
        sources.with@ == WITH_TEXT_SOURCE_FILL@ ==> part_svg_spec(Part::With, o, sources)
            == color_hex_spec(o.with_text_color),
        sources.bevy_text@ == BEVY_TEXT_SOURCE_FILL@ ==> part_svg_spec(Part::BevyText, o, sources)
            == color_hex_spec(o.bevy_text_color),
{
    reveal_strlit("#ececec");
    reveal_strlit("#78787f");
    let none = Seq::<(&str, Rgb8)>::empty();
    lemma_lone_placeholder((BUILT_TEXT_SOURCE_FILL, o.built_text_color), none);
    lemma_lone_placeholder((WITH_TEXT_SOURCE_FILL, o.with_text_color), none);
    lemma_lone_placeholder((BEVY_TEXT_SOURCE_FILL, o.bevy_text_color), none);
    assert(seq![(BUILT_TEXT_SOURCE_FILL, o.built_text_color)] + none =~= seq![(BUILT_TEXT_SOURCE_FILL, o.built_text_color)]);
    assert(seq![(WITH_TEXT_SOURCE_FILL, o.with_text_color)] + none =~= seq![(WITH_TEXT_SOURCE_FILL, o.with_text_color)]);
    assert(seq![(BEVY_TEXT_SOURCE_FILL, o.bevy_text_color)] + none =~= seq![(BEVY_TEXT_SOURCE_FILL, o.bevy_text_color)]);
}

/// The cutoff and the overlay are squares of the background colour.
pub proof fn lemma_cover_colour(o: SplashOptions, sources: SvgSources)
    ensures
        part_svg_spec(Part::Cutoff, o, sources) == rect_prefix() + color_hex_spec(o.background_color)
            + rect_suffix(),
        part_svg_spec(Part::Overlay, o, sources) == part_svg_spec(Part::Cutoff, o, sources),
{
}

/// Each part has a name of its own, and the birds are numbered front to
/// back: bird `i` is called "Birb i" and then its place.
pub proof fn lemma_part_names(p: Part, q: Part, i: int)
    requires
        0 <= i < 3,
    ensures
        p != q ==> part_name_spec(p) != part_name_spec(q),
        part_name_spec(bird(i)).take(5) == "Birb "@,
        part_name_spec(bird(i))[5] == (48 + i) as char,
{
    reveal_strlit("Birb 0 (front)");
    reveal_strlit("Birb 1 (middle)");
    reveal_strlit("Birb 2 (back)");
    reveal_strlit("'Built' text");
    reveal_strlit("'With' text");
    reveal_strlit("Bevy text");
    reveal_strlit("Tail/wing cutoff");
    reveal_strlit("Fade-out overlay");
    reveal_strlit("Birb ");
    assert(part_name_spec(bird(i)).take(5) =~= "Birb "@);
    if p != q && part_name_spec(p) == part_name_spec(q) {
        assert(part_name_spec(p)[0] == part_name_spec(q)[0]);
        assert(part_name_spec(p)[5] == part_name_spec(q)[5]);
    }
}

} // verus!
