use built_with_bevy::color::Rgb8;
use built_with_bevy::options::SplashOptions;
use built_with_bevy::recolor::{bake_svg_fill, rect_svg};
use built_with_bevy::scene::{
    part_fills, part_name, part_setup, part_svg, Ease, SvgSources, BIRD_SOURCE_BG_FILL,
    BIRD_SOURCE_FILL,
};
use built_with_bevy::timeline::Part;

fn rgb(r: u8, g: u8, b: u8) -> Rgb8 {
    Rgb8 { r, g, b }
}

#[test]
fn hex_of_default_background() {
    assert_eq!(rgb(0x23, 0x23, 0x26).to_hex(), "#232326");
}

#[test]
fn hex_is_lower_case_and_zero_padded() {
    assert_eq!(rgb(0, 0x0a, 0xff).to_hex(), "#000aff");
    assert_eq!(rgb(0xec, 0xb2, 0x7f).to_hex(), "#ecb27f");
}

#[test]
fn hex_matches_std_formatting_for_every_byte() {
    for v in 0..=255u8 {
        let c = rgb(v, 255 - v, v / 3);
        let expected = format!("#{:02x}{:02x}{:02x}", c.r, c.g, c.b);
        assert_eq!(c.to_hex(), expected);
    }
}

#[test]
fn distinct_colours_spell_differently() {
    assert_ne!(rgb(1, 2, 3).to_hex(), rgb(1, 2, 4).to_hex());
    assert_ne!(rgb(0x10, 0, 0).to_hex(), rgb(0x01, 0, 0).to_hex());
}

#[test]
fn bake_replaces_every_occurrence() {
    let svg = "fill=\"#ececec\" stroke=\"#ececec\"";
    assert_eq!(
        bake_svg_fill(svg, &[("#ececec", rgb(0xff, 0, 0))]),
        "fill=\"#ff0000\" stroke=\"#ff0000\""
    );
}

#[test]
fn bake_without_placeholder_leaves_text() {
    assert_eq!(bake_svg_fill("<svg/>", &[("#232326", rgb(0, 0, 0))]), "<svg/>");
}

#[test]
fn bake_empty_placeholder_fills_every_source_boundary() {
    assert_eq!(bake_svg_fill("abc", &[("", rgb(0, 0, 0))]), "abc".replace("", "#000000"));
    assert_eq!(bake_svg_fill("", &[("", rgb(0, 0, 0))]), "#000000");
    let fills = [("b", rgb(1, 1, 1)), ("", rgb(2, 2, 2))];
    assert_eq!(bake_svg_fill("bb", &fills), "#020202#010101#020202#010101#020202");
}

#[test]
fn bake_single_fill_agrees_with_std_replace() {
    let cases: [(&str, &str); 8] = [
        ("fill=\"#ececec\" stroke=\"#ececec\"", "#ececec"),
        ("aaaa", "aa"),
        ("aaa", "aa"),
        ("abc", ""),
        ("", ""),
        ("", "a"),
        ("überüber", "über"),
        ("ab", "abc"),
    ];
    for (text, pattern) in cases {
        let c = rgb(0x12, 0x34, 0x56);
        assert_eq!(bake_svg_fill(text, &[(pattern, c)]), text.replace(pattern, "#123456"));
    }
}

#[test]
fn bake_goes_fill_by_fill() {
    let fills = [("b", rgb(1, 1, 1)), ("ab", rgb(2, 2, 2))];
    assert_eq!(bake_svg_fill("ab", &fills), "a#010101");
    let svg = "<svg><rect width=\"1\" height=\"1\" fill=\"#abcdef\"/></svg>";
    let fills = [("#abcdef", rgb(1, 2, 3)), ("1\" fill=\"#abcdef", rgb(4, 5, 6))];
    assert_eq!(
        bake_svg_fill(svg, &fills),
        "<svg><rect width=\"1\" height=\"1\" fill=\"#010203\"/></svg>"
    );
}

#[test]
fn bake_with_source_colours_leaves_svg() {
    let svg = "<b fill=\"#ececec\" bg=\"#232326\"/>";
    let fills = [("#ececec", rgb(0xec, 0xec, 0xec)), ("#232326", rgb(0x23, 0x23, 0x26))];
    assert_eq!(bake_svg_fill(svg, &fills), svg);
}

#[test]
fn bake_first_listed_fill_wins_on_overlap() {
    let fills = [("#ececec", rgb(1, 1, 1)), ("#ececec", rgb(2, 2, 2))];
    assert_eq!(bake_svg_fill("#ececec", &fills), "#010101");
}

#[test]
fn bake_placeholder_may_be_its_own_colour() {
    let text = "#ececec and #ececec#ececec";
    assert_eq!(bake_svg_fill(text, &[("#ececec", rgb(0xec, 0xec, 0xec))]), text);
}

#[test]
fn bake_applies_fills_in_order() {
    let svg = "<path fill=\"#ececec\"/><path fill=\"#232326\"/>";
    let fills = [(BIRD_SOURCE_FILL, rgb(0xff, 0, 0)), (BIRD_SOURCE_BG_FILL, rgb(0, 0, 0xff))];
    assert_eq!(
        bake_svg_fill(svg, &fills),
        "<path fill=\"#ff0000\"/><path fill=\"#0000ff\"/>"
    );
}

#[test]
fn bake_never_rereads_an_inserted_colour() {
    let svg = "<path fill=\"#ececec\"/><path fill=\"#232326\"/>";
    let fills = [("#ececec", rgb(0x23, 0x23, 0x26)), ("#232326", rgb(0, 0, 0))];
    assert_eq!(
        bake_svg_fill(svg, &fills),
        "<path fill=\"#232326\"/><path fill=\"#000000\"/>"
    );
}

#[test]
fn bird_is_drawn_in_its_own_colour() {
    let mut o = SplashOptions::default();
    o.bird_colors[0] = rgb(0x23, 0x23, 0x26);
    o.background_color = rgb(0, 0, 0);
    let sources = SvgSources {
        bird: "<b fill=\"#ececec\" bg=\"#232326\"/>".to_string(),
        built: String::new(),
        with: String::new(),
        bevy_text: String::new(),
    };
    assert_eq!(
        part_svg(Part::BirdFront, &o, &sources),
        "<b fill=\"#232326\" bg=\"#000000\"/>"
    );
}

#[test]
fn bake_without_fills_is_identity() {
    assert_eq!(bake_svg_fill("<svg>#ececec</svg>", &[]), "<svg>#ececec</svg>");
}

#[test]
fn rect_svg_text() {
    assert_eq!(
        rect_svg(rgb(0x23, 0x23, 0x26)),
        "<svg><rect width=\"1\" height=\"1\" fill=\"#232326\"/></svg>"
    );
}

#[test]
fn default_options_are_documented_values() {
    let o = SplashOptions::default();
    assert_eq!(o.background_color, rgb(0x23, 0x23, 0x26));
    assert_eq!(o.splash_camera_order, 9999);
    assert_eq!(
        o.bird_colors,
        [rgb(0xec, 0xec, 0xec), rgb(0xb2, 0xb2, 0xb2), rgb(0x78, 0x78, 0x78)]
    );
    assert_eq!(o.bevy_text_color, rgb(0xec, 0xec, 0xec));
    assert_eq!(o.built_text_color, rgb(0x78, 0x78, 0x7f));
    assert_eq!(o.with_text_color, rgb(0x78, 0x78, 0x7f));
    assert_eq!(o.fade_duration, 600_000_000);
    assert_eq!(o.keyframe_duration, 700_000_000);
    assert_eq!(o.hold_duration, 1_100_000_000);
    let t = o.timing();
    assert_eq!((t.fade, t.keyframe, t.hold), (600_000_000, 700_000_000, 1_100_000_000));
}

#[test]
fn part_setups() {
    let front = part_setup(Part::BirdFront);
    assert!(front.fades);
    assert_eq!(front.keyframe_ease, Some(Ease::BackInOut));
    let middle = part_setup(Part::BirdMiddle);
    assert!(!middle.fades);
    assert_eq!(middle.keyframe_ease, Some(Ease::BackInOut));
    let cutoff = part_setup(Part::Cutoff);
    assert_eq!(cutoff.keyframe_ease, Some(Ease::CubicOut));
    assert!(!cutoff.despawned_with_splash);
    assert!(cutoff.child_of_front_bird);
    let overlay = part_setup(Part::Overlay);
    assert!(overlay.fades);
    assert_eq!(overlay.keyframe_ease, None);
    assert!(overlay.despawned_with_splash);
}

#[test]
fn part_names() {
    assert_eq!(part_name(Part::BirdFront), "Birb 0 (front)");
    assert_eq!(part_name(Part::BirdMiddle), "Birb 1 (middle)");
    assert_eq!(part_name(Part::BirdBack), "Birb 2 (back)");
    assert_eq!(part_name(Part::Built), "'Built' text");
    assert_eq!(part_name(Part::With), "'With' text");
    assert_eq!(part_name(Part::BevyText), "Bevy text");
    assert_eq!(part_name(Part::Cutoff), "Tail/wing cutoff");
    assert_eq!(part_name(Part::Overlay), "Fade-out overlay");
}

#[test]
fn part_fills_follow_options() {
    let mut o = SplashOptions::default();
    o.bird_colors[2] = rgb(0, 0, 0xff);
    let back = part_fills(Part::BirdBack, &o);
    assert_eq!(back, vec![("#ececec", rgb(0, 0, 0xff)), ("#232326", rgb(0x23, 0x23, 0x26))]);
    assert_eq!(part_fills(Part::Built, &o), vec![("#78787f", rgb(0x78, 0x78, 0x7f))]);
    assert!(part_fills(Part::Overlay, &o).is_empty());
}

#[test]
fn part_svgs_are_recoloured_sources() {
    let mut o = SplashOptions::default();
    o.bird_colors[0] = rgb(0xff, 0, 0);
    o.background_color = rgb(0, 0, 0);
    o.with_text_color = rgb(1, 1, 1);
    let sources = SvgSources {
        bird: "<b fill=\"#ececec\" bg=\"#232326\"/>".to_string(),
        built: "<t fill=\"#78787f\"/>".to_string(),
        with: "<w fill=\"#78787f\"/>".to_string(),
        bevy_text: "<v fill=\"#ececec\"/>".to_string(),
    };
    assert_eq!(part_svg(Part::BirdFront, &o, &sources), "<b fill=\"#ff0000\" bg=\"#000000\"/>");
    assert_eq!(part_svg(Part::BirdMiddle, &o, &sources), "<b fill=\"#b2b2b2\" bg=\"#000000\"/>");
    assert_eq!(part_svg(Part::Built, &o, &sources), "<t fill=\"#78787f\"/>");
    assert_eq!(part_svg(Part::With, &o, &sources), "<w fill=\"#010101\"/>");
    assert_eq!(part_svg(Part::BevyText, &o, &sources), "<v fill=\"#ececec\"/>");
    assert_eq!(
        part_svg(Part::Overlay, &o, &sources),
        "<svg><rect width=\"1\" height=\"1\" fill=\"#000000\"/></svg>"
    );
    assert_eq!(part_svg(Part::Cutoff, &o, &sources), part_svg(Part::Overlay, &o, &sources));
}
