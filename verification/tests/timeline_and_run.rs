use built_with_bevy::clock::Clock;
use built_with_bevy::options::SplashOptions;
use built_with_bevy::readiness::RenderReadiness;
use built_with_bevy::splash::{Frame, SplashRun, Splashscreen};
use built_with_bevy::timeline::{build_timeline, due_steps, Part, Step, Timing};

const MS: u64 = 1_000_000;

fn timing() -> Timing {
    SplashOptions::default().timing()
}

fn frame(delta_ms: u64, ready: bool, overlay: Option<Clock>) -> Frame {
    let readiness = if ready { RenderReadiness::all_ready() } else { RenderReadiness::unknown() };
    Frame { delta: delta_ms * MS, real_delta: delta_ms * MS, readiness, overlay }
}

#[test]
fn timeline_of_default_timing() {
    let t = build_timeline(&timing());
    assert_eq!(t.len(), 12);
    assert_eq!(t[0], (0, Step::Fade(Part::BirdFront)));
    assert_eq!(t[3], (0, Step::Fade(Part::BevyText)));
    assert_eq!(t[4], (600 * MS, Step::Show(Part::Cutoff)));
    assert_eq!(t[10], (600 * MS, Step::Keyframe(Part::BirdFront)));
    assert_eq!(t[11], (2400 * MS, Step::Fade(Part::Overlay)));
    for i in 1..t.len() {
        assert!(t[i - 1].0 <= t[i].0);
    }
}

#[test]
fn overlay_time_saturates() {
    let t = build_timeline(&Timing { fade: u64::MAX - 1, keyframe: 5, hold: 7 });
    assert_eq!(t[11].0, u64::MAX);
}

#[test]
fn window_includes_start_excludes_end() {
    let t = build_timeline(&timing());
    assert_eq!(due_steps(&t, 0, 0), vec![]);
    assert_eq!(
        due_steps(&t, 0, 1),
        vec![
            Step::Fade(Part::BirdFront),
            Step::Fade(Part::Built),
            Step::Fade(Part::With),
            Step::Fade(Part::BevyText)
        ]
    );
    assert_eq!(due_steps(&t, 1, 600 * MS), vec![]);
    assert_eq!(due_steps(&t, 600 * MS, 600 * MS + 1).len(), 7);
    assert_eq!(due_steps(&t, 2400 * MS, 2400 * MS + 1), vec![Step::Fade(Part::Overlay)]);
}

#[test]
fn consecutive_frames_fire_each_step_once() {
    let t = build_timeline(&timing());
    let mut all = Vec::new();
    let mut last = 0;
    for now in (0..=3000u64).step_by(17) {
        all.extend(due_steps(&t, last, now * MS));
        last = now * MS;
    }
    let whole = due_steps(&t, 0, last);
    assert_eq!(whole.len(), 12);
    assert_eq!(all, whole);
}

#[test]
fn clock_counts_from_trigger() {
    let mut c = Clock::new();
    c.tick(5);
    assert_eq!(c, Clock { running: false, elapsed: 0 });
    c.trigger();
    c.tick(5);
    c.tick(7);
    assert_eq!(c, Clock { running: true, elapsed: 12 });
    assert!(c.has_run_for(12));
    assert!(!c.has_run_for(13));
    c.trigger();
    assert_eq!(c, Clock { running: true, elapsed: 0 });
    c.tick(u64::MAX);
    c.tick(1);
    assert_eq!(c.elapsed, u64::MAX);
}

#[test]
fn clock_sums_any_sequence_of_frames() {
    let mut c = Clock { running: false, elapsed: 99 };
    c.trigger();
    let deltas = [3u64, 0, 10, 7, 16, 16];
    for d in deltas {
        c.tick(d);
    }
    assert_eq!(c, Clock { running: true, elapsed: deltas.iter().sum() });
    let mut idle = Clock { running: false, elapsed: 4 };
    for d in deltas {
        idle.tick(d);
    }
    assert_eq!(idle, Clock { running: false, elapsed: 4 });
}

#[test]
fn dispatch_reports_start_and_waiting_time() {
    let mut s = Splashscreen::new();
    let d = s.frame(&timing(), &frame(10, true, None));
    assert!(!d.just_started);
    assert_eq!(d.waited, 0);
    s.start();
    let d = s.frame(&timing(), &frame(10, false, None));
    assert!(!d.just_started);
    assert_eq!(d.waited, 10 * MS);
    let d = s.frame(&timing(), &frame(20, true, None));
    assert!(d.just_started);
    assert_eq!(d.waited, 30 * MS);
    let d = s.frame(&timing(), &frame(20, true, None));
    assert!(!d.just_started);
    assert_eq!(d.waited, 30 * MS);
}

#[test]
fn readiness_observation() {
    let r = RenderReadiness::observe(&vec![true, false], 0, 1);
    assert!(r.ready());
    let r = RenderReadiness::observe(&vec![true, true], 0, 1);
    assert!(!r.window_presented);
    assert!(!r.ready());
    let r = RenderReadiness::observe(&vec![], 0, 1);
    assert!(!r.window_presented);
    let r = RenderReadiness::observe(&vec![false], 2, 1);
    assert!(!r.pipelines_idle);
    let r = RenderReadiness::observe(&vec![false], 0, 0);
    assert!(!r.camera_rendered);
    assert!(!RenderReadiness::initial(true).ready());
    assert!(RenderReadiness::initial(false).ready());
    assert_eq!(RenderReadiness::initial(true), RenderReadiness::unknown());
}

#[test]
fn start_is_ignored_while_running() {
    let mut s = Splashscreen::new();
    assert!(!s.is_running());
    assert!(s.start());
    let d = s.frame(&timing(), &frame(16, true, None));
    assert_eq!(d.steps.len(), 4);
    let before = s.run;
    assert!(!s.start());
    assert_eq!(s.run, before);
}

#[test]
fn skip_ends_a_running_splash_only() {
    let mut s = Splashscreen::new();
    assert!(!s.skip());
    assert!(s.start());
    assert!(s.skip());
    assert!(!s.is_running());
    assert!(!s.skip());
    assert!(s.start());
    assert_eq!(s.run, Some(SplashRun { started: false, elapsed: 0, waited: 0 }));
}

#[test]
fn idle_frame_does_nothing() {
    let mut s = Splashscreen::new();
    let d = s.frame(&timing(), &frame(16, true, Some(Clock { running: true, elapsed: u64::MAX })));
    assert!(d.steps.is_empty());
    assert!(!d.finished);
    assert!(!s.is_running());
}

#[test]
fn splash_waits_for_renderer() {
    let mut s = Splashscreen::new();
    s.start();
    for _ in 0..3 {
        let d = s.frame(&timing(), &frame(10, false, Some(Clock { running: true, elapsed: u64::MAX })));
        assert!(d.steps.is_empty());
        assert!(!d.finished);
    }
    assert_eq!(s.run, Some(SplashRun { started: false, elapsed: 0, waited: 30 * MS }));
    let d = s.frame(&timing(), &frame(10, true, None));
    assert_eq!(d.steps.len(), 4);
    assert_eq!(s.run, Some(SplashRun { started: true, elapsed: 10 * MS, waited: 40 * MS }));
    // once started, readiness no longer matters and waiting stops counting
    let d = s.frame(&timing(), &frame(600, false, None));
    assert_eq!(d.steps.len(), 7);
    assert_eq!(s.run, Some(SplashRun { started: true, elapsed: 610 * MS, waited: 40 * MS }));
}

#[test]
fn full_run_ends_after_overlay_fade() {
    let t = timing();
    let mut s = Splashscreen::new();
    s.start();
    let mut overlay = Clock::new();
    let mut fired = Vec::new();
    let mut frames = 0;
    loop {
        frames += 1;
        assert!(frames < 1000);
        let run_clock = s.run.map(|r| r.elapsed).unwrap_or(0);
        let d = s.frame(&t, &frame(16, true, Some(overlay)));
        if d.finished {
            // ends within one frame of the overlay time plus the fade
            assert!(run_clock + 16 * MS > 3000 * MS);
            assert!(run_clock < 3000 * MS + 16 * MS);
        }
        // as the app does: the overlay fade step triggers the clock, then
        // the frame time passes
        for step in &d.steps {
            if *step == Step::Fade(Part::Overlay) {
                overlay.trigger();
            }
        }
        overlay.tick(16 * MS);
        fired.extend(d.steps);
        if d.finished {
            break;
        }
    }
    assert_eq!(fired.len(), 12);
    assert_eq!(fired[11], Step::Fade(Part::Overlay));
    assert!(!s.is_running());
    // overlay starts at 2.4 s, then needs 0.6 s of fade: ends near 3 s
    assert!(frames * 16 >= 3000);
    assert!(frames * 16 <= 3000 + 2 * 16);
}

#[test]
fn finishes_on_covered_overlay_even_without_steps() {
    let mut s = Splashscreen::new();
    s.start();
    let d = s.frame(&timing(), &frame(0, true, Some(Clock { running: true, elapsed: 600 * MS })));
    assert!(d.steps.is_empty());
    assert!(d.finished);
    assert!(!s.is_running());
    let mut s = Splashscreen::new();
    s.start();
    let d = s.frame(&timing(), &frame(0, true, Some(Clock { running: false, elapsed: 600 * MS })));
    assert!(!d.finished);
    let d = s.frame(&timing(), &frame(0, true, Some(Clock { running: true, elapsed: 599 * MS })));
    assert!(!d.finished);
}

#[test]
fn run_advance_directly() {
    let mut r = SplashRun::new();
    let d = r.advance(&timing(), &frame(2500, true, None));
    assert_eq!(d.steps.len(), 12);
    assert!(!d.finished);
    assert_eq!(r, SplashRun { started: true, elapsed: 2500 * MS, waited: 2500 * MS });
}
