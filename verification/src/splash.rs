use vstd::prelude::*;
use crate::clock::{ticked, triggered, Clock};
use crate::readiness::RenderReadiness;
use crate::timeline::{
    build_timeline, due, due_steps, in_window, lemma_consecutive_windows, lemma_empty_window,
    overlay_time, sat_add, timeline, Part, Step, Timing,
};

verus! {

/// The progress of one splash: whether its animation has started, the
/// animation time, and the real time spent waiting for the renderer, both
/// in nanoseconds.
#[derive(Clone, Copy, PartialEq, Eq, Debug)]
pub struct SplashRun {
    pub started: bool,
    pub elapsed: u64,
    pub waited: u64,
}

/// What the app observed in one frame.
#[derive(Clone, Copy, PartialEq, Eq, Debug)]
pub struct Frame {
    /// Virtual time since the last frame.
    pub delta: u64,
    /// Real time since the last frame.
    pub real_delta: u64,
    /// What the renderer has reported.
    pub readiness: RenderReadiness,
    /// The fade clock of the overlay, if the overlay has one.
    pub overlay: Option<Clock>,
}

/// What the app is to do after a frame.
pub struct Dispatch {
    /// The steps to apply, in order.
    pub steps: Vec<Step>,
    /// Whether the splash is over: its entities go and the end is announced.
    pub finished: bool,
    /// Whether the animation started in this frame, the renderer having
    /// become ready.
    pub just_started: bool,
    /// The real time the splash has spent waiting for the renderer.
    pub waited: u64,
}

/// Whether the overlay has faded in fully: its fade has run for the fade
/// duration.
pub open spec fn overlay_covered(overlay: Option<Clock>, fade: u64) -> bool {
    match overlay {
        Some(c) => c.running && c.elapsed >= fade,
        None => false,
    }
}

/// A run that has not started waits this frame for the renderer.
pub open spec fn held_back(r: SplashRun, frame: Frame) -> bool {
    !r.started && !frame.readiness.ready_spec()
}

/// The run after a frame.
pub open spec fn next_run(r: SplashRun, frame: Frame) -> SplashRun {
    let waited: u64 = if r.started { r.waited } else { sat_add(r.waited, frame.real_delta) };
    if held_back(r, frame) {
        SplashRun { started: false, elapsed: r.elapsed, waited }
    } else {
        SplashRun { started: true, elapsed: sat_add(r.elapsed, frame.delta), waited }
    }
}

/// The steps that a frame fires: those of the timeline whose time the
/// animation clock crosses in this frame.
pub open spec fn fired(r: SplashRun, timing: Timing, frame: Frame) -> Seq<Step> {
    if held_back(r, frame) {
        Seq::empty()
    } else {
        due(timeline(timing), r.elapsed, sat_add(r.elapsed, frame.delta))
    }
}

/// Whether the splash ends in this frame.
pub open spec fn finishes(r: SplashRun, timing: Timing, frame: Frame) -> bool {
    !held_back(r, frame) && overlay_covered(frame.overlay, timing.fade)
}

impl SplashRun {
    pub open spec fn fresh() -> SplashRun {
        SplashRun { started: false, elapsed: 0, waited: 0 }
    }

    /// A splash that has just been set up.
    pub fn new() -> (r: SplashRun)
        ensures
            r == SplashRun::fresh(),
    {
        SplashRun { started: false, elapsed: 0, waited: 0 }
    }

    /// Runs one frame of the splash. Until the renderer is ready the
    /// animation waits and only the waiting time grows; from then on the
    /// animation clock advances by the frame time, the timeline steps it
    /// crosses are returned, and the splash is over once the overlay has
    /// faded in for the fade duration.
    pub fn advance(&mut self, timing: &Timing, frame: &Frame) -> (d: Dispatch)
        ensures
            *final(self) == next_run(*old(self), *frame),
            d.steps@ == fired(*old(self), *timing, *frame),
            d.finished == finishes(*old(self), *timing, *frame),
            d.just_started == (!old(self).started && !held_back(*old(self), *frame)),
            d.waited == next_run(*old(self), *frame).waited,
    {
        let was_started = self.started;
        if !self.started {
            self.waited = if self.waited > u64::MAX - frame.real_delta {
                u64::MAX
            } else {
                self.waited + frame.real_delta
            };
            if !frame.readiness.ready() {
                return Dispatch {
                    steps: Vec::new(),
                    finished: false,
                    just_started: false,
                    waited: self.waited,
                };
            }
            self.started = true;
        }
        let last: u64 = self.elapsed;
        self.elapsed = if self.elapsed > u64::MAX - frame.delta {
            u64::MAX
        } else {
            self.elapsed + frame.delta
        };
        let entries = build_timeline(timing);
        let steps = due_steps(&entries, last, self.elapsed);
        let finished = match frame.overlay {
            Some(c) => c.has_run_for(timing.fade),
            None => false,
        };
        Dispatch { steps, finished, just_started: !was_started, waited: self.waited }
    }
}

/// The splash screen: idle, or one splash in progress.
pub struct Splashscreen {
    pub run: Option<SplashRun>,
}

impl Splashscreen {
    /// No splash in progress.
    pub fn new() -> (s: Splashscreen)
        ensures
            s.run.is_none(),
    {
        Splashscreen { run: None }
    }

    /// Whether a splash is in progress.
    pub fn is_running(&self) -> (r: bool)
        ensures
            r == self.run.is_some(),
    {
        self.run.is_some()
    }

    /// A request to play the splash. It is ignored while a splash is in
    /// progress; otherwise a new splash begins. Returns whether one began,
    /// that is whether the app is to set up its entities.
    pub fn start(&mut self) -> (began: bool)
        ensures
            began == old(self).run.is_none(),
            old(self).run.is_some() ==> final(self).run == old(self).run,
            old(self).run.is_none() ==> final(self).run == Some(SplashRun::fresh()),
    {
        if self.run.is_some() {
            false
        } else {
            self.run = Some(SplashRun::new());
            true
        }
    }

    /// A request to end the splash at once. Afterwards no splash is in
    /// progress. Returns whether one was, that is whether the app is to
    /// remove its entities and announce the end.
    pub fn skip(&mut self) -> (ended: bool)
        ensures
            ended == old(self).run.is_some(),
            final(self).run.is_none(),
    {
        let ended = self.run.is_some();
        self.run = None;
        ended
    }

    /// Runs one frame: nothing happens while idle; otherwise the splash
    /// advances, and it is no longer in progress once it finishes.
    pub fn frame(&mut self, timing: &Timing, frame: &Frame) -> (d: Dispatch)
        ensures
            match old(self).run {
                None => {
                    &&& final(self).run.is_none()
                    &&& d.steps@ == Seq::<Step>::empty()
                    &&& !d.finished
                    &&& !d.just_started
                    &&& d.waited == 0
                },
                Some(r) => {
                    &&& d.steps@ == fired(r, *timing, *frame)
                    &&& d.finished == finishes(r, *timing, *frame)
                    &&& d.just_started == (!r.started && !held_back(r, *frame))
                    &&& d.waited == next_run(r, *frame).waited
                    &&& final(self).run == (if d.finished {
                        None
                    } else {
                        Some(next_run(r, *frame))
                    })
                },
            },
    {
        match self.run {
            None => Dispatch { steps: Vec::new(), finished: false, just_started: false, waited: 0 },
            Some(r) => {
                let mut run = r;
                let d = run.advance(timing, frame);
                if d.finished {
                    self.run = None;
                } else {
                    self.run = Some(run);
                }
                d
            },
        }
    }
}

/// Until the renderer is ready a new splash shows nothing: a frame that
/// finds the renderer not ready fires no step, does not move the
/// animation clock and does not end the splash.
pub proof fn lemma_waits_for_renderer(r: SplashRun, timing: Timing, frame: Frame)
    requires
        !r.started,
        !frame.readiness.ready_spec(),
    ensures
        fired(r, timing, frame) == Seq::<Step>::empty(),
        next_run(r, frame).elapsed == r.elapsed,
        !next_run(r, frame).started,
        !finishes(r, timing, frame),
{
}

/// A splash that has not started stays back while any report of the
/// renderer is missing, whichever it is.
pub proof fn lemma_held_back_by_any_missing_report(r: SplashRun, timing: Timing, frame: Frame)
    requires
        !r.started,
        !frame.readiness.window_presented || !frame.readiness.pipelines_idle
            || !frame.readiness.camera_rendered,
    ensures
        fired(r, timing, frame) == Seq::<Step>::empty(),
        next_run(r, frame).elapsed == r.elapsed,
        !next_run(r, frame).started,
        !finishes(r, timing, frame),
{
    crate::readiness::lemma_ready_needs_every_report(frame.readiness);
}

/// Until the animation starts, the waiting time grows by the real time of
/// each frame, up to the counter's limit; from the start on the waiting
/// time stays and the animation clock grows by the virtual frame time.
pub proof fn lemma_waiting_counts_real_time(r: SplashRun, frame: Frame)
    ensures
        !r.started ==> next_run(r, frame).waited == (if r.waited + frame.real_delta <= u64::MAX {
            r.waited + frame.real_delta
        } else {
            u64::MAX as int
        }),
        r.started ==> next_run(r, frame).waited == r.waited,
        r.started ==> next_run(r, frame).elapsed == (if r.elapsed + frame.delta <= u64::MAX {
            r.elapsed + frame.delta
        } else {
            u64::MAX as int
        }),
{
}

/// Once started, a splash stays started, and its animation clock never
/// runs backwards.
pub proof fn lemma_started_stays(r: SplashRun, frame: Frame)
    ensures
        r.started ==> next_run(r, frame).started,
        next_run(r, frame).elapsed >= r.elapsed,
{
}

/// A splash only ends after the overlay fade was triggered and ran for the
/// whole fade duration.
pub proof fn lemma_ends_only_when_covered(r: SplashRun, timing: Timing, frame: Frame)
    requires
        finishes(r, timing, frame),
    ensures
        frame.overlay matches Some(c) && c.running && c.elapsed >= timing.fade,
{
}

/// The run after the frames of `frames`, one after the other.
pub open spec fn run_after(r: SplashRun, frames: Seq<Frame>) -> SplashRun
    decreases frames.len(),
{
    if frames.len() == 0 {
        r
    } else {
        next_run(run_after(r, frames.drop_last()), frames.last())
    }
}

/// The steps fired by the frames of `frames`, one after the other.
pub open spec fn fired_during(r: SplashRun, timing: Timing, frames: Seq<Frame>) -> Seq<Step>
    decreases frames.len(),
{
    if frames.len() == 0 {
        Seq::empty()
    } else {
        fired_during(r, timing, frames.drop_last()) + fired(
            run_after(r, frames.drop_last()),
            timing,
            frames.last(),
        )
    }
}

/// Over any sequence of frames, every timeline step whose time the
/// animation clock crosses fires exactly once, and no other step fires:
/// the frames together fire what one window from the clock's first reading
/// to its last would.
pub proof fn lemma_each_step_fires_once(r: SplashRun, timing: Timing, frames: Seq<Frame>)
    ensures
        r.elapsed <= run_after(r, frames).elapsed,
        fired_during(r, timing, frames).to_multiset() == due(
            timeline(timing),
            r.elapsed,
            run_after(r, frames).elapsed,
        ).to_multiset(),
    decreases frames.len(),
{
    broadcast use vstd::seq_lib::group_to_multiset_ensures, vstd::multiset::group_multiset_axioms;
    if frames.len() == 0 {
        lemma_empty_window(timeline(timing), r.elapsed);
    } else {
        let init = frames.drop_last();
        lemma_each_step_fires_once(r, timing, init);
        let m = run_after(r, init);
        let e = run_after(r, frames);
        let earlier = fired_during(r, timing, init);
        let now = fired(m, timing, frames.last());
        if held_back(m, frames.last()) {
            lemma_empty_window(timeline(timing), m.elapsed);
        }
        assert(now == due(timeline(timing), m.elapsed, e.elapsed));
        lemma_consecutive_windows(timeline(timing), r.elapsed, m.elapsed, e.elapsed);
        vstd::seq_lib::lemma_multiset_commutative(earlier, now);
        vstd::seq_lib::lemma_multiset_commutative(
            due(timeline(timing), r.elapsed, m.elapsed),
            now,
        );
    }
}

/// The frame as the app passes it: with the overlay's fade clock as it
/// stands before the frame.
pub open spec fn with_overlay(f: Frame, overlay: Clock) -> Frame {
    Frame { overlay: Some(overlay), ..f }
}

/// The overlay's fade clock after a frame, as the app moves it: triggered
/// when the frame fires the overlay fade, then ticked by the frame time.
pub open spec fn overlay_after(r: SplashRun, timing: Timing, f: Frame, overlay: Clock) -> Clock {
    let fired_now = fired(r, timing, with_overlay(f, overlay));
    let started = if fired_now.contains(Step::Fade(Part::Overlay)) {
        triggered(overlay)
    } else {
        overlay
    };
    ticked(started, f.delta)
}

/// How the overlay clock stands to the run when every frame takes at most
/// `max_delta`: a run that has not started is at zero; the overlay runs
/// exactly once the animation clock has passed the overlay time; and then
/// it counts from the start of the frame in which that time was passed.
pub open spec fn overlay_in_step(r: SplashRun, overlay: Clock, timing: Timing, max_delta: u64) -> bool {
    let t = overlay_time(timing);
    &&& !r.started ==> r.elapsed == 0
    &&& overlay.running <==> t < r.elapsed
    &&& overlay.running ==> {
        &&& overlay.elapsed <= r.elapsed
        &&& r.elapsed - overlay.elapsed <= t
        &&& r.elapsed - overlay.elapsed + max_delta > t
    }
}

proof fn lemma_due_avoids(entries: Seq<(u64, Step)>, a: u64, b: u64, s: Step)
    requires
        forall|i: int| 0 <= i < entries.len() ==> (#[trigger] entries[i]).1 != s,
    ensures
        !due(entries, a, b).contains(s),
    decreases entries.len(),
{
    if entries.len() > 0 {
        let init = entries.drop_last();
        assert forall|i: int| 0 <= i < init.len() implies (#[trigger] init[i]).1 != s by {
            assert(init[i] == entries[i]);
        }
        lemma_due_avoids(init, a, b, s);
        let d = due(init, a, b);
        assert(entries[entries.len() - 1].1 != s);
        if in_window(entries.last().0, a, b) {
            assert forall|i: int| 0 <= i < d.push(entries.last().1).len() implies d.push(
                entries.last().1,
            )[i] != s by {
                if i < d.len() {
                    assert(d.push(entries.last().1)[i] == d[i]);
                }
            }
        }
    }
}

/// A frame fires the overlay fade exactly when its window holds the
/// overlay time.
pub proof fn lemma_overlay_fade_fires(timing: Timing, a: u64, b: u64)
    ensures
        due(timeline(timing), a, b).contains(Step::Fade(Part::Overlay)) <==> in_window(
            overlay_time(timing),
            a,
            b,
        ),
{
    let e = timeline(timing);
    let init = e.drop_last();
    assert forall|i: int| 0 <= i < init.len() implies (#[trigger] init[i]).1 != Step::Fade(
        Part::Overlay,
    ) by {
        assert(init[i] == e[i]);
    }
    lemma_due_avoids(init, a, b, Step::Fade(Part::Overlay));
    let d = due(init, a, b);
    if in_window(overlay_time(timing), a, b) {
        assert(d.push(Step::Fade(Part::Overlay))[d.len() as int] == Step::Fade(Part::Overlay));
    }
}

/// A new splash with an untriggered overlay starts in step.
pub proof fn lemma_overlay_starts_in_step(timing: Timing, max_delta: u64)
    ensures
        overlay_in_step(SplashRun::fresh(), Clock { running: false, elapsed: 0 }, timing, max_delta),
{
}

/// Each frame keeps the overlay clock in step with the run, as long as the
/// frame takes at most `max_delta` and the animation clock stays within
/// its counter.
pub proof fn lemma_overlay_stays_in_step(
    r: SplashRun,
    overlay: Clock,
    timing: Timing,
    f: Frame,
    max_delta: u64,
)
    requires
        overlay_in_step(r, overlay, timing, max_delta),
        f.delta <= max_delta,
        r.elapsed + f.delta <= u64::MAX,
    ensures
        overlay_in_step(
            next_run(r, with_overlay(f, overlay)),
            overlay_after(r, timing, f, overlay),
            timing,
            max_delta,
        ),
{
    let g = with_overlay(f, overlay);
    if !held_back(r, g) {
        lemma_overlay_fade_fires(timing, r.elapsed, sat_add(r.elapsed, f.delta));
    }
}

/// With the overlay clock in step, the splash ends in the frame where the
/// overlay has faded in for the fade duration: never before the animation
/// clock is within one frame of the overlay time plus the fade duration,
/// and at the latest in the first frame that starts once both have passed.
pub proof fn lemma_ends_after_overlay_fade(
    r: SplashRun,
    overlay: Clock,
    timing: Timing,
    f: Frame,
    max_delta: u64,
)
    requires
        overlay_in_step(r, overlay, timing, max_delta),
    ensures
        finishes(r, timing, with_overlay(f, overlay)) ==> r.elapsed + max_delta > overlay_time(timing)
            + timing.fade,
        (!held_back(r, f) && r.elapsed > overlay_time(timing) && r.elapsed >= overlay_time(timing)
            + timing.fade) ==> finishes(r, timing, with_overlay(f, overlay)),
{
}

} // verus!
