use vstd::prelude::*;

verus! {

/// The pieces of the splash that the timeline acts on.
#[derive(Clone, Copy, PartialEq, Eq, Structural, Debug)]
pub enum Part {
    /// The front bird, which carries the wing cutoff.
    BirdFront,
    BirdMiddle,
    BirdBack,
    /// The "built" text.
    Built,
    /// The "with" text.
    With,
    /// The "BEVY" text.
    BevyText,
    /// The background-coloured rectangle that hides the front bird's tail.
    Cutoff,
    /// The full-screen rectangle that fades in at the end.
    Overlay,
}

/// An action on the splash timeline.
#[derive(Clone, Copy, PartialEq, Eq, Structural, Debug)]
pub enum Step {
    /// Make the part visible and start its fade.
    Fade(Part),
    /// Start the part's keyframe animation.
    Keyframe(Part),
    /// Make the part visible.
    Show(Part),
}

/// The three phase lengths of the animation, in nanoseconds.
#[derive(Clone, Copy, PartialEq, Eq, Debug)]
pub struct Timing {
    /// How long each fade takes.
    pub fade: u64,
    /// How long each keyframe takes.
    pub keyframe: u64,
    /// How long the full splash holds before it fades out.
    pub hold: u64,
}

/// Addition that stops at `u64::MAX`.
pub open spec fn sat_add(a: u64, b: u64) -> u64 {
    if a + b > u64::MAX {
        u64::MAX
    } else {
        (a + b) as u64
    }
}

/// The time at which the overlay starts to fade in: after the first fade,
/// the keyframes and the hold.
pub open spec fn overlay_time(t: Timing) -> u64 {
    sat_add(t.fade, sat_add(t.keyframe, t.hold))
}

/// Every step of the splash with the time at which it is due, in the order
/// in which steps due in the same frame are applied.
pub open spec fn timeline(t: Timing) -> Seq<(u64, Step)> {
    let f: u64 = t.fade;
    seq![
        (0u64, Step::Fade(Part::BirdFront)),
        (0u64, Step::Fade(Part::Built)),
        (0u64, Step::Fade(Part::With)),
        (0u64, Step::Fade(Part::BevyText)),
        (f, Step::Show(Part::Cutoff)),
        (f, Step::Show(Part::BirdMiddle)),
        (f, Step::Show(Part::BirdBack)),
        (f, Step::Keyframe(Part::BirdMiddle)),
        (f, Step::Keyframe(Part::BirdBack)),
        (f, Step::Keyframe(Part::Cutoff)),
        (f, Step::Keyframe(Part::BirdFront)),
        (overlay_time(t), Step::Fade(Part::Overlay)),
    ]
}

/// Whether a time falls in the frame window that runs from `last`
/// (included) to `now` (excluded).
pub open spec fn in_window(time: u64, last: u64, now: u64) -> bool {
    last <= time && time < now
}

/// The steps of `entries` whose time falls in the window, in order.
pub open spec fn due(entries: Seq<(u64, Step)>, last: u64, now: u64) -> Seq<Step>
    decreases entries.len(),
{
    if entries.len() == 0 {
        Seq::empty()
    } else {
        let rest = due(entries.drop_last(), last, now);
        if in_window(entries.last().0, last, now) {
            rest.push(entries.last().1)
        } else {
            rest
        }
    }
}

fn saturating_add(a: u64, b: u64) -> (r: u64)
    ensures
        r == sat_add(a, b),
{
    if a > u64::MAX - b {
        u64::MAX
    } else {
        a + b
    }
}

/// The splash timeline for the given phase lengths.
pub fn build_timeline(timing: &Timing) -> (v: Vec<(u64, Step)>)
    ensures
        v@ == timeline(*timing),
{
    let f: u64 = timing.fade;
    let overlay: u64 = saturating_add(f, saturating_add(timing.keyframe, timing.hold));
    let v = vec![
        (0u64, Step::Fade(Part::BirdFront)),
        (0u64, Step::Fade(Part::Built)),
        (0u64, Step::Fade(Part::With)),
        (0u64, Step::Fade(Part::BevyText)),
        (f, Step::Show(Part::Cutoff)),
        (f, Step::Show(Part::BirdMiddle)),
        (f, Step::Show(Part::BirdBack)),
        (f, Step::Keyframe(Part::BirdMiddle)),
        (f, Step::Keyframe(Part::BirdBack)),
        (f, Step::Keyframe(Part::Cutoff)),
        (f, Step::Keyframe(Part::BirdFront)),
        (overlay, Step::Fade(Part::Overlay)),
    ];
    assert(v@ =~= timeline(*timing));
    v
}

/// The steps whose time was crossed by a frame that moved the clock from
/// `last` to `now`, in timeline order.
pub fn due_steps(entries: &Vec<(u64, Step)>, last: u64, now: u64) -> (steps: Vec<Step>)
    ensures
        steps@ == due(entries@, last, now),
{
    let mut steps: Vec<Step> = Vec::new();
    let mut i: usize = 0;
    while i < entries.len()
        invariant
            i <= entries.len(),
            steps@ == due(entries@.take(i as int), last, now),
        decreases entries.len() - i,
    {
        let (time, step) = entries[i];
        assert(entries@.take(i + 1).drop_last() =~= entries@.take(i as int));
        if last <= time && time < now {
            steps.push(step);
        }
        i += 1;
    }
    assert(entries@.take(i as int) =~= entries@);
    steps
}

/// The timeline is in time order: every step comes no earlier than the
/// steps before it, and the overlay fade comes last.
pub proof fn lemma_timeline_ordered(t: Timing)
    ensures
        forall|i: int, j: int|
            0 <= i <= j < timeline(t).len() ==> timeline(t)[i].0 <= timeline(t)[j].0,
        timeline(t).last() == (overlay_time(t), Step::Fade(Part::Overlay)),
        timeline(t).len() == 12,
{
}

/// Frames split time into back-to-back windows. Over two consecutive
/// frames, from `a` to `b` and from `b` to `c`, the steps that fire are
/// exactly those that one frame from `a` to `c` would fire: none is lost
/// and none fires twice.
pub proof fn lemma_consecutive_windows(entries: Seq<(u64, Step)>, a: u64, b: u64, c: u64)
    requires
        a <= b <= c,
    ensures
        (due(entries, a, b) + due(entries, b, c)).to_multiset() == due(entries, a, c).to_multiset(),
    decreases entries.len(),
{
    broadcast use vstd::seq_lib::group_to_multiset_ensures, vstd::multiset::group_multiset_axioms;
    if entries.len() > 0 {
        lemma_consecutive_windows(entries.drop_last(), a, b, c);
        let x = due(entries.drop_last(), a, b);
        let y = due(entries.drop_last(), b, c);
        let s = entries.last().1;
        vstd::seq_lib::lemma_multiset_commutative(x, y);
        vstd::seq_lib::lemma_multiset_commutative(x.push(s), y);
        vstd::seq_lib::lemma_multiset_commutative(x, y.push(s));
        assert((x + y).push(s).to_multiset() =~= (x + y).to_multiset().insert(s));
        assert(x.push(s).to_multiset() =~= x.to_multiset().insert(s));
        assert(y.push(s).to_multiset() =~= y.to_multiset().insert(s));
    }
}

/// The steps fired by a sequence of frames whose animation clock reads
/// `times[0]`, `times[1]`, ... in turn, frame after frame.
pub open spec fn fired_over(entries: Seq<(u64, Step)>, times: Seq<u64>) -> Seq<Step>
    decreases times.len(),
{
    if times.len() < 2 {
        Seq::empty()
    } else {
        fired_over(entries, times.drop_last()) + due(
            entries,
            times[times.len() - 2],
            times.last(),
        )
    }
}

/// Over any run of frames whose clock never goes back, every step fires
/// exactly once if its time was crossed, and not at all otherwise: the
/// frames together fire what one frame over the whole span would.
pub proof fn lemma_frames_fire_each_step_once(entries: Seq<(u64, Step)>, times: Seq<u64>)
    requires
        times.len() >= 1,
        forall|i: int, j: int| 0 <= i <= j < times.len() ==> times[i] <= times[j],
    ensures
        fired_over(entries, times).to_multiset() == due(entries, times[0], times.last()).to_multiset(),
    decreases times.len(),
{
    broadcast use vstd::seq_lib::group_to_multiset_ensures, vstd::multiset::group_multiset_axioms;
    if times.len() == 1 {
        lemma_empty_window(entries, times[0]);
    } else {
        let init = times.drop_last();
        lemma_frames_fire_each_step_once(entries, init);
        let a = times[0];
        let b = times[times.len() - 2];
        let c = times.last();
        assert(init[0] == a && init.last() == b);
        lemma_consecutive_windows(entries, a, b, c);
        vstd::seq_lib::lemma_multiset_commutative(fired_over(entries, init), due(entries, b, c));
        vstd::seq_lib::lemma_multiset_commutative(due(entries, a, b), due(entries, b, c));
    }
}

/// A window that ends where it starts fires nothing.
pub proof fn lemma_empty_window(entries: Seq<(u64, Step)>, t: u64)
    ensures
        due(entries, t, t) == Seq::<Step>::empty(),
    decreases entries.len(),
{
    if entries.len() > 0 {
        lemma_empty_window(entries.drop_last(), t);
    }
}

/// A splash whose clock has gone from zero past the overlay time has fired
/// every step of the timeline, in timeline order.
pub proof fn lemma_whole_run_fires_everything(t: Timing, now: u64)
    requires
        now > overlay_time(t),
    ensures
        due(timeline(t), 0, now) == timeline(t).map_values(|e: (u64, Step)| e.1),
{
    assert(t.fade <= overlay_time(t));
    lemma_due_all(timeline(t), now);
}

proof fn lemma_due_all(entries: Seq<(u64, Step)>, now: u64)
    requires
        forall|i: int| 0 <= i < entries.len() ==> entries[i].0 < now,
    ensures
        due(entries, 0, now) =~= entries.map_values(|x: (u64, Step)| x.1),
    decreases entries.len(),
{
    if entries.len() > 0 {
        lemma_due_all(entries.drop_last(), now);
        assert(entries.drop_last().map_values(|x: (u64, Step)| x.1).push(entries.last().1)
            =~= entries.map_values(|x: (u64, Step)| x.1));
    }
}

/// Whether the timeline has the step, at any time.
pub open spec fn has_step(t: Timing, step: Step) -> bool {
    exists|i: int| 0 <= i < timeline(t).len() && (#[trigger] timeline(t)[i]).1 == step
}

/// No step appears twice on the timeline: each part is faded, shown or
/// moved at most once.
pub proof fn lemma_timeline_steps_distinct(t: Timing)
    ensures
        forall|i: int, j: int|
            0 <= i < j < timeline(t).len() ==> (#[trigger] timeline(t)[i]).1 != (#[trigger] timeline(
                t,
            )[j]).1,
{
}

/// When each step happens: the overlay fade at the overlay time, the other
/// fades at the start, and every show and keyframe once the first fade is
/// done.
pub proof fn lemma_timeline_times(t: Timing)
    ensures
        forall|i: int|
            0 <= i < timeline(t).len() ==> match (#[trigger] timeline(t)[i]).1 {
                Step::Fade(Part::Overlay) => timeline(t)[i].0 == overlay_time(t),
                Step::Fade(_) => timeline(t)[i].0 == 0,
                Step::Show(_) => timeline(t)[i].0 == t.fade,
                Step::Keyframe(_) => timeline(t)[i].0 == t.fade,
            },
{
}

/// Which parts each kind of step reaches: the front bird, the three texts
/// and the overlay fade in; the cutoff and the two back birds are shown;
/// the three birds and the cutoff move.
pub proof fn lemma_timeline_parts(t: Timing, p: Part)
    ensures
        has_step(t, Step::Fade(p)) <==> (p == Part::BirdFront || p == Part::Built || p == Part::With
            || p == Part::BevyText || p == Part::Overlay),
        has_step(t, Step::Show(p)) <==> (p == Part::Cutoff || p == Part::BirdMiddle || p
            == Part::BirdBack),
        has_step(t, Step::Keyframe(p)) <==> (p == Part::BirdFront || p == Part::BirdMiddle || p
            == Part::BirdBack || p == Part::Cutoff),
{
    let e = timeline(t);
    assert(e[0].1 == Step::Fade(Part::BirdFront));
    assert(e[1].1 == Step::Fade(Part::Built));
    assert(e[2].1 == Step::Fade(Part::With));
    assert(e[3].1 == Step::Fade(Part::BevyText));
    assert(e[4].1 == Step::Show(Part::Cutoff));
    assert(e[5].1 == Step::Show(Part::BirdMiddle));
    assert(e[6].1 == Step::Show(Part::BirdBack));
    assert(e[7].1 == Step::Keyframe(Part::BirdMiddle));
    assert(e[8].1 == Step::Keyframe(Part::BirdBack));
    assert(e[9].1 == Step::Keyframe(Part::Cutoff));
    assert(e[10].1 == Step::Keyframe(Part::BirdFront));
    assert(e[11].1 == Step::Fade(Part::Overlay));
}

/// The overlay starts fading in after the first fade, the keyframes and
/// the hold, one after the other.
pub proof fn lemma_overlay_time_is_sum(t: Timing)
    requires
        t.fade + t.keyframe + t.hold <= u64::MAX,
    ensures
        overlay_time(t) == t.fade + t.keyframe + t.hold,
{
}

} // verus!
