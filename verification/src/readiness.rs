use vstd::prelude::*;

verus! {

/// What the renderer has reported about the splash camera.
#[derive(Clone, Copy, PartialEq, Eq, Debug)]
pub struct RenderReadiness {
    /// A window has presented at least one frame.
    pub window_presented: bool,
    /// No render pipelines are queued or still compiling.
    pub pipelines_idle: bool,
    /// The splash camera made it through extraction and has a view target.
    pub camera_rendered: bool,
}

/// Whether some window has already presented a frame.
pub open spec fn some_presented(needs_initial_present: Seq<bool>) -> bool {
    exists|i: int| 0 <= i < needs_initial_present.len() && !needs_initial_present[i]
}

impl RenderReadiness {
    /// Nothing reported yet.
    pub fn unknown() -> (r: RenderReadiness)
        ensures
            !r.window_presented && !r.pipelines_idle && !r.camera_rendered,
    {
        RenderReadiness { window_presented: false, pipelines_idle: false, camera_rendered: false }
    }

    /// Every condition holds; used where there is no renderer to wait for.
    pub fn all_ready() -> (r: RenderReadiness)
        ensures
            r.window_presented && r.pipelines_idle && r.camera_rendered,
    {
        RenderReadiness { window_presented: true, pipelines_idle: true, camera_rendered: true }
    }

    /// The readiness to start with: with a render sub-app the splash waits
    /// for the renderer's reports, without one it is ready at once.
    pub fn initial(has_render_app: bool) -> (r: RenderReadiness)
        ensures
            r.ready() == !has_render_app,
            has_render_app ==> r == RenderReadiness::unknown_spec(),
            !has_render_app ==> r == RenderReadiness::all_ready_spec(),
    {
        if has_render_app {
            RenderReadiness::unknown()
        } else {
            RenderReadiness::all_ready()
        }
    }

    pub open spec fn unknown_spec() -> RenderReadiness {
        RenderReadiness { window_presented: false, pipelines_idle: false, camera_rendered: false }
    }

    pub open spec fn all_ready_spec() -> RenderReadiness {
        RenderReadiness { window_presented: true, pipelines_idle: true, camera_rendered: true }
    }

    pub open spec fn ready_spec(&self) -> bool {
        self.window_presented && self.pipelines_idle && self.camera_rendered
    }

    /// Whether the splash may start: all three conditions hold.
    #[verifier::when_used_as_spec(ready_spec)]
    pub fn ready(&self) -> (r: bool)
        ensures
            r == self.ready_spec(),
            r == (self.window_presented && self.pipelines_idle && self.camera_rendered),
    {
        self.window_presented && self.pipelines_idle && self.camera_rendered
    }

    /// The readiness that the renderer reports from what it sees this frame:
    /// for each window whether it still waits for its first present, the
    /// number of pipelines still waiting, and the number of splash camera
    /// views that have a view target.
    pub fn observe(needs_initial_present: &Vec<bool>, waiting_pipelines: usize, splash_views: usize) -> (r: RenderReadiness)
        ensures
            r.window_presented == some_presented(needs_initial_present@),
            r.pipelines_idle == (waiting_pipelines == 0),
            r.camera_rendered == (splash_views != 0),
    {
        let mut presented = false;
        let mut i: usize = 0;
        while i < needs_initial_present.len()
            invariant
                i <= needs_initial_present.len(),
                presented == exists|k: int| 0 <= k < i && !needs_initial_present@[k],
            decreases needs_initial_present.len() - i,
        {
            if !needs_initial_present[i] {
                presented = true;
            }
            i += 1;
        }
        RenderReadiness {
            window_presented: presented,
            pipelines_idle: waiting_pipelines == 0,
            camera_rendered: splash_views != 0,
        }
    }
}

/// One window that has presented is enough, whichever list it is in.
pub proof fn lemma_some_presented_split(a: Seq<bool>, b: Seq<bool>)
    ensures
        some_presented(a + b) == (some_presented(a) || some_presented(b)),
        !some_presented(Seq::<bool>::empty()),
        some_presented(seq![false]),
        !some_presented(seq![true]),
{
    if some_presented(a + b) {
        let i = choose|i: int| 0 <= i < (a + b).len() && !(a + b)[i];
        if i >= a.len() {
            assert(!b[i - a.len()]);
        }
    }
    if some_presented(b) {
        let j = choose|j: int| 0 <= j < b.len() && !b[j];
        assert(!(a + b)[a.len() + j]);
    }
    if some_presented(a) {
        let j = choose|j: int| 0 <= j < a.len() && !a[j];
        assert(!(a + b)[j]);
    }
    assert(!seq![false][0]);
}

/// The splash may start only when every report holds: a window has
/// presented, no pipeline is still compiling and the splash camera renders;
/// any one report missing holds it back.
pub proof fn lemma_ready_needs_every_report(r: RenderReadiness)
    ensures
        r.ready_spec() ==> r.window_presented,
        r.ready_spec() ==> r.pipelines_idle,
        r.ready_spec() ==> r.camera_rendered,
        (r.window_presented && r.pipelines_idle && r.camera_rendered) ==> r.ready_spec(),
{
}

} // verus!
