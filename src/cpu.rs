use vstd::prelude::*;
use crate::simulation::LightSegment;
use crate::surface::{flatten, Surface, SurfaceSession};

verus! {

/// A surface that keeps its visible segments in memory.
pub struct CpuSurface {
    visible: Vec<LightSegment>,
    sessions: Ghost<Seq<Seq<LightSegment>>>,
}

/// A session of a `CpuSurface`: a private buffer of drawn segments.
pub struct CpuSurfaceSession {
    buffer: Vec<LightSegment>,
}

impl CpuSurface {
    /// A surface with nothing visible.
    pub fn new() -> (r: CpuSurface)
        ensures
            r.wf(),
            r.visible() == Seq::<LightSegment>::empty(),
            r.committed() == Seq::<Seq<LightSegment>>::empty(),
    {
        CpuSurface { visible: Vec::new(), sessions: Ghost(Seq::empty()) }
    }

    /// The visible segments.
    pub fn segments(&self) -> (r: &Vec<LightSegment>)
        ensures
            r@ == self.visible(),
    {
        &self.visible
    }
}

impl SurfaceSession for CpuSurfaceSession {
    closed spec fn drawn(&self) -> Seq<LightSegment> {
        self.buffer@
    }

    fn draw(&mut self, segment: LightSegment) {
        self.buffer.push(segment);
    }
}

impl Surface for CpuSurface {
    type SurfaceSessionType = CpuSurfaceSession;

    closed spec fn visible(&self) -> Seq<LightSegment> {
        self.visible@
    }

    closed spec fn committed(&self) -> Seq<Seq<LightSegment>> {
        self.sessions@
    }

    closed spec fn wf(&self) -> bool {
        self.visible@ == flatten(self.sessions@)
    }

    proof fn lemma_visible_is_whole_sessions(&self) {
    }

    fn draw_session(&self) -> (r: CpuSurfaceSession) {
        CpuSurfaceSession { buffer: Vec::new() }
    }

    fn commit(&mut self, session: CpuSurfaceSession) {
        let ghost drawn = session.buffer@;
        let mut buffer = session.buffer;
        self.visible.append(&mut buffer);
        self.sessions = Ghost(self.sessions@.push(drawn));
        assert(self.sessions@.drop_last() =~= old(self).sessions@);
    }
}

} // verus!
