use vstd::prelude::*;
use crate::simulation::LightSegment;

verus! {

/// A drawing session used by one thread: segments drawn into it stay private
/// until the session is committed to its surface.
pub trait SurfaceSession: Sized {
    /// The segments drawn so far, in order.
    spec fn drawn(&self) -> Seq<LightSegment>;

    /// Draws one segment into the session's own buffer.
    fn draw(&mut self, segment: LightSegment)
        ensures
            final(self).drawn() == old(self).drawn().push(segment),
    ;
}

/// A backend that light segments are drawn to, one session at a time.
pub trait Surface: Sized + Sync + Send {
    type SurfaceSessionType: SurfaceSession;

    /// The segments that readers of the surface see.
    spec fn visible(&self) -> Seq<LightSegment>;

    /// The segment buffers of the sessions committed so far, oldest first.
    spec fn committed(&self) -> Seq<Seq<LightSegment>>;

    /// The visible state is exactly the committed sessions, whole and in order.
    spec fn wf(&self) -> bool;

    /// What a reader of a well-formed surface sees is whole committed
    /// sessions, in commit order, and never part of one.
    proof fn lemma_visible_is_whole_sessions(&self)
        requires
            self.wf(),
        ensures
            self.visible() == flatten(self.committed()),
    ;

    /// Opens a session with nothing drawn.
    fn draw_session(&self) -> (r: Self::SurfaceSessionType)
        ensures
            r.drawn() == Seq::<LightSegment>::empty(),
    ;

    /// Merges everything the session drew into the visible state at once.
    fn commit(&mut self, session: Self::SurfaceSessionType)
        requires
            old(self).wf(),
        ensures
            final(self).wf(),
            final(self).visible() == old(self).visible() + session.drawn(),
            final(self).committed() == old(self).committed().push(session.drawn()),
    ;
}

/// The concatenation of the segment buffers of `sessions`, in order.
pub open spec fn flatten(sessions: Seq<Seq<LightSegment>>) -> Seq<LightSegment>
    decreases sessions.len(),
{
    if sessions.len() == 0 {
        Seq::empty()
    } else {
        flatten(sessions.drop_last()) + sessions.last()
    }
}

} // verus!
