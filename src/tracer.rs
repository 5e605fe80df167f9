use vstd::prelude::*;
use crate::scene::{anchor, Color, LightInteraction, Object, Point2, Scene};
use crate::job::Job;
use crate::simulation::{is_black, tint, tint_color, LightSegment};
use crate::surface::SurfaceSession;

verus! {

/// Where the ray from object `i` aimed at object `j` first meets the boundary
/// of `j`: `hits[i][j]`, or `None` where the table has no entry. Computing such
/// points is the work of a geometry collaborator; a ray that misses `j`, or
/// meets another object first, has `None`.
pub open spec fn hit_row(hits: Seq<Vec<Option<Point2>>>, i: int) -> Seq<Option<Point2>> {
    if 0 <= i < hits.len() {
        hits[i]@
    } else {
        Seq::empty()
    }
}

/// The entry `j` of a row of the hit table, `None` past its end.
pub open spec fn hit_in(row: Seq<Option<Point2>>, j: int) -> Option<Point2> {
    if 0 <= j < row.len() {
        row[j]
    } else {
        None
    }
}

/// The light of one ray from an emitter at `from` of color `color` towards
/// `target`, which it first meets at `hit`. A ray that meets a collider gives
/// the incident segment, which ends on the collider's boundary, then the
/// segment reflected back, tinted by the collider's reflectance and by the
/// part of the light its opacity stops; light that the collider lets through
/// is not drawn. Nothing comes of a ray that meets nothing, of a ray of
/// length zero, or of black light: a reflection that comes out black is
/// absorbed.
pub open spec fn ray_segments(from: Point2, color: Color, hit: Option<Point2>, target: Object) -> Seq<LightSegment> {
    match target.light_interaction() {
        LightInteraction::Collider(m) => match hit {
            Some(p) => if p == from || is_black(color) {
                Seq::empty()
            } else {
                let incident = seq![LightSegment { start: from, end: p, color }];
                let reflected = tint(color, m.reflects(), m.opacity());
                if is_black(reflected) {
                    incident
                } else {
                    incident.push(LightSegment { start: p, end: from, color: reflected })
                }
            },
            None => Seq::empty(),
        },
        LightInteraction::Emitter(_) => Seq::empty(),
    }
}

/// The light from an emitter at `from` of color `color` aimed at each object
/// of `objs` in turn, `row` giving where each ray first meets its target.
pub open spec fn bounces(from: Point2, color: Color, row: Seq<Option<Point2>>, objs: Seq<Object>) -> Seq<LightSegment>
    decreases objs.len(),
{
    if objs.len() == 0 {
        Seq::empty()
    } else {
        bounces(from, color, row, objs.drop_last()) + ray_segments(
            from,
            color,
            hit_in(row, objs.len() - 1),
            objs.last(),
        )
    }
}

/// The light of each emitter among `emitters`, in order, aimed at the objects
/// of `objs`, with the hit table `hits`.
pub open spec fn all_bounces(emitters: Seq<Object>, objs: Seq<Object>, hits: Seq<Vec<Option<Point2>>>) -> Seq<LightSegment>
    decreases emitters.len(),
{
    if emitters.len() == 0 {
        Seq::empty()
    } else {
        let prev = all_bounces(emitters.drop_last(), objs, hits);
        let e = emitters.last();
        match e.light_interaction() {
            LightInteraction::Emitter(c) => prev + bounces(
                anchor(e.shape()),
                c,
                hit_row(hits, emitters.len() - 1),
                objs,
            ),
            LightInteraction::Collider(_) => prev,
        }
    }
}

/// The first `k` elements of `s`, or all of it when it is shorter.
pub open spec fn truncate(s: Seq<LightSegment>, k: nat) -> Seq<LightSegment> {
    if s.len() <= k {
        s
    } else {
        s.take(k as int)
    }
}

/// What tracing the objects `objs` with the hit table `hits` and a budget of
/// `k` segments produces.
pub open spec fn traced(objs: Seq<Object>, hits: Seq<Vec<Option<Point2>>>, k: nat) -> Seq<LightSegment> {
    truncate(all_bounces(objs, objs, hits), k)
}

/// Whether some object of `objs` emits light.
pub open spec fn has_emitter(objs: Seq<Object>) -> bool {
    exists|i: int| 0 <= i < objs.len() && #[trigger] objs[i].light_interaction() is Emitter
}

/// Every segment has length and carries light.
pub open spec fn well_drawn(s: Seq<LightSegment>) -> bool {
    forall|i: int| 0 <= i < s.len() ==> (#[trigger] s[i]).start != s[i].end && !is_black(s[i].color)
}

proof fn lemma_truncate_push(s: Seq<LightSegment>, a: LightSegment, k: nat)
    ensures
        truncate(s.push(a), k) == if truncate(s, k).len() < k {
            truncate(s, k).push(a)
        } else {
            truncate(s, k)
        },
{
    if s.len() >= k {
        assert(s.push(a).take(k as int) =~= s.take(k as int));
    }
}

proof fn lemma_concat_well_drawn(a: Seq<LightSegment>, b: Seq<LightSegment>)
    requires
        well_drawn(a),
        well_drawn(b),
    ensures
        well_drawn(a + b),
{
    assert forall|i: int| 0 <= i < (a + b).len() implies (#[trigger] (a + b)[i]).start != (a + b)[i].end
        && !is_black((a + b)[i].color) by {
        if i >= a.len() {
            assert((a + b)[i] == b[i - a.len()]);
        }
    }
}

proof fn lemma_bounces_well_drawn(from: Point2, color: Color, row: Seq<Option<Point2>>, objs: Seq<Object>)
    ensures
        well_drawn(bounces(from, color, row, objs)),
    decreases objs.len(),
{
    if objs.len() > 0 {
        lemma_bounces_well_drawn(from, color, row, objs.drop_last());
        let r = ray_segments(from, color, hit_in(row, objs.len() - 1), objs.last());
        assert(well_drawn(r)) by {
            assert forall|i: int| 0 <= i < r.len() implies (#[trigger] r[i]).start != r[i].end
                && !is_black(r[i].color) by {
                assert(r.len() <= 2);
            }
        }
        lemma_concat_well_drawn(bounces(from, color, row, objs.drop_last()), r);
    }
}

proof fn lemma_all_bounces_well_drawn(emitters: Seq<Object>, objs: Seq<Object>, hits: Seq<Vec<Option<Point2>>>)
    ensures
        well_drawn(all_bounces(emitters, objs, hits)),
    decreases emitters.len(),
{
    if emitters.len() > 0 {
        lemma_all_bounces_well_drawn(emitters.drop_last(), objs, hits);
        let e = emitters.last();
        if let LightInteraction::Emitter(c) = e.light_interaction() {
            let row = hit_row(hits, emitters.len() - 1);
            lemma_bounces_well_drawn(anchor(e.shape()), c, row, objs);
            lemma_concat_well_drawn(all_bounces(emitters.drop_last(), objs, hits), bounces(anchor(e.shape()), c, row, objs));
        }
    }
}

proof fn lemma_no_emitter(emitters: Seq<Object>, objs: Seq<Object>, hits: Seq<Vec<Option<Point2>>>)
    requires
        !has_emitter(emitters),
    ensures
        all_bounces(emitters, objs, hits).len() == 0,
    decreases emitters.len(),
{
    if emitters.len() > 0 {
        let p = emitters.drop_last();
        assert(!has_emitter(p)) by {
            if has_emitter(p) {
                let i = choose|i: int| 0 <= i < p.len() && #[trigger] p[i].light_interaction() is Emitter;
                assert(emitters[i] == p[i]);
            }
        }
        lemma_no_emitter(p, objs, hits);
        assert(emitters[emitters.len() - 1] == emitters.last());
    }
}

/// Tracing never yields more segments than its budget, a scene without
/// emitters yields none, and no segment has length zero or carries no light.
pub proof fn lemma_trace_bounded(objs: Seq<Object>, hits: Seq<Vec<Option<Point2>>>, k: nat)
    ensures
        traced(objs, hits, k).len() <= k,
        !has_emitter(objs) ==> traced(objs, hits, k).len() == 0,
        well_drawn(traced(objs, hits, k)),
{
    if !has_emitter(objs) {
        lemma_no_emitter(objs, objs, hits);
    }
    lemma_all_bounces_well_drawn(objs, objs, hits);
    let all = all_bounces(objs, objs, hits);
    if all.len() > k {
        assert forall|i: int| 0 <= i < all.take(k as int).len() implies (#[trigger] all.take(k as int)[i]).start
            != all.take(k as int)[i].end && !is_black(all.take(k as int)[i].color) by {
            assert(all.take(k as int)[i] == all[i]);
        }
    }
}

/// Pushes `a` unless `out` already holds `k` segments.
fn push_bounded(out: &mut Vec<LightSegment>, a: LightSegment, k: usize, Ghost(s): Ghost<Seq<LightSegment>>)
    requires
        old(out)@ == truncate(s, k as nat),
    ensures
        final(out)@ == truncate(s.push(a), k as nat),
{
    proof {
        lemma_truncate_push(s, a, k as nat);
    }
    if out.len() < k {
        out.push(a);
    }
}

fn color_is_black(c: Color) -> (r: bool)
    ensures
        r == is_black(c),
{
    c.red == 0 && c.green == 0 && c.blue == 0
}

/// What a trace produced.
pub struct TraceJobOutput {
    pub segments: Vec<LightSegment>,
}

/// Traces `scene` into at most `segments_to_produce` light segments, each
/// emitter aiming one ray at each collider, `hits` giving where each ray first
/// meets its target's boundary (see `hit_row`).
pub fn trace(scene: &Scene, hits: &Vec<Vec<Option<Point2>>>, segments_to_produce: usize) -> (r: TraceJobOutput)
    ensures
        r.segments@ == traced(scene@, hits@, segments_to_produce as nat),
        r.segments@.len() <= segments_to_produce,
        !has_emitter(scene@) ==> r.segments@.len() == 0,
        forall|i: int| 0 <= i < r.segments@.len() ==> (#[trigger] r.segments@[i]).start != r.segments@[i].end,
        forall|i: int| 0 <= i < r.segments@.len() ==> !is_black((#[trigger] r.segments@[i]).color),
{
    let ghost objs = scene@;
    let ghost k = segments_to_produce as nat;
    let mut out: Vec<LightSegment> = Vec::new();
    let n = scene.len();
    let mut i: usize = 0;
    while i < n
        invariant
            n == objs.len(),
            0 <= i <= n,
            objs == scene@,
            k == segments_to_produce as nat,
            out@ == truncate(all_bounces(objs.take(i as int), objs, hits@), k),
        decreases n - i,
    {
        let e = scene.object(i);
        assert(objs.take(i + 1).drop_last() =~= objs.take(i as int));
        assert(objs.take(i + 1).last() == objs[i as int]);
        match e.get_light_interaction() {
            LightInteraction::Emitter(color) => {
                let from = e.get_shape().anchor();
                let ghost base = all_bounces(objs.take(i as int), objs, hits@);
                let ghost row = hit_row(hits@, i as int);
                let black = color_is_black(color);
                let mut j: usize = 0;
                while j < n
                    invariant
                        n == objs.len(),
                        0 <= j <= n,
                        i < n,
                        objs == scene@,
                        k == segments_to_produce as nat,
                        row == hit_row(hits@, i as int),
                        black == is_black(color),
                        out@ == truncate(base + bounces(from, color, row, objs.take(j as int)), k),
                    decreases n - j,
                {
                    let c = scene.object(j);
                    let ghost prev = base + bounces(from, color, row, objs.take(j as int));
                    assert(objs.take(j + 1).drop_last() =~= objs.take(j as int));
                    assert(objs.take(j + 1).last() == objs[j as int]);
                    let hit: Option<Point2> = if i < hits.len() && j < hits[i].len() {
                        hits[i][j]
                    } else {
                        None
                    };
                    assert(hit == hit_in(row, j as int));
                    let ghost next = base + bounces(from, color, row, objs.take(j + 1));
                    assert(next =~= prev + ray_segments(from, color, hit, objs[j as int]));
                    match c.get_light_interaction() {
                        LightInteraction::Collider(m) => match hit {
                            Some(p) => {
                                if p != from && !black {
                                    let incident = LightSegment { start: from, end: p, color };
                                    push_bounded(&mut out, incident, segments_to_produce, Ghost(prev));
                                    let t = tint_color(color, m.get_reflects(), m.get_opacity());
                                    if !color_is_black(t) {
                                        let reflected = LightSegment { start: p, end: from, color: t };
                                        push_bounded(&mut out, reflected, segments_to_produce, Ghost(prev.push(incident)));
                                        assert(next =~= prev.push(incident).push(reflected));
                                    } else {
                                        assert(next =~= prev.push(incident));
                                    }
                                } else {
                                    assert(next =~= prev);
                                }
                            },
                            None => {
                                assert(next =~= prev);
                            },
                        },
                        LightInteraction::Emitter(_) => {
                            assert(next =~= prev);
                        },
                    }
                    j = j + 1;
                }
                assert(objs.take(n as int) =~= objs);
            },
            LightInteraction::Collider(_) => {},
        }
        i = i + 1;
    }
    assert(objs.take(n as int) =~= objs);
    proof {
        lemma_trace_bounded(objs, hits@, k);
    }
    TraceJobOutput { segments: out }
}

/// The life of a tracer worker: it runs from construction, and `Stopped` is
/// final.
#[derive(Clone, Copy, Debug, PartialEq, Eq, Structural)]
pub enum TracerState {
    Running,
    StopRequested,
    Stopped,
}

/// What a worker finds when it polls its stop channel.
#[derive(Clone, Copy, Debug, PartialEq, Eq, Structural)]
pub enum StopSignal {
    /// A stop was sent.
    Requested,
    /// Nothing was sent.
    Absent,
    /// The handle is gone without having sent a stop.
    Disconnected,
}

/// What a worker does after a poll.
#[derive(Clone, Copy, Debug, PartialEq, Eq, Structural)]
pub enum TracerAction {
    /// Take the next job and trace it.
    TakeJob,
    /// Leave the loop: a stop was asked for.
    Exit,
    /// Leave the loop and fail: the stop channel broke, an invariant of the pool.
    Abort,
}

/// The decisions of one tracer worker, driven at its single poll point. The
/// worker thread owns this value; the handle that starts and joins the thread
/// lives with the thread code, outside this library.
pub struct Tracer {
    state: TracerState,
}

impl Tracer {
    pub closed spec fn state(&self) -> TracerState {
        self.state
    }

    /// A tracer that runs at once: it needs no separate start.
    pub fn new() -> (r: Tracer)
        ensures
            r.state() == TracerState::Running,
    {
        Tracer { state: TracerState::Running }
    }

    /// The current state.
    pub fn get_state(&self) -> (r: TracerState)
        ensures
            r == self.state(),
    {
        self.state
    }

    /// Decides what a running worker does on what its stop channel held.
    pub fn poll(&mut self, signal: StopSignal) -> (r: TracerAction)
        requires
            old(self).state() == TracerState::Running,
        ensures
            signal == StopSignal::Absent ==> r == TracerAction::TakeJob && final(self).state()
                == TracerState::Running,
            signal == StopSignal::Requested ==> r == TracerAction::Exit && final(self).state()
                == TracerState::StopRequested,
            signal == StopSignal::Disconnected ==> r == TracerAction::Abort && final(self).state()
                == TracerState::StopRequested,
    {
        match signal {
            StopSignal::Absent => TracerAction::TakeJob,
            StopSignal::Requested => {
                self.state = TracerState::StopRequested;
                TracerAction::Exit
            },
            StopSignal::Disconnected => {
                self.state = TracerState::StopRequested;
                TracerAction::Abort
            },
        }
    }

    /// Ends a tracer whose stop was observed. It is consumed, so it can be
    /// neither stopped twice nor restarted.
    pub fn stop(self) -> (r: TracerState)
        requires
            self.state() == TracerState::StopRequested,
        ensures
            r == TracerState::Stopped,
    {
        TracerState::Stopped
    }
}

/// Traces a job, with the hit table `hits` of its scene, and draws its
/// segments in order into `session`, which stays uncommitted: no surface is
/// touched while tracing.
pub fn draw_job<S: SurfaceSession>(job: &Job, hits: &Vec<Vec<Option<Point2>>>, session: &mut S)
    ensures
        final(session).drawn() == old(session).drawn() + traced(job.scene(), hits@, job.segments_to_produce() as nat),
{
    let output = trace(job.get_scene(), hits, job.get_segments_to_produce());
    let ghost start = session.drawn();
    let mut i: usize = 0;
    while i < output.segments.len()
        invariant
            0 <= i <= output.segments@.len(),
            session.drawn() == start + output.segments@.take(i as int),
        decreases output.segments@.len() - i,
    {
        session.draw(output.segments[i]);
        assert(start + output.segments@.take(i + 1) =~= (start + output.segments@.take(i as int)).push(output.segments@[i as int]));
        i = i + 1;
    }
    assert(output.segments@.take(i as int) =~= output.segments@);
}

/// The input of a trace.
pub type TraceJobInput = Job;

} // verus!
