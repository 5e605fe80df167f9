use light_playground::{
    draw_job, trace, Color, CpuSurface, JobProducer, LightInteraction, Material, Object, Point2,
    Scene, Shape, StopSignal, Surface, Tracer, TracerAction, TracerState,
};

#[test]
fn tracer_lifecycle() {
    let mut t = Tracer::new();
    assert_eq!(t.get_state(), TracerState::Running);
    assert_eq!(t.poll(StopSignal::Absent), TracerAction::TakeJob);
    assert_eq!(t.get_state(), TracerState::Running);
    assert_eq!(t.poll(StopSignal::Requested), TracerAction::Exit);
    assert_eq!(t.get_state(), TracerState::StopRequested);
    assert_eq!(t.stop(), TracerState::Stopped);
}

#[test]
fn broken_stop_channel_aborts() {
    let mut t = Tracer::new();
    assert_eq!(t.poll(StopSignal::Disconnected), TracerAction::Abort);
    assert_eq!(t.get_state(), TracerState::StopRequested);
}

#[test]
fn trace_job_draws_the_traced_segments() {
    let mut s = Scene::new();
    let e = Shape::Circle { center: Point2 { x: 0, y: 0 }, radius: 1 };
    s.insert(Object::new(1, e, LightInteraction::Emitter(Color::new(0, 255, 0))).unwrap()).unwrap();
    let c = Shape::Circle { center: Point2 { x: 5, y: 5 }, radius: 1 };
    let m = Material::new(Color::new(255, 255, 255), 0, 1000, 1000).unwrap();
    s.insert(Object::new(2, c, LightInteraction::Collider(m)).unwrap()).unwrap();
    let hits = vec![vec![None, Some(Point2 { x: 4, y: 4 })]];
    let expected = trace(&s, &hits, 256).segments;
    let mut p = JobProducer::new();
    p.reset(s);
    let job = p.take_job().unwrap();
    let mut surface = CpuSurface::new();
    let mut session = surface.draw_session();
    draw_job(&job, &hits, &mut session);
    assert!(surface.segments().is_empty());
    surface.commit(session);
    assert_eq!(surface.segments(), &expected);
    assert_eq!(expected.len(), 2);
}

#[test]
fn two_tracers_stop_cleanly_on_empty_scene() {
    let mut p = JobProducer::new();
    let mut t1 = Tracer::new();
    let mut t2 = Tracer::new();
    p.reset(Scene::new());
    let surface = CpuSurface::new();
    assert_eq!(t1.poll(StopSignal::Absent), TracerAction::TakeJob);
    let job = p.take_job().unwrap();
    let mut session = surface.draw_session();
    draw_job(&job, &vec![], &mut session);
    let mut surface = surface;
    surface.commit(session);
    assert!(surface.segments().is_empty());
    assert_eq!(t1.poll(StopSignal::Requested), TracerAction::Exit);
    assert_eq!(t2.poll(StopSignal::Requested), TracerAction::Exit);
    assert_eq!(t1.stop(), TracerState::Stopped);
    assert_eq!(t2.stop(), TracerState::Stopped);
}
