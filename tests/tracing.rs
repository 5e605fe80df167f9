use light_playground::{
    trace, Color, Job, JobProducer, LightInteraction, LightSegment, Material, Object, Point2, Scene,
    Shape,
};

fn pt(x: i64, y: i64) -> Point2 {
    Point2 { x, y }
}

fn emitter(id: u64, x: i64, y: i64, c: Color) -> Object {
    let shape = Shape::Circle { center: pt(x, y), radius: 2 };
    Object::new(id, shape, LightInteraction::Emitter(c)).unwrap()
}

fn collider(id: u64, x: i64, y: i64, reflects: Color, opacity: u16) -> Object {
    let shape = Shape::ClosedPolygon { vertices: vec![pt(x, y), pt(x + 4, y), pt(x, y + 4)] };
    let m = Material::new(reflects, 0, opacity, 1000).unwrap();
    Object::new(id, shape, LightInteraction::Collider(m)).unwrap()
}

fn triangle_collider(id: u64, reflects: Color, opacity: u16) -> Object {
    let shape = Shape::ClosedPolygon { vertices: vec![pt(20, 0), pt(10, 5), pt(10, -5)] };
    let m = Material::new(reflects, 0, opacity, 1000).unwrap();
    Object::new(id, shape, LightInteraction::Collider(m)).unwrap()
}

fn white() -> Color {
    Color::new(255, 255, 255)
}

#[test]
fn trace_of_empty_scene_is_empty() {
    let s = Scene::new();
    assert_eq!(trace(&s, &vec![], 10).segments.len(), 0);
}

#[test]
fn trace_without_emitters_is_empty() {
    let mut s = Scene::new();
    s.insert(collider(1, 10, 0, white(), 1000)).unwrap();
    s.insert(collider(2, 20, 0, white(), 500)).unwrap();
    let hits = vec![vec![None, Some(pt(20, 0))], vec![Some(pt(10, 0)), None]];
    assert_eq!(trace(&s, &hits, 100).segments.len(), 0);
}

#[test]
fn trace_with_zero_budget_is_empty() {
    let mut s = Scene::new();
    s.insert(emitter(1, 0, 0, Color::new(255, 0, 0))).unwrap();
    s.insert(collider(2, 10, 0, white(), 1000)).unwrap();
    let hits = vec![vec![None, Some(pt(10, 0))]];
    assert_eq!(trace(&s, &hits, 0).segments.len(), 0);
}

#[test]
fn trace_stops_at_budget() {
    let mut s = Scene::new();
    s.insert(emitter(1, 0, 0, Color::new(255, 0, 0))).unwrap();
    s.insert(collider(2, 10, 0, white(), 1000)).unwrap();
    s.insert(collider(3, 0, 20, white(), 1000)).unwrap();
    let hits = vec![vec![None, Some(pt(10, 0)), Some(pt(0, 20))]];
    let out = trace(&s, &hits, 3).segments;
    assert_eq!(out.len(), 3);
    assert_eq!(out[2].end, pt(0, 20));
}

#[test]
fn reflection_tints_each_channel() {
    let mut s = Scene::new();
    s.insert(emitter(1, 0, 0, Color::new(255, 200, 100))).unwrap();
    s.insert(collider(2, 10, 5, Color::new(128, 255, 0), 1000)).unwrap();
    let hits = vec![vec![None, Some(pt(10, 5))]];
    let out = trace(&s, &hits, 10).segments;
    assert_eq!(out.len(), 2);
    assert_eq!(out[1].color, Color::new(128, 200, 0));
}

#[test]
fn half_opaque_collider_reflects_half() {
    let mut s = Scene::new();
    s.insert(emitter(1, 0, 0, Color::new(255, 200, 100))).unwrap();
    s.insert(collider(2, 10, 5, Color::new(128, 255, 0), 500)).unwrap();
    let hits = vec![vec![None, Some(pt(10, 5))]];
    let out = trace(&s, &hits, 10).segments;
    assert_eq!(out.len(), 2);
    assert_eq!(out[1].color, Color::new(64, 100, 0));
}

#[test]
fn zero_length_ray_is_skipped() {
    let mut s = Scene::new();
    s.insert(emitter(1, 0, 0, Color::new(255, 0, 0))).unwrap();
    let shape = Shape::Circle { center: pt(0, 0), radius: 3 };
    let m = Material::new(white(), 0, 1000, 1000).unwrap();
    s.insert(Object::new(2, shape, LightInteraction::Collider(m)).unwrap()).unwrap();
    let hits = vec![vec![None, Some(pt(0, 0))]];
    assert_eq!(trace(&s, &hits, 10).segments.len(), 0);
}

#[test]
fn black_reflection_is_absorbed() {
    let mut s = Scene::new();
    s.insert(emitter(1, 0, 0, Color::new(255, 0, 0))).unwrap();
    s.insert(collider(2, 10, 0, Color::new(0, 0, 0), 1000)).unwrap();
    let hits = vec![vec![None, Some(pt(10, 0))]];
    let out = trace(&s, &hits, 10).segments;
    assert_eq!(out, vec![LightSegment { start: pt(0, 0), end: pt(10, 0), color: Color::new(255, 0, 0) }]);
}

#[test]
fn black_emitter_gives_no_light() {
    let mut s = Scene::new();
    s.insert(emitter(1, 0, 0, Color::new(0, 0, 0))).unwrap();
    s.insert(collider(2, 10, 0, white(), 1000)).unwrap();
    let hits = vec![vec![None, Some(pt(10, 0))]];
    assert_eq!(trace(&s, &hits, 10).segments.len(), 0);
}

#[test]
fn ray_that_misses_gives_nothing() {
    let mut s = Scene::new();
    s.insert(emitter(1, 0, 0, Color::new(255, 0, 0))).unwrap();
    s.insert(collider(2, 10, 0, white(), 1000)).unwrap();
    let hits = vec![vec![None, None]];
    assert_eq!(trace(&s, &hits, 10).segments.len(), 0);
    assert_eq!(trace(&s, &vec![], 10).segments.len(), 0);
}

#[test]
fn two_emitters_trace_in_scene_order() {
    let mut s = Scene::new();
    s.insert(emitter(1, 0, 0, Color::new(255, 0, 0))).unwrap();
    s.insert(collider(2, 10, 0, white(), 1000)).unwrap();
    s.insert(emitter(3, 0, 9, Color::new(0, 0, 255))).unwrap();
    let hits = vec![vec![None, Some(pt(10, 0)), None], vec![], vec![None, Some(pt(10, 4)), None]];
    let out = trace(&s, &hits, 10).segments;
    assert_eq!(out.len(), 4);
    assert_eq!(out[0].color, Color::new(255, 0, 0));
    assert_eq!(out[2].start, pt(0, 9));
    assert_eq!(out[2].end, pt(10, 4));
    assert_eq!(out[3].color, Color::new(0, 0, 255));
}

#[test]
fn red_emitter_and_polygon_of_opacity_zero() {
    let mut s = Scene::new();
    s.insert(emitter(1, 0, 0, Color::new(255, 0, 0))).unwrap();
    s.insert(triangle_collider(2, white(), 0)).unwrap();
    let mut p = JobProducer::new();
    p.reset(s);
    assert!(p.take_job().is_some());
    let mut s = Scene::new();
    s.insert(emitter(1, 0, 0, Color::new(255, 0, 0))).unwrap();
    s.insert(triangle_collider(2, white(), 0)).unwrap();
    let job = Job::new(s, 10);
    assert_eq!(job.get_segments_to_produce(), 10);
    let hits = vec![vec![None, Some(pt(10, 0))]];
    let out = trace(job.get_scene(), &hits, job.get_segments_to_produce()).segments;
    assert!(out.len() <= 10);
    assert_eq!(out, vec![LightSegment { start: pt(0, 0), end: pt(10, 0), color: Color::new(255, 0, 0) }]);
    for seg in &out {
        assert!(seg.color.red > 0 && seg.color.green == 0 && seg.color.blue == 0);
        assert!(seg.start.x <= 10 && seg.end.x <= 10);
    }
}

#[test]
fn red_emitter_reflects_off_opaque_polygon() {
    let mut s = Scene::new();
    s.insert(emitter(1, 0, 0, Color::new(255, 0, 0))).unwrap();
    s.insert(triangle_collider(2, Color::new(200, 200, 200), 1000)).unwrap();
    let job = Job::new(s, 10);
    let hits = vec![vec![None, Some(pt(10, 0))]];
    let out = trace(job.get_scene(), &hits, job.get_segments_to_produce()).segments;
    assert!(out.len() <= 10);
    assert_eq!(
        out,
        vec![
            LightSegment { start: pt(0, 0), end: pt(10, 0), color: Color::new(255, 0, 0) },
            LightSegment { start: pt(10, 0), end: pt(0, 0), color: Color::new(200, 0, 0) },
        ]
    );
    for seg in &out {
        assert!(seg.color.red > 0 && seg.color.green == 0 && seg.color.blue == 0);
        assert!(seg.start.x <= 10 && seg.end.x <= 10);
    }
}
