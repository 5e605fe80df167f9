//! A real-time light-ray simulator core: a scene model, a tracing function,
//! a job producer shared by worker threads, a drawing-session protocol and the
//! decisions that drive each tracer worker.
pub mod cpu;
pub mod job;
pub mod scene;
pub mod simulation;
pub mod surface;
pub mod tracer;

pub use cpu::{CpuSurface, CpuSurfaceSession};
pub use job::{Job, JobProducer, TracerJobProducer};
pub use scene::{Color, LightInteraction, Material, Object, Point2, Scene, SceneError, Shape};
pub use simulation::LightSegment;
pub use surface::{Surface, SurfaceSession};
pub use tracer::{draw_job, trace, StopSignal, TraceJobInput, TraceJobOutput, Tracer, TracerAction, TracerState};
