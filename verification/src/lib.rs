//! A compute execution layer with verified semantics: typed buffers in
//! host-accessible or device-local storage with zero-copy aliasing views,
//! compiled compute programs with a derived resource-binding layout, an
//! append-only builder that freezes copy and dispatch operations into
//! resubmittable tasks, and a submit/wait completion protocol. Buffers are
//! handles into the context's storage arena, so every contract speaks of
//! one memory model; what a dispatched kernel itself computes is the
//! device executor's work and is recorded and validated, not re-computed,
//! here.

pub mod buffer;
pub mod errors;
pub mod instance;
pub mod program;
pub mod spirv;
pub mod task;

pub use buffer::{Buffer, BufferBinding, Cpu, CpuBuffer, Gpu, GpuBuffer, Span};
pub use errors::{BufferError, InstanceError, ProgramError, TaskError};
pub use instance::{Instance, Version};
pub use program::Program;
pub use task::{Op, Task, TaskBuilder, TaskFuture};
