//! A recursive image-effects compositor. A composition is an ordered chain of
//! filters (placed images, shader programs and nested compositions) over a
//! canvas with three render buffers. The library loads the filter tree from a
//! declared project and the resources that the caller loaded for it, places
//! each source by its fit, decides which shader inputs to bind, and plans the
//! render passes that the GPU runs, in order.
pub mod composition;
pub mod config;
pub mod error;
pub mod fit;
pub mod frame;
pub mod graph;
pub mod pixels;
pub mod uniform;

pub use composition::{Composition, Filter, Pass, Resolved, Source};
pub use config::{IoComposition, IoFilter, Preset, Request, ShaderRequest, ShaderSource};
pub use error::MakuError;
pub use fit::{fit_to_matrix, IoImageFit, Ratio, Transform, MICRO};
pub use graph::{CpuBackend, DType, NodeId, PropertyId, TensorDesc, ValueId};
pub use uniform::{Binding, Query, UniformValue};
