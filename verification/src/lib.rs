//! Resource-lifecycle and memory-allocation layer of a small 3D rendering
//! engine.
//!
//! The heart of the crate is [`object_store`]: a typed multi-heap device
//! memory allocator that matches memory types by capability, places resources
//! at aligned offsets inside growable memory blocks, and keeps a stable table
//! of placement records.  The surrounding modules hold the other pure pieces
//! of the engine: a bitmap decoder, vertex byte packing, queue-family
//! bookkeeping and selection, device scoring, and shader classification.
//!
//! All device calls (memory allocation, binding, destruction) are performed
//! by the embedding program; the types here only decide what those calls
//! should be and account for their results.

pub mod bitmap;
pub mod dust_errors;
pub mod instance;
pub mod key_mapper;
pub mod object_store;
pub mod pools;
pub mod shaders;
pub mod transfer;
pub mod vertex;
