//! An image-generation service core: the integer parts of the generation
//! pipeline, the bitmap container, the task store with its lifecycle, and
//! the request router.
pub mod text;
pub mod tokenizer;
pub mod model;
pub mod bmp;
pub mod types;
pub mod pipeline;
pub mod ids;
pub mod store;
pub mod service;
pub mod router;
pub mod hello;
