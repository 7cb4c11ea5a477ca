//! A verified core for building and executing directed acyclic graphs of
//! neural-network layers: graph flattening with deterministic naming,
//! topologically ordered propagation, a name-keyed factory registry, and a
//! serializable structural model that can be rebuilt into an executable one.

pub mod activation;
pub mod arena;
pub mod b64;
pub mod builder;
pub mod errors;
pub mod extensions;
pub mod graph_elements;
pub mod injector;
pub mod jsonval;
pub mod laws;
pub mod layers;
pub mod model;
pub mod namegen;
pub mod node;
pub mod serial;
pub mod shape;
pub mod strmap;
pub mod suppliers;
pub mod tensor;

pub use shape::Shape;
pub use shape::ShapeError;
