//! Core logic of the nshell engine: sequence numbers and acknowledgement
//! tracking for the UDP game-state sync, input controller state, loggers,
//! plugin reload scheduling and the Wavefront OBJ/MTL text formats.

pub mod bytes;
pub mod common;
pub mod errors;
pub mod events;
pub mod executor;
pub mod font;
pub mod input;
pub mod lexer;
pub mod logger;
pub mod message;
pub mod model;
pub mod mtl;
pub mod obj;
pub mod obj_roundtrip;
pub mod peer;
pub mod plugin;
pub mod render;
pub mod seq;
pub mod text;
pub mod wire;
