//! A small entity-component world: entities carry an optional position and an
//! optional velocity, and every update runs a fixed list of systems over them.
//!
//! The library is generic in the scalar type of the coordinates. The caller
//! supplies the addition on scalars, so the store, the aspect query and the
//! schedule are proved for every choice of number type.

pub mod entity;
pub mod component;
pub mod store;
pub mod system;
pub mod world;
pub mod laws;

pub use crate::component::{ComponentList, Position, Velocity};
pub use crate::entity::Entity;
pub use crate::store::{Aspect, Components};
pub use crate::system::{MotionProcess, Notice, Particles};
pub use crate::world::{Systems, World};
