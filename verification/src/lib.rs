//! Verified core of the Prismatic color visualizer: settings menus, channel
//! step plans, viewport layout, 2D scene cycling, slicing geometry and the
//! vertex/edge/face registries that the 3D visualization is built from.

pub mod registry;
pub mod vertex;
pub mod geometry;
pub mod lists;
pub mod dimension;
pub mod channel;
pub mod settings;
pub mod viewport;
pub mod scenes;
pub mod hues;
pub mod mesh;
