pub mod camera;
pub mod clock;
pub mod fleet;
pub mod line_definitions;
pub mod log;
pub mod map_helpers;
pub mod resolver;
pub mod route;
pub mod store;
pub mod synthetic;
pub mod vehicle;
