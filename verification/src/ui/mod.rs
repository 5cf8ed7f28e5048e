pub mod driver;
pub mod laws;
pub mod model;
pub mod picker;
pub mod state;
pub mod view;
