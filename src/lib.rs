pub mod app;
pub mod model;
pub mod settings;
