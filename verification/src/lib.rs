pub mod app;
pub mod bluetooth;
pub mod events;
pub mod text;
pub mod ui;
