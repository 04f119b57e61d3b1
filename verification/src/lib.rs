pub mod actions;
pub mod clock;
pub mod github;
pub mod order;
pub mod plugin;
pub mod text;
pub mod types;
pub mod ui;
