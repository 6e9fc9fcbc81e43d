//! A fermenting todo list: tasks age through lifecycle bands, and everything
//! the program decides about them is computed here.

pub mod actions;
pub mod app;
pub mod boards;
pub mod cli;
pub mod command_laws;
pub mod config;
pub mod editing_laws;
pub mod encode;
pub mod file_laws;
pub mod guarantees;
pub mod input;
pub mod key_laws;
pub mod keys;
pub mod model;
pub mod order;
pub mod paths;
pub mod screen;
pub mod screen_laws;
pub mod setting_laws;
pub mod settings;
pub mod store;
pub mod task_laws;
pub mod text;
pub mod text_laws;
pub mod theme;
