pub mod browser;
pub mod cli;
pub mod gfx;
pub mod input;
pub mod output;
pub mod terminal;
pub mod ui;
pub mod utils;
