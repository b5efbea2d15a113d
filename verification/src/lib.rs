pub mod cli;
pub mod integrations;
pub mod json;
pub mod json_text;
pub mod model;
pub mod render;
pub mod resolver;
pub mod state;
