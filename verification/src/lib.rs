pub mod commands;
pub mod filter;
pub mod matcher;
pub mod output;
pub mod results;
pub mod walker;
