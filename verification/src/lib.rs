pub mod apply;
pub mod checker;
pub mod cli;
pub mod forge;
pub mod interactive;
pub mod output;
pub mod parser;
pub mod prefetch;
pub mod presentation;
pub mod rules;
pub mod strmap;
pub mod text;
pub mod utils;
