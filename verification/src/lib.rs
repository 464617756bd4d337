use vstd::prelude::*;

pub mod api;
pub mod browser;
pub mod codec;
pub mod command;
pub mod error;
pub mod input;
pub mod layout;
pub mod model;
pub mod order;
pub mod paths;
pub mod prompt;
pub mod publish;
pub mod text;
pub mod token;
pub mod view;
