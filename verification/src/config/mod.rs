pub mod settings;
pub mod env;
