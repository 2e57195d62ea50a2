pub mod graphics_state;
pub mod lexer;
pub mod number;
pub mod param_def;
pub mod param_set;
pub mod parser;
pub mod spectral;
pub mod token;
