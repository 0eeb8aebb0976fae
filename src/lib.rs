pub mod chunk;
pub mod compiler;
pub mod grammar;
pub mod host;
pub mod laws;
pub mod scanner;
pub mod text;
pub mod value;
pub mod vm;
