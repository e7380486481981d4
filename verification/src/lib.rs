pub mod ast;
pub mod tables;
pub mod text;
pub mod token;
pub mod error;
pub mod idverifier;
pub mod grammar;
pub mod module;
pub mod parser;
pub mod tile;
pub mod undo;
pub mod node;
pub mod semantics;
pub mod compile;
pub mod modes;
pub mod tools;
pub mod nodefx;
pub mod tracer;
