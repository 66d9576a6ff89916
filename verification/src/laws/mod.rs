//! What the library promises, stated over inputs and results: laws that hold of every
//! input, each proved from what the functions' contracts speak of.

pub mod completion;
pub mod execution;
pub mod fetching;
pub mod json;
pub mod output;
pub mod pages;
pub mod paths;
pub mod text;
