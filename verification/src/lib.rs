pub mod assets;
pub mod balance;
pub mod builder;
pub mod content;
pub mod document;
pub mod markup;
pub mod state;
pub mod summary;
pub mod text;
pub mod transpiler;
