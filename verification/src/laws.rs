//! What the operations of the library do, stated of their calls.
pub mod cells;
pub mod characters;
pub mod commands;
pub mod drawing;
pub mod frames;
pub mod glyphs;
pub mod reports;
pub mod runs;
