pub mod entry;
pub mod table;
