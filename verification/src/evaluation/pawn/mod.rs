pub mod connectivity;
pub mod isolated;
