pub mod layout;
pub mod theme;
