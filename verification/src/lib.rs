pub mod parsing;
pub mod records;
pub mod session;
