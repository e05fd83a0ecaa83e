pub mod account_info;
pub mod array;
pub mod boxed;
pub mod list;
