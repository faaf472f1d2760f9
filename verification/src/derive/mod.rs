//! The logic of `#[derive(Layered)]`: reading its options off a struct
//! definition, checking them, and writing the `Layered` impl.

pub mod model;
pub mod options;
pub mod expand;
pub mod syntax;
